//! Fixed-capacity ring buffer of timestamped values.
//!
//! Holds at most `capacity` entries; pushing onto a full buffer evicts the
//! oldest entry first.

use vstd::prelude::*;
use std::collections::VecDeque;
use std::time::Instant;
use vstd::std_specs::iter::IteratorSpec;

verus! {

#[verifier::external_type_specification]
#[verifier::external_body]
pub struct ExInstant(Instant);

/// `Instant::now()`.
#[verifier::external_body]
fn instant_now() -> Instant {
    Instant::now()
}

/// The last `cap` elements of `s` (all of them when there are fewer).
pub open spec fn keep_last<A>(s: Seq<A>, cap: nat) -> Seq<A> {
    if s.len() > cap {
        s.skip(s.len() - cap)
    } else {
        s
    }
}

/// A timestamped ring buffer of `T` values, oldest first.
pub struct TimeSeries<T> {
    buf: VecDeque<(Instant, T)>,
    capacity: usize,
}

impl<T> TimeSeries<T> {
    /// The stored entries, oldest first.
    pub closed spec fn entries(&self) -> Seq<(Instant, T)> {
        self.buf@
    }

    /// The capacity the buffer was made with.
    pub closed spec fn cap(&self) -> nat {
        self.capacity as nat
    }

    #[verifier::type_invariant]
    spec fn inv(&self) -> bool {
        0 < self.capacity && self.buf@.len() <= self.capacity
    }

    /// An empty buffer of the given capacity (which must be positive).
    pub fn new(capacity: usize) -> (r: Self)
        requires
            capacity > 0,
        ensures
            r.entries() == Seq::<(Instant, T)>::empty(),
            r.cap() == capacity,
    {
        TimeSeries { buf: VecDeque::with_capacity(capacity), capacity }
    }

    /// Push a value stamped with the current time.
    pub fn push(&mut self, value: T)
        ensures
            final(self).cap() == old(self).cap(),
            final(self).entries().len() > 0,
            final(self).entries().last().1 == value,
            final(self).entries() == keep_last(
                old(self).entries().push(final(self).entries().last()),
                old(self).cap(),
            ),
    {
        proof {
            use_type_invariant(&*self);
        }
        let now = instant_now();
        let ghost s = old(self).entries().push((now, value));
        self.push_at(now, value);
        proof {
            if s.len() > old(self).cap() {
                assert(s.skip(s.len() - old(self).cap()).last() == s.last());
            }
        }
    }

    /// Push a value with an explicit timestamp.
    pub fn push_at(&mut self, at: Instant, value: T)
        ensures
            final(self).cap() == old(self).cap(),
            final(self).entries() == keep_last(old(self).entries().push((at, value)), old(self).cap()),
            final(self).entries().len() <= final(self).cap(),
    {
        proof {
            use_type_invariant(&*self);
        }
        let ghost old_s = self.buf@;
        let mut b: VecDeque<(Instant, T)> = VecDeque::new();
        std::mem::swap(&mut b, &mut self.buf);
        if b.len() >= self.capacity {
            b.pop_front();
        }
        b.push_back((at, value));
        proof {
            let s = old_s.push((at, value));
            if s.len() > self.capacity {
                assert(b@ =~= s.skip(s.len() - self.capacity));
            }
        }
        self.buf = b;
    }

    /// Number of entries stored.
    pub fn len(&self) -> (r: usize)
        ensures
            r == self.entries().len(),
            r <= self.cap(),
    {
        proof {
            use_type_invariant(self);
        }
        self.buf.len()
    }

    pub fn is_empty(&self) -> (r: bool)
        ensures
            r == (self.entries().len() == 0),
    {
        self.buf.len() == 0
    }

    pub fn capacity(&self) -> (r: usize)
        ensures
            r == self.cap(),
            r > 0,
    {
        proof {
            use_type_invariant(self);
        }
        self.capacity
    }

    /// The most recent entry.
    pub fn latest(&self) -> (r: Option<&(Instant, T)>)
        ensures
            r matches Some(e) ==> self.entries().len() > 0 && *e == self.entries().last(),
            r is None <==> self.entries().len() == 0,
    {
        let n = self.buf.len();
        if n == 0 {
            None
        } else {
            Some(&self.buf[n - 1])
        }
    }

    /// The oldest entry.
    pub fn oldest(&self) -> (r: Option<&(Instant, T)>)
        ensures
            r matches Some(e) ==> self.entries().len() > 0 && *e == self.entries()[0],
            r is None <==> self.entries().len() == 0,
    {
        if self.buf.len() == 0 {
            None
        } else {
            Some(&self.buf[0])
        }
    }

    /// All entries, oldest first.
    pub fn iter(&self) -> (r: std::collections::vec_deque::Iter<'_, (Instant, T)>)
        ensures
            r.remaining().len() == self.entries().len(),
            forall|i: int| 0 <= i < self.entries().len() ==> *r.remaining()[i] == self.entries()[i],
    {
        self.buf.iter()
    }

    /// The last `n` values (without timestamps), oldest first.
    pub fn last_n_values(&self, n: usize) -> (r: Vec<&T>)
        ensures
            r@.len() == if self.entries().len() > n { n as int } else { self.entries().len() as int },
            forall|i: int|
                0 <= i < r@.len() ==> *r@[i] == self.entries()[self.entries().len() - r@.len()
                    + i].1,
    {
        let len = self.buf.len();
        let skip = if len > n { len - n } else { 0 };
        let mut r: Vec<&T> = Vec::new();
        let mut i = skip;
        while i < len
            invariant
                skip <= i <= len,
                len == self.entries().len(),
                r@.len() == i - skip,
                forall|k: int| 0 <= k < r@.len() ==> *r@[k] == self.entries()[skip + k].1,
            decreases len - i,
        {
            r.push(&self.buf[i].1);
            i += 1;
        }
        r
    }

    /// Remove every entry.
    pub fn clear(&mut self)
        ensures
            final(self).cap() == old(self).cap(),
            final(self).entries() == Seq::<(Instant, T)>::empty(),
    {
        proof {
            use_type_invariant(&*self);
        }
        self.buf = VecDeque::new();
    }
}

} // verus!
