//! Display text of fixed-point figures and lists.

use vstd::prelude::*;
use vstd::string::StringExecFns;
use crate::num::{nat_text, int_text, push_u128, push_int, pow10};
use crate::text::push_char;

verus! {

/// `m / 10^6` rounded half away from zero to `d` decimals.
pub open spec fn round_to(m: int, d: nat) -> int {
    let q = pow10((6 - d) as nat) as int;
    if m >= 0 {
        (m + q / 2) / q
    } else {
        -(((-m) + q / 2) / q)
    }
}

/// The millionths `m` printed with `d` decimals (`{:.d}` on `m / 10^6`,
/// rounding half away from zero).
pub open spec fn fixed_text(m: int, d: nat) -> Seq<char> {
    let r = round_to(m, d);
    let a = if r < 0 { -r } else { r };
    let sign = if r < 0 { seq!['-'] } else { Seq::<char>::empty() };
    let p = pow10(d) as int;
    if d == 0 {
        sign + nat_text(a as nat)
    } else {
        sign + nat_text((a / p) as nat) + seq!['.'] + nat_text((p + a % p) as nat).skip(1)
    }
}

fn pow10_exec(k: u32) -> (r: u128)
    requires
        k <= 6,
    ensures
        r == pow10(k as nat),
        1 <= r <= 1_000_000,
{
    proof {
        reveal_with_fuel(pow10, 7);
    }
    if k == 0 {
        1
    } else if k == 1 {
        10
    } else if k == 2 {
        100
    } else if k == 3 {
        1000
    } else if k == 4 {
        10000
    } else if k == 5 {
        100000
    } else {
        1000000
    }
}

/// The decimal digits of `n`.
fn digits_vec(n: u128) -> (v: Vec<char>)
    ensures
        v@ == nat_text(n as nat),
    decreases n,
{
    if n < 10 {
        let mut v = Vec::new();
        v.push(digit_char_exec(n));
        assert(v@ =~= nat_text(n as nat));
        v
    } else {
        let mut v = digits_vec(n / 10);
        v.push(digit_char_exec(n % 10));
        v
    }
}

fn digit_char_exec(d: u128) -> (c: char)
    requires
        d < 10,
    ensures
        c == crate::num::digit_char(d as int),
{
    if d == 0 { '0' } else if d == 1 { '1' } else if d == 2 { '2' } else if d == 3 { '3' }
    else if d == 4 { '4' } else if d == 5 { '5' } else if d == 6 { '6' } else if d == 7 { '7' }
    else if d == 8 { '8' } else { '9' }
}

/// Appends `fixed_text(m, d)`.
pub fn push_fixed(s: &mut String, m: i128, d: u32)
    requires
        d <= 6,
        -0x100_0000_0000_0000_0000_0000_0000_0000 < m < 0x100_0000_0000_0000_0000_0000_0000_0000,
    ensures
        final(s)@ == old(s)@ + fixed_text(m as int, d as nat),
{
    let q = pow10_exec(6 - d) as i128;
    let r: i128 = if m >= 0 { (m + q / 2) / q } else { -(((-m) + q / 2) / q) };
    assert(r == round_to(m as int, d as nat));
    let a: u128 = if r < 0 { (-r) as u128 } else { r as u128 };
    let p = pow10_exec(d);
    if r < 0 {
        push_char(s, '-');
    }
    let ghost s1 = s@;
    if d == 0 {
        push_u128(s, a);
    } else {
        push_u128(s, a / p);
        push_char(s, '.');
        let ds = digits_vec(p + a % p);
        let ghost s2 = s@;
        let mut i: usize = 1;
        while i < ds.len()
            invariant
                1 <= i <= ds@.len() || ds@.len() == 0,
                s@ == s2 + ds@.subrange(1, i as int),
            decreases ds@.len() - i,
        {
            push_char(s, ds[i]);
            i += 1;
            assert(s@ =~= s2 + ds@.subrange(1, i as int));
        }
        assert(ds@.skip(1) =~= ds@.subrange(1, ds@.len() as int));
    }
    assert(s@ =~= old(s)@ + fixed_text(m as int, d as nat));
}

/// `{:?}` of a list of integers: `[1, 2, 3]`.
pub open spec fn int_list_text(v: Seq<i64>) -> Seq<char>
    decreases v.len(),
{
    seq!['['] + int_list_items(v) + seq![']']
}

pub open spec fn int_list_items(v: Seq<i64>) -> Seq<char>
    decreases v.len(),
{
    if v.len() == 0 {
        Seq::<char>::empty()
    } else if v.len() == 1 {
        int_text(v[0] as int)
    } else {
        int_list_items(v.drop_last()) + seq![',', ' '] + int_text(v.last() as int)
    }
}

/// Appends `int_list_text(v)`.
pub fn push_int_list(s: &mut String, v: &[i64])
    ensures
        final(s)@ == old(s)@ + int_list_text(v@),
{
    push_char(s, '[');
    let ghost base = s@;
    let mut i: usize = 0;
    while i < v.len()
        invariant
            i <= v@.len(),
            s@ == base + int_list_items(v@.take(i as int)),
        decreases v@.len() - i,
    {
        if i > 0 {
            push_char(s, ',');
            push_char(s, ' ');
        }
        push_int(s, v[i] as i128);
        i += 1;
        proof {
            let t = v@.take(i as int);
            assert(t.drop_last() =~= v@.take((i - 1) as int));
            if i == 1 {
                assert(int_list_items(t) == int_text(t[0] as int));
                assert(s@ =~= base + int_list_items(t));
            } else {
                assert(t.len() >= 2);
                assert(t.last() == v@[i - 1]);
                assert(int_list_items(t) == int_list_items(t.drop_last()) + seq![',', ' ']
                    + int_text(t.last() as int));
                assert(s@ =~= base + int_list_items(t));
            }
        }
    }
    assert(v@.take(v@.len() as int) =~= v@);
    push_char(s, ']');
    assert(s@ =~= old(s)@ + int_list_text(v@));
}

} // verus!
