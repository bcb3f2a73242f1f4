//! Several monitored JVMs at once: their connection state, the one shown
//! ("active"), and comparisons across them.

use vstd::prelude::*;
use vstd::string::StringExecFns;
use crate::clock::now_millis;
use crate::model::{JvmSnapshot, tdiv, tdiv_i128, usage_pct_spec};
use crate::text::str_eq;

verus! {

/// How to reach one monitored JVM.
#[derive(Debug, Clone)]
pub struct TargetConfig {
    pub id: String,
    pub name: String,
    pub actuator_url: Option<String>,
    pub jolokia_url: Option<String>,
    pub gc_log_path: Option<String>,
    /// Free-form labels ("production", "api-server", ...).
    pub tags: Vec<String>,
}

#[derive(Debug, Clone)]
pub enum ConnectionStatus {
    Connecting,
    Connected,
    /// With the reason.
    Disconnected(String),
    Error(String),
}

/// One monitored JVM and what was last seen of it.
#[derive(Debug, Clone)]
pub struct ManagedTarget {
    pub config: TargetConfig,
    pub status: ConnectionStatus,
    pub last_snapshot: Option<JvmSnapshot>,
    /// Milliseconds since the Unix epoch.
    pub last_update: Option<i64>,
    pub error_count: u64,
    pub snapshot_count: u64,
}

/// A target just configured, not yet heard from.
pub open spec fn fresh_target(config: TargetConfig) -> ManagedTarget {
    ManagedTarget {
        config,
        status: ConnectionStatus::Connecting,
        last_snapshot: None,
        last_update: None,
        error_count: 0,
        snapshot_count: 0,
    }
}

/// The target after a staleness check at `now` (ms): a connected target
/// not updated for more than 30 whole seconds is marked disconnected.
pub open spec fn is_stale(t: ManagedTarget, now: int) -> bool {
    match t.last_update {
        Some(last) => tdiv(now - last, 1000) > 30 && t.status is Connected,
        None => false,
    }
}

/// `ts1` is `ts0` after the staleness check at `now`: every target keeps
/// its settings and data, a stale one is marked disconnected and the others
/// keep their status.
pub open spec fn swept_at(ts0: Seq<ManagedTarget>, ts1: Seq<ManagedTarget>, now: int) -> bool {
    &&& ts1.len() == ts0.len()
    &&& forall|k: int|
        0 <= k < ts0.len() ==> {
            let t0 = #[trigger] ts0[k];
            let t1 = ts1[k];
            &&& t1.config == t0.config
            &&& t1.last_snapshot == t0.last_snapshot
            &&& t1.last_update == t0.last_update
            &&& t1.error_count == t0.error_count
            &&& t1.snapshot_count == t0.snapshot_count
            &&& (is_stale(t0, now) ==> t1.status is Disconnected
                && t1.status->Disconnected_0@ == "No data for 30s"@)
            &&& (!is_stale(t0, now) ==> t1.status == t0.status)
        }
}

impl ManagedTarget {
    pub fn new(config: TargetConfig) -> (r: Self)
        ensures
            r == fresh_target(config),
    {
        ManagedTarget {
            config,
            status: ConnectionStatus::Connecting,
            last_snapshot: None,
            last_update: None,
            error_count: 0,
            snapshot_count: 0,
        }
    }

    pub fn is_connected(&self) -> (r: bool)
        ensures
            r == self.status is Connected,
    {
        match self.status {
            ConnectionStatus::Connected => true,
            _ => false,
        }
    }

    /// Marks the target disconnected when it is connected but its last
    /// update is more than 30 seconds before `now` (ms since the epoch).
    pub fn check_staleness_at(&mut self, now: i64)
        ensures
            is_stale(*old(self), now as int) ==> final(self).status == ConnectionStatus::Disconnected(
                final(self).status->Disconnected_0,
            ) && final(self).status->Disconnected_0@ == "No data for 30s"@,
            !is_stale(*old(self), now as int) ==> final(self).status == old(self).status,
            final(self).config == old(self).config,
            final(self).last_snapshot == old(self).last_snapshot,
            final(self).last_update == old(self).last_update,
            final(self).error_count == old(self).error_count,
            final(self).snapshot_count == old(self).snapshot_count,
    {
        match self.last_update {
            Some(last) => {
                let age = tdiv_i128(now as i128 - last as i128, 1000);
                if age > 30 && self.is_connected() {
                    self.status = ConnectionStatus::Disconnected(String::from_str("No data for 30s"));
                }
            },
            None => {},
        }
    }

    /// Marks the target disconnected when it is connected but has not been
    /// updated for more than 30 seconds (by the wall clock).
    pub fn check_staleness(&mut self)
        ensures
            exists|now: int|
                {
                    &&& (is_stale(*old(self), now) ==> final(self).status is Disconnected
                        && final(self).status->Disconnected_0@ == "No data for 30s"@)
                    &&& (!is_stale(*old(self), now) ==> final(self).status == old(self).status)
                },
            final(self).config == old(self).config,
            final(self).last_snapshot == old(self).last_snapshot,
            final(self).last_update == old(self).last_update,
            final(self).error_count == old(self).error_count,
            final(self).snapshot_count == old(self).snapshot_count,
    {
        let now = now_millis();
        self.check_staleness_at(now);
        assert(is_stale(*old(self), now as int) ==> final(self).status is Disconnected);
    }
}

// ──────────────────────────── the manager ────────────────────────────

/// No two targets share an id.
pub open spec fn distinct_ids(ts: Seq<ManagedTarget>) -> bool {
    forall|i: int, j: int|
        0 <= i < j < ts.len() ==> (#[trigger] ts[i]).config.id@ != (#[trigger] ts[j]).config.id@
}

/// Where the target with id `id` stands.
pub open spec fn id_pos(ts: Seq<ManagedTarget>, id: Seq<char>) -> Option<int>
    decreases ts.len(),
{
    if ts.len() == 0 {
        None
    } else if ts.last().config.id@ == id {
        Some(ts.len() - 1)
    } else {
        id_pos(ts.drop_last(), id)
    }
}

pub proof fn lemma_id_pos(ts: Seq<ManagedTarget>, id: Seq<char>)
    ensures
        id_pos(ts, id) matches Some(k) ==> 0 <= k < ts.len() && ts[k].config.id@ == id,
        id_pos(ts, id) is None ==> forall|k: int|
            0 <= k < ts.len() ==> (#[trigger] ts[k]).config.id@ != id,
        distinct_ids(ts) ==> forall|k: int|
            0 <= k < ts.len() && (#[trigger] ts[k]).config.id@ == id ==> id_pos(ts, id) == Some(
                k,
            ),
    decreases ts.len(),
{
    if ts.len() > 0 {
        let f = ts.drop_last();
        lemma_id_pos(f, id);
        assert forall|k: int| 0 <= k < f.len() implies f[k] == #[trigger] ts[k] by {}
        if distinct_ids(ts) {
            assert(distinct_ids(f)) by {
                assert forall|i: int, j: int| 0 <= i < j < f.len() implies (#[trigger] f[i]).config.id@
                    != (#[trigger] f[j]).config.id@ by {
                    assert(ts[i] == f[i] && ts[j] == f[j]);
                }
            }
        }
    }
}

/// The manager's invariant: ids are distinct, there is an active target
/// exactly when there are targets, and the active one is among them.
pub open spec fn manager_ok(ts: Seq<ManagedTarget>, active: Option<Seq<char>>) -> bool {
    &&& distinct_ids(ts)
    &&& (active is None <==> ts.len() == 0)
    &&& (active matches Some(a) ==> id_pos(ts, a) is Some)
}

/// The id after `a` in display order, wrapping around to the first.
pub open spec fn next_id(ts: Seq<ManagedTarget>, a: Seq<char>) -> Seq<char> {
    match id_pos(ts, a) {
        Some(p) => ts[(p + 1) % (ts.len() as int)].config.id@,
        None => a,
    }
}

/// `next_id` applied `k` times.
pub open spec fn next_id_times(ts: Seq<ManagedTarget>, a: Seq<char>, k: nat) -> Seq<char>
    decreases k,
{
    if k == 0 {
        a
    } else {
        next_id(ts, next_id_times(ts, a, (k - 1) as nat))
    }
}

/// Cycling through the targets: after `k` steps from the target at `p`,
/// the active target is the one at `(p + k) mod n`; in particular `n`
/// steps lead back to where they started.
pub proof fn lemma_next_cycles(ts: Seq<ManagedTarget>, p: int, k: nat)
    requires
        distinct_ids(ts),
        0 <= p < ts.len(),
    ensures
        next_id_times(ts, ts[p].config.id@, k) == ts[(p + k) % (ts.len() as int)].config.id@,
        next_id_times(ts, ts[p].config.id@, ts.len()) == ts[p].config.id@,
{
    let n = ts.len() as int;
    lemma_next_cycles_steps(ts, p, k);
    lemma_next_cycles_steps(ts, p, ts.len());
    vstd::arithmetic::div_mod::lemma_mod_add_multiples_vanish(p, n);
    vstd::arithmetic::div_mod::lemma_small_mod(p as nat, n as nat);
}

proof fn lemma_next_cycles_steps(ts: Seq<ManagedTarget>, p: int, k: nat)
    requires
        distinct_ids(ts),
        0 <= p < ts.len(),
    ensures
        next_id_times(ts, ts[p].config.id@, k) == ts[(p + k) % (ts.len() as int)].config.id@,
    decreases k,
{
    let n = ts.len() as int;
    if k == 0 {
        vstd::arithmetic::div_mod::lemma_small_mod(p as nat, n as nat);
    } else {
        lemma_next_cycles_steps(ts, p, (k - 1) as nat);
        let q = (p + k - 1) % n;
        vstd::arithmetic::div_mod::lemma_mod_bound(p + k - 1, n);
        lemma_id_pos(ts, ts[q].config.id@);
        assert(id_pos(ts, ts[q].config.id@) == Some(q));
        vstd::arithmetic::div_mod::lemma_add_mod_noop_right(1, p + k - 1, n);
        assert((q + 1) % n == (p + k) % n);
    }
}

/// Heap usage (millionths of a percent) of each target that has reported
/// a snapshot with a defined maximum, in display order, with its name.
pub open spec fn heap_comparison(ts: Seq<ManagedTarget>) -> Seq<(Seq<char>, int)>
    decreases ts.len(),
{
    if ts.len() == 0 {
        Seq::empty()
    } else {
        let prev = heap_comparison(ts.drop_last());
        let t = ts.last();
        match t.last_snapshot {
            Some(s) => match usage_pct_spec(s.heap.used as int, s.heap.max as int) {
                Some(p) => prev.push((t.config.name@, p)),
                None => prev,
            },
            None => prev,
        }
    }
}

/// Process CPU (millionths of a percent) of each target that has reported
/// a snapshot, in display order, with its name.
pub open spec fn cpu_comparison(ts: Seq<ManagedTarget>) -> Seq<(Seq<char>, int)>
    decreases ts.len(),
{
    if ts.len() == 0 {
        Seq::empty()
    } else {
        let prev = cpu_comparison(ts.drop_last());
        let t = ts.last();
        match t.last_snapshot {
            Some(s) => prev.push((t.config.name@, s.cpu.process_cpu * 100)),
            None => prev,
        }
    }
}

/// Several monitored JVMs, in the order they were added, and the one shown.
pub struct TargetManager {
    targets: Vec<ManagedTarget>,
    active_id: Option<String>,
}

impl TargetManager {
    /// The targets in display (insertion) order.
    pub closed spec fn targets(&self) -> Seq<ManagedTarget> {
        self.targets@
    }

    /// The id of the active target.
    pub closed spec fn active_key(&self) -> Option<Seq<char>> {
        match self.active_id {
            Some(a) => Some(a@),
            None => None,
        }
    }

    pub open spec fn well_formed(&self) -> bool {
        manager_ok(self.targets(), self.active_key())
    }

    pub fn new() -> (r: Self)
        ensures
            r.well_formed(),
            r.targets() == Seq::<ManagedTarget>::empty(),
            r.active_key() is None,
    {
        TargetManager { targets: Vec::new(), active_id: None }
    }

    fn find(&self, id: &str) -> (r: Option<usize>)
        requires
            distinct_ids(self.targets()),
        ensures
            (match r {
                Some(k) => Some(k as int),
                None => None::<int>,
            }) == id_pos(self.targets(), id@),
    {
        let mut i: usize = 0;
        while i < self.targets.len()
            invariant
                i <= self.targets@.len(),
                distinct_ids(self.targets@),
                forall|k: int| 0 <= k < i ==> (#[trigger] self.targets@[k]).config.id@ != id@,
            decreases self.targets@.len() - i,
        {
            if str_eq(self.targets[i].config.id.as_str(), id) {
                proof {
                    lemma_id_pos(self.targets@, id@);
                    assert(self.targets@[i as int].config.id@ == id@);
                }
                return Some(i);
            }
            i += 1;
        }
        proof {
            lemma_id_pos(self.targets@, id@);
        }
        None
    }

    /// Adds a target (replacing one with the same id, in place); the first
    /// target added becomes the active one.
    pub fn add_target(&mut self, config: TargetConfig)
        requires
            old(self).well_formed(),
        ensures
            final(self).well_formed(),
            final(self).targets() == (match id_pos(old(self).targets(), config.id@) {
                Some(k) => old(self).targets().update(k, fresh_target(config)),
                None => old(self).targets().push(fresh_target(config)),
            }),
            final(self).active_key() == (if old(self).active_key() is None {
                Some(config.id@)
            } else {
                old(self).active_key()
            }),
    {
        let ghost old_ts = self.targets@;
        let ghost cid = config.id@;
        let id = config.id.clone();
        let pos = self.find(id.as_str());
        proof {
            lemma_id_pos(old_ts, cid);
        }
        match pos {
            Some(k) => {
                self.targets.set(k, ManagedTarget::new(config));
            },
            None => {
                self.targets.push(ManagedTarget::new(config));
            },
        }
        if self.active_id.is_none() {
            self.active_id = Some(id);
        }
        proof {
            let ts = self.targets@;
            assert forall|x: int| 0 <= x < old_ts.len() implies (#[trigger] ts[x]).config.id@
                == old_ts[x].config.id@ by {
                if pos is Some && x == pos->0 as int {
                    assert(ts[x].config.id@ == cid);
                } else {
                    assert(ts[x] == old_ts[x]);
                }
            }
            if pos is None {
                assert(ts[old_ts.len() as int].config.id@ == cid);
            }
            assert forall|i: int, j: int| 0 <= i < j < ts.len() implies (#[trigger] ts[i]).config.id@
                != (#[trigger] ts[j]).config.id@ by {
                if j < old_ts.len() {
                    assert(old_ts[i].config.id@ != old_ts[j].config.id@);
                } else {
                    assert(old_ts[i].config.id@ != cid);
                }
            }
            lemma_id_pos(ts, cid);
            if pos is Some {
                assert(ts[pos->0 as int].config.id@ == cid);
            } else {
                assert(ts[old_ts.len() as int].config.id@ == cid);
            }
            match self.active_key() {
                Some(a) => {
                    if a != cid {
                        lemma_id_pos(old_ts, a);
                        let m = id_pos(old_ts, a)->0;
                        assert(ts[m].config.id@ == a);
                        lemma_id_pos(ts, a);
                    }
                },
                None => {},
            }
        }
    }

    /// Removes the target with the given id; when it was the active one, the
    /// first remaining target becomes active.
    pub fn remove_target(&mut self, id: &str)
        requires
            old(self).well_formed(),
        ensures
            final(self).well_formed(),
            final(self).targets() == (match id_pos(old(self).targets(), id@) {
                Some(k) => old(self).targets().remove(k),
                None => old(self).targets(),
            }),
            final(self).active_key() == (if old(self).active_key() == Some(id@) {
                if final(self).targets().len() == 0 {
                    None
                } else {
                    Some(final(self).targets()[0].config.id@)
                }
            } else {
                old(self).active_key()
            }),
    {
        let ghost old_ts = self.targets@;
        proof {
            lemma_id_pos(old_ts, id@);
        }
        match self.find(id) {
            Some(k) => {
                self.targets.remove(k);
            },
            None => {},
        }
        let was_active = match &self.active_id {
            Some(a) => str_eq(a.as_str(), id),
            None => false,
        };
        if was_active {
            if self.targets.len() == 0 {
                self.active_id = None;
            } else {
                self.active_id = Some(self.targets[0].config.id.clone());
            }
        }
        proof {
            let ts = self.targets@;
            assert forall|i: int, j: int| 0 <= i < j < ts.len() implies (#[trigger] ts[i]).config.id@
                != (#[trigger] ts[j]).config.id@ by {
                match id_pos(old_ts, id@) {
                    Some(k) => {
                        let i0 = if i < k { i } else { i + 1 };
                        let j0 = if j < k { j } else { j + 1 };
                        assert(ts[i] == old_ts[i0] && ts[j] == old_ts[j0]);
                    },
                    None => {},
                }
            }
            lemma_id_pos(ts, id@);
            match self.active_key() {
                Some(a) => {
                    if ts.len() > 0 && a == ts[0].config.id@ {
                        lemma_id_pos(ts, a);
                    } else {
                        lemma_id_pos(old_ts, a);
                        let m = id_pos(old_ts, a)->0;
                        match id_pos(old_ts, id@) {
                            Some(k) => {
                                assert(m != k);
                                let m2 = if m < k { m } else { m - 1 };
                                assert(ts[m2] == old_ts[m]);
                            },
                            None => {
                                assert(ts[m] == old_ts[m]);
                            },
                        }
                        lemma_id_pos(ts, a);
                    }
                },
                None => {},
            }
        }
    }

    /// Makes the target with the given id active, if there is one.
    pub fn set_active(&mut self, id: &str)
        requires
            old(self).well_formed(),
        ensures
            final(self).well_formed(),
            final(self).targets() == old(self).targets(),
            final(self).active_key() == (if id_pos(old(self).targets(), id@) is Some {
                Some(id@)
            } else {
                old(self).active_key()
            }),
    {
        if self.find(id).is_some() {
            self.active_id = Some(String::from_str(id));
        }
    }

    /// Makes the next target (in display order, wrapping around) active.
    pub fn next_target(&mut self)
        requires
            old(self).well_formed(),
        ensures
            final(self).well_formed(),
            final(self).targets() == old(self).targets(),
            final(self).active_key() == (match old(self).active_key() {
                Some(a) => if old(self).targets().len() <= 1 {
                    Some(a)
                } else {
                    Some(next_id(old(self).targets(), a))
                },
                None => None,
            }),
    {
        if self.targets.len() <= 1 {
            return;
        }
        let pos = match &self.active_id {
            Some(a) => self.find(a.as_str()),
            None => None,
        };
        proof {
            lemma_id_pos(self.targets@, self.active_key()->0);
        }
        match pos {
            Some(p) => {
                let next = (p + 1) % self.targets.len();
                self.active_id = Some(self.targets[next].config.id.clone());
                proof {
                    lemma_id_pos(self.targets@, self.targets@[next as int].config.id@);
                }
            },
            None => {},
        }
    }

    /// The active target.
    pub fn active(&self) -> (r: Option<&ManagedTarget>)
        requires
            self.well_formed(),
        ensures
            match r {
                Some(t) => self.active_key() matches Some(a) && id_pos(self.targets(), a) matches Some(
                    k,
                ) && *t == self.targets()[k],
                None => self.active_key() is None,
            },
    {
        match &self.active_id {
            Some(a) => {
                proof {
                    lemma_id_pos(self.targets@, a@);
                }
                match self.find(a.as_str()) {
                    Some(k) => Some(&self.targets[k]),
                    None => None,
                }
            },
            None => None,
        }
    }

    pub fn active_id(&self) -> (r: Option<&str>)
        ensures
            match r {
                Some(s) => self.active_key() == Some(s@),
                None => self.active_key() is None,
            },
    {
        match &self.active_id {
            Some(a) => Some(a.as_str()),
            None => None,
        }
    }

    /// Records a snapshot received at `now` (ms since the epoch) for the
    /// target with the given id, if there is one: it becomes connected.
    pub fn update_snapshot_at(&mut self, id: &str, snap: JvmSnapshot, now: i64)
        requires
            old(self).well_formed(),
            forall|k: int|
                0 <= k < old(self).targets().len() && (#[trigger] old(self).targets()[k]).config.id@
                    == id@ ==> old(self).targets()[k].snapshot_count < u64::MAX,
        ensures
            final(self).well_formed(),
            final(self).active_key() == old(self).active_key(),
            final(self).targets() == (match id_pos(old(self).targets(), id@) {
                Some(k) => old(self).targets().update(
                    k,
                    ManagedTarget {
                        last_snapshot: Some(snap),
                        last_update: Some(now),
                        status: ConnectionStatus::Connected,
                        snapshot_count: (old(self).targets()[k].snapshot_count + 1) as u64,
                        ..old(self).targets()[k]
                    },
                ),
                None => old(self).targets(),
            }),
    {
        proof {
            lemma_id_pos(self.targets@, id@);
        }
        match self.find(id) {
            Some(k) => {
                let mut t = self.targets.remove(k);
                t.last_snapshot = Some(snap);
                t.last_update = Some(now);
                t.status = ConnectionStatus::Connected;
                t.snapshot_count = t.snapshot_count + 1;
                self.targets.insert(k, t);
                proof {
                    assert(self.targets@ =~= old(self).targets().update(k as int, self.targets@[k as int]));
                    self.lemma_same_ids(old(self).targets(), k as int);
                }
            },
            None => {},
        }
    }

    /// Records a snapshot for the target with the given id, stamped with
    /// the wall-clock time.
    pub fn update_snapshot(&mut self, id: &str, snap: JvmSnapshot)
        requires
            old(self).well_formed(),
            forall|k: int|
                0 <= k < old(self).targets().len() && (#[trigger] old(self).targets()[k]).config.id@
                    == id@ ==> old(self).targets()[k].snapshot_count < u64::MAX,
        ensures
            final(self).well_formed(),
            final(self).active_key() == old(self).active_key(),
            final(self).targets() == (match id_pos(old(self).targets(), id@) {
                Some(k) => old(self).targets().update(
                    k,
                    ManagedTarget {
                        last_snapshot: Some(snap),
                        last_update: final(self).targets()[k].last_update,
                        status: ConnectionStatus::Connected,
                        snapshot_count: (old(self).targets()[k].snapshot_count + 1) as u64,
                        ..old(self).targets()[k]
                    },
                ),
                None => old(self).targets(),
            }),
            id_pos(old(self).targets(), id@) matches Some(k) ==> final(self).targets()[k].last_update is Some,
    {
        proof {
            lemma_id_pos(self.targets@, id@);
        }
        let now = now_millis();
        self.update_snapshot_at(id, snap, now);
    }

    /// Records a failed collection for the target with the given id.
    pub fn record_error(&mut self, id: &str, error: String)
        requires
            old(self).well_formed(),
            forall|k: int|
                0 <= k < old(self).targets().len() && (#[trigger] old(self).targets()[k]).config.id@
                    == id@ ==> old(self).targets()[k].error_count < u64::MAX,
        ensures
            final(self).well_formed(),
            final(self).active_key() == old(self).active_key(),
            final(self).targets() == (match id_pos(old(self).targets(), id@) {
                Some(k) => old(self).targets().update(
                    k,
                    ManagedTarget {
                        status: ConnectionStatus::Error(error),
                        error_count: (old(self).targets()[k].error_count + 1) as u64,
                        ..old(self).targets()[k]
                    },
                ),
                None => old(self).targets(),
            }),
    {
        proof {
            lemma_id_pos(self.targets@, id@);
        }
        match self.find(id) {
            Some(k) => {
                let mut t = self.targets.remove(k);
                t.error_count = t.error_count + 1;
                t.status = ConnectionStatus::Error(error);
                self.targets.insert(k, t);
                proof {
                    assert(self.targets@ =~= old(self).targets().update(k as int, self.targets@[k as int]));
                    self.lemma_same_ids(old(self).targets(), k as int);
                }
            },
            None => {},
        }
    }

    /// Replacing a target by one with the same id keeps the invariant.
    proof fn lemma_same_ids(&self, before: Seq<ManagedTarget>, k: int)
        requires
            manager_ok(before, self.active_key()),
            0 <= k < before.len(),
            self.targets() == before.update(k, self.targets()[k]),
            self.targets()[k].config == before[k].config,
        ensures
            self.well_formed(),
    {
        let ts = self.targets();
        assert forall|i: int, j: int| 0 <= i < j < ts.len() implies (#[trigger] ts[i]).config.id@
            != (#[trigger] ts[j]).config.id@ by {
            assert(ts[i].config.id@ == before[i].config.id@);
            assert(ts[j].config.id@ == before[j].config.id@);
        }
        match self.active_key() {
            Some(a) => {
                lemma_id_pos(before, a);
                let m = id_pos(before, a)->0;
                assert(ts[m].config.id@ == a);
                lemma_id_pos(ts, a);
            },
            None => {},
        }
    }

    /// All targets in display order.
    pub fn all_targets(&self) -> (r: Vec<&ManagedTarget>)
        ensures
            r@.len() == self.targets().len(),
            forall|i: int| 0 <= i < r@.len() ==> *r@[i] == self.targets()[i],
    {
        let mut r: Vec<&ManagedTarget> = Vec::new();
        let mut i: usize = 0;
        while i < self.targets.len()
            invariant
                i <= self.targets@.len(),
                r@.len() == i,
                forall|k: int| 0 <= k < i ==> *r@[k] == self.targets@[k],
            decreases self.targets@.len() - i,
        {
            r.push(&self.targets[i]);
            i += 1;
        }
        r
    }

    pub fn count(&self) -> (r: usize)
        ensures
            r == self.targets().len(),
    {
        self.targets.len()
    }

    /// Heap usage of every target that has reported, in display order.
    pub fn compare_heap_usage(&self) -> (r: Vec<(&str, i128)>)
        ensures
            r@.map_values(|p: (&str, i128)| (p.0@, p.1 as int)) == heap_comparison(self.targets()),
    {
        let mut r: Vec<(&str, i128)> = Vec::new();
        let mut i: usize = 0;
        while i < self.targets.len()
            invariant
                i <= self.targets@.len(),
                r@.map_values(|p: (&str, i128)| (p.0@, p.1 as int)) == heap_comparison(
                    self.targets@.take(i as int),
                ),
            decreases self.targets@.len() - i,
        {
            let ghost before = r@;
            proof {
                assert(self.targets@.take(i + 1).drop_last() =~= self.targets@.take(i as int));
            }
            let t = &self.targets[i];
            match &t.last_snapshot {
                Some(s) => match s.heap.usage_pct() {
                    Some(p) => {
                        r.push((t.config.name.as_str(), p));
                        assert(r@.map_values(|p: (&str, i128)| (p.0@, p.1 as int)) =~= before.map_values(
                            |p: (&str, i128)| (p.0@, p.1 as int),
                        ).push((t.config.name@, p as int)));
                    },
                    None => {},
                },
                None => {},
            }
            i += 1;
        }
        assert(self.targets@.take(self.targets@.len() as int) =~= self.targets@);
        r
    }

    /// Process CPU of every target that has reported, in display order.
    pub fn compare_cpu_usage(&self) -> (r: Vec<(&str, i128)>)
        ensures
            r@.map_values(|p: (&str, i128)| (p.0@, p.1 as int)) == cpu_comparison(self.targets()),
    {
        let mut r: Vec<(&str, i128)> = Vec::new();
        let mut i: usize = 0;
        while i < self.targets.len()
            invariant
                i <= self.targets@.len(),
                r@.map_values(|p: (&str, i128)| (p.0@, p.1 as int)) == cpu_comparison(
                    self.targets@.take(i as int),
                ),
            decreases self.targets@.len() - i,
        {
            let ghost before = r@;
            proof {
                assert(self.targets@.take(i + 1).drop_last() =~= self.targets@.take(i as int));
            }
            let t = &self.targets[i];
            match &t.last_snapshot {
                Some(s) => {
                    let p = s.cpu.process_cpu_pct();
                    r.push((t.config.name.as_str(), p));
                    assert(r@.map_values(|p: (&str, i128)| (p.0@, p.1 as int)) =~= before.map_values(
                        |p: (&str, i128)| (p.0@, p.1 as int),
                    ).push((t.config.name@, p as int)));
                },
                None => {},
            }
            i += 1;
        }
        assert(self.targets@.take(self.targets@.len() as int) =~= self.targets@);
        r
    }

    /// Runs the staleness check on every target at `now` (ms since the
    /// epoch).
    pub fn check_all_staleness_at(&mut self, now: i64)
        requires
            old(self).well_formed(),
        ensures
            final(self).well_formed(),
            final(self).active_key() == old(self).active_key(),
            final(self).targets().len() == old(self).targets().len(),
            forall|k: int|
                0 <= k < old(self).targets().len() ==> {
                    let t0 = #[trigger] old(self).targets()[k];
                    let t1 = final(self).targets()[k];
                    &&& t1.config == t0.config
                    &&& t1.last_snapshot == t0.last_snapshot
                    &&& t1.last_update == t0.last_update
                    &&& t1.error_count == t0.error_count
                    &&& t1.snapshot_count == t0.snapshot_count
                    &&& (is_stale(t0, now as int) ==> t1.status is Disconnected
                        && t1.status->Disconnected_0@ == "No data for 30s"@)
                    &&& (!is_stale(t0, now as int) ==> t1.status == t0.status)
                },
    {
        let ghost old_ts = self.targets@;
        let mut i: usize = 0;
        while i < self.targets.len()
            invariant
                i <= self.targets@.len() == old_ts.len(),
                old_ts == old(self).targets@,
                self.active_id == old(self).active_id,
                manager_ok(old_ts, self.active_key()),
                forall|k: int|
                    i <= k < old_ts.len() ==> #[trigger] self.targets@[k] == old_ts[k],
                forall|k: int|
                    0 <= k < i ==> {
                        let t0 = #[trigger] old_ts[k];
                        let t1 = self.targets@[k];
                        &&& t1.config == t0.config
                        &&& t1.last_snapshot == t0.last_snapshot
                        &&& t1.last_update == t0.last_update
                        &&& t1.error_count == t0.error_count
                        &&& t1.snapshot_count == t0.snapshot_count
                        &&& (is_stale(t0, now as int) ==> t1.status is Disconnected
                            && t1.status->Disconnected_0@ == "No data for 30s"@)
                        &&& (!is_stale(t0, now as int) ==> t1.status == t0.status)
                    },
            decreases old_ts.len() - i,
        {
            let mut t = self.targets.remove(i);
            t.check_staleness_at(now);
            self.targets.insert(i, t);
            i += 1;
        }
        proof {
            let ts = self.targets@;
            assert forall|i: int, j: int| 0 <= i < j < ts.len() implies (#[trigger] ts[i]).config.id@
                != (#[trigger] ts[j]).config.id@ by {
                assert(ts[i].config == old_ts[i].config);
                assert(ts[j].config == old_ts[j].config);
            }
            match self.active_key() {
                Some(a) => {
                    lemma_id_pos(old_ts, a);
                    let m = id_pos(old_ts, a)->0;
                    assert(ts[m].config == old_ts[m].config);
                    lemma_id_pos(ts, a);
                },
                None => {},
            }
        }
    }

    /// Runs the staleness check on every target against the wall clock.
    pub fn check_all_staleness(&mut self)
        requires
            old(self).well_formed(),
        ensures
            final(self).well_formed(),
            final(self).active_key() == old(self).active_key(),
            final(self).targets().len() == old(self).targets().len(),
            exists|now: int| #[trigger] swept_at(old(self).targets(), final(self).targets(), now),
    {
        let now = now_millis();
        self.check_all_staleness_at(now);
        assert(swept_at(old(self).targets(), self.targets(), now as int));
    }
}

} // verus!
