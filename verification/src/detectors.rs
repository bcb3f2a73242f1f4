//! The built-in anomaly detectors.
//!
//! Every threshold of the detectors is a comparison of exact rationals; it
//! is written here as the equivalent comparison of integer products.

use vstd::prelude::*;
use vstd::string::StringExecFns;
use crate::anomaly::{Alert, AlertView, EvidenceTab, Severity};
use crate::clock::now_millis;
use crate::fmt::{fixed_text, int_list_text, push_fixed, push_int_list};
use crate::model::{
    GcCollectorStats, JvmSnapshot, DeadlockInfo, HikariMetrics, tdiv, mib_micros, tdiv_i128,
};
use crate::num::{int_text, push_int};
use crate::text::{contains, lowercase, str_contains, to_lower};

verus! {

pub open spec fn fits_i64(x: int) -> bool {
    i64::MIN <= x <= i64::MAX
}

/// The sum of a sequence of integers.
pub open spec fn seq_sum(xs: Seq<int>) -> int
    decreases xs.len(),
{
    if xs.len() == 0 {
        0
    } else {
        seq_sum(xs.drop_last()) + xs.last()
    }
}

/// Every running total of `xs` fits in an `i64` (`Iterator::sum` on `i64`
/// does not overflow).
pub open spec fn sums_fit(xs: Seq<int>) -> bool {
    forall|k: int| 0 <= k <= xs.len() ==> fits_i64(#[trigger] seq_sum(xs.take(k)))
}

pub open spec fn gc_times(cs: Seq<GcCollectorStats>) -> Seq<int> {
    cs.map_values(|c: GcCollectorStats| c.collection_time_ms as int)
}

/// The collector's lower-cased name mentions "old" or "full".
pub open spec fn is_full_collector(c: GcCollectorStats) -> bool {
    contains(lowercase(c.name@), "old"@) || contains(lowercase(c.name@), "full"@)
}

pub open spec fn full_gc_counts(cs: Seq<GcCollectorStats>) -> Seq<int>
    decreases cs.len(),
{
    if cs.len() == 0 {
        Seq::<int>::empty()
    } else if is_full_collector(cs.last()) {
        full_gc_counts(cs.drop_last()).push(cs.last().collection_count as int)
    } else {
        full_gc_counts(cs.drop_last())
    }
}

pub open spec fn alert_view(
    id: Seq<char>,
    severity: Severity,
    title: Seq<char>,
    detail: Seq<char>,
    tab: EvidenceTab,
    confidence: int,
) -> AlertView {
    AlertView {
        id,
        severity,
        title,
        detail,
        evidence_tab: tab,
        suppressed_until: None,
        confidence: confidence as i64,
    }
}

fn make_alert(
    id: &str,
    severity: Severity,
    title: String,
    detail: String,
    tab: EvidenceTab,
    confidence: i64,
) -> (a: Alert)
    ensures
        a@ == alert_view(id@, severity, title@, detail@, tab, confidence as int),
{
    Alert {
        id: String::from_str(id),
        severity,
        title,
        detail,
        evidence_tab: tab,
        first_seen: now_millis(),
        suppressed_until: None,
        confidence,
    }
}

pub(crate) fn sum_gc_time(cs: &[GcCollectorStats]) -> (r: i128)
    requires
        sums_fit(gc_times(cs@)),
    ensures
        r == seq_sum(gc_times(cs@)),
        fits_i64(r as int),
{
    let ghost xs = gc_times(cs@);
    let mut acc: i128 = 0;
    let mut i: usize = 0;
    while i < cs.len()
        invariant
            i <= cs@.len(),
            xs == gc_times(cs@),
            sums_fit(xs),
            acc == seq_sum(xs.take(i as int)),
        decreases cs@.len() - i,
    {
        proof {
            assert(xs.take(i + 1).drop_last() =~= xs.take(i as int));
            assert(fits_i64(seq_sum(xs.take(i as int))));
            assert(fits_i64(seq_sum(xs.take(i + 1))));
        }
        acc = acc + cs[i].collection_time_ms as i128;
        i += 1;
    }
    assert(xs.take(xs.len() as int) =~= xs);
    acc
}

pub(crate) fn is_full_collector_exec(c: &GcCollectorStats) -> (b: bool)
    ensures
        b == is_full_collector(*c),
{
    let l = to_lower(c.name.as_str());
    str_contains(l.as_str(), "old") || str_contains(l.as_str(), "full")
}

fn sum_full_gc(cs: &[GcCollectorStats]) -> (r: i128)
    requires
        sums_fit(full_gc_counts(cs@)),
    ensures
        r == seq_sum(full_gc_counts(cs@)),
        fits_i64(r as int),
{
    let mut acc: i128 = 0;
    let mut i: usize = 0;
    while i < cs.len()
        invariant
            i <= cs@.len(),
            sums_fit(full_gc_counts(cs@)),
            acc == seq_sum(full_gc_counts(cs@.take(i as int))),
            forall|k: int|
                0 <= k <= full_gc_counts(cs@.take(i as int)).len() ==> full_gc_counts(
                    cs@.take(i as int),
                ).take(k) == #[trigger] full_gc_counts(cs@).take(k),
            full_gc_counts(cs@.take(i as int)).len() <= full_gc_counts(cs@).len(),
        decreases cs@.len() - i,
    {
        proof {
            assert(cs@.take(i + 1).drop_last() =~= cs@.take(i as int));
            lemma_full_gc_counts_prefix(cs@, i + 1);
        }
        if is_full_collector_exec(&cs[i]) {
            proof {
                let f = full_gc_counts(cs@.take(i + 1));
                let n = f.len() as int;
                assert(f.drop_last() == full_gc_counts(cs@.take(i as int)));
                assert(f.take(n) =~= f);
                assert(f.take(n - 1) =~= f.drop_last());
                assert(fits_i64(seq_sum(full_gc_counts(cs@).take(n))));
            }
            acc = acc + cs[i].collection_count as i128;
        }
        i += 1;
    }
    assert(cs@.take(cs@.len() as int) =~= cs@);
    proof {
        let f = full_gc_counts(cs@);
        assert(f.take(f.len() as int) =~= f);
    }
    acc
}

proof fn lemma_full_gc_counts_prefix(cs: Seq<GcCollectorStats>, j: int)
    requires
        0 <= j <= cs.len(),
    ensures
        full_gc_counts(cs.take(j)).len() <= full_gc_counts(cs).len(),
        forall|k: int|
            0 <= k <= full_gc_counts(cs.take(j)).len() ==> full_gc_counts(cs.take(j)).take(k)
                == #[trigger] full_gc_counts(cs).take(k),
    decreases cs.len(),
{
    if j == cs.len() {
        assert(cs.take(j) =~= cs);
    } else {
        assert(cs.drop_last().take(j) =~= cs.take(j));
        lemma_full_gc_counts_prefix(cs.drop_last(), j);
        let f = full_gc_counts(cs);
        let g = full_gc_counts(cs.drop_last());
        assert forall|k: int| 0 <= k <= g.len() implies g.take(k) == #[trigger] f.take(k) by {
            if is_full_collector(cs.last()) {
                assert(f == g.push(cs.last().collection_count as int));
                assert(g.take(k) =~= f.take(k));
            }
        }
    }
}

// ─────────────────────────── GC pressure ───────────────────────────

/// What the GC pressure detector needs to compute without overflow: the
/// totals it takes fit in an `i64`, as the `i64` arithmetic it does.
pub open spec fn gc_pressure_fits(current: JvmSnapshot, history: Seq<JvmSnapshot>) -> bool {
    &&& sums_fit(full_gc_counts(current.gc_collectors@))
    &&& history.len() >= 2 ==> {
        let first = history[0];
        &&& sums_fit(gc_times(current.gc_collectors@))
        &&& sums_fit(gc_times(first.gc_collectors@))
        &&& fits_i64(
            seq_sum(gc_times(current.gc_collectors@)) - seq_sum(gc_times(first.gc_collectors@)),
        )
        &&& fits_i64(current.jvm_info.uptime_ms - first.jvm_info.uptime_ms)
    }
}

pub open spec fn gc_throughput_alerts(current: JvmSnapshot, history: Seq<JvmSnapshot>) -> Seq<
    AlertView,
> {
    if history.len() >= 2 {
        let first = history[0];
        let g = seq_sum(gc_times(current.gc_collectors@)) - seq_sum(
            gc_times(first.gc_collectors@),
        );
        let u = current.jvm_info.uptime_ms - first.jvm_info.uptime_ms;
        if u > 0 && 20 * g > u {
            let severity = if 20 * g > 3 * u {
                Severity::Critical
            } else if 10 * g > u {
                Severity::High
            } else {
                Severity::Warn
            };
            let tp = tdiv((u - g) * 100_000_000, u);
            seq![
                alert_view(
                    "gc_throughput_low"@,
                    severity,
                    "GC throughput below target"@,
                    "GC throughput: "@ + fixed_text(tp, 1) + "% (target: >95%). GC consumed "@
                        + int_text(g) + "ms in "@ + int_text(u) + "ms window"@,
                    EvidenceTab::Memory,
                    900_000,
                ),
            ]
        } else {
            Seq::<AlertView>::empty()
        }
    } else {
        Seq::<AlertView>::empty()
    }
}

pub open spec fn full_gc_alerts(current: JvmSnapshot) -> Seq<AlertView> {
    let n = seq_sum(full_gc_counts(current.gc_collectors@));
    let up = current.jvm_info.uptime_ms as int;
    if n > 0 && up > 60000 && n * 60000 > up {
        seq![
            alert_view(
                "full_gc_frequent"@,
                Severity::High,
                "Frequent Full GC detected"@,
                fixed_text(tdiv(n * 60_000_000_000, up), 1) + " Full GCs per minute ("@
                    + int_text(n) + " total)"@,
                EvidenceTab::Memory,
                950_000,
            ),
        ]
    } else {
        Seq::<AlertView>::empty()
    }
}

pub open spec fn gc_pressure_alerts(current: JvmSnapshot, history: Seq<JvmSnapshot>) -> Seq<
    AlertView,
> {
    gc_throughput_alerts(current, history) + full_gc_alerts(current)
}

/// Flags low GC throughput over the history window and frequent full GCs.
pub struct GcPressureDetector;

impl GcPressureDetector {
    pub fn name(&self) -> (r: &'static str)
        ensures
            r@ == "gc_pressure"@,
    {
        "gc_pressure"
    }

    pub fn evaluate(&self, current: &JvmSnapshot, history: &[JvmSnapshot]) -> (r: Vec<Alert>)
        requires
            gc_pressure_fits(*current, history@),
        ensures
            crate::anomaly::alert_views(r@) == gc_pressure_alerts(*current, history@),
    {
        let mut alerts: Vec<Alert> = Vec::new();
        if history.len() >= 2 {
            let first = &history[0];
            let g = sum_gc_time(&current.gc_collectors) - sum_gc_time(&first.gc_collectors);
            let u = current.jvm_info.uptime_ms as i128 - first.jvm_info.uptime_ms as i128;
            if u > 0 && 20 * g > u {
                let severity = if 20 * g > 3 * u {
                    Severity::Critical
                } else if 10 * g > u {
                    Severity::High
                } else {
                    Severity::Warn
                };
                let tp = tdiv_i128((u - g) * 100_000_000, u);
                proof {
                    crate::model::lemma_tdiv_bound((u - g) * 100_000_000, u as int);
                }
                let mut detail = String::from_str("GC throughput: ");
                push_fixed(&mut detail, tp, 1);
                detail.append("% (target: >95%). GC consumed ");
                push_int(&mut detail, g);
                detail.append("ms in ");
                push_int(&mut detail, u);
                detail.append("ms window");
                let a = make_alert(
                    "gc_throughput_low",
                    severity,
                    String::from_str("GC throughput below target"),
                    detail,
                    EvidenceTab::Memory,
                    900_000,
                );
                alerts.push(a);
            }
        }
        let n = sum_full_gc(&current.gc_collectors);
        let up = current.jvm_info.uptime_ms as i128;
        if n > 0 && up > 60000 && n * 60000 > up {
            let per_min = tdiv_i128(n * 60_000_000_000, up);
            proof {
                crate::model::lemma_tdiv_bound(n * 60_000_000_000, up as int);
            }
            let mut detail = String::new();
            push_fixed(&mut detail, per_min, 1);
            detail.append(" Full GCs per minute (");
            push_int(&mut detail, n);
            detail.append(" total)");
            let a = make_alert(
                "full_gc_frequent",
                Severity::High,
                String::from_str("Frequent Full GC detected"),
                detail,
                EvidenceTab::Memory,
                950_000,
            );
            alerts.push(a);
        }
        proof {
            assert(crate::anomaly::alert_views(alerts@) =~= gc_pressure_alerts(*current, history@));
        }
        alerts
    }
}

// ─────────────────────────── Deadlocks ───────────────────────────

/// All deadlocked thread ids, cycle by cycle.
pub open spec fn deadlock_ids(ds: Seq<DeadlockInfo>) -> Seq<i64>
    decreases ds.len(),
{
    if ds.len() == 0 {
        Seq::<i64>::empty()
    } else {
        deadlock_ids(ds.drop_last()) + ds.last().thread_ids@
    }
}

pub open spec fn deadlock_alerts(current: JvmSnapshot) -> Seq<AlertView> {
    let ids = deadlock_ids(current.deadlocks@);
    if current.deadlocks@.len() == 0 {
        Seq::<AlertView>::empty()
    } else {
        seq![
            alert_view(
                "deadlock_detected"@,
                Severity::Critical,
                "Thread deadlock detected ("@ + int_text(ids.len() as int) + " threads)"@,
                "Deadlocked thread IDs: "@ + int_list_text(ids),
                EvidenceTab::Threads,
                1_000_000,
            ),
        ]
    }
}

/// Reports the deadlock cycles found by the JVM.
pub struct DeadlockDetector;

impl DeadlockDetector {
    pub fn name(&self) -> (r: &'static str)
        ensures
            r@ == "deadlock"@,
    {
        "deadlock"
    }

    pub fn evaluate(&self, current: &JvmSnapshot, history: &[JvmSnapshot]) -> (r: Vec<Alert>)
        ensures
            crate::anomaly::alert_views(r@) == deadlock_alerts(*current),
    {
        let mut alerts: Vec<Alert> = Vec::new();
        if current.deadlocks.len() == 0 {
            assert(crate::anomaly::alert_views(alerts@) =~= deadlock_alerts(*current));
            return alerts;
        }
        let mut ids: Vec<i64> = Vec::new();
        let mut i: usize = 0;
        while i < current.deadlocks.len()
            invariant
                i <= current.deadlocks@.len(),
                ids@ == deadlock_ids(current.deadlocks@.take(i as int)),
            decreases current.deadlocks@.len() - i,
        {
            let t = &current.deadlocks[i].thread_ids;
            let mut j: usize = 0;
            let ghost base = ids@;
            while j < t.len()
                invariant
                    j <= t@.len(),
                    ids@ == base + t@.take(j as int),
                decreases t@.len() - j,
            {
                ids.push(t[j]);
                j += 1;
                assert(ids@ =~= base + t@.take(j as int));
            }
            proof {
                assert(t@.take(t@.len() as int) =~= t@);
                assert(current.deadlocks@.take(i + 1).drop_last() =~= current.deadlocks@.take(
                    i as int,
                ));
            }
            i += 1;
        }
        assert(current.deadlocks@.take(current.deadlocks@.len() as int) =~= current.deadlocks@);
        let mut title = String::from_str("Thread deadlock detected (");
        push_int(&mut title, ids.len() as i128);
        title.append(" threads)");
        let mut detail = String::from_str("Deadlocked thread IDs: ");
        push_int_list(&mut detail, &ids);
        alerts.push(
            make_alert(
                "deadlock_detected",
                Severity::Critical,
                title,
                detail,
                EvidenceTab::Threads,
                1_000_000,
            ),
        );
        assert(crate::anomaly::alert_views(alerts@) =~= deadlock_alerts(*current));
        alerts
    }
}

// ─────────────────────── Connection pool exhaustion ───────────────────────

/// The last `min(5, len)` snapshots all report waiting connection requests.
pub open spec fn pending_sustained(history: Seq<JvmSnapshot>) -> bool {
    forall|i: int|
        history.len() - 5 <= i < history.len() && 0 <= i ==> has_pending(#[trigger] history[i])
}

/// The snapshot reports waiting connection requests.
pub open spec fn has_pending(s: JvmSnapshot) -> bool {
    match s.hikari {
        Some(h) => h.pending > 0,
        None => false,
    }
}

pub open spec fn pool_alerts(current: JvmSnapshot, history: Seq<JvmSnapshot>) -> Seq<AlertView> {
    match current.hikari {
        None => Seq::<AlertView>::empty(),
        Some(h) => {
            let first = if h.active >= h.max && h.pending > 0 {
                seq![
                    alert_view(
                        "hikari_saturated"@,
                        Severity::High,
                        "HikariCP pool saturated"@,
                        "Active="@ + int_text(h.active as int) + "/"@ + int_text(h.max as int)
                            + ", Pending="@ + int_text(h.pending as int) + ", Timeouts="@
                            + int_text(h.timeout_count as int),
                        EvidenceTab::Db,
                        950_000,
                    ),
                ]
            } else if h.pending > 0 && pending_sustained(history) {
                seq![
                    alert_view(
                        "hikari_pending_sustained"@,
                        Severity::Warn,
                        "Sustained pending connection requests"@,
                        "Active="@ + int_text(h.active as int) + "/"@ + int_text(h.max as int)
                            + ", Pending="@ + int_text(h.pending as int),
                        EvidenceTab::Db,
                        800_000,
                    ),
                ]
            } else {
                Seq::<AlertView>::empty()
            };
            let prev: int = if history.len() > 0 && history.last().hikari is Some {
                history.last().hikari.unwrap().timeout_count as int
            } else {
                0
            };
            let second = if h.timeout_count > 0 && h.timeout_count > prev {
                seq![
                    alert_view(
                        "hikari_timeout"@,
                        Severity::Critical,
                        "Connection pool timeout detected"@,
                        "Timeout count increased: "@ + int_text(prev) + " → "@ + int_text(
                            h.timeout_count as int,
                        ),
                        EvidenceTab::Db,
                        1_000_000,
                    ),
                ]
            } else {
                Seq::<AlertView>::empty()
            };
            first + second
        },
    }
}

/// Flags a saturated HikariCP pool, sustained waiting, and new timeouts.
pub struct PoolExhaustionDetector;

impl PoolExhaustionDetector {
    pub fn name(&self) -> (r: &'static str)
        ensures
            r@ == "pool_exhaustion"@,
    {
        "pool_exhaustion"
    }

    pub fn evaluate(&self, current: &JvmSnapshot, history: &[JvmSnapshot]) -> (r: Vec<Alert>)
        ensures
            crate::anomaly::alert_views(r@) == pool_alerts(*current, history@),
    {
        let mut alerts: Vec<Alert> = Vec::new();
        match &current.hikari {
            None => {
                assert(crate::anomaly::alert_views(alerts@) =~= pool_alerts(*current, history@));
                alerts
            },
            Some(h) => {
                if h.is_saturated() {
                    let mut d = String::from_str("Active=");
                    push_int(&mut d, h.active as i128);
                    d.append("/");
                    push_int(&mut d, h.max as i128);
                    d.append(", Pending=");
                    push_int(&mut d, h.pending as i128);
                    d.append(", Timeouts=");
                    push_int(&mut d, h.timeout_count as i128);
                    alerts.push(
                        make_alert(
                            "hikari_saturated",
                            Severity::High,
                            String::from_str("HikariCP pool saturated"),
                            d,
                            EvidenceTab::Db,
                            950_000,
                        ),
                    );
                } else if h.pending > 0 {
                    let sustained = sustained_pending(history);
                    if sustained {
                        let mut d = String::from_str("Active=");
                        push_int(&mut d, h.active as i128);
                        d.append("/");
                        push_int(&mut d, h.max as i128);
                        d.append(", Pending=");
                        push_int(&mut d, h.pending as i128);
                        alerts.push(
                            make_alert(
                                "hikari_pending_sustained",
                                Severity::Warn,
                                String::from_str("Sustained pending connection requests"),
                                d,
                                EvidenceTab::Db,
                                800_000,
                            ),
                        );
                    }
                }
                let ghost a1 = alerts@;
                if h.timeout_count > 0 {
                    let prev: i64 = if history.len() > 0 {
                        match &history[history.len() - 1].hikari {
                            Some(p) => p.timeout_count,
                            None => 0,
                        }
                    } else {
                        0
                    };
                    if h.timeout_count > prev {
                        let mut d = String::from_str("Timeout count increased: ");
                        push_int(&mut d, prev as i128);
                        d.append(" → ");
                        push_int(&mut d, h.timeout_count as i128);
                        alerts.push(
                            make_alert(
                                "hikari_timeout",
                                Severity::Critical,
                                String::from_str("Connection pool timeout detected"),
                                d,
                                EvidenceTab::Db,
                                1_000_000,
                            ),
                        );
                    }
                }
                assert(crate::anomaly::alert_views(alerts@) =~= pool_alerts(*current, history@));
                alerts
            },
        }
    }
}

fn sustained_pending(history: &[JvmSnapshot]) -> (b: bool)
    ensures
        b == pending_sustained(history@),
{
    let n = history.len();
    let start = if n > 5 { n - 5 } else { 0 };
    let mut i = start;
    while i < n
        invariant
            start <= i <= n == history@.len(),
            start == (if n > 5 { n - 5 } else { 0 }),
            forall|k: int| start <= k < i ==> has_pending(#[trigger] history@[k]),
        decreases n - i,
    {
        match &history[i].hikari {
            Some(h) => {
                if h.pending <= 0 {
                    return false;
                }
            },
            None => {
                return false;
            },
        }
        i += 1;
    }
    true
}

// ─────────────────────────── High heap ───────────────────────────

pub open spec fn high_heap_alerts(current: JvmSnapshot) -> Seq<AlertView> {
    let used = current.heap.used as int;
    let max = current.heap.max as int;
    let detail = fixed_text(mib_micros(used), 0) + "M / "@ + fixed_text(mib_micros(max), 0)
        + "M used"@;
    let pct = tdiv(used * 100_000_000, max);
    if max > 0 && 10 * used > 9 * max {
        seq![
            alert_view(
                "heap_critical"@,
                Severity::Critical,
                "Heap usage critical: "@ + fixed_text(pct, 0) + "%"@,
                detail,
                EvidenceTab::Memory,
                1_000_000,
            ),
        ]
    } else if max > 0 && 5 * used > 4 * max {
        seq![
            alert_view(
                "heap_high"@,
                Severity::Warn,
                "Heap usage high: "@ + fixed_text(pct, 0) + "%"@,
                detail,
                EvidenceTab::Memory,
                1_000_000,
            ),
        ]
    } else {
        Seq::<AlertView>::empty()
    }
}

/// Flags heap usage above 80% (warning) and 90% (critical) of the maximum.
pub struct HighHeapDetector;

impl HighHeapDetector {
    pub fn name(&self) -> (r: &'static str)
        ensures
            r@ == "high_heap"@,
    {
        "high_heap"
    }

    pub fn evaluate(&self, current: &JvmSnapshot, history: &[JvmSnapshot]) -> (r: Vec<Alert>)
        ensures
            crate::anomaly::alert_views(r@) == high_heap_alerts(*current),
    {
        let mut alerts: Vec<Alert> = Vec::new();
        let used = current.heap.used as i128;
        let max = current.heap.max as i128;
        if max > 0 && (10 * used > 9 * max || 5 * used > 4 * max) {
            let pct = tdiv_i128(used * 100_000_000, max);
            proof {
                crate::model::lemma_tdiv_bound(used * 100_000_000, max as int);
                crate::model::lemma_tdiv_bound(used * 1_000_000, 1_048_576);
                crate::model::lemma_tdiv_bound(max * 1_000_000, 1_048_576);
            }
            let mut detail = String::new();
            push_fixed(&mut detail, current.heap.used_mb(), 0);
            detail.append("M / ");
            push_fixed(&mut detail, current.heap.max_mb(), 0);
            detail.append("M used");
            let critical = 10 * used > 9 * max;
            let mut title = if critical {
                String::from_str("Heap usage critical: ")
            } else {
                String::from_str("Heap usage high: ")
            };
            push_fixed(&mut title, pct, 0);
            title.append("%");
            let a = if critical {
                make_alert("heap_critical", Severity::Critical, title, detail, EvidenceTab::Memory, 1_000_000)
            } else {
                make_alert("heap_high", Severity::Warn, title, detail, EvidenceTab::Memory, 1_000_000)
            };
            alerts.push(a);
        }
        assert(crate::anomaly::alert_views(alerts@) =~= high_heap_alerts(*current));
        alerts
    }
}

// ─────────────────────────── Memory leak ───────────────────────────

/// The most recent (at most 30) snapshots of the history.
pub open spec fn leak_window(history: Seq<JvmSnapshot>) -> Seq<JvmSnapshot> {
    if history.len() > 30 {
        history.skip(history.len() - 30)
    } else {
        history
    }
}

/// The old-generation occupancy of each snapshot of a window.
pub open spec fn old_gen_seq(w: Seq<JvmSnapshot>) -> Seq<int> {
    w.map_values(|s: JvmSnapshot| crate::model::old_gen_used(s))
}

/// Σ i for i < n.
pub open spec fn sum_x(n: int) -> int
    decreases n,
{
    if n <= 0 {
        0
    } else {
        sum_x(n - 1) + (n - 1)
    }
}

/// Σ i² for i < n.
pub open spec fn sum_xx(n: int) -> int
    decreases n,
{
    if n <= 0 {
        0
    } else {
        sum_xx(n - 1) + (n - 1) * (n - 1)
    }
}

/// Σ i·y_i.
pub open spec fn sum_xy(ys: Seq<int>) -> int
    decreases ys.len(),
{
    if ys.len() == 0 {
        0
    } else {
        sum_xy(ys.drop_last()) + (ys.len() - 1) * ys.last()
    }
}

/// Σ y_i².
pub open spec fn sum_yy(ys: Seq<int>) -> int
    decreases ys.len(),
{
    if ys.len() == 0 {
        0
    } else {
        sum_yy(ys.drop_last()) + ys.last() * ys.last()
    }
}

/// `n · Σxy − Σx · Σy` for the least-squares fit of `y` against the sample index.
pub open spec fn leak_sxy(ys: Seq<int>) -> int {
    ys.len() * sum_xy(ys) - sum_x(ys.len() as int) * seq_sum(ys)
}

/// `n · Σx² − (Σx)²`.
pub open spec fn leak_sxx(n: int) -> int {
    n * sum_xx(n) - sum_x(n) * sum_x(n)
}

/// `n · Σy² − (Σy)²`.
pub open spec fn leak_syy(ys: Seq<int>) -> int {
    ys.len() * sum_yy(ys) - seq_sum(ys) * seq_sum(ys)
}

/// The bound within which the fit is computed exactly in 128-bit integers:
/// every old-generation figure of the window below 2^44 bytes (16 TiB) in
/// magnitude.
pub open spec fn leak_window_bounded(ys: Seq<int>) -> bool {
    forall|i: int| 0 <= i < ys.len() ==> -0x1000_0000_0000 < #[trigger] ys[i] < 0x1000_0000_0000
}

/// R² of the fit in millionths (`Sxy² / (Sxx · Syy)`), at most one whole.
pub open spec fn leak_r2_micros(ys: Seq<int>) -> int {
    let a = leak_sxy(ys) * leak_sxy(ys);
    let d = leak_sxx(ys.len() as int) * leak_syy(ys);
    if a >= d {
        1_000_000
    } else {
        a * 1_000_000 / d
    }
}

#[verifier::opaque]
pub open spec fn memory_leak_alerts(current: JvmSnapshot, history: Seq<JvmSnapshot>) -> Seq<
    AlertView,
> {
    let max = current.heap.max as int;
    let used = current.heap.used as int;
    let ys = old_gen_seq(leak_window(history));
    let n = ys.len() as int;
    let sxy = leak_sxy(ys);
    let sxx = leak_sxx(n);
    let syy = leak_syy(ys);
    if history.len() < 10 || max <= 0 || !leak_window_bounded(ys) {
        Seq::<AlertView>::empty()
    } else if syy > 0 && 10 * (sxy * sxy) > 7 * (sxx * syy) && 1000 * sxy > sxx * max && 5 * used
        > 3 * max {
        let severity = if 200 * sxy > sxx * max && 5 * used > 4 * max {
            Severity::Critical
        } else if 10 * used > 7 * max {
            Severity::High
        } else {
            Severity::Warn
        };
        let r2 = leak_r2_micros(ys);
        seq![
            alert_view(
                "mem_leak_detected"@,
                severity,
                "Possible memory leak detected"@,
                "Old gen trending upward at "@ + fixed_text(tdiv(sxy * 100_000_000, sxx * max), 1)
                    + "%/sample (R²="@ + fixed_text(r2, 2) + "), currently at "@ + fixed_text(
                    tdiv(used * 100_000_000, max),
                    0,
                ) + "% ("@ + fixed_text(mib_micros(used), 0) + "M/"@ + fixed_text(
                    mib_micros(max),
                    0,
                ) + "M)"@,
                EvidenceTab::Memory,
                r2,
            ),
        ]
    } else {
        Seq::<AlertView>::empty()
    }
}

proof fn lemma_sum_x_bound(n: int)
    requires
        0 <= n <= 30,
    ensures
        0 <= sum_x(n) <= n * 30,
        0 <= sum_xx(n) <= n * 900,
    decreases n,
{
    if n > 0 {
        lemma_sum_x_bound(n - 1);
        assert((n - 1) * (n - 1) <= 900) by (nonlinear_arith)
            requires
                1 <= n <= 30,
        ;
    }
}

proof fn lemma_sum_x_closed(n: int)
    requires
        n >= 0,
    ensures
        2 * sum_x(n) == n * (n - 1),
        6 * sum_xx(n) == (n - 1) * n * (2 * n - 1),
    decreases n,
{
    if n == 0 {
        assert(sum_x(0) == 0);
        assert(sum_xx(0) == 0);
    } else {
        let m = n - 1;
        lemma_sum_x_closed(m);
        let a = sum_x(m);
        let b = sum_xx(m);
        assert(sum_x(n) == a + m);
        assert(sum_xx(n) == b + m * m);
        assert(2 * (a + m) == n * (n - 1)) by (nonlinear_arith)
            requires
                2 * a == m * (m - 1),
                m == n - 1,
        ;
        assert(6 * (b + m * m) == (n - 1) * n * (2 * n - 1)) by (nonlinear_arith)
            requires
                6 * b == (m - 1) * m * (2 * m - 1),
                m == n - 1,
        ;
    }
}

/// Σy, Σi·y and Σy² over the window of the leak fit, or `None` when an
/// old-generation figure of the window is outside the bound of
/// [`leak_window_bounded`].
fn leak_sums(history: &[JvmSnapshot]) -> (r: Option<(i128, i128, i128)>)
    requires
        history@.len() >= 10,
    ensures
        ({
            let ys = old_gen_seq(leak_window(history@));
            let n = ys.len() as int;
            let b = 0x1000_0000_0000int;
            match r {
                None => !leak_window_bounded(ys),
                Some(t) => {
                    &&& leak_window_bounded(ys)
                    &&& t.0 == seq_sum(ys)
                    &&& t.1 == sum_xy(ys)
                    &&& t.2 == sum_yy(ys)
                    &&& -n * b <= t.0 <= n * b
                    &&& -n * 30 * b <= t.1 <= n * 30 * b
                    &&& 0 <= t.2 <= n * b * b
                },
            }
        }),
{
    let len = history.len();
    let start = if len > 30 {
        len - 30
    } else {
        0
    };
    let ghost w = leak_window(history@);
    let ghost ys = old_gen_seq(w);
    assert(w =~= history@.subrange(start as int, len as int));
    let bound: i128 = 0x1000_0000_0000;
    let mut sy: i128 = 0;
    let mut sxy: i128 = 0;
    let mut syy: i128 = 0;
    let mut i = start;
    while i < len
        invariant
            start <= i <= len == history@.len(),
            len >= 10,
            w == leak_window(history@),
            start == (if len > 30 {
                len - 30
            } else {
                0
            }),
            w == history@.subrange(start as int, len as int),
            ys == old_gen_seq(w),
            bound == 0x1000_0000_0000,
            leak_window_bounded(ys.take(i - start)),
            sy == seq_sum(ys.take(i - start)),
            sxy == sum_xy(ys.take(i - start)),
            syy == sum_yy(ys.take(i - start)),
            -(i - start) * bound <= sy <= (i - start) * bound,
            -(i - start) * 30 * bound <= sxy <= (i - start) * 30 * bound,
            0 <= syy <= (i - start) * bound * bound,
        decreases len - i,
    {
        let y = crate::model::old_gen_occupancy(&history[i]) as i128;
        let k = (i - start) as i128;
        assert(ys[k as int] == y);
        if y <= -bound || y >= bound {
            assert(!leak_window_bounded(ys));
            return None;
        }
        proof {
            assert(ys.take(k + 1).drop_last() =~= ys.take(k as int));
            assert(-30 * bound <= k * y <= 30 * bound) by (nonlinear_arith)
                requires
                    0 <= k < 30,
                    -bound < y < bound,
                    bound > 0,
            ;
            assert(0 <= y * y <= bound * bound) by (nonlinear_arith)
                requires
                    -bound < y < bound,
            ;
            assert(leak_window_bounded(ys.take(k + 1)));
        }
        sy = sy + y;
        sxy = sxy + k * y;
        syy = syy + y * y;
        i += 1;
    }
    assert(ys.take(len - start) =~= ys);
    Some((sy, sxy, syy))
}

/// One step of long division: the next decimal digit of `r / d`.
fn ratio_step(q: i128, r: i128, d: i128) -> (res: (i128, i128))
    requires
        0 <= q <= 100_000,
        0 <= r < d,
        d <= 0x100_0000_0000_0000_0000_0000_0000_0000,
    ensures
        res.0 * d + res.1 == 10 * (q * d + r),
        0 <= res.1 < d,
        0 <= res.0 <= 10 * q + 9,
{
    let t = 10 * r;
    let digit = t / d;
    let rem = t % d;
    proof {
        vstd::arithmetic::div_mod::lemma_fundamental_div_mod(t as int, d as int);
        assert(0 <= digit < 10) by (nonlinear_arith)
            requires
                t == d * digit + rem,
                0 <= rem < d,
                0 <= t < 10 * d,
        ;
        assert((10 * q + digit) * d + rem == 10 * (q * d + r)) by (nonlinear_arith)
            requires
                t == d * digit + rem,
                t == 10 * r,
        ;
    }
    (10 * q + digit, rem)
}

/// `a · 10⁶ / d` for `0 <= a < d`, by six steps of long division (the
/// product itself may not fit in 128 bits).
fn scaled_ratio(a: i128, d: i128) -> (q: i128)
    requires
        0 <= a < d,
        d <= 0x100_0000_0000_0000_0000_0000_0000_0000,
    ensures
        q as int == (a * 1_000_000) / (d as int),
        0 <= q < 1_000_000,
{
    let (q1, r1) = ratio_step(0, a, d);
    let (q2, r2) = ratio_step(q1, r1, d);
    let (q3, r3) = ratio_step(q2, r2, d);
    let (q4, r4) = ratio_step(q3, r3, d);
    let (q5, r5) = ratio_step(q4, r4, d);
    let (q6, r6) = ratio_step(q5, r5, d);
    proof {
        assert(q6 * d + r6 == a * 1_000_000);
        vstd::arithmetic::div_mod::lemma_fundamental_div_mod_converse(
            a * 1_000_000,
            d as int,
            q6 as int,
            r6 as int,
        );
        assert(q6 < 1_000_000) by (nonlinear_arith)
            requires
                q6 * d + r6 == a * 1_000_000,
                0 <= a < d,
                0 <= r6,
        ;
    }
    q6
}

/// Flags old-generation occupancy that climbs steadily (least-squares fit
/// over the last 30 samples with R² > 0.7 and slope above 0.1% of the heap's
/// max per sample) while the heap is above 60% full.
pub struct MemoryLeakDetector;

impl MemoryLeakDetector {
    pub fn name(&self) -> (r: &'static str)
        ensures
            r@ == "memory_leak"@,
    {
        "memory_leak"
    }

    pub fn evaluate(&self, current: &JvmSnapshot, history: &[JvmSnapshot]) -> (r: Vec<Alert>)
        ensures
            crate::anomaly::alert_views(r@) == memory_leak_alerts(*current, history@),
    {
        let mut alerts: Vec<Alert> = Vec::new();
        let max = current.heap.max as i128;
        let used = current.heap.used as i128;
        if history.len() < 10 || max <= 0 {
            proof {
                reveal(memory_leak_alerts);
            }
            assert(crate::anomaly::alert_views(alerts@) =~= memory_leak_alerts(*current, history@));
            return alerts;
        }
        let ghost ys = old_gen_seq(leak_window(history@));
        let (sy, sxy, syy) = match leak_sums(history) {
            None => {
                proof {
                    reveal(memory_leak_alerts);
                }
                assert(crate::anomaly::alert_views(alerts@) =~= memory_leak_alerts(
                    *current,
                    history@,
                ));
                return alerts;
            },
            Some(t) => t,
        };
        let n: i128 = if history.len() > 30 {
            30
        } else {
            history.len() as i128
        };
        assert(n == ys.len());
        let bound: i128 = 0x1000_0000_0000;
        proof {
            lemma_sum_x_bound(n as int);
            lemma_sum_x_closed(n as int);
            assert(0 <= n * (n - 1) <= 900) by (nonlinear_arith)
                requires
                    10 <= n <= 30,
            ;
            assert(0 <= (n - 1) * n * (2 * n - 1) <= 60000) by (nonlinear_arith)
                requires
                    10 <= n <= 30,
            ;
        }
        let sx: i128 = n * (n - 1) / 2;
        let sxx_raw: i128 = (n - 1) * n * (2 * n - 1) / 6;
        assert(sx == sum_x(n as int));
        assert(sxx_raw == sum_xx(n as int));
        proof {
            assert(0 <= n * sxx_raw <= 810_000) by (nonlinear_arith)
                requires
                    10 <= n <= 30,
                    0 <= sxx_raw <= n * 900,
            ;
            assert(0 <= sx * sx <= 810_000) by (nonlinear_arith)
                requires
                    0 <= sx <= 900,
            ;
            assert(0 <= n * syy <= 900 * bound * bound) by (nonlinear_arith)
                requires
                    10 <= n <= 30,
                    0 <= syy <= n * bound * bound,
                    bound > 0,
            ;
            assert(0 <= sy * sy <= 900 * bound * bound) by (nonlinear_arith)
                requires
                    10 <= n <= 30,
                    -n * bound <= sy <= n * bound,
                    bound > 0,
            ;
            assert(-27000 * bound <= n * sxy <= 27000 * bound) by (nonlinear_arith)
                requires
                    10 <= n <= 30,
                    -n * 30 * bound <= sxy <= n * 30 * bound,
                    bound > 0,
            ;
            assert(-13500 * bound <= sx * sy <= 13500 * bound) by (nonlinear_arith)
                requires
                    10 <= n <= 30,
                    0 <= sx <= 450,
                    -n * bound <= sy <= n * bound,
                    bound > 0,
            ;
        }
        let big_sxy = n * sxy - sx * sy;
        let big_sxx = n * sxx_raw - sx * sx;
        let big_syy = n * syy - sy * sy;
        proof {
            assert(12 * big_sxx == n * n * (n * n - 1)) by (nonlinear_arith)
                requires
                    2 * sx == n * (n - 1),
                    6 * sxx_raw == (n - 1) * n * (2 * n - 1),
                    big_sxx == n * sxx_raw - sx * sx,
            ;
            assert(825 <= big_sxx <= 67425) by (nonlinear_arith)
                requires
                    12 * big_sxx == n * n * (n * n - 1),
                    10 <= n <= 30,
            ;
            assert(-712_483_534_798_848_000 <= big_sxy <= 712_483_534_798_848_000);
            assert(0 <= big_sxy * big_sxy <= 712_483_534_798_848_000int * 712_483_534_798_848_000int)
                by (nonlinear_arith)
                requires
                    -712_483_534_798_848_000 <= big_sxy <= 712_483_534_798_848_000,
            ;
            assert(-67425 * (900 * bound * bound) <= big_sxx * big_syy <= 67425 * (900 * bound
                * bound)) by (nonlinear_arith)
                requires
                    0 < big_sxx <= 67425,
                    -900 * bound * bound <= big_syy <= 900 * bound * bound,
                    bound > 0,
            ;
            assert(900 * bound * bound == 900 * 0x100_0000_0000_0000_0000_0000int) by (
            nonlinear_arith)
                requires
                    bound == 0x1000_0000_0000,
            ;
            assert(67425 * (900 * bound * bound) <= 0x100_0000_0000_0000_0000_0000_0000_0000);
            assert(0 < big_sxx * max <= 67425 * max) by (nonlinear_arith)
                requires
                    0 < big_sxx <= 67425,
                    max > 0,
            ;
            assert(big_sxy == leak_sxy(ys));
            assert(big_sxx == leak_sxx(n as int));
            assert(big_syy == leak_syy(ys));
        }
        let a = big_sxy * big_sxy;
        let d = big_sxx * big_syy;
        let slope_scaled = big_sxx * max;
        if big_syy > 0 && 10 * a > 7 * d && 1000 * big_sxy > slope_scaled && 5 * used > 3 * max {
            proof {
                assert(d > 0) by (nonlinear_arith)
                    requires
                        d == big_sxx * big_syy,
                        big_sxx > 0,
                        big_syy > 0,
                ;
            }
            let r2: i128 = if a >= d {
                1_000_000
            } else {
                scaled_ratio(a, d)
            };
            assert(r2 == leak_r2_micros(ys));
            let severity = if 200 * big_sxy > slope_scaled && 5 * used > 4 * max {
                Severity::Critical
            } else if 10 * used > 7 * max {
                Severity::High
            } else {
                Severity::Warn
            };
            let slope_pct = tdiv_i128(big_sxy * 100_000_000, slope_scaled);
            let usage_pct = tdiv_i128(used * 100_000_000, max);
            proof {
                crate::model::lemma_tdiv_bound(big_sxy * 100_000_000, slope_scaled as int);
                crate::model::lemma_tdiv_bound(used * 100_000_000, max as int);
                crate::model::lemma_tdiv_bound(used * 1_000_000, 1_048_576);
                crate::model::lemma_tdiv_bound(max * 1_000_000, 1_048_576);
            }
            let mut detail = String::from_str("Old gen trending upward at ");
            push_fixed(&mut detail, slope_pct, 1);
            detail.append("%/sample (R²=");
            push_fixed(&mut detail, r2, 2);
            detail.append("), currently at ");
            push_fixed(&mut detail, usage_pct, 0);
            detail.append("% (");
            push_fixed(&mut detail, current.heap.used_mb(), 0);
            detail.append("M/");
            push_fixed(&mut detail, current.heap.max_mb(), 0);
            detail.append("M)");
            let alert = make_alert(
                "mem_leak_detected",
                severity,
                String::from_str("Possible memory leak detected"),
                detail,
                EvidenceTab::Memory,
                r2 as i64,
            );
            alerts.push(alert);
            proof {
                reveal(memory_leak_alerts);
                reveal_strlit("Old gen trending upward at ");
            }
            assert(crate::anomaly::alert_views(alerts@) =~= memory_leak_alerts(*current, history@));
        } else {
            proof {
                reveal(memory_leak_alerts);
            }
            assert(crate::anomaly::alert_views(alerts@) =~= memory_leak_alerts(*current, history@));
        }
        alerts
    }
}

/// The detectors run by default, in order: memory leak, GC pressure,
/// deadlock, pool exhaustion, high heap.
pub open spec fn default_detectors() -> Seq<crate::anomaly::Detector> {
    seq![
        crate::anomaly::Detector::MemoryLeak,
        crate::anomaly::Detector::GcPressure,
        crate::anomaly::Detector::Deadlock,
        crate::anomaly::Detector::PoolExhaustion,
        crate::anomaly::Detector::HighHeap,
    ]
}

/// An engine with every built-in detector.
pub fn default_engine() -> (r: crate::anomaly::AnomalyEngine)
    ensures
        r.detectors() == default_detectors(),
{
    let mut engine = crate::anomaly::AnomalyEngine::new();
    engine.register(crate::anomaly::Detector::MemoryLeak);
    engine.register(crate::anomaly::Detector::GcPressure);
    engine.register(crate::anomaly::Detector::Deadlock);
    engine.register(crate::anomaly::Detector::PoolExhaustion);
    engine.register(crate::anomaly::Detector::HighHeap);
    assert(engine.detectors() =~= default_detectors());
    engine
}

/// The default engine runs each built-in detector exactly once.
pub proof fn lemma_default_detectors_complete(d: crate::anomaly::Detector)
    ensures
        default_detectors().len() == 5,
        default_detectors().contains(d),
        default_detectors().no_duplicates(),
{
    match d {
        crate::anomaly::Detector::MemoryLeak => assert(default_detectors()[0] == d),
        crate::anomaly::Detector::GcPressure => assert(default_detectors()[1] == d),
        crate::anomaly::Detector::Deadlock => assert(default_detectors()[2] == d),
        crate::anomaly::Detector::PoolExhaustion => assert(default_detectors()[3] == d),
        crate::anomaly::Detector::HighHeap => assert(default_detectors()[4] == d),
    }
}

/// GC throughput: over the history window (first sample to now), with `u`
/// the uptime gained and `g` the GC time spent, a low-throughput alert is
/// raised exactly when GC took more than 5% of the time (throughput below
/// 95%); it is a warning up to 10%, high up to 15%, and critical beyond.
pub proof fn lemma_gc_throughput_alert(current: JvmSnapshot, history: Seq<JvmSnapshot>)
    ensures
        ({
            let out = gc_pressure_alerts(current, history);
            let g = seq_sum(gc_times(current.gc_collectors@)) - seq_sum(
                gc_times(history[0].gc_collectors@),
            );
            let u = current.jvm_info.uptime_ms - history[0].jvm_info.uptime_ms;
            let low = history.len() >= 2 && u > 0 && 100 * g > 5 * u;
            &&& low ==> out.len() >= 1 && out[0].id == "gc_throughput_low"@ && out[0].severity == (
            if 100 * g > 15 * u {
                Severity::Critical
            } else if 100 * g > 10 * u {
                Severity::High
            } else {
                Severity::Warn
            })
            &&& !low ==> forall|i: int| 0 <= i < out.len() ==> (#[trigger] out[i]).id
                != "gc_throughput_low"@
        }),
{
    reveal_strlit("gc_throughput_low");
    reveal_strlit("full_gc_frequent");
    assert("gc_throughput_low"@.len() != "full_gc_frequent"@.len());
}

/// High heap: with `used` of `max` heap bytes (`max > 0`), a critical
/// alert above 90%, a warning above 80% up to 90%, nothing at 80% or less.
pub proof fn lemma_high_heap_thresholds(c: JvmSnapshot)
    ensures
        ({
            let out = high_heap_alerts(c);
            let used = c.heap.used as int;
            let max = c.heap.max as int;
            &&& max <= 0 ==> out.len() == 0
            &&& max > 0 && 10 * used > 9 * max ==> out.len() == 1 && out[0].id == "heap_critical"@
                && out[0].severity == Severity::Critical
            &&& max > 0 && 5 * used > 4 * max && 10 * used <= 9 * max ==> out.len() == 1 && out[0].id
                == "heap_high"@ && out[0].severity == Severity::Warn
            &&& max > 0 && 5 * used <= 4 * max ==> out.len() == 0
        }),
{
}

/// Deadlocks: one critical alert exactly when the JVM reports deadlocked
/// threads.
pub proof fn lemma_deadlock_alert(c: JvmSnapshot)
    ensures
        deadlock_alerts(c).len() == (if c.deadlocks@.len() > 0 {
            1int
        } else {
            0
        }),
        c.deadlocks@.len() > 0 ==> deadlock_alerts(c)[0].id == "deadlock_detected"@
            && deadlock_alerts(c)[0].severity == Severity::Critical,
{
}

/// Pool exhaustion: a pool with every connection in use and callers waiting
/// is reported saturated first.
pub proof fn lemma_pool_saturated(c: JvmSnapshot, history: Seq<JvmSnapshot>)
    ensures
        match c.hikari {
            None => pool_alerts(c, history).len() == 0,
            Some(h) => h.active >= h.max && h.pending > 0 ==> {
                &&& pool_alerts(c, history).len() >= 1
                &&& pool_alerts(c, history)[0].id == "hikari_saturated"@
                &&& pool_alerts(c, history)[0].severity == Severity::High
            },
        },
{
}

/// The leak detector reads the history only through old-generation
/// occupancy: two histories of the same length whose snapshots have the
/// same old-generation occupancy, one by one, give the same alerts.
pub proof fn lemma_leak_reads_old_gen(
    current: JvmSnapshot,
    h1: Seq<JvmSnapshot>,
    h2: Seq<JvmSnapshot>,
)
    requires
        h1.len() == h2.len(),
        forall|i: int|
            0 <= i < h1.len() ==> crate::model::old_gen_used(#[trigger] h1[i])
                == crate::model::old_gen_used(h2[i]),
    ensures
        memory_leak_alerts(current, h1) == memory_leak_alerts(current, h2),
{
    reveal(memory_leak_alerts);
    let w1 = old_gen_seq(leak_window(h1));
    let w2 = old_gen_seq(leak_window(h2));
    assert(w1 =~= w2) by {
        assert forall|k: int| 0 <= k < w1.len() implies w1[k] == w2[k] by {
            let off = h1.len() - leak_window(h1).len();
            assert(leak_window(h1)[k] == h1[off + k]);
            assert(leak_window(h2)[k] == h2[off + k]);
        }
    }
}

} // verus!
