//! Anomaly detection: alerts, their severities, and the engine that runs
//! the detectors and ranks what they report.

use vstd::prelude::*;
use crate::detectors::{
    DeadlockDetector, GcPressureDetector, HighHeapDetector, MemoryLeakDetector,
    PoolExhaustionDetector, deadlock_alerts, gc_pressure_alerts, high_heap_alerts,
    memory_leak_alerts, pool_alerts, gc_pressure_fits,
};
use crate::model::JvmSnapshot;

verus! {

/// Alert severity, ordered by urgency.
#[derive(Debug, Clone, Copy, PartialEq, Eq, PartialOrd, Ord, Hash)]
pub enum Severity {
    Info,
    Warn,
    High,
    Critical,
}

/// Position of a severity in the urgency order.
pub open spec fn severity_rank(s: Severity) -> int {
    match s {
        Severity::Info => 0,
        Severity::Warn => 1,
        Severity::High => 2,
        Severity::Critical => 3,
    }
}

/// Display label of a severity.
pub open spec fn severity_label(s: Severity) -> Seq<char> {
    match s {
        Severity::Info => seq!['I', 'N', 'F', 'O'],
        Severity::Warn => seq!['W', 'A', 'R', 'N'],
        Severity::High => seq!['H', 'I', 'G', 'H'],
        Severity::Critical => seq!['C', 'R', 'I', 'T'],
    }
}

impl Severity {
    /// Position in the urgency order (`Info` is 0, `Critical` is 3).
    pub fn rank(&self) -> (r: u8)
        ensures
            r as int == severity_rank(*self),
    {
        match self {
            Severity::Info => 0,
            Severity::Warn => 1,
            Severity::High => 2,
            Severity::Critical => 3,
        }
    }

    /// The label shown for this severity ("INFO", "WARN", "HIGH", "CRIT").
    pub fn label(&self) -> (r: &'static str)
        ensures
            r@ == severity_label(*self),
    {
        proof {
            reveal_strlit("INFO");
            reveal_strlit("WARN");
            reveal_strlit("HIGH");
            reveal_strlit("CRIT");
        }
        match self {
            Severity::Info => "INFO",
            Severity::Warn => "WARN",
            Severity::High => "HIGH",
            Severity::Critical => "CRIT",
        }
    }
}

/// Which tab holds the evidence for an alert.
#[derive(Debug, Clone, Copy, PartialEq, Eq)]
pub enum EvidenceTab {
    Overview,
    Memory,
    Threads,
    Http,
    Db,
    Logs,
    Recommendations,
}

/// A detected anomaly.
#[derive(Debug, Clone)]
pub struct Alert {
    /// Stable machine-readable id ("mem_leak_detected", ...).
    pub id: String,
    pub severity: Severity,
    pub title: String,
    pub detail: String,
    pub evidence_tab: EvidenceTab,
    /// Milliseconds since the Unix epoch.
    pub first_seen: i64,
    pub suppressed_until: Option<i64>,
    /// Confidence in millionths (0 ..= 1_000_000).
    pub confidence: i64,
}

/// An alert as the contracts see it: everything but the time it was seen.
pub struct AlertView {
    pub id: Seq<char>,
    pub severity: Severity,
    pub title: Seq<char>,
    pub detail: Seq<char>,
    pub evidence_tab: EvidenceTab,
    pub suppressed_until: Option<i64>,
    pub confidence: i64,
}

impl View for Alert {
    type V = AlertView;

    open spec fn view(&self) -> AlertView {
        AlertView {
            id: self.id@,
            severity: self.severity,
            title: self.title@,
            detail: self.detail@,
            evidence_tab: self.evidence_tab,
            suppressed_until: self.suppressed_until,
            confidence: self.confidence,
        }
    }
}

/// The views of a sequence of alerts.
pub open spec fn alert_views(v: Seq<Alert>) -> Seq<AlertView> {
    v.map_values(|a: Alert| a@)
}

/// The alerts of `v` with severity `sev`, in order.
pub open spec fn with_severity(v: Seq<AlertView>, sev: Severity) -> Seq<AlertView>
    decreases v.len(),
{
    if v.len() == 0 {
        Seq::<AlertView>::empty()
    } else if v.last().severity == sev {
        with_severity(v.drop_last(), sev).push(v.last())
    } else {
        with_severity(v.drop_last(), sev)
    }
}

/// `v` stably sorted by descending severity.
pub open spec fn by_severity(v: Seq<AlertView>) -> Seq<AlertView> {
    with_severity(v, Severity::Critical) + with_severity(v, Severity::High) + with_severity(
        v,
        Severity::Warn,
    ) + with_severity(v, Severity::Info)
}

proof fn lemma_with_severity_only(v: Seq<AlertView>, sev: Severity)
    ensures
        forall|i: int|
            0 <= i < with_severity(v, sev).len() ==> (#[trigger] with_severity(v, sev)[i]).severity
                == sev,
    decreases v.len(),
{
    if v.len() > 0 {
        lemma_with_severity_only(v.drop_last(), sev);
    }
}

proof fn lemma_severity_parts(v: Seq<AlertView>)
    ensures
        with_severity(v, Severity::Critical).to_multiset().add(
            with_severity(v, Severity::High).to_multiset(),
        ).add(with_severity(v, Severity::Warn).to_multiset()).add(
            with_severity(v, Severity::Info).to_multiset(),
        ) =~= v.to_multiset(),
    decreases v.len(),
{
    broadcast use vstd::seq_lib::group_to_multiset_ensures, vstd::multiset::group_multiset_axioms;

    if v.len() == 0 {
        assert(v =~= Seq::<AlertView>::empty());
        assert forall|x: AlertView| v.to_multiset().count(x) == 0 by {
            assert(!v.contains(x));
        }
    } else {
        let f = v.drop_last();
        lemma_severity_parts(f);
        assert(f.push(v.last()) =~= v);
    }
}

/// Sorting by severity keeps every alert, as often as it occurs, and puts
/// them in order of decreasing severity, keeping the order of alerts of
/// equal severity.
pub proof fn lemma_by_severity_sorted(v: Seq<AlertView>)
    ensures
        by_severity(v).to_multiset() =~= v.to_multiset(),
        forall|i: int, j: int|
            0 <= i <= j < by_severity(v).len() ==> severity_rank(#[trigger] by_severity(v)[i].severity)
                >= severity_rank(#[trigger] by_severity(v)[j].severity),
        forall|s: Severity| with_severity(by_severity(v), s) == with_severity(v, s),
{
    let a = with_severity(v, Severity::Critical);
    let b = with_severity(v, Severity::High);
    let c = with_severity(v, Severity::Warn);
    let d = with_severity(v, Severity::Info);
    lemma_severity_parts(v);
    vstd::seq_lib::lemma_multiset_commutative(a, b);
    vstd::seq_lib::lemma_multiset_commutative(a + b, c);
    vstd::seq_lib::lemma_multiset_commutative(a + b + c, d);
    lemma_with_severity_only(v, Severity::Critical);
    lemma_with_severity_only(v, Severity::High);
    lemma_with_severity_only(v, Severity::Warn);
    lemma_with_severity_only(v, Severity::Info);
    let r = by_severity(v);
    assert(r == a + b + c + d);
    assert forall|i: int| 0 <= i < r.len() implies severity_rank(#[trigger] r[i].severity) == (if i
        < a.len() {
        3int
    } else if i < a.len() + b.len() {
        2int
    } else if i < a.len() + b.len() + c.len() {
        1int
    } else {
        0int
    }) by {
        if i < a.len() {
            assert(r[i] == a[i]);
        } else if i < a.len() + b.len() {
            assert(r[i] == b[i - a.len()]);
        } else if i < a.len() + b.len() + c.len() {
            assert(r[i] == c[i - a.len() - b.len()]);
        } else {
            assert(r[i] == d[i - a.len() - b.len() - c.len()]);
        }
    }
    assert forall|s: Severity| with_severity(r, s) == with_severity(v, s) by {
        lemma_with_severity_concat(a + b + c, d, s);
        lemma_with_severity_concat(a + b, c, s);
        lemma_with_severity_concat(a, b, s);
        lemma_with_severity_uniform(a, Severity::Critical, s);
        lemma_with_severity_uniform(b, Severity::High, s);
        lemma_with_severity_uniform(c, Severity::Warn, s);
        lemma_with_severity_uniform(d, Severity::Info, s);
        let e = Seq::<AlertView>::empty();
        if s == Severity::Critical {
            assert(a + e + e + e =~= a);
        } else if s == Severity::High {
            assert(e + b + e + e =~= b);
        } else if s == Severity::Warn {
            assert(e + e + c + e =~= c);
        } else {
            assert(e + e + e + d =~= d);
        }
    }
}

proof fn lemma_with_severity_concat(x: Seq<AlertView>, y: Seq<AlertView>, s: Severity)
    ensures
        with_severity(x + y, s) == with_severity(x, s) + with_severity(y, s),
    decreases y.len(),
{
    if y.len() == 0 {
        assert(x + y =~= x);
        assert(with_severity(x, s) + with_severity(y, s) =~= with_severity(x, s));
    } else {
        assert((x + y).drop_last() =~= x + y.drop_last());
        assert((x + y).last() == y.last());
        lemma_with_severity_concat(x, y.drop_last(), s);
        assert(with_severity(x, s) + with_severity(y.drop_last(), s).push(y.last()) =~= (
        with_severity(x, s) + with_severity(y.drop_last(), s)).push(y.last()));
    }
}

proof fn lemma_with_severity_uniform(w: Seq<AlertView>, t: Severity, s: Severity)
    requires
        forall|i: int| 0 <= i < w.len() ==> (#[trigger] w[i]).severity == t,
    ensures
        with_severity(w, s) == (if t == s {
            w
        } else {
            Seq::<AlertView>::empty()
        }),
    decreases w.len(),
{
    if w.len() > 0 {
        let f = w.drop_last();
        assert forall|i: int| 0 <= i < f.len() implies (#[trigger] f[i]).severity == t by {
            assert(f[i] == w[i]);
        }
        lemma_with_severity_uniform(f, t, s);
        assert(w.last() == w[w.len() - 1]);
        assert(f.push(w.last()) =~= w);
    }
}

/// Stable sort of alerts, most severe first (`sort_by_key(Reverse(severity))`).
pub fn sort_by_severity(alerts: Vec<Alert>) -> (r: Vec<Alert>)
    ensures
        alert_views(r@) == by_severity(alert_views(alerts@)),
{
    let ghost all = alert_views(alerts@);
    let mut crit: Vec<Alert> = Vec::new();
    let mut high: Vec<Alert> = Vec::new();
    let mut warn: Vec<Alert> = Vec::new();
    let mut info: Vec<Alert> = Vec::new();
    let ghost mut k: int = 0;
    for a in it: alerts.into_iter()
        invariant
            it.seq() == alerts@,
            all == alert_views(alerts@),
            alert_views(crit@) == with_severity(all.take(it.index()), Severity::Critical),
            alert_views(high@) == with_severity(all.take(it.index()), Severity::High),
            alert_views(warn@) == with_severity(all.take(it.index()), Severity::Warn),
            alert_views(info@) == with_severity(all.take(it.index()), Severity::Info),
    {
        let ghost i = it.index();
        proof {
            assert(all.take(i + 1).drop_last() =~= all.take(i));
            assert(all.take(i + 1).last() == a@);
        }
        match a.severity {
            Severity::Critical => {
                crit.push(a);
                assert(alert_views(crit@) =~= alert_views(crit@.drop_last()).push(crit@.last()@));
            },
            Severity::High => {
                high.push(a);
                assert(alert_views(high@) =~= alert_views(high@.drop_last()).push(high@.last()@));
            },
            Severity::Warn => {
                warn.push(a);
                assert(alert_views(warn@) =~= alert_views(warn@.drop_last()).push(warn@.last()@));
            },
            Severity::Info => {
                info.push(a);
                assert(alert_views(info@) =~= alert_views(info@.drop_last()).push(info@.last()@));
            },
        }
    }
    assert(all.take(all.len() as int) =~= all);
    let ghost c = crit@;
    let ghost h = high@;
    let ghost w = warn@;
    let ghost f = info@;
    crit.append(&mut high);
    crit.append(&mut warn);
    crit.append(&mut info);
    assert(crit@ =~= c + h + w + f);
    assert(alert_views(crit@) =~= alert_views(c) + alert_views(h) + alert_views(w) + alert_views(
        f,
    ));
    crit
}

/// One of the built-in detectors.
#[derive(Debug, Clone, Copy, PartialEq, Eq)]
pub enum Detector {
    MemoryLeak,
    GcPressure,
    Deadlock,
    PoolExhaustion,
    HighHeap,
}

/// What a detector reports on a snapshot and its history.
pub open spec fn detector_alerts(
    d: Detector,
    current: JvmSnapshot,
    history: Seq<JvmSnapshot>,
) -> Seq<AlertView> {
    match d {
        Detector::MemoryLeak => memory_leak_alerts(current, history),
        Detector::GcPressure => gc_pressure_alerts(current, history),
        Detector::Deadlock => deadlock_alerts(current),
        Detector::PoolExhaustion => pool_alerts(current, history),
        Detector::HighHeap => high_heap_alerts(current),
    }
}

/// The concatenated reports of `ds`, in registration order.
pub open spec fn all_detector_alerts(
    ds: Seq<Detector>,
    current: JvmSnapshot,
    history: Seq<JvmSnapshot>,
) -> Seq<AlertView>
    decreases ds.len(),
{
    if ds.len() == 0 {
        Seq::<AlertView>::empty()
    } else {
        all_detector_alerts(ds.drop_last(), current, history) + detector_alerts(
            ds.last(),
            current,
            history,
        )
    }
}

/// What a detector needs of its inputs (the totals it takes fit in `i64`).
pub open spec fn detector_fits(d: Detector, current: JvmSnapshot, history: Seq<JvmSnapshot>) -> bool {
    match d {
        Detector::GcPressure => gc_pressure_fits(current, history),
        _ => true,
    }
}

/// Runs one built-in detector.
pub fn run_detector(d: Detector, current: &JvmSnapshot, history: &[JvmSnapshot]) -> (r: Vec<Alert>)
    requires
        detector_fits(d, *current, history@),
    ensures
        alert_views(r@) == detector_alerts(d, *current, history@),
{
    match d {
        Detector::MemoryLeak => MemoryLeakDetector.evaluate(current, history),
        Detector::GcPressure => GcPressureDetector.evaluate(current, history),
        Detector::Deadlock => DeadlockDetector.evaluate(current, history),
        Detector::PoolExhaustion => PoolExhaustionDetector.evaluate(current, history),
        Detector::HighHeap => HighHeapDetector.evaluate(current, history),
    }
}

/// The registered detectors.
pub struct AnomalyEngine {
    detectors: Vec<Detector>,
}

impl AnomalyEngine {
    pub closed spec fn detectors(&self) -> Seq<Detector> {
        self.detectors@
    }

    /// An engine with no detectors.
    pub fn new() -> (r: Self)
        ensures
            r.detectors() == Seq::<Detector>::empty(),
    {
        AnomalyEngine { detectors: Vec::new() }
    }

    /// Adds a detector after those already registered.
    pub fn register(&mut self, detector: Detector)
        ensures
            final(self).detectors() == old(self).detectors().push(detector),
    {
        self.detectors.push(detector);
    }

    /// Runs every detector and returns the combined alerts, most severe first
    /// (alerts of equal severity keep registration order).
    pub fn evaluate(&self, current: &JvmSnapshot, history: &[JvmSnapshot]) -> (r: Vec<Alert>)
        requires
            forall|i: int|
                0 <= i < self.detectors().len() ==> detector_fits(
                    #[trigger] self.detectors()[i],
                    *current,
                    history@,
                ),
        ensures
            alert_views(r@) == by_severity(all_detector_alerts(self.detectors(), *current, history@)),
    {
        let mut alerts: Vec<Alert> = Vec::new();
        let mut i: usize = 0;
        while i < self.detectors.len()
            invariant
                i <= self.detectors@.len(),
                forall|k: int|
                    0 <= k < self.detectors().len() ==> detector_fits(
                        #[trigger] self.detectors()[k],
                        *current,
                        history@,
                    ),
                alert_views(alerts@) == all_detector_alerts(
                    self.detectors@.take(i as int),
                    *current,
                    history@,
                ),
            decreases self.detectors@.len() - i,
        {
            assert(self.detectors()[i as int] == self.detectors@[i as int]);
            let mut results = run_detector(self.detectors[i], current, history);
            let ghost a0 = alerts@;
            let ghost r0 = results@;
            alerts.append(&mut results);
            proof {
                assert(self.detectors@.take(i + 1).drop_last() =~= self.detectors@.take(i as int));
                assert(alert_views(alerts@) =~= alert_views(a0) + alert_views(r0));
            }
            i += 1;
        }
        assert(self.detectors@.take(self.detectors@.len() as int) =~= self.detectors@);
        sort_by_severity(alerts)
    }

    pub fn detector_count(&self) -> (r: usize)
        ensures
            r == self.detectors().len(),
    {
        self.detectors.len()
    }

    /// The detector registered at position `i`.
    pub fn detector_at(&self, i: usize) -> (r: Detector)
        requires
            i < self.detectors().len(),
        ensures
            r == self.detectors()[i as int],
    {
        self.detectors[i]
    }
}

/// What the engine returns is a permutation of the detectors' reports,
/// joined in registration order, sorted most severe first; alerts of equal
/// severity keep that order.
pub proof fn lemma_engine_output_sorted(
    ds: Seq<Detector>,
    current: JvmSnapshot,
    history: Seq<JvmSnapshot>,
)
    ensures
        ({
            let all = all_detector_alerts(ds, current, history);
            let out = by_severity(all);
            &&& out.to_multiset() =~= all.to_multiset()
            &&& out.len() == all.len()
            &&& forall|i: int, j: int|
                0 <= i <= j < out.len() ==> severity_rank(#[trigger] out[i].severity)
                    >= severity_rank(#[trigger] out[j].severity)
            &&& forall|s: Severity| with_severity(out, s) == with_severity(all, s)
        }),
{
    let all = all_detector_alerts(ds, current, history);
    lemma_by_severity_sorted(all);
    broadcast use vstd::seq_lib::group_to_multiset_ensures;
    assert(by_severity(all).to_multiset().len() == all.to_multiset().len());
}

} // verus!
