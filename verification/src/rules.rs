//! The built-in tuning rules: JVM sizing and GC choice, and the application
//! layer (connection pool, web server, task executors, caches, HTTP,
//! logging).
//!
//! Every threshold is a comparison of exact rationals, written here as the
//! equivalent comparison of integer products.

use vstd::prelude::*;
use vstd::string::StringExecFns;
use crate::anomaly::Severity;
use crate::detectors::{fits_i64, gc_times, seq_sum, sum_gc_time, sums_fit};
use crate::fmt::{fixed_text, push_fixed};
use crate::model::{
    CacheMetrics, ExecutorMetrics, GcAlgorithm, GcCollectorStats, HikariMetrics,
    HttpEndpointMetrics, JvmSnapshot, hikari_util_spec, java_major_spec, mib_micros, tdiv,
    tdiv_i128,
};
use crate::num::{int_text, push_int};
use crate::recommend::{Category, Recommendation, RecommendationEngine, RecommendationView, texts};
use crate::text::str_eq;

verus! {

// ───────────────────────────── helpers ─────────────────────────────

/// `n / d > p / q`, for `d != 0` and `q > 0`.
pub open spec fn frac_gt(n: int, d: int, p: int, q: int) -> bool {
    if d > 0 {
        n * q > p * d
    } else {
        n * q < p * d
    }
}

/// `n / d < p / q`, for `d != 0` and `q > 0`.
pub open spec fn frac_lt(n: int, d: int, p: int, q: int) -> bool {
    if d > 0 {
        n * q < p * d
    } else {
        n * q > p * d
    }
}

/// `a / b` truncated toward zero, for `b != 0` of either sign.
pub open spec fn signed_quot(a: int, b: int) -> int {
    if b > 0 {
        tdiv(a, b)
    } else {
        tdiv(-a, -b)
    }
}

pub open spec fn max_int(a: int, b: int) -> int {
    if a >= b {
        a
    } else {
        b
    }
}

fn frac_compare(n: i128, d: i128, p: i128, q: i128) -> (r: (bool, bool))
    requires
        d != 0,
        0 < q <= 100,
        0 <= p <= 100,
        -0x1_0000_0000_0000_0000 <= n <= 0x1_0000_0000_0000_0000,
        -0x1_0000_0000_0000_0000 <= d <= 0x1_0000_0000_0000_0000,
    ensures
        r.0 == frac_gt(n as int, d as int, p as int, q as int),
        r.1 == frac_lt(n as int, d as int, p as int, q as int),
{
    proof {
        assert(-0x100_0000_0000_0000_0000 <= n * q <= 0x100_0000_0000_0000_0000) by (
        nonlinear_arith)
            requires
                0 < q <= 100,
                -0x1_0000_0000_0000_0000 <= n <= 0x1_0000_0000_0000_0000,
        ;
        assert(-0x100_0000_0000_0000_0000 <= p * d <= 0x100_0000_0000_0000_0000) by (
        nonlinear_arith)
            requires
                0 <= p <= 100,
                -0x1_0000_0000_0000_0000 <= d <= 0x1_0000_0000_0000_0000,
        ;
    }
    let a = n * q;
    let b = p * d;
    if d > 0 {
        (a > b, a < b)
    } else {
        (a < b, a > b)
    }
}

fn squot(a: i128, b: i128) -> (r: i128)
    requires
        b != 0,
        -0x100_0000_0000_0000_0000_0000_0000_0000 < a < 0x100_0000_0000_0000_0000_0000_0000_0000,
        -0x1_0000_0000_0000_0000 <= b <= 0x1_0000_0000_0000_0000,
    ensures
        r as int == signed_quot(a as int, b as int),
        -0x100_0000_0000_0000_0000_0000_0000_0000 < r < 0x100_0000_0000_0000_0000_0000_0000_0000,
{
    if b > 0 {
        proof {
            crate::model::lemma_tdiv_bound(a as int, b as int);
        }
        tdiv_i128(a, b)
    } else {
        proof {
            crate::model::lemma_tdiv_bound(-a, -b);
        }
        tdiv_i128(-a, -b)
    }
}

/// The text `pre` followed by the decimal text of `n`.
fn lit_int(pre: &str, n: i128) -> (s: String)
    requires
        n > i128::MIN,
    ensures
        s@ == pre@ + int_text(n as int),
{
    let mut s = String::from_str(pre);
    push_int(&mut s, n);
    s
}

pub open spec fn rec_view(
    id: Seq<char>,
    category: Category,
    severity: Severity,
    title: Seq<char>,
    current_state: Seq<char>,
    suggestion: Seq<char>,
    rationale: Seq<char>,
    confidence: int,
    jvm_flags: Seq<Seq<char>>,
    config_changes: Seq<Seq<char>>,
) -> RecommendationView {
    RecommendationView {
        id,
        category,
        severity,
        title,
        current_state,
        suggestion,
        rationale,
        confidence,
        jvm_flags,
        config_changes,
    }
}

fn make_rec(
    id: &str,
    category: Category,
    severity: Severity,
    title: String,
    current_state: String,
    suggestion: String,
    rationale: &str,
    confidence: i64,
    jvm_flags: Vec<String>,
    config_changes: Vec<String>,
) -> (r: Recommendation)
    ensures
        r@ == rec_view(
            id@,
            category,
            severity,
            title@,
            current_state@,
            suggestion@,
            rationale@,
            confidence as int,
            texts(jvm_flags@),
            texts(config_changes@),
        ),
{
    Recommendation {
        id: String::from_str(id),
        category,
        severity,
        title,
        current_state,
        suggestion,
        rationale: String::from_str(rationale),
        confidence,
        jvm_flags,
        config_changes,
    }
}

fn one_text(s: String) -> (v: Vec<String>)
    ensures
        texts(v@) == seq![s@],
{
    let mut v: Vec<String> = Vec::new();
    v.push(s);
    assert(texts(v@) =~= seq![s@]);
    v
}

fn two_texts(a: String, b: String) -> (v: Vec<String>)
    ensures
        texts(v@) == seq![a@, b@],
{
    let mut v: Vec<String> = Vec::new();
    v.push(a);
    v.push(b);
    assert(texts(v@) =~= seq![a@, b@]);
    v
}

fn no_texts() -> (v: Vec<String>)
    ensures
        texts(v@) == Seq::<Seq<char>>::empty(),
{
    let v: Vec<String> = Vec::new();
    assert(texts(v@) =~= Seq::<Seq<char>>::empty());
    v
}

// ─────────────────────────── heap sizing ───────────────────────────

/// The heap sizing rule decides on post-GC occupancy: the bytes the heap
/// pools hold after collection, against the heap's maximum.
pub open spec fn increase_heap_rec(c: JvmSnapshot) -> Option<RecommendationView> {
    match crate::model::post_gc_sum(c.memory_pools@) {
        None => None,
        Some(used) => increase_heap_for(used, c.heap.max as int),
    }
}

/// The heap sizing recommendation for `used` post-GC bytes of a `max`-byte
/// heap: none below 70% occupancy.
pub open spec fn increase_heap_for(used: int, max: int) -> Option<RecommendationView> {
    if max <= 0 || 10 * used < 7 * max {
        None
    } else {
        let high = 20 * used > 17 * max;
        let cur_mb = tdiv(max, 1_048_576);
        let sug = tdiv(3 * cur_mb, 2);
        Some(
            rec_view(
                "increase_xmx"@,
                Category::HeapSizing,
                if high {
                    Severity::High
                } else {
                    Severity::Warn
                },
                "Increase -Xmx"@,
                "Post-GC heap at "@ + fixed_text(tdiv(used * 100_000_000, max), 0) + "% ("@ + fixed_text(
                    mib_micros(used),
                    0,
                ) + "M/"@ + fixed_text(mib_micros(max), 0) + "M)"@,
                "Increase -Xmx from "@ + int_text(cur_mb) + "m to "@ + int_text(sug) + "m"@,
                "Post-GC old gen should stay below 65% of Xmx"@,
                if high {
                    950_000
                } else {
                    700_000
                },
                seq!["-Xmx"@ + int_text(sug) + "m"@, "-Xms"@ + int_text(sug) + "m"@],
                Seq::<Seq<char>>::empty(),
            ),
        )
    }
}

/// Post-GC heap occupancy at 70% of the maximum or more: grow `-Xmx` by
/// half.
pub struct IncreaseHeapRule;

impl IncreaseHeapRule {
    pub fn id(&self) -> (r: &'static str)
        ensures
            r@ == "increase_xmx"@,
    {
        "increase_xmx"
    }

    pub fn name(&self) -> (r: &'static str)
        ensures
            r@ == "Increase max heap"@,
    {
        "Increase max heap"
    }

    pub fn evaluate(&self, current: &JvmSnapshot, history: &[JvmSnapshot]) -> (r: Option<
        Recommendation,
    >)
        ensures
            r matches Some(x) ==> increase_heap_rec(*current) == Some(x@),
            r is None ==> increase_heap_rec(*current) is None,
    {
        let post = match crate::model::post_gc_used(&current.memory_pools) {
            None => {
                return None;
            },
            Some(x) => x,
        };
        let used = post as i128;
        let max = current.heap.max as i128;
        if max <= 0 || 10 * used < 7 * max {
            return None;
        }
        let high = 20 * used > 17 * max;
        let cur_mb = tdiv_i128(max, 1_048_576);
        proof {
            crate::model::lemma_tdiv_bound(max as int, 1_048_576);
            crate::model::lemma_tdiv_bound(used * 100_000_000, max as int);
            crate::model::lemma_tdiv_bound(used * 1_000_000, 1_048_576);
            crate::model::lemma_tdiv_bound(max * 1_000_000, 1_048_576);
        }
        let sug = tdiv_i128(3 * cur_mb, 2);
        proof {
            crate::model::lemma_tdiv_bound(3 * cur_mb, 2);
        }
        let mut state = String::from_str("Post-GC heap at ");
        push_fixed(&mut state, tdiv_i128(used * 100_000_000, max), 0);
        state.append("% (");
        push_fixed(&mut state, tdiv_i128(used * 1_000_000, 1_048_576), 0);
        state.append("M/");
        push_fixed(&mut state, current.heap.max_mb(), 0);
        state.append("M)");
        let mut suggestion = lit_int("Increase -Xmx from ", cur_mb);
        suggestion.append("m to ");
        push_int(&mut suggestion, sug);
        suggestion.append("m");
        let mut xmx = lit_int("-Xmx", sug);
        xmx.append("m");
        let mut xms = lit_int("-Xms", sug);
        xms.append("m");
        Some(
            make_rec(
                "increase_xmx",
                Category::HeapSizing,
                if high {
                    Severity::High
                } else {
                    Severity::Warn
                },
                String::from_str("Increase -Xmx"),
                state,
                suggestion,
                "Post-GC old gen should stay below 65% of Xmx",
                if high {
                    950_000
                } else {
                    700_000
                },
                two_texts(xmx, xms),
                no_texts(),
            ),
        )
    }
}

pub open spec fn set_xms_rec(c: JvmSnapshot) -> Option<RecommendationView> {
    match c.jvm_info.max_heap_bytes {
        None => None,
        Some(xmx) => {
            let xms: int = match c.jvm_info.initial_heap_bytes {
                Some(v) => v as int,
                None => 0,
            };
            if xms >= xmx || xmx == 0 {
                None
            } else {
                let xmx_m = tdiv(xmx as int, 1_048_576);
                let xms_m = tdiv(xms, 1_048_576);
                Some(
                    rec_view(
                        "set_xms_eq_xmx"@,
                        Category::HeapSizing,
                        Severity::Info,
                        "Set -Xms equal to -Xmx"@,
                        "Xms="@ + int_text(xms_m) + "m, Xmx="@ + int_text(xmx_m) + "m"@,
                        "Set -Xms"@ + int_text(xmx_m) + "m to match -Xmx"@,
                        "Avoids heap resize pauses in production; pre-allocates full heap at startup"@,
                        900_000,
                        seq!["-Xms"@ + int_text(xmx_m) + "m"@, "-Xmx"@ + int_text(xmx_m) + "m"@],
                        Seq::<Seq<char>>::empty(),
                    ),
                )
            }
        },
    }
}

/// `-Xms` below `-Xmx`: set them equal.
pub struct SetXmsEqualsXmxRule;

impl SetXmsEqualsXmxRule {
    pub fn id(&self) -> (r: &'static str)
        ensures
            r@ == "set_xms_eq_xmx"@,
    {
        "set_xms_eq_xmx"
    }

    pub fn name(&self) -> (r: &'static str)
        ensures
            r@ == "Set Xms equal to Xmx"@,
    {
        "Set Xms equal to Xmx"
    }

    pub fn evaluate(&self, current: &JvmSnapshot, history: &[JvmSnapshot]) -> (r: Option<
        Recommendation,
    >)
        ensures
            r matches Some(x) ==> set_xms_rec(*current) == Some(x@),
            r is None ==> set_xms_rec(*current) is None,
    {
        let xmx = match current.jvm_info.max_heap_bytes {
            Some(v) => v as i128,
            None => {
                return None;
            },
        };
        let xms: i128 = match current.jvm_info.initial_heap_bytes {
            Some(v) => v as i128,
            None => 0,
        };
        if xms >= xmx || xmx == 0 {
            return None;
        }
        let xmx_m = tdiv_i128(xmx, 1_048_576);
        let xms_m = tdiv_i128(xms, 1_048_576);
        proof {
            crate::model::lemma_tdiv_bound(xmx as int, 1_048_576);
            crate::model::lemma_tdiv_bound(xms as int, 1_048_576);
        }
        let mut state = lit_int("Xms=", xms_m);
        state.append("m, Xmx=");
        push_int(&mut state, xmx_m);
        state.append("m");
        let mut suggestion = lit_int("Set -Xms", xmx_m);
        suggestion.append("m to match -Xmx");
        let mut f1 = lit_int("-Xms", xmx_m);
        f1.append("m");
        let mut f2 = lit_int("-Xmx", xmx_m);
        f2.append("m");
        Some(
            make_rec(
                "set_xms_eq_xmx",
                Category::HeapSizing,
                Severity::Info,
                String::from_str("Set -Xms equal to -Xmx"),
                state,
                suggestion,
                "Avoids heap resize pauses in production; pre-allocates full heap at startup",
                900_000,
                two_texts(f1, f2),
                no_texts(),
            ),
        )
    }
}

// ──────────────────────────── GC choice ────────────────────────────

pub open spec fn gc_counts(cs: Seq<GcCollectorStats>) -> Seq<int> {
    cs.map_values(|c: GcCollectorStats| c.collection_count as int)
}

fn sum_gc_count(cs: &[GcCollectorStats]) -> (r: i128)
    requires
        sums_fit(gc_counts(cs@)),
    ensures
        r == seq_sum(gc_counts(cs@)),
        fits_i64(r as int),
{
    let ghost xs = gc_counts(cs@);
    let mut acc: i128 = 0;
    let mut i: usize = 0;
    while i < cs.len()
        invariant
            i <= cs@.len(),
            xs == gc_counts(cs@),
            sums_fit(xs),
            acc == seq_sum(xs.take(i as int)),
        decreases cs@.len() - i,
    {
        proof {
            assert(xs.take(i + 1).drop_last() =~= xs.take(i as int));
            assert(fits_i64(seq_sum(xs.take(i as int))));
            assert(fits_i64(seq_sum(xs.take(i + 1))));
        }
        acc = acc + cs[i].collection_count as i128;
        i += 1;
    }
    assert(xs.take(xs.len() as int) =~= xs);
    acc
}

/// The name `{:?}` prints for a GC algorithm.
pub open spec fn gc_debug_name(a: GcAlgorithm) -> Seq<char> {
    match a {
        GcAlgorithm::Serial => "Serial"@,
        GcAlgorithm::Parallel => "Parallel"@,
        GcAlgorithm::G1 => "G1"@,
        GcAlgorithm::Zgc => "Zgc"@,
        GcAlgorithm::ZgcGenerational => "ZgcGenerational"@,
        GcAlgorithm::Shenandoah => "Shenandoah"@,
        GcAlgorithm::Unknown => "Unknown"@,
    }
}

fn gc_debug_str(a: GcAlgorithm) -> (r: &'static str)
    ensures
        r@ == gc_debug_name(a),
{
    match a {
        GcAlgorithm::Serial => "Serial",
        GcAlgorithm::Parallel => "Parallel",
        GcAlgorithm::G1 => "G1",
        GcAlgorithm::Zgc => "Zgc",
        GcAlgorithm::ZgcGenerational => "ZgcGenerational",
        GcAlgorithm::Shenandoah => "Shenandoah",
        GcAlgorithm::Unknown => "Unknown",
    }
}

/// The collector totals of the snapshot fit in `i64`, as the rule adds
/// them up.
pub open spec fn zgc_fits(c: JvmSnapshot) -> bool {
    sums_fit(gc_times(c.gc_collectors@)) && sums_fit(gc_counts(c.gc_collectors@))
}

pub open spec fn zgc_rec(c: JvmSnapshot) -> Option<RecommendationView> {
    let alg = c.jvm_info.gc_algorithm;
    let max = c.heap.max as int;
    let ver: int = match java_major_spec(c.jvm_info.spec_version@) {
        Some(v) => v,
        None => 0,
    };
    let t = seq_sum(gc_times(c.gc_collectors@));
    let n = seq_sum(gc_counts(c.gc_collectors@));
    if alg == GcAlgorithm::Zgc || alg == GcAlgorithm::ZgcGenerational {
        None
    } else if max <= 17_179_869_184 || ver < 15 {
        None
    } else if n == 0 || frac_lt(t, n, 30, 1) {
        None
    } else {
        Some(
            rec_view(
                "switch_to_zgc"@,
                Category::GcSelection,
                Severity::Info,
                "Consider ZGC for lower pause times"@,
                "Using "@ + gc_debug_name(alg) + " with "@ + fixed_text(mib_micros(max), 0)
                    + "M heap, avg pause "@ + fixed_text(signed_quot(t * 1_000_000, n), 1)
                    + "ms"@,
                "Switch to ZGC for sub-10ms pauses on large heaps"@,
                "ZGC targets <10ms pauses regardless of heap size; ideal for heaps >16GB"@,
                700_000,
                if ver >= 21 {
                    seq!["-XX:+UseZGC"@, "-XX:+ZGenerational"@]
                } else {
                    seq!["-XX:+UseZGC"@]
                },
                Seq::<Seq<char>>::empty(),
            ),
        )
    }
}

/// A heap above 16 GiB on Java 15+ with average pauses of 30 ms or more:
/// consider ZGC.
pub struct SwitchToZgcRule;

impl SwitchToZgcRule {
    pub fn id(&self) -> (r: &'static str)
        ensures
            r@ == "switch_to_zgc"@,
    {
        "switch_to_zgc"
    }

    pub fn name(&self) -> (r: &'static str)
        ensures
            r@ == "Consider switching to ZGC"@,
    {
        "Consider switching to ZGC"
    }

    pub fn evaluate(&self, current: &JvmSnapshot, history: &[JvmSnapshot]) -> (r: Option<
        Recommendation,
    >)
        requires
            zgc_fits(*current),
        ensures
            r matches Some(x) ==> zgc_rec(*current) == Some(x@),
            r is None ==> zgc_rec(*current) is None,
    {
        let alg = current.jvm_info.gc_algorithm;
        match alg {
            GcAlgorithm::Zgc | GcAlgorithm::ZgcGenerational => {
                return None;
            },
            _ => {},
        }
        let max = current.heap.max as i128;
        let ver: u32 = match current.jvm_info.java_major_version() {
            Some(v) => v,
            None => 0,
        };
        if max <= 17_179_869_184 || ver < 15 {
            return None;
        }
        let t = sum_gc_time(current.gc_collectors.as_slice());
        let n = sum_gc_count(current.gc_collectors.as_slice());
        if n == 0 {
            return None;
        }
        let (_, low) = frac_compare(t, n, 30, 1);
        if low {
            return None;
        }
        proof {
            crate::model::lemma_tdiv_bound(max * 1_000_000, 1_048_576);
        }
        let avg = squot(t * 1_000_000, n);
        let mut state = String::from_str("Using ");
        state.append(gc_debug_str(alg));
        state.append(" with ");
        push_fixed(&mut state, current.heap.max_mb(), 0);
        state.append("M heap, avg pause ");
        push_fixed(&mut state, avg, 1);
        state.append("ms");
        let mut flags: Vec<String> = Vec::new();
        flags.push(String::from_str("-XX:+UseZGC"));
        if ver >= 21 {
            flags.push(String::from_str("-XX:+ZGenerational"));
        }
        let ghost fl = flags@;
        assert(texts(fl) =~= (if ver >= 21 {
            seq!["-XX:+UseZGC"@, "-XX:+ZGenerational"@]
        } else {
            seq!["-XX:+UseZGC"@]
        }));
        Some(
            make_rec(
                "switch_to_zgc",
                Category::GcSelection,
                Severity::Info,
                String::from_str("Consider ZGC for lower pause times"),
                state,
                String::from_str("Switch to ZGC for sub-10ms pauses on large heaps"),
                "ZGC targets <10ms pauses regardless of heap size; ideal for heaps >16GB",
                700_000,
                flags,
                no_texts(),
            ),
        )
    }
}

// ─────────────────────── connection pool (HikariCP) ───────────────────────

/// The snapshot's pool, if any, is used below 30%.
pub open spec fn hikari_low(s: JvmSnapshot) -> bool {
    match s.hikari {
        None => true,
        Some(h) => h.max == 0 || frac_lt(h.active as int, h.max as int, 3, 10),
    }
}

/// The pool was used below 30% in each of the last 20 snapshots.
pub open spec fn pool_low_recent(history: Seq<JvmSnapshot>) -> bool {
    forall|i: int|
        history.len() - 20 <= i < history.len() && 0 <= i ==> hikari_low(#[trigger] history[i])
}

pub open spec fn hikari_pool_rec(c: JvmSnapshot, history: Seq<JvmSnapshot>) -> Option<
    RecommendationView,
> {
    match c.hikari {
        None => None,
        Some(h) => {
            let active = h.active as int;
            let max = h.max as int;
            let pending = h.pending as int;
            let cores = c.cpu.available_processors as int;
            let rec = cores * 2 + 1;
            if max == 0 {
                None
            } else if (frac_gt(active, max, 9, 10) || (active >= max && pending > 0)) && rec > max {
                Some(
                    rec_view(
                        "hikari_pool_size"@,
                        Category::HikariCp,
                        Severity::High,
                        "Increase HikariCP pool size"@,
                        "Pool: active="@ + int_text(active) + "/"@ + int_text(max) + ", pending="@
                            + int_text(pending),
                        "Increase maximumPoolSize from "@ + int_text(max) + " to "@ + int_text(rec),
                        "HikariCP formula: cores("@ + int_text(cores) + ") × 2 + 1 = "@ + int_text(
                            rec,
                        ),
                        850_000,
                        Seq::<Seq<char>>::empty(),
                        seq!["spring.datasource.hikari.maximum-pool-size="@ + int_text(rec)],
                    ),
                )
            } else if pool_low_recent(history) && max > 5 && history.len() >= 20 {
                Some(
                    rec_view(
                        "hikari_pool_oversized"@,
                        Category::HikariCp,
                        Severity::Info,
                        "HikariCP pool may be oversized"@,
                        "Pool utilization consistently below 30% (active="@ + int_text(active)
                            + "/"@ + int_text(max) + ")"@,
                        "Consider reducing maximumPoolSize from "@ + int_text(max),
                        "Excess idle connections waste database resources"@,
                        600_000,
                        Seq::<Seq<char>>::empty(),
                        seq![
                            "spring.datasource.hikari.maximum-pool-size="@ + int_text(
                                max_int(tdiv(max, 2), 5),
                            ),
                        ],
                    ),
                )
            } else {
                None
            }
        },
    }
}

fn hikari_low_exec(s: &JvmSnapshot) -> (b: bool)
    ensures
        b == hikari_low(*s),
{
    match &s.hikari {
        None => true,
        Some(h) => {
            if h.max == 0 {
                true
            } else {
                let (_, low) = frac_compare(h.active as i128, h.max as i128, 3, 10);
                low
            }
        },
    }
}

/// Pool above 90% (or saturated) and below cores × 2 + 1: grow it; used
/// below 30% for the last 20 samples: shrink it.
pub struct HikariPoolSizeRule;

impl HikariPoolSizeRule {
    pub fn id(&self) -> (r: &'static str)
        ensures
            r@ == "hikari_pool_size"@,
    {
        "hikari_pool_size"
    }

    pub fn name(&self) -> (r: &'static str)
        ensures
            r@ == "HikariCP pool sizing"@,
    {
        "HikariCP pool sizing"
    }

    pub fn evaluate(&self, current: &JvmSnapshot, history: &[JvmSnapshot]) -> (r: Option<
        Recommendation,
    >)
        ensures
            r matches Some(x) ==> hikari_pool_rec(*current, history@) == Some(x@),
            r is None ==> hikari_pool_rec(*current, history@) is None,
    {
        let h = match &current.hikari {
            Some(h) => h,
            None => {
                return None;
            },
        };
        let active = h.active as i128;
        let max = h.max as i128;
        let pending = h.pending as i128;
        if max == 0 {
            return None;
        }
        let cores = current.cpu.available_processors as i128;
        let rec = cores * 2 + 1;
        let (hot, _) = frac_compare(active, max, 9, 10);
        if (hot || (active >= max && pending > 0)) && rec > max {
            let mut state = lit_int("Pool: active=", active);
            state.append("/");
            push_int(&mut state, max);
            state.append(", pending=");
            push_int(&mut state, pending);
            let mut suggestion = lit_int("Increase maximumPoolSize from ", max);
            suggestion.append(" to ");
            push_int(&mut suggestion, rec);
            let mut rationale = lit_int("HikariCP formula: cores(", cores);
            rationale.append(") × 2 + 1 = ");
            push_int(&mut rationale, rec);
            let rec_view_s = rationale;
            return Some(
                make_rec(
                    "hikari_pool_size",
                    Category::HikariCp,
                    Severity::High,
                    String::from_str("Increase HikariCP pool size"),
                    state,
                    suggestion,
                    rec_view_s.as_str(),
                    850_000,
                    no_texts(),
                    one_text(lit_int("spring.datasource.hikari.maximum-pool-size=", rec)),
                ),
            );
        }
        let len = history.len();
        let start = if len > 20 {
            len - 20
        } else {
            0
        };
        let mut low = true;
        let mut i = start;
        while i < len
            invariant
                start <= i <= len == history@.len(),
                start == (if len > 20 {
                    len - 20
                } else {
                    0
                }),
                low == (forall|k: int| start <= k < i ==> hikari_low(#[trigger] history@[k])),
            decreases len - i,
        {
            if !hikari_low_exec(&history[i]) {
                low = false;
            }
            i += 1;
        }
        assert(low == pool_low_recent(history@));
        if low && max > 5 && len >= 20 {
            let mut state = lit_int("Pool utilization consistently below 30% (active=", active);
            state.append("/");
            push_int(&mut state, max);
            state.append(")");
            let half = tdiv_i128(max, 2);
            proof {
                crate::model::lemma_tdiv_bound(max as int, 2);
            }
            let target = if half >= 5 {
                half
            } else {
                5
            };
            return Some(
                make_rec(
                    "hikari_pool_oversized",
                    Category::HikariCp,
                    Severity::Info,
                    String::from_str("HikariCP pool may be oversized"),
                    state,
                    lit_int("Consider reducing maximumPoolSize from ", max),
                    "Excess idle connections waste database resources",
                    600_000,
                    no_texts(),
                    one_text(lit_int("spring.datasource.hikari.maximum-pool-size=", target)),
                ),
            );
        }
        None
    }
}

pub open spec fn hikari_slow_rec(c: JvmSnapshot) -> Option<RecommendationView> {
    match c.hikari {
        None => None,
        Some(h) => {
            let active = h.active as int;
            let max = h.max as int;
            let pending = h.pending as int;
            if pending == 0 || max == 0 || frac_gt(active, max, 4, 5) {
                None
            } else {
                Some(
                    rec_view(
                        "hikari_slow_acquire"@,
                        Category::HikariCp,
                        Severity::Warn,
                        "Threads wait for connections while the pool has headroom"@,
                        "pending="@ + int_text(pending) + " with active="@ + int_text(active) + "/"@
                            + int_text(max) + " ("@ + fixed_text(hikari_util_spec(active, max), 0)
                            + "% utilization)"@,
                        "The bottleneck is the database side (slow connect / auth / network), not pool size — check DB load and connection latency before growing the pool"@,
                        "Growing a pool that isn't saturated only adds idle connections"@,
                        650_000,
                        Seq::<Seq<char>>::empty(),
                        seq![
                            "spring.datasource.hikari.connection-timeout=10000"@,
                            "spring.datasource.hikari.keepalive-time=300000"@,
                        ],
                    ),
                )
            }
        },
    }
}

/// Callers wait for connections while the pool has headroom: the
/// bottleneck is the database side.
pub struct HikariSlowAcquireRule;

impl HikariSlowAcquireRule {
    pub fn id(&self) -> (r: &'static str)
        ensures
            r@ == "hikari_slow_acquire"@,
    {
        "hikari_slow_acquire"
    }

    pub fn name(&self) -> (r: &'static str)
        ensures
            r@ == "Slow connection acquisition"@,
    {
        "Slow connection acquisition"
    }

    pub fn evaluate(&self, current: &JvmSnapshot, history: &[JvmSnapshot]) -> (r: Option<
        Recommendation,
    >)
        ensures
            r matches Some(x) ==> hikari_slow_rec(*current) == Some(x@),
            r is None ==> hikari_slow_rec(*current) is None,
    {
        let h = match &current.hikari {
            Some(h) => h,
            None => {
                return None;
            },
        };
        let active = h.active as i128;
        let max = h.max as i128;
        let pending = h.pending as i128;
        if pending == 0 || max == 0 {
            return None;
        }
        let (busy, _) = frac_compare(active, max, 4, 5);
        if busy {
            return None;
        }
        let util = h.utilization_pct();
        proof {
            if max > 0 {
                crate::model::lemma_tdiv_bound(active * 100_000_000, max as int);
            } else {
                crate::model::lemma_tdiv_bound(-active * 100_000_000, -max);
            }
        }
        let mut state = lit_int("pending=", pending);
        state.append(" with active=");
        push_int(&mut state, active);
        state.append("/");
        push_int(&mut state, max);
        state.append(" (");
        push_fixed(&mut state, util, 0);
        state.append("% utilization)");
        Some(
            make_rec(
                "hikari_slow_acquire",
                Category::HikariCp,
                Severity::Warn,
                String::from_str("Threads wait for connections while the pool has headroom"),
                state,
                String::from_str(
                    "The bottleneck is the database side (slow connect / auth / network), not pool size — check DB load and connection latency before growing the pool",
                ),
                "Growing a pool that isn't saturated only adds idle connections",
                650_000,
                no_texts(),
                two_texts(
                    String::from_str("spring.datasource.hikari.connection-timeout=10000"),
                    String::from_str("spring.datasource.hikari.keepalive-time=300000"),
                ),
            ),
        )
    }
}

// ──────────────────────────── web server ────────────────────────────

pub open spec fn tomcat_threads_rec(c: JvmSnapshot) -> Option<RecommendationView> {
    match c.tomcat {
        None => None,
        Some(t) => {
            let busy = t.threads_busy as int;
            let max = t.threads_max as int;
            if max == 0 || !frac_gt(busy, max, 4, 5) {
                None
            } else {
                Some(
                    rec_view(
                        "tomcat_threads"@,
                        Category::ThreadPool,
                        if frac_gt(busy, max, 19, 20) {
                            Severity::High
                        } else {
                            Severity::Warn
                        },
                        "Tomcat thread pool near capacity"@,
                        "Busy="@ + int_text(busy) + "/"@ + int_text(max) + " ("@ + fixed_text(
                            signed_quot(busy * 100_000_000, max),
                            0,
                        ) + "%)"@,
                        "Increase server.tomcat.threads.max (currently "@ + int_text(max) + ")"@,
                        "Use Little's Law: threads ≈ arrival_rate × avg_service_time"@,
                        800_000,
                        Seq::<Seq<char>>::empty(),
                        seq!["server.tomcat.threads.max="@ + int_text(max_int(2 * max, 200))],
                    ),
                )
            }
        },
    }
}

/// Tomcat worker threads above 80% busy.
pub struct TomcatThreadRule;

impl TomcatThreadRule {
    pub fn id(&self) -> (r: &'static str)
        ensures
            r@ == "tomcat_threads"@,
    {
        "tomcat_threads"
    }

    pub fn name(&self) -> (r: &'static str)
        ensures
            r@ == "Tomcat thread pool sizing"@,
    {
        "Tomcat thread pool sizing"
    }

    pub fn evaluate(&self, current: &JvmSnapshot, history: &[JvmSnapshot]) -> (r: Option<
        Recommendation,
    >)
        ensures
            r matches Some(x) ==> tomcat_threads_rec(*current) == Some(x@),
            r is None ==> tomcat_threads_rec(*current) is None,
    {
        let t = match &current.tomcat {
            Some(t) => t,
            None => {
                return None;
            },
        };
        let busy = t.threads_busy as i128;
        let max = t.threads_max as i128;
        if max == 0 {
            return None;
        }
        let (hot, _) = frac_compare(busy, max, 4, 5);
        if !hot {
            return None;
        }
        let (very, _) = frac_compare(busy, max, 19, 20);
        let util = squot(busy * 100_000_000, max);
        let mut state = lit_int("Busy=", busy);
        state.append("/");
        push_int(&mut state, max);
        state.append(" (");
        push_fixed(&mut state, util, 0);
        state.append("%)");
        let mut suggestion = lit_int("Increase server.tomcat.threads.max (currently ", max);
        suggestion.append(")");
        let target = if 2 * max >= 200 {
            2 * max
        } else {
            200
        };
        Some(
            make_rec(
                "tomcat_threads",
                Category::ThreadPool,
                if very {
                    Severity::High
                } else {
                    Severity::Warn
                },
                String::from_str("Tomcat thread pool near capacity"),
                state,
                suggestion,
                "Use Little's Law: threads ≈ arrival_rate × avg_service_time",
                800_000,
                no_texts(),
                one_text(lit_int("server.tomcat.threads.max=", target)),
            ),
        )
    }
}

pub open spec fn tomcat_connections_rec(c: JvmSnapshot) -> Option<RecommendationView> {
    match c.tomcat {
        None => None,
        Some(t) => {
            let cur = t.connections_current as int;
            let max = t.connections_max as int;
            if max == 0 || frac_lt(cur, max, 4, 5) {
                None
            } else {
                Some(
                    rec_view(
                        "tomcat_connections"@,
                        Category::WebServer,
                        if frac_gt(cur, max, 19, 20) {
                            Severity::High
                        } else {
                            Severity::Warn
                        },
                        "Tomcat connections near the configured limit"@,
                        int_text(cur) + "/"@ + int_text(max) + " connections open ("@ + fixed_text(
                            signed_quot(cur * 100_000_000, max),
                            0,
                        ) + "%)"@,
                        "Raise max-connections, or reduce keep-alive if connections sit idle"@,
                        "New connections queue on the OS accept backlog once the limit is hit"@,
                        800_000,
                        Seq::<Seq<char>>::empty(),
                        seq!["server.tomcat.max-connections="@ + int_text(2 * max)],
                    ),
                )
            }
        },
    }
}

/// Open connections at 80% or more of Tomcat's limit.
pub struct TomcatConnectionLimitRule;

impl TomcatConnectionLimitRule {
    pub fn id(&self) -> (r: &'static str)
        ensures
            r@ == "tomcat_connections"@,
    {
        "tomcat_connections"
    }

    pub fn name(&self) -> (r: &'static str)
        ensures
            r@ == "Tomcat connection limit"@,
    {
        "Tomcat connection limit"
    }

    pub fn evaluate(&self, current: &JvmSnapshot, history: &[JvmSnapshot]) -> (r: Option<
        Recommendation,
    >)
        ensures
            r matches Some(x) ==> tomcat_connections_rec(*current) == Some(x@),
            r is None ==> tomcat_connections_rec(*current) is None,
    {
        let t = match &current.tomcat {
            Some(t) => t,
            None => {
                return None;
            },
        };
        let cur = t.connections_current as i128;
        let max = t.connections_max as i128;
        if max == 0 {
            return None;
        }
        let (_, low) = frac_compare(cur, max, 4, 5);
        if low {
            return None;
        }
        let (very, _) = frac_compare(cur, max, 19, 20);
        let util = squot(cur * 100_000_000, max);
        let mut state = String::new();
        push_int(&mut state, cur);
        state.append("/");
        push_int(&mut state, max);
        state.append(" connections open (");
        push_fixed(&mut state, util, 0);
        state.append("%)");
        Some(
            make_rec(
                "tomcat_connections",
                Category::WebServer,
                if very {
                    Severity::High
                } else {
                    Severity::Warn
                },
                String::from_str("Tomcat connections near the configured limit"),
                state,
                String::from_str(
                    "Raise max-connections, or reduce keep-alive if connections sit idle",
                ),
                "New connections queue on the OS accept backlog once the limit is hit",
                800_000,
                no_texts(),
                one_text(lit_int("server.tomcat.max-connections=", 2 * max)),
            ),
        )
    }
}

// ─────────────────────────── task executors ───────────────────────────

/// Every thread of the pool is busy and tasks queue.
pub open spec fn executor_backlogged(e: ExecutorMetrics) -> bool {
    e.pool_size > 0 && e.active >= e.pool_size && e.queued > 0
}

/// The first backlogged executor at or after `i`.
pub open spec fn first_backlogged(es: Seq<ExecutorMetrics>, i: int) -> Option<int>
    decreases es.len() - i,
{
    if i < 0 || i >= es.len() {
        None
    } else if executor_backlogged(es[i]) {
        Some(i)
    } else {
        first_backlogged(es, i + 1)
    }
}

/// The snapshot has an executor named `name` with queued tasks.
pub open spec fn queued_in(s: JvmSnapshot, name: Seq<char>) -> bool {
    exists|j: int|
        0 <= j < s.executors@.len() && (#[trigger] s.executors@[j]).name@ == name
            && s.executors@[j].queued > 0
}

/// How many snapshots of `hs` have queued tasks on the executor `name`.
pub open spec fn count_queued(hs: Seq<JvmSnapshot>, name: Seq<char>) -> int
    decreases hs.len(),
{
    if hs.len() == 0 {
        0
    } else {
        count_queued(hs.drop_last(), name) + if queued_in(hs.last(), name) {
            1int
        } else {
            0int
        }
    }
}

/// The last `k` snapshots (all of them when there are fewer).
pub open spec fn recent(hs: Seq<JvmSnapshot>, k: int) -> Seq<JvmSnapshot> {
    if hs.len() > k {
        hs.skip(hs.len() - k)
    } else {
        hs
    }
}

pub open spec fn executor_backlog_rec(c: JvmSnapshot, history: Seq<JvmSnapshot>) -> Option<
    RecommendationView,
> {
    match first_backlogged(c.executors@, 0) {
        None => None,
        Some(i) => {
            let e = c.executors@[i];
            let b = count_queued(recent(history, 10), e.name@);
            let sug = max_int(2 * max_int(e.max_size as int, e.pool_size as int), 4);
            Some(
                rec_view(
                    "executor_backlog"@,
                    Category::Executor,
                    if e.queued > 2 * e.pool_size {
                        Severity::High
                    } else {
                        Severity::Warn
                    },
                    "Executor '"@ + e.name@ + "' has a task backlog"@,
                    "active="@ + int_text(e.active as int) + "/"@ + int_text(e.pool_size as int)
                        + " queued="@ + int_text(e.queued as int) + " (queue backlog in "@
                        + int_text(b) + "/10 recent samples)"@,
                    "Raise max pool size from "@ + int_text(e.max_size as int) + " to "@ + int_text(
                        sug,
                    ) + " or add backpressure upstream"@,
                    "All pool threads busy with tasks queueing — latency grows with the queue"@,
                    500_000 + 50_000 * b,
                    Seq::<Seq<char>>::empty(),
                    seq!["spring.task.execution.pool.max-size="@ + int_text(sug)],
                ),
            )
        },
    }
}

fn has_queued(s: &JvmSnapshot, name: &str) -> (b: bool)
    ensures
        b == queued_in(*s, name@),
{
    let mut j: usize = 0;
    while j < s.executors.len()
        invariant
            j <= s.executors@.len(),
            forall|k: int|
                0 <= k < j ==> !((#[trigger] s.executors@[k]).name@ == name@
                    && s.executors@[k].queued > 0),
        decreases s.executors@.len() - j,
    {
        let x = &s.executors[j];
        if x.queued > 0 && str_eq(x.name.as_str(), name) {
            assert(s.executors@[j as int].name@ == name@);
            return true;
        }
        j += 1;
    }
    false
}

/// All threads busy with tasks queueing: raise the pool's maximum.
pub struct ExecutorBacklogRule;

impl ExecutorBacklogRule {
    pub fn id(&self) -> (r: &'static str)
        ensures
            r@ == "executor_backlog"@,
    {
        "executor_backlog"
    }

    pub fn name(&self) -> (r: &'static str)
        ensures
            r@ == "Task executor backlog"@,
    {
        "Task executor backlog"
    }

    pub fn evaluate(&self, current: &JvmSnapshot, history: &[JvmSnapshot]) -> (r: Option<
        Recommendation,
    >)
        ensures
            r matches Some(x) ==> executor_backlog_rec(*current, history@) == Some(x@),
            r is None ==> executor_backlog_rec(*current, history@) is None,
    {
        let es = &current.executors;
        let mut i: usize = 0;
        while i < es.len()
            invariant
                i <= es@.len(),
                first_backlogged(es@, 0) == first_backlogged(es@, i as int),
            ensures
                i <= es@.len(),
                first_backlogged(es@, 0) == first_backlogged(es@, i as int),
                i < es@.len() ==> executor_backlogged(es@[i as int]),
            decreases es@.len() - i,
        {
            let e = &es[i];
            if e.pool_size > 0 && e.active >= e.pool_size && e.queued > 0 {
                break;
            }
            i += 1;
        }
        if i >= es.len() {
            return None;
        }
        let e = &es[i];
        let len = history.len();
        let start = if len > 10 {
            len - 10
        } else {
            0
        };
        let ghost hs = recent(history@, 10);
        assert(hs =~= history@.subrange(start as int, len as int));
        let mut b: i128 = 0;
        let mut k = start;
        while k < len
            invariant
                start <= k <= len == history@.len(),
                len - start <= 10,
                hs == history@.subrange(start as int, len as int),
                b == count_queued(history@.subrange(start as int, k as int), e.name@),
                0 <= b <= k - start,
            decreases len - k,
        {
            proof {
                assert(history@.subrange(start as int, k + 1).drop_last() =~= history@.subrange(
                    start as int,
                    k as int,
                ));
            }
            if has_queued(&history[k], e.name.as_str()) {
                b = b + 1;
            }
            k += 1;
        }
        assert(history@.subrange(start as int, len as int) == hs);
        let big = if e.max_size >= e.pool_size {
            e.max_size as i128
        } else {
            e.pool_size as i128
        };
        let sug = if 2 * big >= 4 {
            2 * big
        } else {
            4
        };
        let mut title = String::from_str("Executor '");
        title.append(e.name.as_str());
        title.append("' has a task backlog");
        let mut state = lit_int("active=", e.active as i128);
        state.append("/");
        push_int(&mut state, e.pool_size as i128);
        state.append(" queued=");
        push_int(&mut state, e.queued as i128);
        state.append(" (queue backlog in ");
        push_int(&mut state, b);
        state.append("/10 recent samples)");
        let mut suggestion = lit_int("Raise max pool size from ", e.max_size as i128);
        suggestion.append(" to ");
        push_int(&mut suggestion, sug);
        suggestion.append(" or add backpressure upstream");
        let high = e.queued as i128 > 2 * (e.pool_size as i128);
        Some(
            make_rec(
                "executor_backlog",
                Category::Executor,
                if high {
                    Severity::High
                } else {
                    Severity::Warn
                },
                title,
                state,
                suggestion,
                "All pool threads busy with tasks queueing — latency grows with the queue",
                (500_000 + 50_000 * b) as i64,
                no_texts(),
                one_text(lit_int("spring.task.execution.pool.max-size=", sug)),
            ),
        )
    }
}

/// A large, busy-enough executor to look at for oversizing.
pub open spec fn oversized_candidate(e: ExecutorMetrics) -> bool {
    e.core_size >= 8 && e.completed_total > 100
}

pub open spec fn first_oversized(es: Seq<ExecutorMetrics>, i: int) -> Option<int>
    decreases es.len() - i,
{
    if i < 0 || i >= es.len() {
        None
    } else if oversized_candidate(es[i]) {
        Some(i)
    } else {
        first_oversized(es, i + 1)
    }
}

/// The larger of two optional figures.
pub open spec fn opt_join(a: Option<int>, b: Option<int>) -> Option<int> {
    match a {
        None => b,
        Some(x) => match b {
            None => Some(x),
            Some(y) => Some(max_int(x, y)),
        },
    }
}

/// The peak `active` of the executors named `name` among `es[..k]`.
pub open spec fn execs_peak(es: Seq<ExecutorMetrics>, name: Seq<char>, k: int) -> Option<int>
    decreases k,
{
    if k <= 0 {
        None
    } else if es[k - 1].name@ == name {
        opt_join(execs_peak(es, name, k - 1), Some(es[k - 1].active as int))
    } else {
        execs_peak(es, name, k - 1)
    }
}

/// The peak `active` of the executors named `name` over `hs[..k]`.
pub open spec fn history_peak(hs: Seq<JvmSnapshot>, name: Seq<char>, k: int) -> Option<int>
    decreases k,
{
    if k <= 0 {
        None
    } else {
        opt_join(
            history_peak(hs, name, k - 1),
            execs_peak(hs[k - 1].executors@, name, hs[k - 1].executors@.len() as int),
        )
    }
}

pub open spec fn executor_oversized_rec(c: JvmSnapshot, history: Seq<JvmSnapshot>) -> Option<
    RecommendationView,
> {
    if history.len() < 20 {
        None
    } else {
        match first_oversized(c.executors@, 0) {
            None => None,
            Some(i) => {
                let e = c.executors@[i];
                let peak = match history_peak(history, e.name@, history.len() as int) {
                    Some(m) => m,
                    None => 0,
                };
                if 4 * peak > e.core_size {
                    None
                } else {
                    let sug = max_int(2 * peak, 2);
                    Some(
                        rec_view(
                            "executor_oversized"@,
                            Category::Executor,
                            Severity::Info,
                            "Executor '"@ + e.name@ + "' looks oversized"@,
                            "core="@ + int_text(e.core_size as int) + " but peak active over "@
                                + int_text(history.len() as int) + " samples is "@ + int_text(peak),
                            "Reduce core pool size from "@ + int_text(e.core_size as int) + " to ~"@
                                + int_text(sug),
                            "Idle pool threads consume stack memory and scheduler overhead"@,
                            600_000,
                            Seq::<Seq<char>>::empty(),
                            seq!["spring.task.execution.pool.core-size="@ + int_text(sug)],
                        ),
                    )
                }
            },
        }
    }
}

/// `opt_join` on optional `i64` figures.
fn join_exec(a: Option<i64>, b: Option<i64>) -> (r: Option<i64>)
    ensures
        (match r {
            Some(x) => Some(x as int),
            None => None::<int>,
        }) == opt_join(
            match a {
                Some(x) => Some(x as int),
                None => None::<int>,
            },
            match b {
                Some(x) => Some(x as int),
                None => None::<int>,
            },
        ),
{
    match a {
        None => b,
        Some(x) => match b {
            None => Some(x),
            Some(y) => if x >= y {
                Some(x)
            } else {
                Some(y)
            },
        },
    }
}

pub open spec fn opt_int(a: Option<i64>) -> Option<int> {
    match a {
        Some(x) => Some(x as int),
        None => None,
    }
}

fn peak_of(es: &Vec<ExecutorMetrics>, name: &str) -> (r: Option<i64>)
    ensures
        opt_int(r) == execs_peak(es@, name@, es@.len() as int),
{
    let mut peak: Option<i64> = None;
    let mut j: usize = 0;
    while j < es.len()
        invariant
            j <= es@.len(),
            opt_int(peak) == execs_peak(es@, name@, j as int),
        decreases es@.len() - j,
    {
        if str_eq(es[j].name.as_str(), name) {
            peak = join_exec(peak, Some(es[j].active));
        }
        j += 1;
    }
    peak
}

/// A large executor whose peak activity over the history stays at a
/// quarter of its core size or less: shrink it.
pub struct ExecutorOversizedRule;

impl ExecutorOversizedRule {
    pub fn id(&self) -> (r: &'static str)
        ensures
            r@ == "executor_oversized"@,
    {
        "executor_oversized"
    }

    pub fn name(&self) -> (r: &'static str)
        ensures
            r@ == "Task executor oversized"@,
    {
        "Task executor oversized"
    }

    pub fn evaluate(&self, current: &JvmSnapshot, history: &[JvmSnapshot]) -> (r: Option<
        Recommendation,
    >)
        ensures
            r matches Some(x) ==> executor_oversized_rec(*current, history@) == Some(x@),
            r is None ==> executor_oversized_rec(*current, history@) is None,
    {
        if history.len() < 20 {
            return None;
        }
        let es = &current.executors;
        let mut i: usize = 0;
        while i < es.len()
            invariant
                i <= es@.len(),
                first_oversized(es@, 0) == first_oversized(es@, i as int),
            ensures
                i <= es@.len(),
                first_oversized(es@, 0) == first_oversized(es@, i as int),
                i < es@.len() ==> oversized_candidate(es@[i as int]),
            decreases es@.len() - i,
        {
            if es[i].core_size >= 8 && es[i].completed_total > 100 {
                break;
            }
            i += 1;
        }
        if i >= es.len() {
            return None;
        }
        let e = &es[i];
        let mut peak: Option<i64> = None;
        let mut k: usize = 0;
        while k < history.len()
            invariant
                k <= history@.len(),
                opt_int(peak) == history_peak(history@, e.name@, k as int),
            decreases history@.len() - k,
        {
            let p = peak_of(&history[k].executors, e.name.as_str());
            peak = join_exec(peak, p);
            k += 1;
        }
        let pk: i128 = match peak {
            Some(m) => m as i128,
            None => 0,
        };
        if 4 * pk > e.core_size as i128 {
            return None;
        }
        let sug = if 2 * pk >= 2 {
            2 * pk
        } else {
            2
        };
        let mut title = String::from_str("Executor '");
        title.append(e.name.as_str());
        title.append("' looks oversized");
        let mut state = lit_int("core=", e.core_size as i128);
        state.append(" but peak active over ");
        push_int(&mut state, history.len() as i128);
        state.append(" samples is ");
        push_int(&mut state, pk);
        let mut suggestion = lit_int("Reduce core pool size from ", e.core_size as i128);
        suggestion.append(" to ~");
        push_int(&mut suggestion, sug);
        Some(
            make_rec(
                "executor_oversized",
                Category::Executor,
                Severity::Info,
                title,
                state,
                suggestion,
                "Idle pool threads consume stack memory and scheduler overhead",
                600_000,
                no_texts(),
                one_text(lit_int("spring.task.execution.pool.core-size=", sug)),
            ),
        )
    }
}

// ────────────────────────────── caches ──────────────────────────────

/// A cache with more than 1000 lookups that hits less than half of them.
pub open spec fn cache_candidate(k: CacheMetrics) -> bool {
    k.hits + k.misses > 1000 && 2 * k.hits < k.hits + k.misses
}

pub open spec fn first_cold_cache(cs: Seq<CacheMetrics>, i: int) -> Option<int>
    decreases cs.len() - i,
{
    if i < 0 || i >= cs.len() {
        None
    } else if cache_candidate(cs[i]) {
        Some(i)
    } else {
        first_cold_cache(cs, i + 1)
    }
}

pub open spec fn cache_rec(c: JvmSnapshot) -> Option<RecommendationView> {
    match first_cold_cache(c.caches@, 0) {
        None => None,
        Some(i) => {
            let k = c.caches@[i];
            let g = k.hits + k.misses;
            Some(
                rec_view(
                    "cache_hit_ratio"@,
                    Category::Cache,
                    if 5 * k.hits < g {
                        Severity::Warn
                    } else {
                        Severity::Info
                    },
                    "Cache '"@ + k.name@ + "' hit ratio is "@ + fixed_text(
                        tdiv(k.hits * 100_000_000, g),
                        0,
                    ) + "%"@,
                    int_text(g) + " gets: "@ + int_text(k.hits as int) + " hits / "@ + int_text(
                        k.misses as int,
                    ) + " misses, "@ + int_text(k.evictions as int) + " evictions, size "@
                        + int_text(k.size as int),
                    if k.evictions > k.hits {
                        "Cache is thrashing — increase maximumSize or reconsider what is cached"@
                    } else {
                        "Most lookups miss — check key design and TTL, or drop the cache"@
                    },
                    "A cache below ~50% hit ratio often costs more than it saves"@,
                    700_000,
                    Seq::<Seq<char>>::empty(),
                    seq![
                        "spring.cache.caffeine.spec=maximumSize="@ + int_text(
                            max_int(2 * k.size, 1000),
                        ) + ",expireAfterWrite=10m"@,
                    ],
                ),
            )
        },
    }
}

/// A busy cache hitting less than half its lookups.
pub struct CacheHitRatioRule;

impl CacheHitRatioRule {
    pub fn id(&self) -> (r: &'static str)
        ensures
            r@ == "cache_hit_ratio"@,
    {
        "cache_hit_ratio"
    }

    pub fn name(&self) -> (r: &'static str)
        ensures
            r@ == "Low cache hit ratio"@,
    {
        "Low cache hit ratio"
    }

    pub fn evaluate(&self, current: &JvmSnapshot, history: &[JvmSnapshot]) -> (r: Option<
        Recommendation,
    >)
        ensures
            r matches Some(x) ==> cache_rec(*current) == Some(x@),
            r is None ==> cache_rec(*current) is None,
    {
        let cs = &current.caches;
        let mut i: usize = 0;
        while i < cs.len()
            invariant
                i <= cs@.len(),
                first_cold_cache(cs@, 0) == first_cold_cache(cs@, i as int),
            ensures
                i <= cs@.len(),
                first_cold_cache(cs@, 0) == first_cold_cache(cs@, i as int),
                i < cs@.len() ==> cache_candidate(cs@[i as int]),
            decreases cs@.len() - i,
        {
            let g = cs[i].gets();
            if g > 1000 && 2 * (cs[i].hits as i128) < g {
                break;
            }
            i += 1;
        }
        if i >= cs.len() {
            return None;
        }
        let k = &cs[i];
        let g = k.gets();
        let hits = k.hits as i128;
        let pct = tdiv_i128(hits * 100_000_000, g);
        proof {
            crate::model::lemma_tdiv_bound(hits * 100_000_000, g as int);
        }
        let mut title = String::from_str("Cache '");
        title.append(k.name.as_str());
        title.append("' hit ratio is ");
        push_fixed(&mut title, pct, 0);
        title.append("%");
        let mut state = String::new();
        push_int(&mut state, g);
        state.append(" gets: ");
        push_int(&mut state, hits);
        state.append(" hits / ");
        push_int(&mut state, k.misses as i128);
        state.append(" misses, ");
        push_int(&mut state, k.evictions as i128);
        state.append(" evictions, size ");
        push_int(&mut state, k.size as i128);
        let suggestion = if k.evictions > k.hits {
            String::from_str(
                "Cache is thrashing — increase maximumSize or reconsider what is cached",
            )
        } else {
            String::from_str("Most lookups miss — check key design and TTL, or drop the cache")
        };
        let size2 = 2 * (k.size as i128);
        let mut config = lit_int(
            "spring.cache.caffeine.spec=maximumSize=",
            if size2 >= 1000 {
                size2
            } else {
                1000
            },
        );
        config.append(",expireAfterWrite=10m");
        Some(
            make_rec(
                "cache_hit_ratio",
                Category::Cache,
                if 5 * hits < g {
                    Severity::Warn
                } else {
                    Severity::Info
                },
                title,
                state,
                suggestion,
                "A cache below ~50% hit ratio often costs more than it saves",
                700_000,
                no_texts(),
                one_text(config),
            ),
        )
    }
}

// ─────────────────────────────── HTTP ───────────────────────────────

/// A GET endpoint that has been called.
pub open spec fn endpoint_eligible(e: HttpEndpointMetrics) -> bool {
    e.method@ == "GET"@ && e.count > 0
}

/// The eligible endpoint with the most calls (the last of equals, as
/// `Iterator::max_by_key` picks).
pub open spec fn hot_endpoint(es: Seq<HttpEndpointMetrics>) -> Option<int>
    decreases es.len(),
{
    if es.len() == 0 {
        None
    } else {
        let prev = hot_endpoint(es.drop_last());
        let k = es.len() - 1;
        if endpoint_eligible(es[k]) && (match prev {
            None => true,
            Some(p) => es[k].count >= es[p].count,
        }) {
            Some(k)
        } else {
            prev
        }
    }
}

pub proof fn lemma_hot_endpoint_in_range(es: Seq<HttpEndpointMetrics>)
    ensures
        hot_endpoint(es) matches Some(i) ==> 0 <= i < es.len() && endpoint_eligible(es[i]),
    decreases es.len(),
{
    if es.len() > 0 {
        lemma_hot_endpoint_in_range(es.drop_last());
    }
}

pub open spec fn http_cache_rec(c: JvmSnapshot) -> Option<RecommendationView> {
    let total = c.http.total_requests as int;
    if total < 1000 {
        None
    } else {
        match hot_endpoint(c.http.endpoints@) {
            None => None,
            Some(i) => {
                let e = c.http.endpoints@[i];
                let n = e.count as int;
                let tt = e.total_time_ms as int;
                if 2 * n < total || tt < 10_000_000 * n {
                    None
                } else {
                    Some(
                        rec_view(
                            "http_cache_candidate"@,
                            Category::Http,
                            Severity::Info,
                            "'"@ + e.uri@ + "' dominates traffic — cache candidate"@,
                            fixed_text(tdiv(n * 100_000_000, total), 0) + "% of all requests ("@
                                + int_text(n) + "), avg "@ + fixed_text(tdiv(tt, n), 1)
                                + "ms per call"@,
                            "Add @Cacheable on the handler's service call or HTTP Cache-Control headers"@,
                            "One hot, read-only endpoint is the cheapest big win caching offers"@,
                            600_000,
                            Seq::<Seq<char>>::empty(),
                            seq!["spring.cache.type=caffeine"@],
                        ),
                    )
                }
            },
        }
    }
}

/// One hot, slow-enough GET endpoint carrying half the traffic: a caching
/// candidate.
pub struct HttpCacheCandidateRule;

impl HttpCacheCandidateRule {
    pub fn id(&self) -> (r: &'static str)
        ensures
            r@ == "http_cache_candidate"@,
    {
        "http_cache_candidate"
    }

    pub fn name(&self) -> (r: &'static str)
        ensures
            r@ == "HTTP caching candidate"@,
    {
        "HTTP caching candidate"
    }

    pub fn evaluate(&self, current: &JvmSnapshot, history: &[JvmSnapshot]) -> (r: Option<
        Recommendation,
    >)
        ensures
            r matches Some(x) ==> http_cache_rec(*current) == Some(x@),
            r is None ==> http_cache_rec(*current) is None,
    {
        let total = current.http.total_requests as i128;
        if total < 1000 {
            return None;
        }
        let es = &current.http.endpoints;
        let mut best: Option<usize> = None;
        let mut j: usize = 0;
        while j < es.len()
            invariant
                j <= es@.len(),
                (match best {
                    Some(b) => Some(b as int),
                    None => None::<int>,
                }) == hot_endpoint(es@.take(j as int)),
            decreases es@.len() - j,
        {
            proof {
                assert(es@.take(j + 1).drop_last() =~= es@.take(j as int));
                lemma_hot_endpoint_in_range(es@.take(j as int));
            }
            let e = &es[j];
            if e.count > 0 && str_eq(e.method.as_str(), "GET") {
                let take = match best {
                    None => true,
                    Some(b) => e.count >= es[b].count,
                };
                if take {
                    best = Some(j);
                }
            }
            j += 1;
        }
        assert(es@.take(es@.len() as int) =~= es@);
        proof {
            lemma_hot_endpoint_in_range(es@);
        }
        let i = match best {
            Some(b) => b,
            None => {
                return None;
            },
        };
        let e = &es[i];
        let n = e.count as i128;
        let tt = e.total_time_ms as i128;
        if 2 * n < total || tt < 10_000_000 * n {
            return None;
        }
        let share = tdiv_i128(n * 100_000_000, total);
        let avg = tdiv_i128(tt, n);
        proof {
            crate::model::lemma_tdiv_bound(n * 100_000_000, total as int);
            crate::model::lemma_tdiv_bound(tt as int, n as int);
        }
        let mut title = String::from_str("'");
        title.append(e.uri.as_str());
        title.append("' dominates traffic — cache candidate");
        let mut state = String::new();
        push_fixed(&mut state, share, 0);
        state.append("% of all requests (");
        push_int(&mut state, n);
        state.append("), avg ");
        push_fixed(&mut state, avg, 1);
        state.append("ms per call");
        Some(
            make_rec(
                "http_cache_candidate",
                Category::Http,
                Severity::Info,
                title,
                state,
                String::from_str(
                    "Add @Cacheable on the handler's service call or HTTP Cache-Control headers",
                ),
                "One hot, read-only endpoint is the cheapest big win caching offers",
                600_000,
                no_texts(),
                one_text(String::from_str("spring.cache.type=caffeine")),
            ),
        )
    }
}

// ────────────────────────────── logging ──────────────────────────────

pub open spec fn log_volume_rec(c: JvmSnapshot, history: Seq<JvmSnapshot>) -> Option<
    RecommendationView,
> {
    let d = c.log_events.debug + c.log_events.trace;
    if d < 10_000 {
        None
    } else {
        let since_start = int_text(d) + " debug/trace events since startup"@;
        let state = if history.len() > 0 {
            let o = history[0];
            let diff = d - (o.log_events.debug + o.log_events.trace);
            let dt = max_int(tdiv(c.timestamp - o.timestamp, 1000), 1);
            if diff > 0 {
                int_text(d) + " debug/trace events total, ~"@ + fixed_text(
                    tdiv(diff * 1_000_000, dt),
                    0,
                ) + "/s currently"@
            } else {
                since_start
            }
        } else {
            since_start
        };
        Some(
            rec_view(
                "log_volume"@,
                Category::Logging,
                Severity::Info,
                "High DEBUG/TRACE log volume"@,
                state,
                "Raise the root log level; keep DEBUG only for specific loggers"@,
                "Verbose logging burns CPU, disk, and log-pipeline cost in production"@,
                600_000,
                Seq::<Seq<char>>::empty(),
                seq!["logging.level.root=INFO"@],
            ),
        )
    }
}

/// Ten thousand or more DEBUG/TRACE events: raise the root log level.
pub struct LogVolumeRule;

impl LogVolumeRule {
    pub fn id(&self) -> (r: &'static str)
        ensures
            r@ == "log_volume"@,
    {
        "log_volume"
    }

    pub fn name(&self) -> (r: &'static str)
        ensures
            r@ == "Excessive debug logging"@,
    {
        "Excessive debug logging"
    }

    pub fn evaluate(&self, current: &JvmSnapshot, history: &[JvmSnapshot]) -> (r: Option<
        Recommendation,
    >)
        ensures
            r matches Some(x) ==> log_volume_rec(*current, history@) == Some(x@),
            r is None ==> log_volume_rec(*current, history@) is None,
    {
        let d = current.log_events.debug as i128 + current.log_events.trace as i128;
        if d < 10_000 {
            return None;
        }
        let mut state = String::new();
        push_int(&mut state, d);
        let mut with_rate = false;
        if history.len() > 0 {
            let o = &history[0];
            let diff = d - (o.log_events.debug as i128 + o.log_events.trace as i128);
            let secs = tdiv_i128(current.timestamp as i128 - o.timestamp as i128, 1000);
            proof {
                crate::model::lemma_tdiv_bound(current.timestamp - o.timestamp, 1000);
            }
            let dt = if secs >= 1 {
                secs
            } else {
                1
            };
            if diff > 0 {
                let rate = tdiv_i128(diff * 1_000_000, dt);
                proof {
                    crate::model::lemma_tdiv_bound(diff * 1_000_000, dt as int);
                }
                state.append(" debug/trace events total, ~");
                push_fixed(&mut state, rate, 0);
                state.append("/s currently");
                with_rate = true;
            }
        }
        if !with_rate {
            state.append(" debug/trace events since startup");
        }
        Some(
            make_rec(
                "log_volume",
                Category::Logging,
                Severity::Info,
                String::from_str("High DEBUG/TRACE log volume"),
                state,
                String::from_str("Raise the root log level; keep DEBUG only for specific loggers"),
                "Verbose logging burns CPU, disk, and log-pipeline cost in production",
                600_000,
                no_texts(),
                one_text(String::from_str("logging.level.root=INFO")),
            ),
        )
    }
}

// ───────────────────────────── registry ─────────────────────────────

/// The built-in rules.
#[derive(Debug, Clone, Copy, PartialEq, Eq)]
pub enum Rule {
    IncreaseHeap,
    SetXmsEqualsXmx,
    SwitchToZgc,
    HikariPoolSize,
    HikariSlowAcquire,
    TomcatThreads,
    TomcatConnectionLimit,
    ExecutorBacklog,
    ExecutorOversized,
    CacheHitRatio,
    HttpCacheCandidate,
    LogVolume,
}

/// What a rule recommends for a snapshot and its history.
pub open spec fn rule_rec(
    rule: Rule,
    current: JvmSnapshot,
    history: Seq<JvmSnapshot>,
) -> Option<RecommendationView> {
    match rule {
        Rule::IncreaseHeap => increase_heap_rec(current),
        Rule::SetXmsEqualsXmx => set_xms_rec(current),
        Rule::SwitchToZgc => zgc_rec(current),
        Rule::HikariPoolSize => hikari_pool_rec(current, history),
        Rule::HikariSlowAcquire => hikari_slow_rec(current),
        Rule::TomcatThreads => tomcat_threads_rec(current),
        Rule::TomcatConnectionLimit => tomcat_connections_rec(current),
        Rule::ExecutorBacklog => executor_backlog_rec(current, history),
        Rule::ExecutorOversized => executor_oversized_rec(current, history),
        Rule::CacheHitRatio => cache_rec(current),
        Rule::HttpCacheCandidate => http_cache_rec(current),
        Rule::LogVolume => log_volume_rec(current, history),
    }
}

/// What a rule needs of its inputs (the totals it takes fit in `i64`).
pub open spec fn rule_fits(rule: Rule, current: JvmSnapshot) -> bool {
    match rule {
        Rule::SwitchToZgc => zgc_fits(current),
        _ => true,
    }
}

/// Runs one built-in rule.
pub fn run_rule(rule: Rule, current: &JvmSnapshot, history: &[JvmSnapshot]) -> (r: Option<
    Recommendation,
>)
    requires
        rule_fits(rule, *current),
    ensures
        r matches Some(x) ==> rule_rec(rule, *current, history@) == Some(x@),
        r is None ==> rule_rec(rule, *current, history@) is None,
{
    match rule {
        Rule::IncreaseHeap => IncreaseHeapRule.evaluate(current, history),
        Rule::SetXmsEqualsXmx => SetXmsEqualsXmxRule.evaluate(current, history),
        Rule::SwitchToZgc => SwitchToZgcRule.evaluate(current, history),
        Rule::HikariPoolSize => HikariPoolSizeRule.evaluate(current, history),
        Rule::HikariSlowAcquire => HikariSlowAcquireRule.evaluate(current, history),
        Rule::TomcatThreads => TomcatThreadRule.evaluate(current, history),
        Rule::TomcatConnectionLimit => TomcatConnectionLimitRule.evaluate(current, history),
        Rule::ExecutorBacklog => ExecutorBacklogRule.evaluate(current, history),
        Rule::ExecutorOversized => ExecutorOversizedRule.evaluate(current, history),
        Rule::CacheHitRatio => CacheHitRatioRule.evaluate(current, history),
        Rule::HttpCacheCandidate => HttpCacheCandidateRule.evaluate(current, history),
        Rule::LogVolume => LogVolumeRule.evaluate(current, history),
    }
}

/// The built-in rules in the order the default engine runs them: the JVM
/// rules, then the application rules.
pub open spec fn default_rules() -> Seq<Rule> {
    seq![
        Rule::IncreaseHeap,
        Rule::SetXmsEqualsXmx,
        Rule::SwitchToZgc,
        Rule::HikariPoolSize,
        Rule::HikariSlowAcquire,
        Rule::TomcatThreads,
        Rule::TomcatConnectionLimit,
        Rule::ExecutorBacklog,
        Rule::ExecutorOversized,
        Rule::CacheHitRatio,
        Rule::HttpCacheCandidate,
        Rule::LogVolume,
    ]
}

/// An engine with every built-in rule and a confidence threshold of one
/// half.
pub fn default_engine() -> (e: RecommendationEngine)
    ensures
        e.rules() == default_rules(),
        e.threshold() == 500_000,
{
    let mut engine = RecommendationEngine::new(500_000);
    engine.register(Rule::IncreaseHeap);
    engine.register(Rule::SetXmsEqualsXmx);
    engine.register(Rule::SwitchToZgc);
    engine.register(Rule::HikariPoolSize);
    engine.register(Rule::HikariSlowAcquire);
    engine.register(Rule::TomcatThreads);
    engine.register(Rule::TomcatConnectionLimit);
    engine.register(Rule::ExecutorBacklog);
    engine.register(Rule::ExecutorOversized);
    engine.register(Rule::CacheHitRatio);
    engine.register(Rule::HttpCacheCandidate);
    engine.register(Rule::LogVolume);
    assert(engine.rules() =~= default_rules());
    engine
}

/// The default engine holds twelve rules, each built-in rule once.
pub proof fn lemma_default_rules_complete()
    ensures
        default_rules().len() == 12,
        forall|i: int, j: int|
            0 <= i < j < 12 ==> #[trigger] default_rules()[i] != #[trigger] default_rules()[j],
        forall|r: Rule| #[trigger] default_rules().contains(r),
{
    let d = default_rules();
    assert(d[0] == Rule::IncreaseHeap);
    assert(d[1] == Rule::SetXmsEqualsXmx);
    assert(d[2] == Rule::SwitchToZgc);
    assert(d[3] == Rule::HikariPoolSize);
    assert(d[4] == Rule::HikariSlowAcquire);
    assert(d[5] == Rule::TomcatThreads);
    assert(d[6] == Rule::TomcatConnectionLimit);
    assert(d[7] == Rule::ExecutorBacklog);
    assert(d[8] == Rule::ExecutorOversized);
    assert(d[9] == Rule::CacheHitRatio);
    assert(d[10] == Rule::HttpCacheCandidate);
    assert(d[11] == Rule::LogVolume);
    assert forall|r: Rule| #[trigger] d.contains(r) by {
        match r {
            Rule::IncreaseHeap => assert(d[0] == r),
            Rule::SetXmsEqualsXmx => assert(d[1] == r),
            Rule::SwitchToZgc => assert(d[2] == r),
            Rule::HikariPoolSize => assert(d[3] == r),
            Rule::HikariSlowAcquire => assert(d[4] == r),
            Rule::TomcatThreads => assert(d[5] == r),
            Rule::TomcatConnectionLimit => assert(d[6] == r),
            Rule::ExecutorBacklog => assert(d[7] == r),
            Rule::ExecutorOversized => assert(d[8] == r),
            Rule::CacheHitRatio => assert(d[9] == r),
            Rule::HttpCacheCandidate => assert(d[10] == r),
            Rule::LogVolume => assert(d[11] == r),
        }
    }
}

/// HikariCP pool sizing: a busy pool (above 90% in use, or full with
/// callers waiting) smaller than `2 × cores + 1` is told to grow to exactly
/// `2 × cores + 1`; and whenever the rule asks the pool to grow, that is the
/// size it asks for, and it is above the current maximum.
pub proof fn lemma_hikari_pool_sizing(c: JvmSnapshot, history: Seq<JvmSnapshot>)
    ensures
        match c.hikari {
            Some(h) => h.max > 0 && (10 * h.active > 9 * h.max || (h.active >= h.max && h.pending
                > 0)) && 2 * (c.cpu.available_processors as int) + 1 > h.max ==> match hikari_pool_rec(
                c,
                history,
            ) {
                Some(r) => {
                    &&& r.id == "hikari_pool_size"@
                    &&& r.severity == Severity::High
                    &&& r.suggestion == "Increase maximumPoolSize from "@ + int_text(h.max as int)
                        + " to "@ + int_text(2 * (c.cpu.available_processors as int) + 1)
                    &&& r.config_changes == seq![
                        "spring.datasource.hikari.maximum-pool-size="@ + int_text(
                            2 * (c.cpu.available_processors as int) + 1,
                        ),
                    ]
                },
                None => false,
            },
            None => true,
        },
        match hikari_pool_rec(c, history) {
            Some(r) => r.id == "hikari_pool_size"@ ==> {
                &&& match c.hikari {
                    Some(h) => 2 * (c.cpu.available_processors as int) + 1 > h.max,
                    None => false,
                }
                &&& r.config_changes == seq![
                    "spring.datasource.hikari.maximum-pool-size="@ + int_text(
                        2 * (c.cpu.available_processors as int) + 1,
                    ),
                ]
            },
            None => true,
        },
{
    reveal_strlit("hikari_pool_size");
    reveal_strlit("hikari_pool_oversized");
    assert("hikari_pool_size"@.len() != "hikari_pool_oversized"@.len());
}

/// Heap sizing: with post-GC occupancy `p` of a heap of `max` bytes, the
/// rule stays silent below 70% and otherwise asks for half again the
/// current maximum (in whole MiB, rounded down) for both `-Xmx` and `-Xms`,
/// urgently above 85%; with no post-GC figure it stays silent.
pub proof fn lemma_heap_sizing(c: JvmSnapshot)
    ensures
        match crate::model::post_gc_sum(c.memory_pools@) {
            None => increase_heap_rec(c) is None,
            Some(p) => {
                let max = c.heap.max as int;
                let sug = 3 * (max / 1_048_576) / 2;
                &&& (max <= 0 || 100 * p < 70 * max) ==> increase_heap_rec(c) is None
                &&& (max > 0 && 100 * p >= 70 * max) ==> match increase_heap_rec(c) {
                    Some(r) => {
                        &&& r.id == "increase_xmx"@
                        &&& r.jvm_flags == seq![
                            "-Xmx"@ + int_text(sug) + "m"@,
                            "-Xms"@ + int_text(sug) + "m"@,
                        ]
                        &&& (r.severity == Severity::High <==> 100 * p > 85 * max)
                    },
                    None => false,
                }
            },
        },
{
}

/// ZGC is suggested only for heaps above 16 GiB, on Java 15 or later, and
/// never to a JVM that already runs ZGC.
pub proof fn lemma_zgc_scope(c: JvmSnapshot)
    ensures
        c.heap.max <= 17_179_869_184 ==> zgc_rec(c) is None,
        c.jvm_info.gc_algorithm == GcAlgorithm::Zgc || c.jvm_info.gc_algorithm
            == GcAlgorithm::ZgcGenerational ==> zgc_rec(c) is None,
        (match java_major_spec(c.jvm_info.spec_version@) {
            Some(v) => v < 15,
            None => true,
        }) ==> zgc_rec(c) is None,
{
}

/// Tomcat threads: with `busy` of `max` worker threads busy (`max > 0`),
/// the pool is flagged exactly when more than 80% are busy, urgently above
/// 95%.
pub proof fn lemma_tomcat_threads_threshold(c: JvmSnapshot)
    ensures
        match c.tomcat {
            None => tomcat_threads_rec(c) is None,
            Some(t) => t.threads_max > 0 ==> {
                let busy = t.threads_busy as int;
                let max = t.threads_max as int;
                &&& (tomcat_threads_rec(c) is Some <==> 5 * busy > 4 * max)
                &&& (match tomcat_threads_rec(c) {
                    Some(r) => r.severity == Severity::High <==> 20 * busy > 19 * max,
                    None => true,
                })
            },
        },
{
}

/// Tomcat connections: with `cur` of `max` connections open (`max > 0`),
/// the limit is flagged exactly when at least 80% are in use, urgently
/// above 95%.
pub proof fn lemma_tomcat_connections_threshold(c: JvmSnapshot)
    ensures
        match c.tomcat {
            None => tomcat_connections_rec(c) is None,
            Some(t) => t.connections_max > 0 ==> {
                let cur = t.connections_current as int;
                let max = t.connections_max as int;
                &&& (tomcat_connections_rec(c) is Some <==> 5 * cur >= 4 * max)
                &&& (match tomcat_connections_rec(c) {
                    Some(r) => r.severity == Severity::High <==> 20 * cur > 19 * max,
                    None => true,
                })
            },
        },
{
}

/// Log volume: ten thousand or more DEBUG and TRACE events since startup
/// bring the advice to set the root level to INFO, fewer bring none.
pub proof fn lemma_log_volume_threshold(c: JvmSnapshot, history: Seq<JvmSnapshot>)
    ensures
        (log_volume_rec(c, history) is Some) == (c.log_events.debug + c.log_events.trace >= 10_000),
        match log_volume_rec(c, history) {
            Some(r) => r.config_changes == seq!["logging.level.root=INFO"@],
            None => true,
        },
{
}

/// ZGC advice: on a non-ZGC JVM of Java 15 or later with a heap above
/// 16 GiB and `n > 0` collections taking `t` ms in all, ZGC is suggested
/// exactly when the average pause `t / n` is 30 ms or more, with the
/// generational mode on Java 21 and later.
pub proof fn lemma_zgc_pause_threshold(c: JvmSnapshot)
    ensures
        ({
            let alg = c.jvm_info.gc_algorithm;
            let t = seq_sum(gc_times(c.gc_collectors@));
            let n = seq_sum(gc_counts(c.gc_collectors@));
            let ver: int = match java_major_spec(c.jvm_info.spec_version@) {
                Some(v) => v,
                None => 0,
            };
            alg != GcAlgorithm::Zgc && alg != GcAlgorithm::ZgcGenerational && c.heap.max
                > 17_179_869_184 && ver >= 15 && n > 0 ==> {
                &&& (zgc_rec(c) is Some <==> t >= 30 * n)
                &&& match zgc_rec(c) {
                    Some(r) => r.jvm_flags == if ver >= 21 {
                        seq!["-XX:+UseZGC"@, "-XX:+ZGenerational"@]
                    } else {
                        seq!["-XX:+UseZGC"@]
                    },
                    None => true,
                }
            }
        }),
{
}

} // verus!
