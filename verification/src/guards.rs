//! Tests of the conditions some operations need, for callers that hold
//! data from outside: each says exactly whether the condition holds.

use vstd::prelude::*;
use crate::anomaly::{detector_fits, AnomalyEngine};
use crate::detectors::{fits_i64, full_gc_counts, gc_pressure_fits, gc_times, is_full_collector, seq_sum, sums_fit};
use crate::model::{GcCollectorStats, JvmSnapshot};
use crate::prometheus::{braces_reversed, prom_text_ok, skipped_line};
use crate::rules::{gc_counts, rule_fits, zgc_fits};
use crate::recommend::RecommendationEngine;
use crate::text::{chars_of, index_of, lines, lines_of, trim, trimmed, views};

verus! {

fn sums_fit_exec(xs: &Vec<i64>) -> (r: bool)
    ensures
        r == sums_fit(xs@.map_values(|x: i64| x as int)),
{
    let ghost s = xs@.map_values(|x: i64| x as int);
    let mut acc: i128 = 0;
    let mut i: usize = 0;
    assert(s.take(0) =~= Seq::<int>::empty());
    while i < xs.len()
        invariant
            s == xs@.map_values(|x: i64| x as int),
            i <= xs@.len(),
            acc == seq_sum(s.take(i as int)),
            forall|k: int| 0 <= k <= i ==> fits_i64(#[trigger] seq_sum(s.take(k))),
        decreases xs@.len() - i,
    {
        assert(s.take(i + 1).drop_last() =~= s.take(i as int));
        acc = acc + xs[i] as i128;
        if acc < i64::MIN as i128 || acc > i64::MAX as i128 {
            assert(!fits_i64(seq_sum(s.take(i + 1))));
            return false;
        }
        i += 1;
    }
    assert forall|k: int| 0 <= k <= s.len() implies fits_i64(#[trigger] seq_sum(s.take(k))) by {}
    true
}

fn times_of(cs: &[GcCollectorStats]) -> (r: Vec<i64>)
    ensures
        r@.map_values(|x: i64| x as int) == gc_times(cs@),
{
    let mut v: Vec<i64> = Vec::new();
    let mut i: usize = 0;
    while i < cs.len()
        invariant
            i <= cs@.len(),
            v@.len() == i,
            forall|k: int| 0 <= k < i ==> v@[k] == cs@[k].collection_time_ms,
        decreases cs@.len() - i,
    {
        v.push(cs[i].collection_time_ms);
        i += 1;
    }
    assert(v@.map_values(|x: i64| x as int) =~= gc_times(cs@));
    v
}

fn counts_of(cs: &[GcCollectorStats]) -> (r: Vec<i64>)
    ensures
        r@.map_values(|x: i64| x as int) == gc_counts(cs@),
{
    let mut v: Vec<i64> = Vec::new();
    let mut i: usize = 0;
    while i < cs.len()
        invariant
            i <= cs@.len(),
            v@.len() == i,
            forall|k: int| 0 <= k < i ==> v@[k] == cs@[k].collection_count,
        decreases cs@.len() - i,
    {
        v.push(cs[i].collection_count);
        i += 1;
    }
    assert(v@.map_values(|x: i64| x as int) =~= gc_counts(cs@));
    v
}

fn full_counts_of(cs: &[GcCollectorStats]) -> (r: Vec<i64>)
    ensures
        r@.map_values(|x: i64| x as int) == full_gc_counts(cs@),
{
    let mut v: Vec<i64> = Vec::new();
    let mut i: usize = 0;
    assert(cs@.take(0) =~= Seq::<GcCollectorStats>::empty());
    while i < cs.len()
        invariant
            i <= cs@.len(),
            v@.map_values(|x: i64| x as int) == full_gc_counts(cs@.take(i as int)),
        decreases cs@.len() - i,
    {
        assert(cs@.take(i + 1).drop_last() =~= cs@.take(i as int));
        let ghost before = v@;
        if crate::detectors::is_full_collector_exec(&cs[i]) {
            v.push(cs[i].collection_count);
            assert(v@.map_values(|x: i64| x as int) =~= before.map_values(|x: i64| x as int).push(
                cs@[i as int].collection_count as int,
            ));
        }
        i += 1;
    }
    assert(cs@.take(i as int) =~= cs@);
    v
}

/// Whether the running totals of a snapshot's GC time fit an `i64`, as the
/// rates between two snapshots need.
pub fn gc_time_sums_fit(c: &JvmSnapshot) -> (r: bool)
    ensures
        r == sums_fit(gc_times(c.gc_collectors@)),
{
    sums_fit_exec(&times_of(&c.gc_collectors))
}

/// Whether the sums of GC time and counts of a snapshot fit an `i64`, as
/// recommending ZGC needs.
pub fn zgc_inputs_fit(c: &JvmSnapshot) -> (r: bool)
    ensures
        r == zgc_fits(*c),
{
    sums_fit_exec(&times_of(&c.gc_collectors)) && sums_fit_exec(&counts_of(&c.gc_collectors))
}

/// Whether the sums the GC-pressure detector makes fit an `i64`.
pub fn gc_pressure_inputs_fit(current: &JvmSnapshot, history: &[JvmSnapshot]) -> (r: bool)
    ensures
        r == gc_pressure_fits(*current, history@),
{
    if !sums_fit_exec(&full_counts_of(&current.gc_collectors)) {
        return false;
    }
    if history.len() < 2 {
        return true;
    }
    let first = &history[0];
    let t = times_of(&current.gc_collectors);
    let f = times_of(&first.gc_collectors);
    if !sums_fit_exec(&t) || !sums_fit_exec(&f) {
        return false;
    }
    let a = crate::detectors::sum_gc_time(&current.gc_collectors);
    let b = crate::detectors::sum_gc_time(&first.gc_collectors);
    let d = a - b;
    let u = current.jvm_info.uptime_ms as i128 - first.jvm_info.uptime_ms as i128;
    i64::MIN as i128 <= d && d <= i64::MAX as i128 && i64::MIN as i128 <= u && u <= i64::MAX as i128
}

/// Whether every detector of `engine` can run on these snapshots.
pub fn engine_inputs_fit(engine: &AnomalyEngine, current: &JvmSnapshot, history: &[JvmSnapshot]) -> (r: bool)
    ensures
        r == forall|i: int|
            0 <= i < engine.detectors().len() ==> detector_fits(
                #[trigger] engine.detectors()[i],
                *current,
                history@,
            ),
{
    let ok = gc_pressure_inputs_fit(current, history);
    let n = engine.detector_count();
    proof {
        assert forall|i: int| 0 <= i < engine.detectors().len() implies detector_fits(
            #[trigger] engine.detectors()[i],
            *current,
            history@,
        ) <== ok by {}
    }
    if ok {
        return true;
    }
    let mut i: usize = 0;
    while i < n
        invariant
            n == engine.detectors().len(),
            !gc_pressure_fits(*current, history@),
            i <= n,
            forall|k: int| 0 <= k < i ==> engine.detectors()[k] != crate::anomaly::Detector::GcPressure,
        decreases n - i,
    {
        if matches!(engine.detector_at(i), crate::anomaly::Detector::GcPressure) {
            assert(!detector_fits(engine.detectors()[i as int], *current, history@));
            return false;
        }
        i += 1;
    }
    true
}

/// Whether every rule of `engine` can run on this snapshot.
pub fn rules_inputs_fit(engine: &RecommendationEngine, current: &JvmSnapshot) -> (r: bool)
    ensures
        r == forall|i: int| 0 <= i < engine.rules().len() ==> rule_fits(#[trigger] engine.rules()[i], *current),
{
    let ok = zgc_inputs_fit(current);
    if ok {
        return true;
    }
    let n = engine.rule_count();
    let mut i: usize = 0;
    while i < n
        invariant
            n == engine.rules().len(),
            !zgc_fits(*current),
            i <= n,
            forall|k: int| 0 <= k < i ==> engine.rules()[k] != crate::rules::Rule::SwitchToZgc,
        decreases n - i,
    {
        if matches!(engine.rule_at(i), crate::rules::Rule::SwitchToZgc) {
            return false;
        }
        i += 1;
    }
    true
}

/// Whether a Prometheus text can be read: no sample line has its first
/// `}` before its first `{`.
pub fn prometheus_text_fits(text: &str) -> (r: bool)
    ensures
        r == prom_text_ok(text@),
{
    let chars = chars_of(text);
    let ls = lines_of(&chars);
    let ghost lv = lines(text@);
    let mut i: usize = 0;
    while i < ls.len()
        invariant
            i <= ls@.len(),
            views(ls@) == lv,
            lv == lines(text@),
            forall|k: int| 0 <= k < i ==> !skipped_line(trim(#[trigger] lv[k])) ==> !braces_reversed(trim(lv[k])),
        decreases ls@.len() - i,
    {
        let t = trimmed(&ls[i]);
        assert(lv[i as int] == ls@[i as int]@);
        if !(t.len() == 0 || t[0] == '#') {
            let b = index_of(&t, '{', 0);
            let e = index_of(&t, '}', 0);
            if b < t.len() && e < b {
                return false;
            }
        }
        i += 1;
    }
    true
}

} // verus!
