//! Combining what the collectors bring: rates derived from two consecutive
//! snapshots, the merge of a Jolokia snapshot into an Actuator one, and the
//! bounded histories the interface keeps.

use vstd::prelude::*;
use crate::detectors::{gc_times, seq_sum, sum_gc_time, sums_fit};
use crate::model::{tdiv, tdiv_i128, DerivedMetrics, GcAlgorithm, JvmInfo, JvmSnapshot};
use crate::timeseries::keep_last;

verus! {

/// `x` held to the `i64` range.
pub open spec fn clamp_i64(x: int) -> int {
    if x > i64::MAX {
        i64::MAX as int
    } else if x < i64::MIN {
        i64::MIN as int
    } else {
        x
    }
}

/// The larger of `x` and 0.
pub open spec fn non_negative(x: int) -> int {
    if x > 0 {
        x
    } else {
        0
    }
}

/// The rates between snapshot `old` and snapshot `new`, in millionths:
/// the time between them is taken as at least 1 ms; heap growth and new
/// requests are per second, GC overhead is the share of that time spent in
/// GC, throughput the rest, and the error rate the share of new requests
/// that failed (0 without new requests).
pub open spec fn derived_spec(old: JvmSnapshot, new: JvmSnapshot) -> DerivedMetrics {
    let dt = if new.timestamp - old.timestamp > 1 {
        new.timestamp - old.timestamp
    } else {
        1
    };
    let gc = non_negative(seq_sum(gc_times(new.gc_collectors@)) - seq_sum(gc_times(old.gc_collectors@)));
    let heap = non_negative(new.heap.used - old.heap.used);
    let reqs = non_negative(new.http.total_requests - old.http.total_requests);
    let errs = non_negative(new.http.total_errors - old.http.total_errors);
    DerivedMetrics {
        allocation_rate_bytes_per_sec: clamp_i64(tdiv(heap * 1_000_000_000, dt)) as i64,
        promotion_rate_bytes_per_sec: 0,
        gc_throughput: clamp_i64(1_000_000 - tdiv(gc * 1_000_000, dt)) as i64,
        gc_overhead: clamp_i64(tdiv(gc * 1_000_000, dt)) as i64,
        http_requests_per_sec: clamp_i64(tdiv(reqs * 1_000_000_000, dt)) as i64,
        http_error_rate: if reqs > 0 {
            clamp_i64(tdiv(errs * 1_000_000, reqs)) as i64
        } else {
            0
        },
    }
}

fn clamp_exec(x: i128) -> (r: i64)
    ensures
        r == clamp_i64(x as int),
{
    if x > i64::MAX as i128 {
        i64::MAX
    } else if x < i64::MIN as i128 {
        i64::MIN
    } else {
        x as i64
    }
}

/// The rates between two consecutive snapshots.
pub fn compute_derived(old: &JvmSnapshot, new: &JvmSnapshot) -> (r: DerivedMetrics)
    requires
        sums_fit(gc_times(old.gc_collectors@)),
        sums_fit(gc_times(new.gc_collectors@)),
    ensures
        r == derived_spec(*old, *new),
{
    let d = new.timestamp as i128 - old.timestamp as i128;
    let dt: i128 = if d > 1 { d } else { 1 };
    let g = sum_gc_time(&new.gc_collectors) - sum_gc_time(&old.gc_collectors);
    let gc: i128 = if g > 0 { g } else { 0 };
    let h = new.heap.used as i128 - old.heap.used as i128;
    let heap: i128 = if h > 0 { h } else { 0 };
    let q = new.http.total_requests as i128 - old.http.total_requests as i128;
    let reqs: i128 = if q > 0 { q } else { 0 };
    let e = new.http.total_errors as i128 - old.http.total_errors as i128;
    let errs: i128 = if e > 0 { e } else { 0 };
    proof {
        assert(0 <= heap * 1_000_000_000 <= 0x1_0000_0000_0000_0000 * 1_000_000_000) by (nonlinear_arith)
            requires 0 <= heap <= 0x1_0000_0000_0000_0000;
        assert(0 <= gc * 1_000_000 <= 0x1_0000_0000_0000_0000 * 1_000_000) by (nonlinear_arith)
            requires 0 <= gc <= 0x1_0000_0000_0000_0000;
        assert(0 <= reqs * 1_000_000_000 <= 0x1_0000_0000_0000_0000 * 1_000_000_000) by (nonlinear_arith)
            requires 0 <= reqs <= 0x1_0000_0000_0000_0000;
        assert(0 <= errs * 1_000_000 <= 0x1_0000_0000_0000_0000 * 1_000_000) by (nonlinear_arith)
            requires 0 <= errs <= 0x1_0000_0000_0000_0000;
        assert(tdiv(gc * 1_000_000, dt as int) <= gc * 1_000_000) by (nonlinear_arith)
            requires gc >= 0, dt >= 1;
    }
    let over = tdiv_i128(gc * 1_000_000, dt);
    DerivedMetrics {
        allocation_rate_bytes_per_sec: clamp_exec(tdiv_i128(heap * 1_000_000_000, dt)),
        promotion_rate_bytes_per_sec: 0,
        gc_throughput: clamp_exec(1_000_000 - over),
        gc_overhead: clamp_exec(over),
        http_requests_per_sec: clamp_exec(tdiv_i128(reqs * 1_000_000_000, dt)),
        http_error_rate: if reqs > 0 {
            clamp_exec(tdiv_i128(errs * 1_000_000, reqs))
        } else {
            0
        },
    }
}

/// The identity part of `a`'s JVM information replaced by `j`'s, as when
/// a Jolokia reply named the VM.
pub open spec fn with_identity(a: JvmInfo, j: JvmInfo) -> JvmInfo {
    JvmInfo {
        vm_name: j.vm_name,
        vm_vendor: j.vm_vendor,
        vm_version: j.vm_version,
        spec_version: j.spec_version,
        uptime_ms: a.uptime_ms,
        input_arguments: j.input_arguments,
        gc_algorithm: a.gc_algorithm,
        max_heap_bytes: j.max_heap_bytes,
        initial_heap_bytes: j.initial_heap_bytes,
    }
}

/// The JVM information of a merge: the VM identity from Jolokia when it
/// named the VM, its uptime when positive, its collector when known.
pub open spec fn merged_info(a: JvmInfo, j: JvmInfo) -> JvmInfo {
    let i1 = if j.vm_name@.len() > 0 {
        with_identity(a, j)
    } else {
        a
    };
    let i2 = if j.uptime_ms > 0 {
        JvmInfo { uptime_ms: j.uptime_ms, ..i1 }
    } else {
        i1
    };
    if j.gc_algorithm != GcAlgorithm::Unknown {
        JvmInfo { gc_algorithm: j.gc_algorithm, ..i2 }
    } else {
        i2
    }
}

/// The Actuator snapshot `a` completed by the Jolokia snapshot `j`, taken
/// at `now`: Jolokia's deadlocks when it found any, its JVM information as
/// [`merged_info`] says, and its memory pools when it has more of them.
pub open spec fn merged(a: JvmSnapshot, j: JvmSnapshot, now: int) -> JvmSnapshot {
    JvmSnapshot {
        timestamp: now as i64,
        deadlocks: if j.deadlocks@.len() > 0 {
            j.deadlocks
        } else {
            a.deadlocks
        },
        jvm_info: merged_info(a.jvm_info, j.jvm_info),
        memory_pools: if j.memory_pools@.len() > a.memory_pools@.len() {
            j.memory_pools
        } else {
            a.memory_pools
        },
        ..a
    }
}

/// Merges a Jolokia snapshot into an Actuator snapshot, stamped `now`.
pub fn merge_snapshots_at(actuator: JvmSnapshot, jolokia: JvmSnapshot, now: i64) -> (r: JvmSnapshot)
    ensures
        r == merged(actuator, jolokia, now as int),
{
    let mut m = actuator;
    let j = jolokia;
    let JvmSnapshot { deadlocks, jvm_info, memory_pools, .. } = j;
    if deadlocks.len() > 0 {
        m.deadlocks = deadlocks;
    }
    let JvmInfo {
        vm_name,
        vm_vendor,
        vm_version,
        spec_version,
        uptime_ms,
        input_arguments,
        gc_algorithm,
        max_heap_bytes,
        initial_heap_bytes,
    } = jvm_info;
    if vm_name.as_str().unicode_len() > 0 {
        m.jvm_info.vm_name = vm_name;
        m.jvm_info.vm_vendor = vm_vendor;
        m.jvm_info.vm_version = vm_version;
        m.jvm_info.spec_version = spec_version;
        m.jvm_info.input_arguments = input_arguments;
        m.jvm_info.max_heap_bytes = max_heap_bytes;
        m.jvm_info.initial_heap_bytes = initial_heap_bytes;
    }
    if uptime_ms > 0 {
        m.jvm_info.uptime_ms = uptime_ms;
    }
    if !matches!(gc_algorithm, GcAlgorithm::Unknown) {
        m.jvm_info.gc_algorithm = gc_algorithm;
    }
    if memory_pools.len() > m.memory_pools.len() {
        m.memory_pools = memory_pools;
    }
    m.timestamp = now;
    m
}

/// Merges a Jolokia snapshot into an Actuator snapshot, stamped with the
/// current time.
pub fn merge_snapshots(actuator: JvmSnapshot, jolokia: JvmSnapshot) -> (r: JvmSnapshot)
    ensures
        exists|now: int| r == merged(actuator, jolokia, now),
{
    let now = crate::clock::now_millis();
    merge_snapshots_at(actuator, jolokia, now)
}

/// Appends `x` and drops the oldest items beyond `cap`.
pub fn push_bounded<T>(v: &mut Vec<T>, x: T, cap: usize)
    ensures
        final(v)@ == keep_last(old(v)@.push(x), cap as nat),
{
    v.push(x);
    let ghost full = v@;
    while v.len() > cap
        invariant
            full == old(v)@.push(x),
            full.len() >= v@.len(),
            v@.len() >= cap || v@ == full,
            v@ == full.skip(full.len() - v@.len()),
        decreases v@.len(),
    {
        let ghost before = v@;
        v.remove(0);
        assert(v@ =~= full.skip(full.len() - v@.len()));
    }
    proof {
        if full.len() <= cap {
            assert(full.skip(0) =~= full);
        }
    }
}

// ─────────────────────────── one-shot reading ───────────────────────────

/// The snapshot a one-shot reading gives: both sources' merged, or the one
/// that answered; `None` when neither did.
pub open spec fn once_snapshot(
    actuator: Option<Result<JvmSnapshot, String>>,
    jolokia: Option<Result<JvmSnapshot, String>>,
    now: int,
) -> Option<JvmSnapshot> {
    match (actuator, jolokia) {
        (Some(Ok(a)), Some(Ok(j))) => Some(merged(a, j, now)),
        (Some(Ok(a)), _) => Some(a),
        (_, Some(Ok(j))) => Some(j),
        _ => None,
    }
}

/// The warning for a source that was asked and failed: its label and the
/// error.
pub open spec fn source_warning(label: Seq<char>, r: Option<Result<JvmSnapshot, String>>) -> Seq<
    Seq<char>,
> {
    match r {
        Some(Err(e)) => seq![label + e@],
        _ => seq![],
    }
}

/// The warnings of a one-shot reading, Actuator first.
pub open spec fn once_warnings(
    actuator: Option<Result<JvmSnapshot, String>>,
    jolokia: Option<Result<JvmSnapshot, String>>,
) -> Seq<Seq<char>> {
    source_warning("actuator: "@, actuator) + source_warning("jolokia: "@, jolokia)
}

/// The texts of `v` joined by `sep`.
pub open spec fn joined(v: Seq<Seq<char>>, sep: Seq<char>) -> Seq<char>
    decreases v.len(),
{
    if v.len() == 0 {
        seq![]
    } else if v.len() == 1 {
        v[0]
    } else {
        joined(v.drop_last(), sep) + sep + v.last()
    }
}

/// The failure of a one-shot reading that no source answered, naming the
/// errors of the sources asked.
pub open spec fn unreachable_text(warnings: Seq<Seq<char>>) -> Seq<char> {
    "no data source reachable ("@ + (if warnings.len() == 0 {
        "no sources configured"@
    } else {
        joined(warnings, "; "@)
    }) + ")"@
}

/// The outcome of a one-shot reading from what each configured source gave
/// (`None` for a source not asked): the snapshot, merged when both
/// answered, with a warning for each source that failed; or, when no source
/// answered, the failure that makes the program exit with an error.
pub fn once_outcome(
    actuator: Option<Result<JvmSnapshot, String>>,
    jolokia: Option<Result<JvmSnapshot, String>>,
    now: i64,
) -> (r: Result<(JvmSnapshot, Vec<String>), String>)
    ensures
        r is Err <==> !(actuator matches Some(Ok(_)) || jolokia matches Some(Ok(_))),
        r matches Ok((s, w)) ==> once_snapshot(actuator, jolokia, now as int) == Some(s)
            && crate::recommend::texts(w@) == once_warnings(actuator, jolokia),
        r matches Err(m) ==> m@ == unreachable_text(once_warnings(actuator, jolokia)),
{
    proof {
        reveal_strlit("actuator: ");
        reveal_strlit("jolokia: ");
        reveal_strlit("no data source reachable (");
        reveal_strlit("no sources configured");
        reveal_strlit("; ");
        reveal_strlit(")");
    }
    let ghost a0 = actuator;
    let ghost j0 = jolokia;
    let mut warnings: Vec<String> = Vec::new();
    let mut snap: Option<JvmSnapshot> = None;
    match actuator {
        Some(Ok(a)) => {
            snap = Some(a);
        },
        Some(Err(e)) => {
            let mut w = String::from_str("actuator: ");
            w.append(e.as_str());
            warnings.push(w);
        },
        None => {},
    }
    assert(crate::recommend::texts(warnings@) =~= source_warning("actuator: "@, a0));
    let ghost w1 = crate::recommend::texts(warnings@);
    match jolokia {
        Some(Ok(j)) => {
            snap = Some(
                match snap {
                    Some(a) => merge_snapshots_at(a, j, now),
                    None => j,
                },
            );
        },
        Some(Err(e)) => {
            let mut w = String::from_str("jolokia: ");
            w.append(e.as_str());
            warnings.push(w);
            assert(crate::recommend::texts(warnings@) =~= w1.push(w@));
        },
        None => {},
    }
    assert(crate::recommend::texts(warnings@) =~= once_warnings(a0, j0));
    match snap {
        Some(s) => Ok((s, warnings)),
        None => {
            let mut m = String::from_str("no data source reachable (");
            if warnings.len() == 0 {
                m.append("no sources configured");
            } else if warnings.len() == 1 {
                m.append(warnings[0].as_str());
            } else {
                m.append(warnings[0].as_str());
                m.append("; ");
                m.append(warnings[1].as_str());
                proof {
                    let ws = crate::recommend::texts(warnings@);
                    assert(ws.len() == 2);
                    assert(ws.drop_last().len() == 1);
                    assert(joined(ws.drop_last(), "; "@) == ws[0]);
                }
            }
            m.append(")");
            Err(m)
        },
    }
}

} // verus!
