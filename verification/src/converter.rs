//! From a Prometheus scrape of `/actuator/prometheus` to a snapshot, with
//! metric names resolved through the normalization registry so that Spring
//! Boot 2.x and 3.x names both work.
//!
//! Sample values are in millionths; whole figures are truncated toward zero
//! and saturated at the bounds of their field, as `as` does on a float.

use vstd::prelude::*;
use vstd::string::StringExecFns;
use crate::clock::now_millis;
use crate::model::{
    ClassMetrics, CpuMetrics, HikariMetrics, HttpEndpointMetrics, HttpSummary, JvmSnapshot,
    MemoryPool, MemoryUsage, PoolType, ThreadState, ThreadSummary, TomcatMetrics,
    is_empty_snapshot, same_state, tdiv, tdiv_i128,
};
use crate::normalize::{
    CanonicalMetric, MappingView, MetricRegistry, default_mappings, first_gauge, names_for,
    resolve_in,
};
use crate::prometheus::{
    Sample, SampleView, label_get, label_value, parse_prometheus_text, prom_samples, prom_text_ok,
    sample_views, str_pairs,
};
use crate::text::{lines, str_eq, starts_with};

verus! {

// ───────────────────────────── figures ─────────────────────────────

pub open spec fn clamp_i64(x: int) -> int {
    if x > i64::MAX {
        i64::MAX as int
    } else if x < i64::MIN {
        i64::MIN as int
    } else {
        x
    }
}

pub open spec fn clamp_i32(x: int) -> int {
    if x > i32::MAX {
        i32::MAX as int
    } else if x < i32::MIN {
        i32::MIN as int
    } else {
        x
    }
}

/// Millionths to whole units, truncated toward zero.
pub open spec fn whole(v: int) -> int {
    tdiv(v, 1_000_000)
}

pub open spec fn or_default(o: Option<int>, d: int) -> int {
    match o {
        Some(v) => v,
        None => d,
    }
}

/// The value of the first name variant of `c` found among the samples.
pub open spec fn gauge_of(
    ms: Seq<MappingView>,
    ss: Seq<SampleView>,
    c: CanonicalMetric,
    labels: Seq<(Seq<char>, Seq<char>)>,
) -> Option<int> {
    first_gauge(names_for(ms, c), ss, labels)
}

pub open spec fn resolves(ms: Seq<MappingView>, s: SampleView, c: CanonicalMetric) -> bool {
    resolve_in(ms, s.name) == Some(c)
}

fn clamp64(x: i128) -> (r: i64)
    ensures
        r == clamp_i64(x as int),
{
    if x > i64::MAX as i128 {
        i64::MAX
    } else if x < i64::MIN as i128 {
        i64::MIN
    } else {
        x as i64
    }
}

fn clamp32(x: i128) -> (r: i32)
    ensures
        r == clamp_i32(x as int),
{
    if x > i32::MAX as i128 {
        i32::MAX
    } else if x < i32::MIN as i128 {
        i32::MIN
    } else {
        x as i32
    }
}

fn whole_exec(v: i128) -> (r: i128)
    requires
        v > i128::MIN,
    ensures
        r == whole(v as int),
        v >= 0 ==> 0 <= r <= v,
        v < 0 ==> v <= r <= 0,
{
    proof {
        crate::model::lemma_tdiv_bound(v as int, 1_000_000);
    }
    tdiv_i128(v, 1_000_000)
}

fn resolves_exec(reg: &MetricRegistry, s: &Sample, c: CanonicalMetric) -> (b: bool)
    ensures
        b == resolves(reg.mappings(), s@, c),
{
    match reg.resolve_prometheus(s.name.as_str()) {
        Some(x) => x == c,
        None => false,
    }
}

/// `label == value` for the label `key` of a sample.
fn label_is(s: &Sample, key: &str, value: &str) -> (b: bool)
    ensures
        b == (label_get(s@.labels, key@) == Some(value@)),
{
    match label_value(s, key) {
        Some(v) => str_eq(v.as_str(), value),
        None => false,
    }
}

fn gauge(reg: &MetricRegistry, samples: &[Sample], c: CanonicalMetric) -> (r: Option<i64>)
    ensures
        (match r {
            Some(v) => Some(v as int),
            None => None::<int>,
        }) == gauge_of(reg.mappings(), sample_views(samples@), c, Seq::empty()),
{
    let no: [(&str, &str); 0] = [];
    assert(str_pairs(no@) =~= Seq::<(Seq<char>, Seq<char>)>::empty());
    reg.find_gauge_value(samples, c, &no)
}

fn gauge_or(reg: &MetricRegistry, samples: &[Sample], c: CanonicalMetric, d: i64) -> (r: i64)
    ensures
        r == or_default(gauge_of(reg.mappings(), sample_views(samples@), c, Seq::empty()), d as int),
{
    match gauge(reg, samples, c) {
        Some(v) => v,
        None => d,
    }
}

// ───────────────────────────── memory ─────────────────────────────

/// Sum of the values of the samples of `c` whose `area` label is `area`
/// (only the positive ones when `positive_only`).
pub open spec fn area_sum(
    ms: Seq<MappingView>,
    ss: Seq<SampleView>,
    c: CanonicalMetric,
    area: Seq<char>,
    positive_only: bool,
) -> int
    decreases ss.len(),
{
    if ss.len() == 0 {
        0
    } else {
        let s = ss.last();
        area_sum(ms, ss.drop_last(), c, area, positive_only) + if resolves(ms, s, c) && label_get(
            s.labels,
            "area"@,
        ) == Some(area) && (!positive_only || s.value > 0) {
            s.value
        } else {
            0
        }
    }
}

fn sum_area(
    reg: &MetricRegistry,
    samples: &[Sample],
    c: CanonicalMetric,
    area: &str,
    positive_only: bool,
) -> (r: i128)
    ensures
        r == area_sum(reg.mappings(), sample_views(samples@), c, area@, positive_only),
        -0x8000_0000_0000_0000 * samples@.len() <= r <= 0x8000_0000_0000_0000 * samples@.len(),
{
    let ghost ss = sample_views(samples@);
    let mut acc: i128 = 0;
    let mut i: usize = 0;
    while i < samples.len()
        invariant
            i <= samples@.len(),
            ss == sample_views(samples@),
            acc == area_sum(reg.mappings(), ss.take(i as int), c, area@, positive_only),
            -0x8000_0000_0000_0000 * i <= acc <= 0x8000_0000_0000_0000 * i,
        decreases samples@.len() - i,
    {
        let s = &samples[i];
        proof {
            assert(ss.take(i + 1).drop_last() =~= ss.take(i as int));
            assert(ss.take(i + 1).last() == s@);
            assert(0x8000_0000_0000_0000 * (i + 1) <= 0x8000_0000_0000_0000 * 0x1_0000_0000_0000_0000int)
                by (nonlinear_arith)
                requires
                    i + 1 <= 0x1_0000_0000_0000_0000int,
            ;
        }
        if resolves_exec(reg, s, c) && label_is(s, "area", area) && (!positive_only || s.value
            > 0) {
            acc = acc + s.value as i128;
        }
        i += 1;
    }
    assert(ss.take(samples@.len() as int) =~= ss);
    acc
}

pub open spec fn heap_spec(ms: Seq<MappingView>, ss: Seq<SampleView>) -> MemoryUsage {
    let used = area_sum(ms, ss, CanonicalMetric::MemoryPoolUsed, "heap"@, false);
    let max = area_sum(ms, ss, CanonicalMetric::MemoryPoolMax, "heap"@, true);
    let committed = area_sum(ms, ss, CanonicalMetric::MemoryPoolCommitted, "heap"@, false);
    MemoryUsage {
        init: 0,
        used: clamp_i64(whole(used)) as i64,
        committed: clamp_i64(whole(committed)) as i64,
        max: if max > 0 {
            clamp_i64(whole(max)) as i64
        } else {
            -1i64
        },
    }
}

pub open spec fn non_heap_spec(ms: Seq<MappingView>, ss: Seq<SampleView>) -> MemoryUsage {
    let used = area_sum(ms, ss, CanonicalMetric::MemoryPoolUsed, "nonheap"@, false);
    MemoryUsage { init: 0, used: clamp_i64(whole(used)) as i64, committed: 0, max: -1i64 }
}

fn whole_sum(x: i128, n: usize) -> (r: i64)
    requires
        -0x8000_0000_0000_0000 * n <= x <= 0x8000_0000_0000_0000 * n,
    ensures
        r == clamp_i64(whole(x as int)),
{
    proof {
        assert(0x8000_0000_0000_0000 * n <= 0x8000_0000_0000_0000 * 0x1_0000_0000_0000_0000int) by (
        nonlinear_arith)
            requires
                n <= 0x1_0000_0000_0000_0000int,
        ;
    }
    clamp64(whole_exec(x))
}

fn heap_usage(reg: &MetricRegistry, samples: &[Sample]) -> (r: (MemoryUsage, MemoryUsage))
    ensures
        r.0 == heap_spec(reg.mappings(), sample_views(samples@)),
        r.1 == non_heap_spec(reg.mappings(), sample_views(samples@)),
{
    let n = samples.len();
    let used = sum_area(reg, samples, CanonicalMetric::MemoryPoolUsed, "heap", false);
    let max = sum_area(reg, samples, CanonicalMetric::MemoryPoolMax, "heap", true);
    let committed = sum_area(reg, samples, CanonicalMetric::MemoryPoolCommitted, "heap", false);
    let non_heap = sum_area(reg, samples, CanonicalMetric::MemoryPoolUsed, "nonheap", false);
    let heap = MemoryUsage {
        init: 0,
        used: whole_sum(used, n),
        committed: whole_sum(committed, n),
        max: if max > 0 {
            whole_sum(max, n)
        } else {
            -1
        },
    };
    let nh = MemoryUsage { init: 0, used: whole_sum(non_heap, n), committed: 0, max: -1 };
    (heap, nh)
}

/// The pool type named by an `area` label.
pub open spec fn pool_type_of(area: Seq<char>) -> PoolType {
    if area == "heap"@ {
        PoolType::Heap
    } else if area == "nonheap"@ {
        PoolType::NonHeap
    } else {
        PoolType::Unknown
    }
}

pub open spec fn pool_view(p: MemoryPool) -> (Seq<char>, PoolType, MemoryUsage, Option<MemoryUsage>) {
    (p.name@, p.pool_type, p.usage, p.collection_usage)
}

pub open spec fn pool_views(ps: Seq<MemoryPool>) -> Seq<(Seq<char>, PoolType, MemoryUsage, Option<MemoryUsage>)> {
    ps.map_values(|p: MemoryPool| pool_view(p))
}

/// One pool per used-bytes sample labelled with `area` and `id`, in
/// order; its maximum and committed bytes are those of the first samples
/// with the same `id`.
pub open spec fn pools_spec(ms: Seq<MappingView>, all: Seq<SampleView>, ss: Seq<SampleView>) -> Seq<
    (Seq<char>, PoolType, MemoryUsage, Option<MemoryUsage>),
>
    decreases ss.len(),
{
    if ss.len() == 0 {
        Seq::empty()
    } else {
        let prev = pools_spec(ms, all, ss.drop_last());
        let s = ss.last();
        if resolves(ms, s, CanonicalMetric::MemoryPoolUsed) {
            match label_get(s.labels, "area"@) {
                Some(area) => match label_get(s.labels, "id"@) {
                    Some(id) => {
                        let by_id = seq![("id"@, id)];
                        let max = or_default(
                            gauge_of(ms, all, CanonicalMetric::MemoryPoolMax, by_id),
                            -1_000_000,
                        );
                        let committed = or_default(
                            gauge_of(ms, all, CanonicalMetric::MemoryPoolCommitted, by_id),
                            0,
                        );
                        prev.push(
                            (
                                id,
                                pool_type_of(area),
                                MemoryUsage {
                                    init: 0,
                                    used: whole(s.value) as i64,
                                    committed: whole(committed) as i64,
                                    max: whole(max) as i64,
                                },
                                None,
                            ),
                        )
                    },
                    None => prev,
                },
                None => prev,
            }
        } else {
            prev
        }
    }
}

fn memory_pools(reg: &MetricRegistry, samples: &[Sample]) -> (r: Vec<MemoryPool>)
    ensures
        pool_views(r@) == pools_spec(reg.mappings(), sample_views(samples@), sample_views(samples@)),
{
    let ghost ss = sample_views(samples@);
    let mut pools: Vec<MemoryPool> = Vec::new();
    let mut i: usize = 0;
    while i < samples.len()
        invariant
            i <= samples@.len(),
            ss == sample_views(samples@),
            pool_views(pools@) == pools_spec(reg.mappings(), ss, ss.take(i as int)),
        decreases samples@.len() - i,
    {
        let s = &samples[i];
        proof {
            assert(ss.take(i + 1).drop_last() =~= ss.take(i as int));
            assert(ss.take(i + 1).last() == s@);
        }
        if resolves_exec(reg, s, CanonicalMetric::MemoryPoolUsed) {
            match label_value(s, "area") {
                Some(area) => match label_value(s, "id") {
                    Some(id) => {
                        let pool_type = if str_eq(area.as_str(), "heap") {
                            PoolType::Heap
                        } else if str_eq(area.as_str(), "nonheap") {
                            PoolType::NonHeap
                        } else {
                            PoolType::Unknown
                        };
                        let by_id = [("id", id.as_str())];
                        assert(str_pairs(by_id@) =~= seq![("id"@, id@)]);
                        let max = match reg.find_gauge_value(
                            samples,
                            CanonicalMetric::MemoryPoolMax,
                            &by_id,
                        ) {
                            Some(v) => v,
                            None => -1_000_000,
                        };
                        let committed = match reg.find_gauge_value(
                            samples,
                            CanonicalMetric::MemoryPoolCommitted,
                            &by_id,
                        ) {
                            Some(v) => v,
                            None => 0,
                        };
                        let ghost before = pools@;
                        let usage = MemoryUsage {
                            init: 0,
                            used: whole_exec(s.value as i128) as i64,
                            committed: whole_exec(committed as i128) as i64,
                            max: whole_exec(max as i128) as i64,
                        };
                        pools.push(
                            MemoryPool {
                                name: id.clone(),
                                pool_type,
                                usage,
                                collection_usage: None,
                            },
                        );
                        assert(pool_views(pools@) =~= pool_views(before).push(
                            pool_view(pools@.last()),
                        ));
                    },
                    None => {},
                },
                None => {},
            }
        }
        i += 1;
    }
    assert(ss.take(samples@.len() as int) =~= ss);
    pools
}

// ───────────────────────────── CPU, threads, classes ─────────────────────────────

pub open spec fn cpu_spec(ms: Seq<MappingView>, ss: Seq<SampleView>) -> CpuMetrics {
    let none = Seq::<(Seq<char>, Seq<char>)>::empty();
    CpuMetrics {
        process_cpu: or_default(gauge_of(ms, ss, CanonicalMetric::ProcessCpu, none), 0) as i64,
        system_cpu: or_default(gauge_of(ms, ss, CanonicalMetric::SystemCpu, none), 0) as i64,
        available_processors: clamp_i32(
            whole(or_default(gauge_of(ms, ss, CanonicalMetric::SystemCpuCount, none), 0)),
        ) as i32,
        system_load_average_1m: or_default(
            gauge_of(ms, ss, CanonicalMetric::LoadAverage1m, none),
            0,
        ) as i64,
    }
}

fn cpu_metrics(reg: &MetricRegistry, samples: &[Sample]) -> (r: CpuMetrics)
    ensures
        r == cpu_spec(reg.mappings(), sample_views(samples@)),
{
    CpuMetrics {
        process_cpu: gauge_or(reg, samples, CanonicalMetric::ProcessCpu, 0),
        system_cpu: gauge_or(reg, samples, CanonicalMetric::SystemCpu, 0),
        available_processors: clamp32(
            whole_exec(gauge_or(reg, samples, CanonicalMetric::SystemCpuCount, 0) as i128),
        ),
        system_load_average_1m: gauge_or(reg, samples, CanonicalMetric::LoadAverage1m, 0),
    }
}

/// The thread state named by a `state` label.
pub open spec fn thread_state_of(s: Seq<char>) -> ThreadState {
    if s == "runnable"@ {
        ThreadState::Runnable
    } else if s == "blocked"@ {
        ThreadState::Blocked
    } else if s == "waiting"@ {
        ThreadState::Waiting
    } else if s == "timed-waiting"@ {
        ThreadState::TimedWaiting
    } else if s == "new"@ {
        ThreadState::New
    } else if s == "terminated"@ {
        ThreadState::Terminated
    } else {
        ThreadState::Unknown
    }
}

fn thread_state_exec(s: &str) -> (r: ThreadState)
    ensures
        r == thread_state_of(s@),
{
    if str_eq(s, "runnable") {
        ThreadState::Runnable
    } else if str_eq(s, "blocked") {
        ThreadState::Blocked
    } else if str_eq(s, "waiting") {
        ThreadState::Waiting
    } else if str_eq(s, "timed-waiting") {
        ThreadState::TimedWaiting
    } else if str_eq(s, "new") {
        ThreadState::New
    } else if str_eq(s, "terminated") {
        ThreadState::Terminated
    } else {
        ThreadState::Unknown
    }
}

/// Where `st` stands among the state counts.
pub open spec fn state_pos(m: Seq<(ThreadState, i64)>, st: ThreadState) -> Option<int>
    decreases m.len(),
{
    if m.len() == 0 {
        None
    } else if m.last().0 == st {
        Some(m.len() - 1)
    } else {
        state_pos(m.drop_last(), st)
    }
}

/// `HashMap::insert` on the state counts.
pub open spec fn state_put(m: Seq<(ThreadState, i64)>, st: ThreadState, n: i64) -> Seq<
    (ThreadState, i64),
> {
    match state_pos(m, st) {
        Some(i) => m.update(i, (st, n)),
        None => m.push((st, n)),
    }
}

/// The count of each thread state, from the labelled state samples.
pub open spec fn states_spec(ms: Seq<MappingView>, ss: Seq<SampleView>) -> Seq<(ThreadState, i64)>
    decreases ss.len(),
{
    if ss.len() == 0 {
        Seq::empty()
    } else {
        let prev = states_spec(ms, ss.drop_last());
        let s = ss.last();
        if resolves(ms, s, CanonicalMetric::ThreadStates) {
            match label_get(s.labels, "state"@) {
                Some(st) => state_put(prev, thread_state_of(st), whole(s.value) as i64),
                None => prev,
            }
        } else {
            prev
        }
    }
}

fn put_state(m: &mut Vec<(ThreadState, i64)>, st: ThreadState, n: i64)
    ensures
        final(m)@ == state_put(old(m)@, st, n),
{
    let mut i = m.len();
    assert(m@.take(m@.len() as int) =~= m@);
    while i > 0
        invariant
            i <= m@.len(),
            m@ == old(m)@,
            state_pos(m@, st) == state_pos(m@.take(i as int), st),
        decreases i,
    {
        proof {
            assert(m@.take(i as int).drop_last() =~= m@.take(i - 1));
            assert(m@.take(i as int).last() == m@[i - 1]);
        }
        if same_state(m[i - 1].0, st) {
            m.set(i - 1, (st, n));
            return;
        }
        i -= 1;
    }
    assert(m@.take(0) =~= Seq::<(ThreadState, i64)>::empty());
    m.push((st, n));
}

fn thread_summary(reg: &MetricRegistry, samples: &[Sample]) -> (r: ThreadSummary)
    ensures
        r.live == whole(
            or_default(
                gauge_of(
                    reg.mappings(),
                    sample_views(samples@),
                    CanonicalMetric::ThreadsLive,
                    Seq::empty(),
                ),
                0,
            ),
        ),
        r.daemon == whole(
            or_default(
                gauge_of(
                    reg.mappings(),
                    sample_views(samples@),
                    CanonicalMetric::ThreadsDaemon,
                    Seq::empty(),
                ),
                0,
            ),
        ),
        r.peak == whole(
            or_default(
                gauge_of(
                    reg.mappings(),
                    sample_views(samples@),
                    CanonicalMetric::ThreadsPeak,
                    Seq::empty(),
                ),
                0,
            ),
        ),
        r.state_counts@ == states_spec(reg.mappings(), sample_views(samples@)),
{
    let ghost ss = sample_views(samples@);
    let mut states: Vec<(ThreadState, i64)> = Vec::new();
    let mut i: usize = 0;
    while i < samples.len()
        invariant
            i <= samples@.len(),
            ss == sample_views(samples@),
            states@ == states_spec(reg.mappings(), ss.take(i as int)),
        decreases samples@.len() - i,
    {
        let s = &samples[i];
        proof {
            assert(ss.take(i + 1).drop_last() =~= ss.take(i as int));
            assert(ss.take(i + 1).last() == s@);
        }
        if resolves_exec(reg, s, CanonicalMetric::ThreadStates) {
            match label_value(s, "state") {
                Some(st) => {
                    let ts = thread_state_exec(st.as_str());
                    put_state(&mut states, ts, whole_exec(s.value as i128) as i64);
                },
                None => {},
            }
        }
        i += 1;
    }
    assert(ss.take(samples@.len() as int) =~= ss);
    ThreadSummary {
        live: whole_exec(gauge_or(reg, samples, CanonicalMetric::ThreadsLive, 0) as i128) as i64,
        daemon: whole_exec(gauge_or(reg, samples, CanonicalMetric::ThreadsDaemon, 0) as i128) as i64,
        peak: whole_exec(gauge_or(reg, samples, CanonicalMetric::ThreadsPeak, 0) as i128) as i64,
        state_counts: states,
    }
}

pub open spec fn classes_spec(ms: Seq<MappingView>, ss: Seq<SampleView>) -> ClassMetrics {
    let none = Seq::<(Seq<char>, Seq<char>)>::empty();
    let loaded = whole(or_default(gauge_of(ms, ss, CanonicalMetric::ClassesLoaded, none), 0));
    ClassMetrics {
        loaded: loaded as i64,
        total_loaded: loaded as i64,
        unloaded: whole(or_default(gauge_of(ms, ss, CanonicalMetric::ClassesUnloaded, none), 0))
            as i64,
    }
}

fn class_metrics(reg: &MetricRegistry, samples: &[Sample]) -> (r: ClassMetrics)
    ensures
        r == classes_spec(reg.mappings(), sample_views(samples@)),
{
    let loaded = whole_exec(gauge_or(reg, samples, CanonicalMetric::ClassesLoaded, 0) as i128) as i64;
    ClassMetrics {
        loaded,
        total_loaded: loaded,
        unloaded: whole_exec(gauge_or(reg, samples, CanonicalMetric::ClassesUnloaded, 0) as i128)
            as i64,
    }
}

// ───────────────────────────── pool and web server ─────────────────────────────

/// The `pool` label of the first active-connections sample, or "default".
pub open spec fn hikari_pool_name(ms: Seq<MappingView>, ss: Seq<SampleView>) -> Seq<char>
    decreases ss.len(),
{
    if ss.len() == 0 {
        "default"@
    } else if resolves(ms, ss[0], CanonicalMetric::HikariActive) {
        match label_get(ss[0].labels, "pool"@) {
            Some(p) => p,
            None => "default"@,
        }
    } else {
        hikari_pool_name(ms, ss.drop_first())
    }
}

/// Seconds (in millionths) as milliseconds (in millionths).
pub open spec fn secs_to_ms(v: int) -> int {
    clamp_i64(v * 1000)
}

pub struct HikariView {
    pub pool_name: Seq<char>,
    pub active: i32,
    pub idle: i32,
    pub pending: i32,
    pub total: i32,
    pub max: i32,
    pub acquire_ms: i64,
    pub usage_ms: i64,
    pub creation_ms: i64,
    pub timeout_count: i64,
}

pub open spec fn hikari_view(h: Option<HikariMetrics>) -> Option<HikariView> {
    match h {
        Some(h) => Some(
            HikariView {
                pool_name: h.pool_name@,
                active: h.active,
                idle: h.idle,
                pending: h.pending,
                total: h.total,
                max: h.max,
                acquire_ms: h.acquire_ms,
                usage_ms: h.usage_ms,
                creation_ms: h.creation_ms,
                timeout_count: h.timeout_count,
            },
        ),
        None => None,
    }
}

pub open spec fn hikari_spec(ms: Seq<MappingView>, ss: Seq<SampleView>) -> Option<HikariView> {
    let none = Seq::<(Seq<char>, Seq<char>)>::empty();
    let g = |c: CanonicalMetric| or_default(gauge_of(ms, ss, c, none), 0);
    match gauge_of(ms, ss, CanonicalMetric::HikariActive, none) {
        None => None,
        Some(active) => Some(
            HikariView {
                pool_name: hikari_pool_name(ms, ss),
                active: clamp_i32(whole(active)) as i32,
                idle: clamp_i32(whole(g(CanonicalMetric::HikariIdle))) as i32,
                pending: clamp_i32(whole(g(CanonicalMetric::HikariPending))) as i32,
                total: clamp_i32(whole(g(CanonicalMetric::HikariTotal))) as i32,
                max: clamp_i32(whole(g(CanonicalMetric::HikariMax))) as i32,
                acquire_ms: secs_to_ms(g(CanonicalMetric::HikariAcquireSum)) as i64,
                usage_ms: secs_to_ms(g(CanonicalMetric::HikariUsageSum)) as i64,
                creation_ms: secs_to_ms(g(CanonicalMetric::HikariCreationSum)) as i64,
                timeout_count: whole(g(CanonicalMetric::HikariTimeoutTotal)) as i64,
            },
        ),
    }
}

fn pool_name(reg: &MetricRegistry, samples: &[Sample]) -> (r: String)
    ensures
        r@ == hikari_pool_name(reg.mappings(), sample_views(samples@)),
{
    let ghost ss = sample_views(samples@);
    let mut i: usize = 0;
    assert(ss.skip(0) =~= ss);
    while i < samples.len()
        invariant
            i <= samples@.len(),
            ss == sample_views(samples@),
            hikari_pool_name(reg.mappings(), ss) == hikari_pool_name(
                reg.mappings(),
                ss.skip(i as int),
            ),
        decreases samples@.len() - i,
    {
        let s = &samples[i];
        proof {
            assert(ss.skip(i as int)[0] == s@);
            assert(ss.skip(i as int).drop_first() =~= ss.skip(i + 1));
        }
        if resolves_exec(reg, s, CanonicalMetric::HikariActive) {
            return match label_value(s, "pool") {
                Some(p) => p.clone(),
                None => String::from_str("default"),
            };
        }
        i += 1;
    }
    assert(ss.skip(i as int) =~= Seq::<SampleView>::empty());
    String::from_str("default")
}

fn secs_to_ms_exec(v: i64) -> (r: i64)
    ensures
        r == secs_to_ms(v as int),
{
    clamp64(v as i128 * 1000)
}

fn hikari_metrics(reg: &MetricRegistry, samples: &[Sample]) -> (r: Option<HikariMetrics>)
    ensures
        hikari_view(r) == hikari_spec(reg.mappings(), sample_views(samples@)),
{
    match gauge(reg, samples, CanonicalMetric::HikariActive) {
        None => None,
        Some(active) => {
            let whole32 = |v: i64| -> (r: i32)
                ensures
                    r == clamp_i32(whole(v as int)),
                { clamp32(whole_exec(v as i128)) };
            Some(
                HikariMetrics {
                    pool_name: pool_name(reg, samples),
                    active: whole32(active),
                    idle: whole32(gauge_or(reg, samples, CanonicalMetric::HikariIdle, 0)),
                    pending: whole32(gauge_or(reg, samples, CanonicalMetric::HikariPending, 0)),
                    total: whole32(gauge_or(reg, samples, CanonicalMetric::HikariTotal, 0)),
                    max: whole32(gauge_or(reg, samples, CanonicalMetric::HikariMax, 0)),
                    acquire_ms: secs_to_ms_exec(
                        gauge_or(reg, samples, CanonicalMetric::HikariAcquireSum, 0),
                    ),
                    usage_ms: secs_to_ms_exec(
                        gauge_or(reg, samples, CanonicalMetric::HikariUsageSum, 0),
                    ),
                    creation_ms: secs_to_ms_exec(
                        gauge_or(reg, samples, CanonicalMetric::HikariCreationSum, 0),
                    ),
                    timeout_count: whole_exec(
                        gauge_or(reg, samples, CanonicalMetric::HikariTimeoutTotal, 0) as i128,
                    ) as i64,
                },
            )
        },
    }
}

pub open spec fn tomcat_spec(ms: Seq<MappingView>, ss: Seq<SampleView>) -> Option<TomcatMetrics> {
    let none = Seq::<(Seq<char>, Seq<char>)>::empty();
    match gauge_of(ms, ss, CanonicalMetric::TomcatThreadsBusy, none) {
        None => None,
        Some(busy) => Some(
            TomcatMetrics {
                threads_busy: clamp_i32(whole(busy)) as i32,
                threads_current: clamp_i32(
                    whole(or_default(gauge_of(ms, ss, CanonicalMetric::TomcatThreadsCurrent, none), 0)),
                ) as i32,
                threads_max: clamp_i32(
                    whole(or_default(gauge_of(ms, ss, CanonicalMetric::TomcatThreadsMax, none), 0)),
                ) as i32,
                connections_current: 0,
                connections_max: 0,
            },
        ),
    }
}

fn tomcat_metrics(reg: &MetricRegistry, samples: &[Sample]) -> (r: Option<TomcatMetrics>)
    ensures
        r == tomcat_spec(reg.mappings(), sample_views(samples@)),
{
    match gauge(reg, samples, CanonicalMetric::TomcatThreadsBusy) {
        None => None,
        Some(busy) => Some(
            TomcatMetrics {
                threads_busy: clamp32(whole_exec(busy as i128)),
                threads_current: clamp32(
                    whole_exec(
                        gauge_or(reg, samples, CanonicalMetric::TomcatThreadsCurrent, 0) as i128,
                    ),
                ),
                threads_max: clamp32(
                    whole_exec(gauge_or(reg, samples, CanonicalMetric::TomcatThreadsMax, 0) as i128),
                ),
                connections_current: 0,
                connections_max: 0,
            },
        ),
    }
}

// ─────────────────────────────── HTTP ───────────────────────────────

/// One endpoint (method and uri) as the scrape accumulates it, with exact
/// totals.
pub struct EndpointAcc {
    pub key: Seq<char>,
    pub uri: Seq<char>,
    pub method: Seq<char>,
    pub count: int,
    pub total: int,
    pub max: int,
    pub errors: int,
}

pub open spec fn label_or_empty(s: SampleView, k: Seq<char>) -> Seq<char> {
    match label_get(s.labels, k) {
        Some(v) => v,
        None => Seq::empty(),
    }
}

pub open spec fn acc_pos(es: Seq<EndpointAcc>, key: Seq<char>) -> Option<int>
    decreases es.len(),
{
    if es.len() == 0 {
        None
    } else if es.last().key == key {
        Some(es.len() - 1)
    } else {
        acc_pos(es.drop_last(), key)
    }
}

proof fn lemma_acc_pos(es: Seq<EndpointAcc>, key: Seq<char>)
    ensures
        acc_pos(es, key) matches Some(i) ==> 0 <= i < es.len() && es[i].key == key,
        acc_pos(es, key) is None ==> forall|i: int| 0 <= i < es.len() ==> (#[trigger] es[i]).key != key,
    decreases es.len(),
{
    if es.len() > 0 {
        lemma_acc_pos(es.drop_last(), key);
        assert forall|i: int| 0 <= i < es.len() - 1 implies es.drop_last()[i] == #[trigger] es[i] by {}
    }
}

/// A status of 4xx or 5xx.
pub open spec fn is_error_status(status: Seq<char>) -> bool {
    status.len() > 0 && (status[0] == '4' || status[0] == '5')
}

/// The request-count sample `s` added to the endpoints: its count, the
/// time sum and maximum of the samples with the same uri, method and
/// status (seconds, in millionths, as milliseconds), and its count again as
/// errors for a 4xx/5xx status.
pub open spec fn http_step(
    ms: Seq<MappingView>,
    all: Seq<SampleView>,
    es: Seq<EndpointAcc>,
    s: SampleView,
) -> Seq<EndpointAcc> {
    let uri = label_or_empty(s, "uri"@);
    let method = label_or_empty(s, "method"@);
    let status = label_or_empty(s, "status"@);
    let count = whole(s.value);
    let lbls = seq![("uri"@, uri), ("method"@, method), ("status"@, status)];
    let tt = secs_to_ms(or_default(gauge_of(ms, all, CanonicalMetric::HttpRequestsSum, lbls), 0));
    let mt = secs_to_ms(or_default(gauge_of(ms, all, CanonicalMetric::HttpRequestsMax, lbls), 0));
    let err = is_error_status(status);
    let key = method + ":"@ + uri;
    let e0 = match acc_pos(es, key) {
        Some(i) => es[i],
        None => EndpointAcc { key, uri, method, count: 0, total: 0, max: 0, errors: 0 },
    };
    let e1 = EndpointAcc {
        count: e0.count + count,
        total: e0.total + tt,
        max: if mt > e0.max {
            mt
        } else {
            e0.max
        },
        errors: if err {
            e0.errors + count
        } else {
            e0.errors
        },
        ..e0
    };
    match acc_pos(es, key) {
        Some(i) => es.update(i, e1),
        None => es.push(e1),
    }
}

/// The endpoints of the request-count samples, in the order first seen.
pub open spec fn http_accs(ms: Seq<MappingView>, all: Seq<SampleView>, ss: Seq<SampleView>) -> Seq<
    EndpointAcc,
>
    decreases ss.len(),
{
    if ss.len() == 0 {
        Seq::empty()
    } else {
        let prev = http_accs(ms, all, ss.drop_last());
        if resolves(ms, ss.last(), CanonicalMetric::HttpRequestsCount) {
            http_step(ms, all, prev, ss.last())
        } else {
            prev
        }
    }
}

pub open spec fn endpoint_spec(e: EndpointAcc) -> (
    Seq<char>,
    Seq<char>,
    int,
    int,
    int,
    int,
    Option<i64>,
    Option<i64>,
    Option<i64>,
) {
    (e.uri, e.method, clamp_i64(e.count), clamp_i64(e.total), e.max, clamp_i64(e.errors), None, None, None)
}

pub open spec fn endpoint_view(e: HttpEndpointMetrics) -> (
    Seq<char>,
    Seq<char>,
    int,
    int,
    int,
    int,
    Option<i64>,
    Option<i64>,
    Option<i64>,
) {
    (
        e.uri@,
        e.method@,
        e.count as int,
        e.total_time_ms as int,
        e.max_ms as int,
        e.error_count as int,
        e.p50_ms,
        e.p95_ms,
        e.p99_ms,
    )
}

pub open spec fn endpoint_views(v: Seq<HttpEndpointMetrics>) -> Seq<
    (Seq<char>, Seq<char>, int, int, int, int, Option<i64>, Option<i64>, Option<i64>),
> {
    v.map_values(|e: HttpEndpointMetrics| endpoint_view(e))
}

pub open spec fn count_sum(es: Seq<EndpointAcc>) -> int
    decreases es.len(),
{
    if es.len() == 0 {
        0
    } else {
        count_sum(es.drop_last()) + clamp_i64(es.last().count)
    }
}

pub open spec fn error_sum(es: Seq<EndpointAcc>) -> int
    decreases es.len(),
{
    if es.len() == 0 {
        0
    } else {
        error_sum(es.drop_last()) + clamp_i64(es.last().errors)
    }
}

pub open spec fn time_sum(es: Seq<EndpointAcc>) -> int
    decreases es.len(),
{
    if es.len() == 0 {
        0
    } else {
        time_sum(es.drop_last()) + clamp_i64(es.last().total)
    }
}

/// The HTTP summary of a scrape: the endpoints, the request and error
/// totals, the error ratio (millionths) and the mean latency (millionths of
/// a millisecond).
pub open spec fn http_summary_ok(h: HttpSummary, ms: Seq<MappingView>, ss: Seq<SampleView>) -> bool {
    let es = http_accs(ms, ss, ss);
    let total = clamp_i64(count_sum(es));
    let errors = clamp_i64(error_sum(es));
    &&& endpoint_views(h.endpoints@) == es.map_values(|e: EndpointAcc| endpoint_spec(e))
    &&& h.total_requests == total
    &&& h.total_errors == errors
    &&& h.request_rate == 0
    &&& h.error_rate == (if total > 0 {
        clamp_i64(tdiv(errors * 1_000_000, total))
    } else {
        0
    })
    &&& h.avg_latency_ms == (if total > 0 {
        clamp_i64(tdiv(time_sum(es), total))
    } else {
        0
    })
}

struct AccExec {
    key: String,
    uri: String,
    method: String,
    count: i128,
    total: i128,
    max: i64,
    errors: i128,
}

spec fn acc_view(a: AccExec) -> EndpointAcc {
    EndpointAcc {
        key: a.key@,
        uri: a.uri@,
        method: a.method@,
        count: a.count as int,
        total: a.total as int,
        max: a.max as int,
        errors: a.errors as int,
    }
}

spec fn acc_views(v: Seq<AccExec>) -> Seq<EndpointAcc> {
    v.map_values(|a: AccExec| acc_view(a))
}

/// Every accumulated total is within `k` figures of an `i64` each.
spec fn accs_bounded(es: Seq<EndpointAcc>, k: int) -> bool {
    forall|i: int|
        0 <= i < es.len() ==> {
            &&& -0x8000_0000_0000_0000 * k <= (#[trigger] es[i]).count <= 0x8000_0000_0000_0000 * k
            &&& -0x8000_0000_0000_0000 * k <= es[i].total <= 0x8000_0000_0000_0000 * k
            &&& -0x8000_0000_0000_0000 * k <= es[i].errors <= 0x8000_0000_0000_0000 * k
            &&& i64::MIN <= es[i].max <= i64::MAX
        }
}

fn find_acc(es: &Vec<AccExec>, key: &str) -> (r: Option<usize>)
    ensures
        (match r {
            Some(i) => Some(i as int),
            None => None::<int>,
        }) == acc_pos(acc_views(es@), key@),
{
    let ghost av = acc_views(es@);
    let mut i = es.len();
    assert(av.take(av.len() as int) =~= av);
    while i > 0
        invariant
            i <= es@.len(),
            av == acc_views(es@),
            acc_pos(av, key@) == acc_pos(av.take(i as int), key@),
        decreases i,
    {
        proof {
            assert(av.take(i as int).drop_last() =~= av.take(i - 1));
            assert(av.take(i as int).last() == acc_view(es@[i - 1]));
        }
        if str_eq(es[i - 1].key.as_str(), key) {
            return Some(i - 1);
        }
        i -= 1;
    }
    None
}

fn label_text(s: &Sample, key: &str) -> (r: String)
    ensures
        r@ == label_or_empty(s@, key@),
{
    match label_value(s, key) {
        Some(v) => v.clone(),
        None => String::new(),
    }
}

fn http_endpoints(reg: &MetricRegistry, samples: &[Sample]) -> (r: Vec<AccExec>)
    ensures
        acc_views(r@) == http_accs(reg.mappings(), sample_views(samples@), sample_views(samples@)),
        accs_bounded(acc_views(r@), samples@.len() as int),
{
    let ghost ss = sample_views(samples@);
    let ghost ms = reg.mappings();
    let mut es: Vec<AccExec> = Vec::new();
    let mut i: usize = 0;
    while i < samples.len()
        invariant
            i <= samples@.len(),
            ss == sample_views(samples@),
            ms == reg.mappings(),
            acc_views(es@) == http_accs(ms, ss, ss.take(i as int)),
            accs_bounded(acc_views(es@), i as int),
        decreases samples@.len() - i,
    {
        let s = &samples[i];
        proof {
            assert(ss.take(i + 1).drop_last() =~= ss.take(i as int));
            assert(ss.take(i + 1).last() == s@);
            assert(0x8000_0000_0000_0000 * (i + 1) <= 0x8000_0000_0000_0000
                * 0x1_0000_0000_0000_0000int) by (nonlinear_arith)
                requires
                    i + 1 <= 0x1_0000_0000_0000_0000int,
            ;
            assert(0x8000_0000_0000_0000 * i <= 0x8000_0000_0000_0000 * (i + 1)) by (
            nonlinear_arith);
        }
        if resolves_exec(reg, s, CanonicalMetric::HttpRequestsCount) {
            let uri = label_text(s, "uri");
            let method = label_text(s, "method");
            let status = label_text(s, "status");
            let count = whole_exec(s.value as i128);
            let lbls = [("uri", uri.as_str()), ("method", method.as_str()), ("status", status.as_str())];
            assert(str_pairs(lbls@) =~= seq![("uri"@, uri@), ("method"@, method@), ("status"@, status@)]);
            let tt = secs_to_ms_exec(
                match reg.find_gauge_value(samples, CanonicalMetric::HttpRequestsSum, &lbls) {
                    Some(v) => v,
                    None => 0,
                },
            );
            let mt = secs_to_ms_exec(
                match reg.find_gauge_value(samples, CanonicalMetric::HttpRequestsMax, &lbls) {
                    Some(v) => v,
                    None => 0,
                },
            );
            let st = crate::text::chars_of(status.as_str());
            let err = st.len() > 0 && (st[0] == '4' || st[0] == '5');
            let mut key = method.clone();
            key.append(":");
            key.append(uri.as_str());
            let ghost av = acc_views(es@);
            proof {
                lemma_acc_pos(av, key@);
            }
            match find_acc(&es, key.as_str()) {
                Some(k) => {
                    let e = es.remove(k);
                    let e1 = AccExec {
                        key: e.key,
                        uri: e.uri,
                        method: e.method,
                        count: e.count + count,
                        total: e.total + tt as i128,
                        max: if mt > e.max {
                            mt
                        } else {
                            e.max
                        },
                        errors: if err {
                            e.errors + count
                        } else {
                            e.errors
                        },
                    };
                    es.insert(k, e1);
                    proof {
                        assert(acc_views(es@) =~= av.update(k as int, acc_view(e1)));
                    }
                },
                None => {
                    let e1 = AccExec {
                        key,
                        uri,
                        method,
                        count,
                        total: tt as i128,
                        max: if mt > 0 {
                            mt
                        } else {
                            0
                        },
                        errors: if err {
                            count
                        } else {
                            0
                        },
                    };
                    es.push(e1);
                    proof {
                        assert(acc_views(es@) =~= av.push(acc_view(e1)));
                    }
                },
            }
        }
        i += 1;
    }
    assert(ss.take(samples@.len() as int) =~= ss);
    es
}

fn http_summary(reg: &MetricRegistry, samples: &[Sample]) -> (r: HttpSummary)
    ensures
        http_summary_ok(r, reg.mappings(), sample_views(samples@)),
{
    let accs = http_endpoints(reg, samples);
    let ghost es = acc_views(accs@);
    let mut endpoints: Vec<HttpEndpointMetrics> = Vec::new();
    let mut total: i128 = 0;
    let mut errors: i128 = 0;
    let mut time: i128 = 0;
    let mut i: usize = 0;
    while i < accs.len()
        invariant
            i <= accs@.len(),
            es == acc_views(accs@),
            accs_bounded(es, samples@.len() as int),
            endpoint_views(endpoints@) == es.take(i as int).map_values(
                |e: EndpointAcc| endpoint_spec(e),
            ),
            total == count_sum(es.take(i as int)),
            errors == error_sum(es.take(i as int)),
            time == time_sum(es.take(i as int)),
            -0x8000_0000_0000_0000 * i <= total <= 0x8000_0000_0000_0000 * i,
            -0x8000_0000_0000_0000 * i <= errors <= 0x8000_0000_0000_0000 * i,
            -0x8000_0000_0000_0000 * i <= time <= 0x8000_0000_0000_0000 * i,
        decreases accs@.len() - i,
    {
        let a = &accs[i];
        proof {
            assert(es.take(i + 1).drop_last() =~= es.take(i as int));
            assert(es.take(i + 1).last() == acc_view(*a));
            assert(0x8000_0000_0000_0000 * (i + 1) <= 0x8000_0000_0000_0000
                * 0x1_0000_0000_0000_0000int) by (nonlinear_arith)
                requires
                    i + 1 <= 0x1_0000_0000_0000_0000int,
            ;
            assert(es[i as int] == acc_view(*a));
        }
        let c = clamp64(a.count);
        let e = clamp64(a.errors);
        let t = clamp64(a.total);
        let ghost before = endpoints@;
        endpoints.push(
            HttpEndpointMetrics {
                uri: a.uri.clone(),
                method: a.method.clone(),
                count: c,
                total_time_ms: t,
                max_ms: a.max,
                error_count: e,
                p50_ms: None,
                p95_ms: None,
                p99_ms: None,
            },
        );
        proof {
            assert(endpoint_views(endpoints@) =~= endpoint_views(before).push(
                endpoint_view(endpoints@.last()),
            ));
            assert(es.take(i + 1).map_values(|e: EndpointAcc| endpoint_spec(e)) =~= es.take(
                i as int,
            ).map_values(|e: EndpointAcc| endpoint_spec(e)).push(endpoint_spec(es[i as int])));
        }
        total = total + c as i128;
        errors = errors + e as i128;
        time = time + t as i128;
        i += 1;
    }
    assert(es.take(accs@.len() as int) =~= es);
    let total_requests = clamp64(total);
    let total_errors = clamp64(errors);
    let (error_rate, avg) = if total_requests > 0 {
        proof {
            crate::model::lemma_tdiv_bound(total_errors * 1_000_000, total_requests as int);
            crate::model::lemma_tdiv_bound(time as int, total_requests as int);
        }
        (
            clamp64(tdiv_i128(total_errors as i128 * 1_000_000, total_requests as i128)),
            clamp64(tdiv_i128(time, total_requests as i128)),
        )
    } else {
        (0, 0)
    };
    HttpSummary {
        total_requests,
        total_errors,
        request_rate: 0,
        error_rate,
        avg_latency_ms: avg,
        endpoints,
    }
}

// ───────────────────────────── the snapshot ─────────────────────────────

/// What a scrape does not set: left as in an empty snapshot.
pub open spec fn scrape_rest_empty(s: JvmSnapshot) -> bool {
    &&& s.gc_collectors@.len() == 0
    &&& s.recent_gc_events@.len() == 0
    &&& s.threads@.len() == 0
    &&& s.deadlocks@.len() == 0
    &&& s.executors@.len() == 0
    &&& s.caches@.len() == 0
    &&& s.log_events == crate::model::LogEventCounts { trace: 0, debug: 0, info: 0, warn: 0, error: 0 }
    &&& s.jvm_info.vm_name@.len() == 0 && s.jvm_info.vm_vendor@.len() == 0
    &&& s.jvm_info.vm_version@.len() == 0 && s.jvm_info.spec_version@.len() == 0
    &&& s.jvm_info.uptime_ms == 0 && s.jvm_info.input_arguments@.len() == 0
    &&& s.jvm_info.gc_algorithm == crate::model::GcAlgorithm::Unknown
    &&& s.jvm_info.max_heap_bytes is None && s.jvm_info.initial_heap_bytes is None
    &&& s.health.status == crate::model::HealthStatus::Unknown && s.health.components@.len() == 0
    &&& s.target.name@ == "localhost"@ && s.target.actuator_url is None
    &&& s.target.jolokia_url is None && s.target.gc_log_path is None
    &&& s.target.app_log_path is None && s.target.connected_since is None
}

/// The snapshot a scrape with the samples `ss` gives, taken at `now`.
pub open spec fn scrape_snapshot_ok(s: JvmSnapshot, ms: Seq<MappingView>, ss: Seq<SampleView>, now: int) -> bool {
    let none = Seq::<(Seq<char>, Seq<char>)>::empty();
    &&& s.timestamp == now
    &&& s.heap == heap_spec(ms, ss)
    &&& s.non_heap == non_heap_spec(ms, ss)
    &&& pool_views(s.memory_pools@) == pools_spec(ms, ss, ss)
    &&& s.cpu == cpu_spec(ms, ss)
    &&& s.thread_summary.live == whole(or_default(gauge_of(ms, ss, CanonicalMetric::ThreadsLive, none), 0))
    &&& s.thread_summary.daemon == whole(or_default(gauge_of(ms, ss, CanonicalMetric::ThreadsDaemon, none), 0))
    &&& s.thread_summary.peak == whole(or_default(gauge_of(ms, ss, CanonicalMetric::ThreadsPeak, none), 0))
    &&& s.thread_summary.state_counts@ == states_spec(ms, ss)
    &&& s.classes == classes_spec(ms, ss)
    &&& hikari_view(s.hikari) == hikari_spec(ms, ss)
    &&& s.tomcat == tomcat_spec(ms, ss)
    &&& http_summary_ok(s.http, ms, ss)
    &&& scrape_rest_empty(s)
}

/// The snapshot of an `/actuator/prometheus` scrape, stamped `now` (ms
/// since the epoch).
pub fn prometheus_to_snapshot_at(text: &str, now: i64) -> (snap: JvmSnapshot)
    requires
        prom_text_ok(text@),
    ensures
        scrape_snapshot_ok(snap, default_mappings(), prom_samples(lines(text@)), now as int),
{
    let samples = parse_prometheus_text(text);
    let reg = MetricRegistry::default_registry();
    let mut snap = JvmSnapshot::default();
    let (heap, non_heap) = heap_usage(&reg, &samples);
    snap.heap = heap;
    snap.non_heap = non_heap;
    snap.memory_pools = memory_pools(&reg, &samples);
    snap.cpu = cpu_metrics(&reg, &samples);
    snap.thread_summary = thread_summary(&reg, &samples);
    snap.classes = class_metrics(&reg, &samples);
    snap.hikari = hikari_metrics(&reg, &samples);
    snap.tomcat = tomcat_metrics(&reg, &samples);
    snap.http = http_summary(&reg, &samples);
    snap.timestamp = now;
    snap
}

/// The snapshot of an `/actuator/prometheus` scrape, stamped with the wall
/// clock.
pub fn prometheus_to_snapshot(text: &str) -> (snap: JvmSnapshot)
    requires
        prom_text_ok(text@),
    ensures
        scrape_snapshot_ok(snap, default_mappings(), prom_samples(lines(text@)), snap.timestamp as int),
{
    prometheus_to_snapshot_at(text, now_millis())
}

/// The Tomcat figures of a scrape read gauge by gauge: the snapshot has
/// Tomcat data exactly when a busy-threads gauge is present, and then its
/// busy, current and maximum thread counts are the whole values of the
/// `tomcat_threads_busy(_threads)`, `tomcat_threads_current(_threads)` and
/// `tomcat_threads_config_max(_threads)` gauges (0 when absent), in that
/// order of the fields.
pub proof fn lemma_scrape_tomcat(s: JvmSnapshot, ss: Seq<SampleView>, now: int)
    requires
        scrape_snapshot_ok(s, default_mappings(), ss, now),
    ensures
        ({
            let none = Seq::<(Seq<char>, Seq<char>)>::empty();
            let busy = first_gauge(seq!["tomcat_threads_busy_threads"@, "tomcat_threads_busy"@], ss, none);
            let current = first_gauge(
                seq!["tomcat_threads_current_threads"@, "tomcat_threads_current"@],
                ss,
                none,
            );
            let max = first_gauge(
                seq!["tomcat_threads_config_max_threads"@, "tomcat_threads_config_max"@],
                ss,
                none,
            );
            match s.tomcat {
                None => busy is None,
                Some(t) => {
                    &&& busy is Some
                    &&& t.threads_busy == clamp_i32(whole(busy.unwrap()))
                    &&& t.threads_current == clamp_i32(whole(or_default(current, 0)))
                    &&& t.threads_max == clamp_i32(whole(or_default(max, 0)))
                },
            }
        }),
{
    crate::normalize::lemma_default_tomcat_names();
}

/// The value of the first of `names` found among the samples (unlabelled
/// lookup), 0 when none is.
pub open spec fn gauge_named(ss: Seq<SampleView>, names: Seq<Seq<char>>) -> int {
    or_default(first_gauge(names, ss, Seq::<(Seq<char>, Seq<char>)>::empty()), 0)
}

/// The thread, CPU, class and HikariCP figures of a scrape, gauge by gauge:
/// each field is the (whole, for counts) value of the Prometheus gauge
/// whose name it carries, Spring Boot 3.x name first, 0 when absent.
pub proof fn lemma_scrape_gauges(s: JvmSnapshot, ss: Seq<SampleView>, now: int)
    requires
        scrape_snapshot_ok(s, default_mappings(), ss, now),
    ensures
        s.thread_summary.live == whole(
            gauge_named(ss, seq!["jvm_threads_live_threads"@, "jvm_threads_live"@]),
        ),
        s.thread_summary.daemon == whole(
            gauge_named(ss, seq!["jvm_threads_daemon_threads"@, "jvm_threads_daemon"@]),
        ),
        s.thread_summary.peak == whole(
            gauge_named(ss, seq!["jvm_threads_peak_threads"@, "jvm_threads_peak"@]),
        ),
        s.cpu.process_cpu == gauge_named(
            ss,
            seq!["process_cpu_usage"@, "process_cpu_time_ns_total"@],
        ) as i64,
        s.cpu.system_cpu == gauge_named(ss, seq!["system_cpu_usage"@]) as i64,
        s.cpu.available_processors == clamp_i32(whole(gauge_named(ss, seq!["system_cpu_count"@]))),
        s.cpu.system_load_average_1m == gauge_named(ss, seq!["system_load_average_1m"@]) as i64,
        s.classes.loaded == whole(
            gauge_named(ss, seq!["jvm_classes_loaded_classes"@, "jvm_classes_loaded"@]),
        ) as i64,
        s.classes.unloaded == whole(
            gauge_named(
                ss,
                seq![
                    "jvm_classes_unloaded_classes_total"@,
                    "jvm_classes_unloaded_classes"@,
                    "jvm_classes_unloaded"@,
                ],
            ),
        ) as i64,
        match s.hikari {
            None => first_gauge(
                seq!["hikaricp_connections_active"@],
                ss,
                Seq::<(Seq<char>, Seq<char>)>::empty(),
            ) is None,
            Some(h) => {
                &&& h.active == clamp_i32(whole(gauge_named(ss, seq!["hikaricp_connections_active"@])))
                &&& h.idle == clamp_i32(whole(gauge_named(ss, seq!["hikaricp_connections_idle"@])))
                &&& h.pending == clamp_i32(
                    whole(gauge_named(ss, seq!["hikaricp_connections_pending"@])),
                )
                &&& h.total == clamp_i32(whole(gauge_named(ss, seq!["hikaricp_connections"@])))
                &&& h.max == clamp_i32(whole(gauge_named(ss, seq!["hikaricp_connections_max"@])))
                &&& h.timeout_count == whole(
                    gauge_named(ss, seq!["hikaricp_connections_timeout_total"@]),
                ) as i64
            },
        },
{
    crate::normalize::lemma_default_gauge_names();
}

} // verus!
