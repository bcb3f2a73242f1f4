//! The data model: every type that flows between the data collectors, the
//! analysis engines and the user interface.
//!
//! Quantities that are fractional in nature (CPU load, latencies, pause
//! times, rates) are held as whole millionths in an `i64`; timestamps are
//! milliseconds since the Unix epoch.

use vstd::prelude::*;
use vstd::string::StringExecFns;
use crate::num::{int_text, parse_unsigned};
use crate::text::{chars_of, index_of, index_of_from, has_prefix, starts_with, string_of, slice_of};
use crate::num::{parse_u32, push_int};

verus! {

/// Division truncating toward zero, as Rust's `/` on integers.
pub open spec fn tdiv(a: int, b: int) -> int {
    if a >= 0 {
        a / b
    } else {
        -((-a) / b)
    }
}

/// Remainder of [`tdiv`], as Rust's `%` on integers.
pub open spec fn trem(a: int, b: int) -> int {
    a - b * tdiv(a, b)
}

/// A truncated quotient is no larger in magnitude than the dividend.
pub proof fn lemma_tdiv_bound(a: int, b: int)
    requires
        b >= 1,
    ensures
        a >= 0 ==> 0 <= tdiv(a, b) <= a,
        a < 0 ==> a <= tdiv(a, b) <= 0,
{
    if a >= 0 {
        assert(a / b <= a) by (nonlinear_arith)
            requires
                a >= 0,
                b >= 1,
        ;
    } else {
        assert((-a) / b <= -a) by (nonlinear_arith)
            requires
                -a > 0,
                b >= 1,
        ;
    }
}

/// `a / b` truncating toward zero, for `b > 0`.
pub fn tdiv_i128(a: i128, b: i128) -> (r: i128)
    requires
        b > 0,
        a > i128::MIN,
    ensures
        r as int == tdiv(a as int, b as int),
{
    if a >= 0 {
        a / b
    } else {
        -((-a) / b)
    }
}

// ═══════════════════════════ Memory ═══════════════════════════

/// Raw JMX `MemoryUsage`, in bytes. `max` is -1 when undefined.
#[derive(Debug, Clone, Copy, PartialEq, Eq)]
pub struct MemoryUsage {
    pub init: i64,
    pub used: i64,
    pub committed: i64,
    pub max: i64,
}

/// `used / max * 100`, in millionths of a percent, truncated toward zero.
pub open spec fn usage_pct_spec(used: int, max: int) -> Option<int> {
    if max <= 0 {
        None
    } else {
        Some(tdiv(used * 100_000_000, max))
    }
}

/// Bytes as mebibytes, in millionths.
pub open spec fn mib_micros(bytes: int) -> int {
    tdiv(bytes * 1_000_000, 1_048_576)
}

impl Default for MemoryUsage {
    fn default() -> (r: Self)
        ensures
            r == (MemoryUsage { init: 0, used: 0, committed: 0, max: 0 }),
    {
        MemoryUsage { init: 0, used: 0, committed: 0, max: 0 }
    }
}

impl MemoryUsage {
    /// Usage as a percentage of `max` (millionths of a percent); `None` when
    /// `max` is undefined (-1 or 0).
    pub fn usage_pct(&self) -> (r: Option<i128>)
        ensures
            r matches Some(x) ==> usage_pct_spec(self.used as int, self.max as int) == Some(
                x as int,
            ),
            r is None ==> usage_pct_spec(self.used as int, self.max as int) is None,
    {
        if self.max <= 0 {
            None
        } else {
            Some(tdiv_i128(self.used as i128 * 100_000_000, self.max as i128))
        }
    }

    /// Used bytes in mebibytes (millionths).
    pub fn used_mb(&self) -> (r: i128)
        ensures
            r as int == mib_micros(self.used as int),
    {
        tdiv_i128(self.used as i128 * 1_000_000, 1_048_576)
    }

    /// Maximum bytes in mebibytes (millionths).
    pub fn max_mb(&self) -> (r: i128)
        ensures
            r as int == mib_micros(self.max as int),
    {
        tdiv_i128(self.max as i128 * 1_000_000, 1_048_576)
    }
}

/// Heap or non-heap.
#[derive(Debug, Clone, Copy, PartialEq, Eq)]
pub enum PoolType {
    Heap,
    NonHeap,
    Unknown,
}

impl Default for PoolType {
    fn default() -> (r: Self)
        ensures
            r == PoolType::Unknown,
    {
        PoolType::Unknown
    }
}

/// A single JVM memory pool ("G1 Eden Space", "Metaspace", ...).
#[derive(Debug, Clone, Default)]
pub struct MemoryPool {
    pub name: String,
    pub pool_type: PoolType,
    pub usage: MemoryUsage,
    /// Post-GC usage; only meaningful for heap pools.
    pub collection_usage: Option<MemoryUsage>,
}

/// `x` held to the range of `i64`.
pub open spec fn clamp_i64(x: int) -> int {
    if x > i64::MAX {
        i64::MAX as int
    } else if x < i64::MIN {
        i64::MIN as int
    } else {
        x
    }
}

/// `a + b`, saturating at the bounds of `i64`.
pub fn saturating_sum(a: i64, b: i64) -> (r: i64)
    ensures
        r == clamp_i64(a + b),
{
    let t = a as i128 + b as i128;
    if t > i64::MAX as i128 {
        i64::MAX
    } else if t < i64::MIN as i128 {
        i64::MIN
    } else {
        t as i64
    }
}

/// A pool of the old (tenured) generation: "G1 Old Gen", "PS Old Gen",
/// "Tenured Gen", "ZGC Old Generation", ...
pub open spec fn is_old_gen_name(name: Seq<char>) -> bool {
    crate::text::contains(name, "Old"@) || crate::text::contains(name, "Tenured"@)
}

/// The post-GC use of the heap: the bytes in use after the last
/// collection, added over the heap pools that report it (saturating at the
/// bounds of `i64`); `None` when no heap pool reports it.
pub open spec fn post_gc_sum(ps: Seq<MemoryPool>) -> Option<int>
    decreases ps.len(),
{
    if ps.len() == 0 {
        None
    } else {
        let a = post_gc_sum(ps.drop_last());
        let p = ps.last();
        match (p.pool_type, p.collection_usage) {
            (PoolType::Heap, Some(cu)) => Some(
                clamp_i64(
                    match a {
                        Some(x) => x,
                        None => 0,
                    } + cu.used,
                ),
            ),
            _ => a,
        }
    }
}

/// The bytes in use in the old-generation pools, added with saturation at
/// the bounds of `i64`; `None` when no pool is an old generation.
pub open spec fn old_gen_sum(ps: Seq<MemoryPool>) -> Option<int>
    decreases ps.len(),
{
    if ps.len() == 0 {
        None
    } else {
        let a = old_gen_sum(ps.drop_last());
        let p = ps.last();
        if is_old_gen_name(p.name@) {
            Some(
                clamp_i64(
                    match a {
                        Some(x) => x,
                        None => 0,
                    } + p.usage.used,
                ),
            )
        } else {
            a
        }
    }
}

/// The occupancy of the old generation: the old pools' use, or, where no
/// pool is an old generation (single-generation collectors, or no pool
/// data), that of the whole heap.
pub open spec fn old_gen_used(s: JvmSnapshot) -> int {
    match old_gen_sum(s.memory_pools@) {
        Some(x) => x,
        None => s.heap.used as int,
    }
}

/// The post-GC use of the heap pools, as [`post_gc_sum`] defines it.
pub fn post_gc_used(pools: &Vec<MemoryPool>) -> (r: Option<i64>)
    ensures
        match r {
            Some(x) => post_gc_sum(pools@) == Some(x as int),
            None => post_gc_sum(pools@) is None,
        },
{
    let mut acc: Option<i64> = None;
    let mut i: usize = 0;
    while i < pools.len()
        invariant
            i <= pools@.len(),
            match acc {
                Some(x) => post_gc_sum(pools@.take(i as int)) == Some(x as int),
                None => post_gc_sum(pools@.take(i as int)) is None,
            },
        decreases pools@.len() - i,
    {
        assert(pools@.take(i + 1).drop_last() =~= pools@.take(i as int));
        let p = &pools[i];
        match (p.pool_type, &p.collection_usage) {
            (PoolType::Heap, Some(cu)) => {
                let base = match acc {
                    Some(x) => x,
                    None => 0,
                };
                acc = Some(saturating_sum(base, cu.used));
            },
            _ => {},
        }
        i += 1;
    }
    assert(pools@.take(pools@.len() as int) =~= pools@);
    acc
}

/// The occupancy of the old generation, as [`old_gen_used`] defines it.
pub fn old_gen_occupancy(s: &JvmSnapshot) -> (r: i64)
    ensures
        r as int == old_gen_used(*s),
{
    let pools = &s.memory_pools;
    let mut acc: Option<i64> = None;
    let mut i: usize = 0;
    while i < pools.len()
        invariant
            i <= pools@.len(),
            *pools == s.memory_pools,
            match acc {
                Some(x) => old_gen_sum(pools@.take(i as int)) == Some(x as int),
                None => old_gen_sum(pools@.take(i as int)) is None,
            },
        decreases pools@.len() - i,
    {
        assert(pools@.take(i + 1).drop_last() =~= pools@.take(i as int));
        let p = &pools[i];
        proof {
            reveal_strlit("Old");
            reveal_strlit("Tenured");
        }
        if crate::text::str_contains(p.name.as_str(), "Old") || crate::text::str_contains(
            p.name.as_str(),
            "Tenured",
        ) {
            let base = match acc {
                Some(x) => x,
                None => 0,
            };
            acc = Some(saturating_sum(base, p.usage.used));
        }
        i += 1;
    }
    assert(pools@.take(pools@.len() as int) =~= pools@);
    match acc {
        Some(x) => x,
        None => s.heap.used,
    }
}

// ═══════════════════════ Garbage collection ═══════════════════════

/// Cumulative counters of one `GarbageCollectorMXBean`.
#[derive(Debug, Clone, Default)]
pub struct GcCollectorStats {
    pub name: String,
    pub collection_count: i64,
    pub collection_time_ms: i64,
}

/// GC phase, normalised across G1, ZGC and Shenandoah.
#[derive(Debug, Clone, PartialEq, Eq)]
pub enum GcPhase {
    YoungPause,
    MixedPause,
    FullGc,
    ConcurrentMark,
    ConcurrentEvacuate,
    ConcurrentRelocate,
    ConcurrentUpdateRefs,
    InitMark,
    FinalMark,
    InitUpdateRefs,
    FinalUpdateRefs,
    DegeneratedGc,
    Other(String),
}

/// A single GC event parsed from a GC log.
#[derive(Debug, Clone)]
pub struct GcEvent {
    pub id: u64,
    pub collector: String,
    pub cause: String,
    pub phase: GcPhase,
    pub heap_before_bytes: i64,
    pub heap_after_bytes: i64,
    pub heap_capacity_bytes: i64,
    /// Pause (or phase) duration in millionths of a millisecond.
    pub pause_ms: i64,
    /// Milliseconds since the Unix epoch.
    pub timestamp: i64,
}

/// Detected GC algorithm family.
#[derive(Debug, Clone, Copy, PartialEq, Eq)]
pub enum GcAlgorithm {
    Serial,
    Parallel,
    G1,
    Zgc,
    ZgcGenerational,
    Shenandoah,
    Unknown,
}

impl Default for GcAlgorithm {
    fn default() -> (r: Self)
        ensures
            r == GcAlgorithm::Unknown,
    {
        GcAlgorithm::Unknown
    }
}

// ═══════════════════════════ Threads ═══════════════════════════

/// `java.lang.Thread.State`.
#[derive(Debug, Clone, Copy, PartialEq, Eq, Hash)]
pub enum ThreadState {
    New,
    Runnable,
    Blocked,
    Waiting,
    TimedWaiting,
    Terminated,
    Unknown,
}

impl Default for ThreadState {
    fn default() -> (r: Self)
        ensures
            r == ThreadState::Unknown,
    {
        ThreadState::Unknown
    }
}

/// One JVM thread.
#[derive(Debug, Clone, Default)]
pub struct ThreadInfo {
    pub id: i64,
    pub name: String,
    pub state: ThreadState,
    pub daemon: bool,
    pub cpu_time_ns: Option<i64>,
    pub blocked_count: i64,
    pub waited_count: i64,
    pub lock_name: Option<String>,
    pub lock_owner_name: Option<String>,
    pub lock_owner_id: Option<i64>,
    pub stack_frames: Vec<String>,
    pub in_native: bool,
    pub suspended: bool,
}

/// A deadlock cycle reported by `ThreadMXBean.findDeadlockedThreads()`.
#[derive(Debug, Clone)]
pub struct DeadlockInfo {
    pub thread_ids: Vec<i64>,
    pub threads: Vec<ThreadInfo>,
    /// Milliseconds since the Unix epoch.
    pub detected_at: i64,
}

/// Thread counts. `state_counts` holds each state at most once.
#[derive(Debug, Clone)]
pub struct ThreadSummary {
    pub live: i64,
    pub daemon: i64,
    pub peak: i64,
    pub state_counts: Vec<(ThreadState, i64)>,
}

impl Default for ThreadSummary {
    fn default() -> (r: Self)
        ensures
            r.live == 0 && r.daemon == 0 && r.peak == 0 && r.state_counts@.len() == 0,
    {
        ThreadSummary { live: 0, daemon: 0, peak: 0, state_counts: Vec::new() }
    }
}

impl ThreadSummary {
    /// The count recorded for `state`, if any.
    pub fn state_count(&self, state: ThreadState) -> (r: Option<i64>)
        ensures
            r matches Some(n) ==> exists|i: int|
                0 <= i < self.state_counts@.len() && self.state_counts@[i] == (state, n),
            r is None ==> forall|i: int|
                0 <= i < self.state_counts@.len() ==> self.state_counts@[i].0 != state,
    {
        let mut i: usize = 0;
        while i < self.state_counts.len()
            invariant
                i <= self.state_counts@.len(),
                forall|k: int| 0 <= k < i ==> self.state_counts@[k].0 != state,
            decreases self.state_counts@.len() - i,
        {
            if same_state(self.state_counts[i].0, state) {
                return Some(self.state_counts[i].1);
            }
            i += 1;
        }
        None
    }
}

/// `a == b` for thread states.
pub fn same_state(a: ThreadState, b: ThreadState) -> (r: bool)
    ensures
        r == (a == b),
{
    match (a, b) {
        (ThreadState::New, ThreadState::New) => true,
        (ThreadState::Runnable, ThreadState::Runnable) => true,
        (ThreadState::Blocked, ThreadState::Blocked) => true,
        (ThreadState::Waiting, ThreadState::Waiting) => true,
        (ThreadState::TimedWaiting, ThreadState::TimedWaiting) => true,
        (ThreadState::Terminated, ThreadState::Terminated) => true,
        (ThreadState::Unknown, ThreadState::Unknown) => true,
        _ => false,
    }
}

// ═══════════════════════════ CPU ═══════════════════════════

/// CPU figures. Loads are in millionths of the whole (0 ..= 1_000_000).
#[derive(Debug, Clone, Copy, PartialEq, Eq)]
pub struct CpuMetrics {
    pub process_cpu: i64,
    pub system_cpu: i64,
    pub available_processors: i32,
    /// One-minute load average, in millionths.
    pub system_load_average_1m: i64,
}

impl Default for CpuMetrics {
    fn default() -> (r: Self)
        ensures
            r == (CpuMetrics {
                process_cpu: 0,
                system_cpu: 0,
                available_processors: 0,
                system_load_average_1m: 0,
            }),
    {
        CpuMetrics { process_cpu: 0, system_cpu: 0, available_processors: 0, system_load_average_1m: 0 }
    }
}

impl CpuMetrics {
    /// Process CPU in millionths of a percent.
    pub fn process_cpu_pct(&self) -> (r: i128)
        ensures
            r == self.process_cpu as int * 100,
    {
        self.process_cpu as i128 * 100
    }

    /// System CPU in millionths of a percent.
    pub fn system_cpu_pct(&self) -> (r: i128)
        ensures
            r == self.system_cpu as int * 100,
    {
        self.system_cpu as i128 * 100
    }
}

// ═══════════════════════ Class loading ═══════════════════════

#[derive(Debug, Clone, Copy, PartialEq, Eq)]
pub struct ClassMetrics {
    pub loaded: i64,
    pub total_loaded: i64,
    pub unloaded: i64,
}

impl Default for ClassMetrics {
    fn default() -> (r: Self)
        ensures
            r == (ClassMetrics { loaded: 0, total_loaded: 0, unloaded: 0 }),
    {
        ClassMetrics { loaded: 0, total_loaded: 0, unloaded: 0 }
    }
}

// ═══════════════════════════ HTTP ═══════════════════════════

/// Metrics for one endpoint (uri + method). Times in millionths of a ms.
#[derive(Debug, Clone, Default)]
pub struct HttpEndpointMetrics {
    pub uri: String,
    pub method: String,
    pub count: i64,
    pub total_time_ms: i64,
    pub max_ms: i64,
    pub error_count: i64,
    pub p50_ms: Option<i64>,
    pub p95_ms: Option<i64>,
    pub p99_ms: Option<i64>,
}

/// Aggregate HTTP figures; rates and latencies in millionths.
#[derive(Debug, Clone)]
pub struct HttpSummary {
    pub total_requests: i64,
    pub total_errors: i64,
    pub request_rate: i64,
    pub error_rate: i64,
    pub avg_latency_ms: i64,
    pub endpoints: Vec<HttpEndpointMetrics>,
}

impl Default for HttpSummary {
    fn default() -> (r: Self)
        ensures
            r.total_requests == 0 && r.total_errors == 0 && r.request_rate == 0 && r.error_rate
                == 0 && r.avg_latency_ms == 0 && r.endpoints@.len() == 0,
    {
        HttpSummary {
            total_requests: 0,
            total_errors: 0,
            request_rate: 0,
            error_rate: 0,
            avg_latency_ms: 0,
            endpoints: Vec::new(),
        }
    }
}

// ═══════════════════════════ HikariCP ═══════════════════════════

/// Connection pool figures; times in millionths of a ms.
#[derive(Debug, Clone, Default)]
pub struct HikariMetrics {
    pub pool_name: String,
    pub active: i32,
    pub idle: i32,
    pub pending: i32,
    pub total: i32,
    pub max: i32,
    pub acquire_ms: i64,
    pub usage_ms: i64,
    pub creation_ms: i64,
    pub timeout_count: i64,
}

/// `active / max * 100` in millionths of a percent; 0 when `max` is 0.
pub open spec fn hikari_util_spec(active: int, max: int) -> int {
    if max == 0 {
        0
    } else if max > 0 {
        tdiv(active * 100_000_000, max)
    } else {
        tdiv(-active * 100_000_000, -max)
    }
}

impl HikariMetrics {
    /// Pool utilisation, in millionths of a percent.
    pub fn utilization_pct(&self) -> (r: i128)
        ensures
            r as int == hikari_util_spec(self.active as int, self.max as int),
    {
        if self.max == 0 {
            0
        } else if self.max > 0 {
            tdiv_i128(self.active as i128 * 100_000_000, self.max as i128)
        } else {
            tdiv_i128(-(self.active as i128) * 100_000_000, -(self.max as i128))
        }
    }

    /// Every connection is in use and callers are waiting.
    pub fn is_saturated(&self) -> (r: bool)
        ensures
            r == (self.active >= self.max && self.pending > 0),
    {
        self.active >= self.max && self.pending > 0
    }
}

// ═══════════════════════════ Tomcat ═══════════════════════════

#[derive(Debug, Clone, Copy, Default, PartialEq, Eq)]
pub struct TomcatMetrics {
    pub threads_busy: i32,
    pub threads_current: i32,
    pub threads_max: i32,
    pub connections_current: i64,
    pub connections_max: i64,
}

// ═══════════════════════ Task executors ═══════════════════════

/// A Spring task executor (`ThreadPoolTaskExecutor`).
#[derive(Debug, Clone, Default)]
pub struct ExecutorMetrics {
    pub name: String,
    pub pool_size: i64,
    pub core_size: i64,
    pub max_size: i64,
    pub active: i64,
    pub queued: i64,
    pub queue_remaining: Option<i64>,
    pub completed_total: i64,
}

impl ExecutorMetrics {
    /// Every thread of the (non-empty) pool is busy.
    pub fn is_saturated(&self) -> (r: bool)
        ensures
            r == (self.pool_size > 0 && self.active >= self.pool_size),
    {
        self.pool_size > 0 && self.active >= self.pool_size
    }
}

// ═══════════════════════════ Caches ═══════════════════════════

/// A Spring cache (Caffeine and the like).
#[derive(Debug, Clone, Default)]
pub struct CacheMetrics {
    pub name: String,
    pub hits: i64,
    pub misses: i64,
    pub size: i64,
    pub evictions: i64,
}

impl CacheMetrics {
    /// Lookups: hits plus misses.
    pub fn gets(&self) -> (r: i128)
        ensures
            r == self.hits + self.misses,
    {
        self.hits as i128 + self.misses as i128
    }

    /// Hits over lookups, in millionths; `None` when there were no lookups.
    pub fn hit_ratio(&self) -> (r: Option<i128>)
        ensures
            r matches Some(x) ==> self.hits + self.misses != 0 && x as int == (if self.hits
                + self.misses > 0 {
                tdiv(self.hits * 1_000_000, self.hits + self.misses)
            } else {
                tdiv(-self.hits * 1_000_000, -(self.hits + self.misses))
            }),
            r is None <==> self.hits + self.misses == 0,
    {
        let g = self.gets();
        if g == 0 {
            None
        } else if g > 0 {
            Some(tdiv_i128(self.hits as i128 * 1_000_000, g))
        } else {
            Some(tdiv_i128(-(self.hits as i128) * 1_000_000, -g))
        }
    }
}

// ═══════════════════════════ Logging ═══════════════════════════

/// Logback event counters by level.
#[derive(Debug, Clone, Copy, PartialEq, Eq)]
pub struct LogEventCounts {
    pub trace: i64,
    pub debug: i64,
    pub info: i64,
    pub warn: i64,
    pub error: i64,
}

impl Default for LogEventCounts {
    fn default() -> (r: Self)
        ensures
            r == (LogEventCounts { trace: 0, debug: 0, info: 0, warn: 0, error: 0 }),
    {
        LogEventCounts { trace: 0, debug: 0, info: 0, warn: 0, error: 0 }
    }
}

// ═══════════════════════ JVM runtime info ═══════════════════════

#[derive(Debug, Clone)]
pub struct JvmInfo {
    pub vm_name: String,
    pub vm_vendor: String,
    pub vm_version: String,
    pub spec_version: String,
    pub uptime_ms: i64,
    pub input_arguments: Vec<String>,
    pub gc_algorithm: GcAlgorithm,
    /// Configured `-Xmx` in bytes.
    pub max_heap_bytes: Option<i64>,
    /// Configured `-Xms` in bytes.
    pub initial_heap_bytes: Option<i64>,
}

impl Default for JvmInfo {
    fn default() -> (r: Self)
        ensures
            r.vm_name@.len() == 0 && r.vm_vendor@.len() == 0 && r.vm_version@.len() == 0
                && r.spec_version@.len() == 0 && r.uptime_ms == 0 && r.input_arguments@.len() == 0
                && r.gc_algorithm == GcAlgorithm::Unknown && r.max_heap_bytes is None
                && r.initial_heap_bytes is None,
    {
        JvmInfo {
            vm_name: String::new(),
            vm_vendor: String::new(),
            vm_version: String::new(),
            spec_version: String::new(),
            uptime_ms: 0,
            input_arguments: Vec::new(),
            gc_algorithm: GcAlgorithm::Unknown,
            max_heap_bytes: None,
            initial_heap_bytes: None,
        }
    }
}

/// "{h}h {m}m" when at least an hour has passed, else "{m}m".
pub open spec fn uptime_text(uptime_ms: int) -> Seq<char> {
    let secs = tdiv(uptime_ms, 1000);
    let hours = tdiv(secs, 3600);
    let mins = tdiv(trem(secs, 3600), 60);
    if hours > 0 {
        int_text(hours) + seq!['h', ' '] + int_text(mins) + seq!['m']
    } else {
        int_text(mins) + seq!['m']
    }
}

/// The major Java version in a specification version ("1.8" is 8, "21" is 21).
pub open spec fn java_major_spec(v: Seq<char>) -> Option<int> {
    if starts_with(v, seq!['1', '.']) {
        parse_unsigned(v.skip(2), u32::MAX as int)
    } else {
        parse_unsigned(v.take(index_of_from(v, '.', 0)), u32::MAX as int)
    }
}

/// Short display name of a GC algorithm.
pub open spec fn gc_algorithm_name(a: GcAlgorithm) -> Seq<char> {
    match a {
        GcAlgorithm::G1 => seq!['G', '1', 'G', 'C'],
        GcAlgorithm::Zgc => seq!['Z', 'G', 'C'],
        GcAlgorithm::ZgcGenerational => seq!['G', 'e', 'n', 'Z', 'G', 'C'],
        GcAlgorithm::Shenandoah => seq!['S', 'h', 'e', 'n', 'a', 'n', 'd', 'o', 'a', 'h'],
        GcAlgorithm::Parallel => seq!['P', 'a', 'r', 'a', 'l', 'l', 'e', 'l', 'G', 'C'],
        GcAlgorithm::Serial => seq!['S', 'e', 'r', 'i', 'a', 'l', 'G', 'C'],
        GcAlgorithm::Unknown => seq!['G', 'C', ':', '?'],
    }
}

impl JvmInfo {
    /// Uptime as "2h 3m" or "3m".
    pub fn uptime_human(&self) -> (r: String)
        ensures
            r@ == uptime_text(self.uptime_ms as int),
    {
        let secs = tdiv_i128(self.uptime_ms as i128, 1000);
        let hours = tdiv_i128(secs, 3600);
        let rem = secs - 3600 * hours;
        let mins = tdiv_i128(rem, 60);
        let mut s = String::new();
        if hours > 0 {
            push_int(&mut s, hours);
            s.append("h ");
            push_int(&mut s, mins);
            s.append("m");
            proof {
                reveal_strlit("h ");
                reveal_strlit("m");
            }
            assert(s@ =~= uptime_text(self.uptime_ms as int));
        } else {
            push_int(&mut s, mins);
            s.append("m");
            proof {
                reveal_strlit("m");
            }
            assert(s@ =~= uptime_text(self.uptime_ms as int));
        }
        s
    }

    /// The Java major version, from `spec_version`.
    pub fn java_major_version(&self) -> (r: Option<u32>)
        ensures
            r matches Some(x) ==> java_major_spec(self.spec_version@) == Some(x as int),
            r is None ==> java_major_spec(self.spec_version@) is None,
    {
        let v = chars_of(self.spec_version.as_str());
        let p = ['1', '.'];
        assert(p@ =~= seq!['1', '.']);
        if has_prefix(&v, &p) {
            let rest = slice_of(&v, 2, v.len());
            assert(rest@ =~= v@.skip(2));
            parse_u32(&rest)
        } else {
            let k = index_of(&v, '.', 0);
            let head = slice_of(&v, 0, k);
            assert(head@ =~= v@.take(k as int));
            parse_u32(&head)
        }
    }

    /// Short name of the detected GC algorithm.
    pub fn gc_algorithm_str(&self) -> (r: &'static str)
        ensures
            r@ == gc_algorithm_name(self.gc_algorithm),
    {
        proof {
            reveal_strlit("G1GC");
            reveal_strlit("ZGC");
            reveal_strlit("GenZGC");
            reveal_strlit("Shenandoah");
            reveal_strlit("ParallelGC");
            reveal_strlit("SerialGC");
            reveal_strlit("GC:?");
        }
        match self.gc_algorithm {
            GcAlgorithm::G1 => "G1GC",
            GcAlgorithm::Zgc => "ZGC",
            GcAlgorithm::ZgcGenerational => "GenZGC",
            GcAlgorithm::Shenandoah => "Shenandoah",
            GcAlgorithm::Parallel => "ParallelGC",
            GcAlgorithm::Serial => "SerialGC",
            GcAlgorithm::Unknown => "GC:?",
        }
    }
}

// ═══════════════════════════ Health ═══════════════════════════

#[derive(Debug, Clone, Copy, PartialEq, Eq)]
pub enum HealthStatus {
    Up,
    Down,
    OutOfService,
    Unknown,
}

impl Default for HealthStatus {
    fn default() -> (r: Self)
        ensures
            r == HealthStatus::Unknown,
    {
        HealthStatus::Unknown
    }
}

/// Overall status and per-component statuses (each component once).
#[derive(Debug, Clone)]
pub struct HealthInfo {
    pub status: HealthStatus,
    pub components: Vec<(String, HealthStatus)>,
}

impl Default for HealthInfo {
    fn default() -> (r: Self)
        ensures
            r.status == HealthStatus::Unknown && r.components@.len() == 0,
    {
        HealthInfo { status: HealthStatus::Unknown, components: Vec::new() }
    }
}

// ═══════════════════════ Connection target ═══════════════════════

/// Where the monitored JVM is reached.
#[derive(Debug, Clone)]
pub struct TargetConnection {
    pub name: String,
    pub actuator_url: Option<String>,
    pub jolokia_url: Option<String>,
    pub gc_log_path: Option<String>,
    pub app_log_path: Option<String>,
    /// Milliseconds since the Unix epoch.
    pub connected_since: Option<i64>,
}

impl Default for TargetConnection {
    fn default() -> (r: Self)
        ensures
            r.name@ == "localhost"@ && r.actuator_url is None && r.jolokia_url is None
                && r.gc_log_path is None && r.app_log_path is None && r.connected_since is None,
    {
        TargetConnection {
            name: String::from_str("localhost"),
            actuator_url: None,
            jolokia_url: None,
            gc_log_path: None,
            app_log_path: None,
            connected_since: None,
        }
    }
}

// ═══════════════════════ The master snapshot ═══════════════════════

/// A complete point-in-time snapshot of one JVM.
#[derive(Debug, Clone)]
pub struct JvmSnapshot {
    /// Milliseconds since the Unix epoch.
    pub timestamp: i64,
    pub target: TargetConnection,
    pub heap: MemoryUsage,
    pub non_heap: MemoryUsage,
    pub memory_pools: Vec<MemoryPool>,
    pub gc_collectors: Vec<GcCollectorStats>,
    pub recent_gc_events: Vec<GcEvent>,
    pub thread_summary: ThreadSummary,
    pub threads: Vec<ThreadInfo>,
    pub deadlocks: Vec<DeadlockInfo>,
    pub cpu: CpuMetrics,
    pub classes: ClassMetrics,
    pub http: HttpSummary,
    pub hikari: Option<HikariMetrics>,
    pub tomcat: Option<TomcatMetrics>,
    pub executors: Vec<ExecutorMetrics>,
    pub caches: Vec<CacheMetrics>,
    pub log_events: LogEventCounts,
    pub jvm_info: JvmInfo,
    pub health: HealthInfo,
}

/// A snapshot with nothing in it.
pub open spec fn is_empty_snapshot(s: JvmSnapshot) -> bool {
    &&& s.timestamp == 0
    &&& s.heap == MemoryUsage { init: 0, used: 0, committed: 0, max: 0 }
    &&& s.non_heap == MemoryUsage { init: 0, used: 0, committed: 0, max: 0 }
    &&& s.memory_pools@.len() == 0
    &&& s.gc_collectors@.len() == 0
    &&& s.recent_gc_events@.len() == 0
    &&& s.thread_summary.live == 0 && s.thread_summary.daemon == 0 && s.thread_summary.peak == 0
    &&& s.thread_summary.state_counts@.len() == 0
    &&& s.threads@.len() == 0
    &&& s.deadlocks@.len() == 0
    &&& s.cpu == CpuMetrics { process_cpu: 0, system_cpu: 0, available_processors: 0, system_load_average_1m: 0 }
    &&& s.classes == ClassMetrics { loaded: 0, total_loaded: 0, unloaded: 0 }
    &&& s.http.total_requests == 0 && s.http.total_errors == 0 && s.http.request_rate == 0
    &&& s.http.error_rate == 0 && s.http.avg_latency_ms == 0 && s.http.endpoints@.len() == 0
    &&& s.hikari is None
    &&& s.tomcat is None
    &&& s.executors@.len() == 0
    &&& s.caches@.len() == 0
    &&& s.log_events == LogEventCounts { trace: 0, debug: 0, info: 0, warn: 0, error: 0 }
    &&& s.jvm_info.vm_name@.len() == 0 && s.jvm_info.vm_vendor@.len() == 0
    &&& s.jvm_info.vm_version@.len() == 0 && s.jvm_info.spec_version@.len() == 0
    &&& s.jvm_info.uptime_ms == 0 && s.jvm_info.input_arguments@.len() == 0
    &&& s.jvm_info.gc_algorithm == GcAlgorithm::Unknown
    &&& s.jvm_info.max_heap_bytes is None && s.jvm_info.initial_heap_bytes is None
    &&& s.health.status == HealthStatus::Unknown && s.health.components@.len() == 0
    &&& s.target.name@ == "localhost"@ && s.target.actuator_url is None
    &&& s.target.jolokia_url is None && s.target.gc_log_path is None
    &&& s.target.app_log_path is None && s.target.connected_since is None
}

impl Default for JvmSnapshot {
    fn default() -> (r: Self)
        ensures
            is_empty_snapshot(r),
    {
        JvmSnapshot {
            timestamp: 0,
            target: TargetConnection::default(),
            heap: MemoryUsage::default(),
            non_heap: MemoryUsage::default(),
            memory_pools: Vec::new(),
            gc_collectors: Vec::new(),
            recent_gc_events: Vec::new(),
            thread_summary: ThreadSummary::default(),
            threads: Vec::new(),
            deadlocks: Vec::new(),
            cpu: CpuMetrics::default(),
            classes: ClassMetrics::default(),
            http: HttpSummary::default(),
            hikari: None,
            tomcat: None,
            executors: Vec::new(),
            caches: Vec::new(),
            log_events: LogEventCounts::default(),
            jvm_info: JvmInfo::default(),
            health: HealthInfo::default(),
        }
    }
}

// ═══════════════════════ Derived metrics ═══════════════════════

/// Figures computed by diffing consecutive snapshots, all in millionths.
#[derive(Debug, Clone, Copy, PartialEq, Eq, Default)]
pub struct DerivedMetrics {
    pub allocation_rate_bytes_per_sec: i64,
    pub promotion_rate_bytes_per_sec: i64,
    pub gc_throughput: i64,
    pub gc_overhead: i64,
    pub http_requests_per_sec: i64,
    pub http_error_rate: i64,
}

} // verus!
