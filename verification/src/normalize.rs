//! Metric name normalization: the Prometheus names that Spring Boot 2.x
//! (Micrometer 1.x), Spring Boot 3.x (Micrometer 1.11+) and Jolokia give to
//! each metric the snapshot knows. This is the one place where metric name
//! strings are defined.

use vstd::prelude::*;
use crate::prometheus::{Sample, find_gauge, find_gauge_spec, sample_views, str_pairs};
use crate::text::str_eq;

verus! {

/// A metric as the snapshot and the UI know it.
#[derive(Debug, Clone, Copy, PartialEq, Eq, Hash, Structural)]
pub enum CanonicalMetric {
    // Memory
    HeapUsed,
    HeapMax,
    HeapCommitted,
    NonHeapUsed,
    NonHeapCommitted,
    MemoryPoolUsed,
    MemoryPoolMax,
    MemoryPoolCommitted,
    // CPU
    ProcessCpu,
    SystemCpu,
    SystemCpuCount,
    LoadAverage1m,
    // Threads
    ThreadsLive,
    ThreadsDaemon,
    ThreadsPeak,
    ThreadStates,
    // GC
    GcPauseCount,
    GcPauseSum,
    GcPauseMax,
    GcMemoryAllocated,
    GcMemoryPromoted,
    // Classes
    ClassesLoaded,
    ClassesUnloaded,
    // HTTP
    HttpRequestsCount,
    HttpRequestsSum,
    HttpRequestsMax,
    // HikariCP
    HikariActive,
    HikariIdle,
    HikariPending,
    HikariTotal,
    HikariMax,
    HikariTimeoutTotal,
    HikariAcquireSum,
    HikariUsageSum,
    HikariCreationSum,
    // Tomcat
    TomcatThreadsBusy,
    TomcatThreadsCurrent,
    TomcatThreadsMax,
}

/// The name variants of one canonical metric, tried in order.
#[derive(Debug, Clone)]
pub struct MetricMapping {
    pub canonical: CanonicalMetric,
    /// Prometheus name variants.
    pub prometheus_names: Vec<&'static str>,
    /// Jolokia `mbean:attribute` path.
    pub jolokia_path: Option<&'static str>,
}

pub struct MappingView {
    pub canonical: CanonicalMetric,
    pub names: Seq<Seq<char>>,
    pub jolokia: Option<Seq<char>>,
}

pub open spec fn mapping_view_of(
    canonical: CanonicalMetric,
    names: Seq<Seq<char>>,
    jolokia: Option<Seq<char>>,
) -> MappingView {
    MappingView { canonical, names, jolokia }
}

pub open spec fn str_views(v: Seq<&'static str>) -> Seq<Seq<char>> {
    v.map_values(|s: &'static str| s@)
}

impl View for MetricMapping {
    type V = MappingView;

    open spec fn view(&self) -> MappingView {
        MappingView {
            canonical: self.canonical,
            names: str_views(self.prometheus_names@),
            jolokia: match self.jolokia_path {
                Some(p) => Some(p@),
                None => None,
            },
        }
    }
}

pub open spec fn mapping_views(v: Seq<MetricMapping>) -> Seq<MappingView> {
    v.map_values(|m: MetricMapping| m@)
}

/// The mappings of the default registry.
pub open spec fn default_mappings() -> Seq<MappingView> {
    seq![
        mapping_view_of(CanonicalMetric::ThreadsLive, seq!["jvm_threads_live_threads"@, "jvm_threads_live"@], Some("java.lang:type=Threading:ThreadCount"@)),
        mapping_view_of(CanonicalMetric::ThreadsDaemon, seq!["jvm_threads_daemon_threads"@, "jvm_threads_daemon"@], Some("java.lang:type=Threading:DaemonThreadCount"@)),
        mapping_view_of(CanonicalMetric::ThreadsPeak, seq!["jvm_threads_peak_threads"@, "jvm_threads_peak"@], Some("java.lang:type=Threading:PeakThreadCount"@)),
        mapping_view_of(CanonicalMetric::ThreadStates, seq!["jvm_threads_states_threads"@], None),
        mapping_view_of(CanonicalMetric::ProcessCpu, seq!["process_cpu_usage"@, "process_cpu_time_ns_total"@], Some("java.lang:type=OperatingSystem:ProcessCpuLoad"@)),
        mapping_view_of(CanonicalMetric::SystemCpu, seq!["system_cpu_usage"@], Some("java.lang:type=OperatingSystem:SystemCpuLoad"@)),
        mapping_view_of(CanonicalMetric::SystemCpuCount, seq!["system_cpu_count"@], Some("java.lang:type=OperatingSystem:AvailableProcessors"@)),
        mapping_view_of(CanonicalMetric::LoadAverage1m, seq!["system_load_average_1m"@], Some("java.lang:type=OperatingSystem:SystemLoadAverage"@)),
        mapping_view_of(CanonicalMetric::MemoryPoolUsed, seq!["jvm_memory_used_bytes"@], None),
        mapping_view_of(CanonicalMetric::MemoryPoolMax, seq!["jvm_memory_max_bytes"@], None),
        mapping_view_of(CanonicalMetric::MemoryPoolCommitted, seq!["jvm_memory_committed_bytes"@], None),
        mapping_view_of(CanonicalMetric::GcPauseCount, seq!["jvm_gc_pause_seconds_count"@], None),
        mapping_view_of(CanonicalMetric::GcPauseSum, seq!["jvm_gc_pause_seconds_sum"@], None),
        mapping_view_of(CanonicalMetric::GcMemoryAllocated, seq!["jvm_gc_memory_allocated_bytes_total"@, "jvm_gc_memory_allocated_bytes"@], None),
        mapping_view_of(CanonicalMetric::GcMemoryPromoted, seq!["jvm_gc_memory_promoted_bytes_total"@, "jvm_gc_memory_promoted_bytes"@], None),
        mapping_view_of(CanonicalMetric::ClassesLoaded, seq!["jvm_classes_loaded_classes"@, "jvm_classes_loaded"@], Some("java.lang:type=ClassLoading:LoadedClassCount"@)),
        mapping_view_of(CanonicalMetric::ClassesUnloaded, seq!["jvm_classes_unloaded_classes_total"@, "jvm_classes_unloaded_classes"@, "jvm_classes_unloaded"@], Some("java.lang:type=ClassLoading:UnloadedClassCount"@)),
        mapping_view_of(CanonicalMetric::HttpRequestsCount, seq!["http_server_requests_seconds_count"@, "http_server_requests_active_seconds_count"@], None),
        mapping_view_of(CanonicalMetric::HttpRequestsSum, seq!["http_server_requests_seconds_sum"@, "http_server_requests_active_seconds_sum"@], None),
        mapping_view_of(CanonicalMetric::HttpRequestsMax, seq!["http_server_requests_seconds_max"@], None),
        mapping_view_of(CanonicalMetric::HikariActive, seq!["hikaricp_connections_active"@], None),
        mapping_view_of(CanonicalMetric::HikariIdle, seq!["hikaricp_connections_idle"@], None),
        mapping_view_of(CanonicalMetric::HikariPending, seq!["hikaricp_connections_pending"@], None),
        mapping_view_of(CanonicalMetric::HikariTotal, seq!["hikaricp_connections"@], None),
        mapping_view_of(CanonicalMetric::HikariMax, seq!["hikaricp_connections_max"@], None),
        mapping_view_of(CanonicalMetric::HikariTimeoutTotal, seq!["hikaricp_connections_timeout_total"@], None),
        mapping_view_of(CanonicalMetric::TomcatThreadsBusy, seq!["tomcat_threads_busy_threads"@, "tomcat_threads_busy"@], None),
        mapping_view_of(CanonicalMetric::TomcatThreadsCurrent, seq!["tomcat_threads_current_threads"@, "tomcat_threads_current"@], None),
        mapping_view_of(CanonicalMetric::TomcatThreadsMax, seq!["tomcat_threads_config_max_threads"@, "tomcat_threads_config_max"@], None),
    ]
}

/// The canonical metric a Prometheus name stands for: when several
/// mappings list the name, the last one (as inserting each name into an
/// index in order leaves it).
pub open spec fn resolve_in(ms: Seq<MappingView>, name: Seq<char>) -> Option<CanonicalMetric>
    decreases ms.len(),
{
    if ms.len() == 0 {
        None
    } else if ms.last().names.contains(name) {
        Some(ms.last().canonical)
    } else {
        resolve_in(ms.drop_last(), name)
    }
}

/// All name variants of `c`, mapping by mapping, in order.
pub open spec fn names_for(ms: Seq<MappingView>, c: CanonicalMetric) -> Seq<Seq<char>>
    decreases ms.len(),
{
    if ms.len() == 0 {
        Seq::empty()
    } else if ms.last().canonical == c {
        names_for(ms.drop_last(), c) + ms.last().names
    } else {
        names_for(ms.drop_last(), c)
    }
}

/// No name is listed by two mappings of different metrics.
pub open spec fn names_unambiguous(ms: Seq<MappingView>) -> bool {
    forall|i: int, j: int, n: Seq<char>|
        0 <= i < ms.len() && 0 <= j < ms.len() && #[trigger] ms[i].names.contains(n)
            && #[trigger] ms[j].names.contains(n) ==> ms[i].canonical == ms[j].canonical
}

/// A name resolves only to a metric that lists it among its variants, and
/// it resolves whenever some metric lists it.
pub proof fn lemma_resolve_sound(ms: Seq<MappingView>, n: Seq<char>, c: CanonicalMetric)
    ensures
        resolve_in(ms, n) == Some(c) ==> names_for(ms, c).contains(n),
        names_for(ms, c).contains(n) ==> resolve_in(ms, n) is Some,
    decreases ms.len(),
{
    if ms.len() > 0 {
        let f = ms.drop_last();
        let b = ms.last().names;
        lemma_resolve_sound(f, n, c);
        if ms.last().canonical == c {
            let a = names_for(f, c);
            if b.contains(n) {
                let x = choose|x: int| 0 <= x < b.len() && b[x] == n;
                assert((a + b)[a.len() + x] == n);
            } else if a.contains(n) {
                let x = choose|x: int| 0 <= x < a.len() && a[x] == n;
                assert((a + b)[x] == n);
            } else if (a + b).contains(n) {
                let x = choose|x: int| 0 <= x < (a + b).len() && (a + b)[x] == n;
                if x < a.len() {
                    assert(a[x] == n);
                } else {
                    assert(b[x - a.len()] == n);
                }
            }
        }
    }
}

/// Resolving any name variant of a metric gives the metric back, when no
/// name is shared between metrics.
pub proof fn lemma_resolve_names_for(ms: Seq<MappingView>, c: CanonicalMetric, n: Seq<char>)
    requires
        names_unambiguous(ms),
        names_for(ms, c).contains(n),
    ensures
        resolve_in(ms, n) == Some(c),
    decreases ms.len(),
{
    let f = ms.drop_last();
    assert(names_unambiguous(f)) by {
        assert forall|i: int, j: int, m: Seq<char>|
            0 <= i < f.len() && 0 <= j < f.len() && #[trigger] f[i].names.contains(m)
                && #[trigger] f[j].names.contains(m) implies f[i].canonical == f[j].canonical by {
            assert(f[i] == ms[i] && f[j] == ms[j]);
        }
    }
    let k = ms.len() - 1;
    if ms.last().names.contains(n) {
        if ms.last().canonical != c {
            lemma_names_for_source(f, c, n);
            let i = choose|i: int|
                0 <= i < f.len() && f[i].canonical == c && f[i].names.contains(n);
            assert(ms[i] == f[i]);
            assert(ms[k] == ms.last());
        }
    } else {
        if ms.last().canonical == c {
            let a = names_for(f, c);
            let b = ms.last().names;
            let x = choose|x: int| 0 <= x < (a + b).len() && (a + b)[x] == n;
            if x >= a.len() {
                assert(b[x - a.len()] == n);
            } else {
                assert(a[x] == n);
            }
        }
        lemma_resolve_names_for(f, c, n);
    }
}

/// A name variant of `c` comes from a mapping of `c`.
pub proof fn lemma_names_for_source(ms: Seq<MappingView>, c: CanonicalMetric, n: Seq<char>)
    requires
        names_for(ms, c).contains(n),
    ensures
        exists|i: int| 0 <= i < ms.len() && ms[i].canonical == c && ms[i].names.contains(n),
    decreases ms.len(),
{
    let f = ms.drop_last();
    let k = ms.len() - 1;
    if ms.last().canonical == c {
        let a = names_for(f, c);
        let b = ms.last().names;
        let x = choose|x: int| 0 <= x < (a + b).len() && (a + b)[x] == n;
        if x >= a.len() {
            assert(b[x - a.len()] == n);
            assert(ms[k] == ms.last());
        } else {
            assert(a[x] == n);
            lemma_names_for_source(f, c, n);
            let i = choose|i: int| 0 <= i < f.len() && f[i].canonical == c && f[i].names.contains(n);
            assert(ms[i] == f[i]);
        }
    } else {
        lemma_names_for_source(f, c, n);
        let i = choose|i: int| 0 <= i < f.len() && f[i].canonical == c && f[i].names.contains(n);
        assert(ms[i] == f[i]);
    }
}

pub open spec fn opt_str_view(j: Option<&'static str>) -> Option<Seq<char>> {
    match j {
        Some(p) => Some(p@),
        None => None,
    }
}

fn mapping1(c: CanonicalMetric, a: &'static str, j: Option<&'static str>) -> (m: MetricMapping)
    ensures
        m@ == mapping_view_of(c, seq![a@], opt_str_view(j)),
{
    let m = MetricMapping { canonical: c, prometheus_names: vec![a], jolokia_path: j };
    assert(str_views(m.prometheus_names@) =~= seq![a@]);
    m
}

fn mapping2(c: CanonicalMetric, a: &'static str, b: &'static str, j: Option<&'static str>) -> (m:
    MetricMapping)
    ensures
        m@ == mapping_view_of(c, seq![a@, b@], opt_str_view(j)),
{
    let m = MetricMapping { canonical: c, prometheus_names: vec![a, b], jolokia_path: j };
    assert(str_views(m.prometheus_names@) =~= seq![a@, b@]);
    m
}

fn mapping3(
    c: CanonicalMetric,
    a: &'static str,
    b: &'static str,
    d: &'static str,
    j: Option<&'static str>,
) -> (m: MetricMapping)
    ensures
        m@ == mapping_view_of(c, seq![a@, b@, d@], opt_str_view(j)),
{
    let m = MetricMapping { canonical: c, prometheus_names: vec![a, b, d], jolokia_path: j };
    assert(str_views(m.prometheus_names@) =~= seq![a@, b@, d@]);
    m
}

/// The name index: Prometheus names to canonical metrics.
pub struct MetricRegistry {
    mappings: Vec<MetricMapping>,
}

impl MetricRegistry {
    pub closed spec fn mappings(&self) -> Seq<MappingView> {
        mapping_views(self.mappings@)
    }

    /// The registry covering Spring Boot 2.x and 3.x names and Jolokia
    /// paths.
    pub fn default_registry() -> (r: Self)
        ensures
            r.mappings() == default_mappings(),
    {
        let mut ms: Vec<MetricMapping> = Vec::new();
        ms.push(mapping2(CanonicalMetric::ThreadsLive, "jvm_threads_live_threads", "jvm_threads_live", Some("java.lang:type=Threading:ThreadCount")));
        ms.push(mapping2(CanonicalMetric::ThreadsDaemon, "jvm_threads_daemon_threads", "jvm_threads_daemon", Some("java.lang:type=Threading:DaemonThreadCount")));
        ms.push(mapping2(CanonicalMetric::ThreadsPeak, "jvm_threads_peak_threads", "jvm_threads_peak", Some("java.lang:type=Threading:PeakThreadCount")));
        ms.push(mapping1(CanonicalMetric::ThreadStates, "jvm_threads_states_threads", None));
        ms.push(mapping2(CanonicalMetric::ProcessCpu, "process_cpu_usage", "process_cpu_time_ns_total", Some("java.lang:type=OperatingSystem:ProcessCpuLoad")));
        ms.push(mapping1(CanonicalMetric::SystemCpu, "system_cpu_usage", Some("java.lang:type=OperatingSystem:SystemCpuLoad")));
        ms.push(mapping1(CanonicalMetric::SystemCpuCount, "system_cpu_count", Some("java.lang:type=OperatingSystem:AvailableProcessors")));
        ms.push(mapping1(CanonicalMetric::LoadAverage1m, "system_load_average_1m", Some("java.lang:type=OperatingSystem:SystemLoadAverage")));
        ms.push(mapping1(CanonicalMetric::MemoryPoolUsed, "jvm_memory_used_bytes", None));
        ms.push(mapping1(CanonicalMetric::MemoryPoolMax, "jvm_memory_max_bytes", None));
        ms.push(mapping1(CanonicalMetric::MemoryPoolCommitted, "jvm_memory_committed_bytes", None));
        ms.push(mapping1(CanonicalMetric::GcPauseCount, "jvm_gc_pause_seconds_count", None));
        ms.push(mapping1(CanonicalMetric::GcPauseSum, "jvm_gc_pause_seconds_sum", None));
        ms.push(mapping2(CanonicalMetric::GcMemoryAllocated, "jvm_gc_memory_allocated_bytes_total", "jvm_gc_memory_allocated_bytes", None));
        ms.push(mapping2(CanonicalMetric::GcMemoryPromoted, "jvm_gc_memory_promoted_bytes_total", "jvm_gc_memory_promoted_bytes", None));
        ms.push(mapping2(CanonicalMetric::ClassesLoaded, "jvm_classes_loaded_classes", "jvm_classes_loaded", Some("java.lang:type=ClassLoading:LoadedClassCount")));
        ms.push(mapping3(CanonicalMetric::ClassesUnloaded, "jvm_classes_unloaded_classes_total", "jvm_classes_unloaded_classes", "jvm_classes_unloaded", Some("java.lang:type=ClassLoading:UnloadedClassCount")));
        ms.push(mapping2(CanonicalMetric::HttpRequestsCount, "http_server_requests_seconds_count", "http_server_requests_active_seconds_count", None));
        ms.push(mapping2(CanonicalMetric::HttpRequestsSum, "http_server_requests_seconds_sum", "http_server_requests_active_seconds_sum", None));
        ms.push(mapping1(CanonicalMetric::HttpRequestsMax, "http_server_requests_seconds_max", None));
        ms.push(mapping1(CanonicalMetric::HikariActive, "hikaricp_connections_active", None));
        ms.push(mapping1(CanonicalMetric::HikariIdle, "hikaricp_connections_idle", None));
        ms.push(mapping1(CanonicalMetric::HikariPending, "hikaricp_connections_pending", None));
        ms.push(mapping1(CanonicalMetric::HikariTotal, "hikaricp_connections", None));
        ms.push(mapping1(CanonicalMetric::HikariMax, "hikaricp_connections_max", None));
        ms.push(mapping1(CanonicalMetric::HikariTimeoutTotal, "hikaricp_connections_timeout_total", None));
        ms.push(mapping2(CanonicalMetric::TomcatThreadsBusy, "tomcat_threads_busy_threads", "tomcat_threads_busy", None));
        ms.push(mapping2(CanonicalMetric::TomcatThreadsCurrent, "tomcat_threads_current_threads", "tomcat_threads_current", None));
        ms.push(mapping2(CanonicalMetric::TomcatThreadsMax, "tomcat_threads_config_max_threads", "tomcat_threads_config_max", None));
        let r = MetricRegistry { mappings: ms };
        assert(r.mappings() =~= default_mappings());
        r
    }

    /// The canonical metric of a Prometheus name; `None` for a name the
    /// registry does not know.
    pub fn resolve_prometheus(&self, name: &str) -> (r: Option<CanonicalMetric>)
        ensures
            r == resolve_in(self.mappings(), name@),
    {
        let ghost ms = self.mappings();
        let mut i = self.mappings.len();
        assert(ms.take(ms.len() as int) =~= ms);
        while i > 0
            invariant
                i <= self.mappings@.len(),
                ms == self.mappings(),
                resolve_in(ms, name@) == resolve_in(ms.take(i as int), name@),
            decreases i,
        {
            let m = &self.mappings[i - 1];
            proof {
                assert(ms.take(i as int).drop_last() =~= ms.take(i - 1));
                assert(ms.take(i as int).last() == m@);
            }
            let mut j: usize = 0;
            while j < m.prometheus_names.len()
                invariant
                    0 < i <= self.mappings@.len(),
                    ms == self.mappings(),
                    *m == self.mappings@[i - 1],
                    resolve_in(ms, name@) == resolve_in(ms.take(i as int), name@),
                    ms.take(i as int).last() == m@,
                    j <= m.prometheus_names@.len(),
                    forall|k: int| 0 <= k < j ==> m@.names[k] != name@,
                decreases m.prometheus_names@.len() - j,
            {
                if str_eq(m.prometheus_names[j], name) {
                    assert(m@.names[j as int] == name@);
                    assert(m@.names.contains(name@));
                    return Some(m.canonical);
                }
                j += 1;
            }
            assert(!m@.names.contains(name@));
            i -= 1;
        }
        None
    }

    /// Every Prometheus name variant of a canonical metric, in order.
    pub fn prometheus_names_for(&self, canonical: CanonicalMetric) -> (r: Vec<&'static str>)
        ensures
            str_views(r@) == names_for(self.mappings(), canonical),
    {
        let ghost ms = self.mappings();
        let mut r: Vec<&'static str> = Vec::new();
        let mut i: usize = 0;
        while i < self.mappings.len()
            invariant
                i <= self.mappings@.len(),
                ms == self.mappings(),
                str_views(r@) == names_for(ms.take(i as int), canonical),
            decreases self.mappings@.len() - i,
        {
            let m = &self.mappings[i];
            proof {
                assert(ms.take(i + 1).drop_last() =~= ms.take(i as int));
                assert(ms.take(i + 1).last() == m@);
            }
            if m.canonical == canonical {
                let ghost before = str_views(r@);
                let mut j: usize = 0;
                while j < m.prometheus_names.len()
                    invariant
                        j <= m.prometheus_names@.len(),
                        str_views(r@) == before + m@.names.take(j as int),
                    decreases m.prometheus_names@.len() - j,
                {
                    let ghost r0 = r@;
                    r.push(m.prometheus_names[j]);
                    assert(r@.drop_last() =~= r0);
                    assert(m@.names.take(j + 1) =~= m@.names.take(j as int).push(
                        m.prometheus_names@[j as int]@,
                    ));
                    assert(str_views(r@) =~= str_views(r@.drop_last()).push(r@.last()@));
                    j += 1;
                }
                assert(m@.names.take(m@.names.len() as int) =~= m@.names);
            }
            assert(str_views(r@) =~= names_for(ms.take(i + 1), canonical));
            i += 1;
        }
        assert(ms.take(ms.len() as int) =~= ms);
        r
    }

    /// The value of the first name variant of `canonical` found among the
    /// samples with the given labels.
    pub fn find_gauge_value(
        &self,
        samples: &[Sample],
        canonical: CanonicalMetric,
        labels: &[(&str, &str)],
    ) -> (r: Option<i64>)
        ensures
            (match r {
                Some(v) => Some(v as int),
                None => None::<int>,
            }) == first_gauge(
                names_for(self.mappings(), canonical),
                sample_views(samples@),
                str_pairs(labels@),
            ),
    {
        let names = self.prometheus_names_for(canonical);
        let ghost ns = str_views(names@);
        let mut i: usize = 0;
        assert(ns.skip(0) =~= ns);
        while i < names.len()
            invariant
                i <= names@.len(),
                ns == str_views(names@),
                ns == names_for(self.mappings(), canonical),
                first_gauge(ns, sample_views(samples@), str_pairs(labels@)) == first_gauge(
                    ns.skip(i as int),
                    sample_views(samples@),
                    str_pairs(labels@),
                ),
            decreases names@.len() - i,
        {
            proof {
                assert(ns.skip(i as int)[0] == names@[i as int]@);
                assert(ns.skip(i as int).drop_first() =~= ns.skip(i + 1));
            }
            match find_gauge(samples, names[i], labels) {
                Some(v) => {
                    return Some(v);
                },
                None => {},
            }
            i += 1;
        }
        assert(ns.skip(i as int) =~= Seq::<Seq<char>>::empty());
        None
    }
}

/// The gauge value under the first of `names` that has one.
pub open spec fn first_gauge(
    names: Seq<Seq<char>>,
    samples: Seq<crate::prometheus::SampleView>,
    labels: Seq<(Seq<char>, Seq<char>)>,
) -> Option<int>
    decreases names.len(),
{
    if names.len() == 0 {
        None
    } else {
        match find_gauge_spec(samples, names[0], labels) {
            Some(v) => Some(v),
            None => first_gauge(names.drop_first(), samples, labels),
        }
    }
}










// ──────────────────────── the default registry ────────────────────────

/// `n` is among the first `k` names of `ns`.
pub open spec fn listed(n: Seq<char>, ns: Seq<Seq<char>>, k: int) -> bool
    decreases k,
{
    k > 0 && (ns[k - 1] == n || listed(n, ns, k - 1))
}

/// `n` is a name of one of the first `j` mappings of `ms`.
pub open spec fn listed_before(n: Seq<char>, ms: Seq<MappingView>, j: int) -> bool
    decreases j,
{
    j > 0 && (listed(n, ms[j - 1].names, ms[j - 1].names.len() as int) || listed_before(n, ms, j - 1))
}

/// None of the first `k` names of mapping `j` is a name of an earlier
/// mapping.
pub open spec fn fresh_upto(ms: Seq<MappingView>, j: int, k: int) -> bool
    decreases k,
{
    k <= 0 || (fresh_upto(ms, j, k - 1) && !listed_before(ms[j].names[k - 1], ms, j))
}

/// No name of the first `j` mappings is a name of an earlier mapping.
pub open spec fn all_fresh(ms: Seq<MappingView>, j: int) -> bool
    decreases j,
{
    j <= 0 || (all_fresh(ms, j - 1) && fresh_upto(ms, j - 1, ms[j - 1].names.len() as int))
}

proof fn lemma_listed(n: Seq<char>, ns: Seq<Seq<char>>, k: int, x: int)
    requires
        0 <= x < k <= ns.len(),
        ns[x] == n,
    ensures
        listed(n, ns, k),
    decreases k,
{
    if x < k - 1 {
        lemma_listed(n, ns, k - 1, x);
    }
}

proof fn lemma_listed_before(n: Seq<char>, ms: Seq<MappingView>, j: int, i: int)
    requires
        0 <= i < j <= ms.len(),
        ms[i].names.contains(n),
    ensures
        listed_before(n, ms, j),
    decreases j,
{
    if i < j - 1 {
        lemma_listed_before(n, ms, j - 1, i);
    } else {
        let x = choose|x: int| 0 <= x < ms[i].names.len() && ms[i].names[x] == n;
        lemma_listed(n, ms[i].names, ms[i].names.len() as int, x);
    }
}

proof fn lemma_fresh_upto(ms: Seq<MappingView>, j: int, k: int, x: int)
    requires
        fresh_upto(ms, j, k),
        0 <= x < k,
    ensures
        !listed_before(ms[j].names[x], ms, j),
    decreases k,
{
    if x < k - 1 {
        lemma_fresh_upto(ms, j, k - 1, x);
    }
}

proof fn lemma_all_fresh(ms: Seq<MappingView>, j: int, m: int)
    requires
        all_fresh(ms, j),
        0 <= m < j,
    ensures
        fresh_upto(ms, m, ms[m].names.len() as int),
    decreases j,
{
    if m < j - 1 {
        lemma_all_fresh(ms, j - 1, m);
    }
}

/// A registry in which no mapping repeats a name of an earlier one shares
/// no name between metrics.
proof fn lemma_fresh_unambiguous(ms: Seq<MappingView>)
    requires
        all_fresh(ms, ms.len() as int),
    ensures
        names_unambiguous(ms),
{
    assert forall|i: int, j: int, n: Seq<char>|
        0 <= i < ms.len() && 0 <= j < ms.len() && #[trigger] ms[i].names.contains(n)
            && #[trigger] ms[j].names.contains(n) implies ms[i].canonical == ms[j].canonical by {
        if i != j {
            let (a, b) = if i < j {
                (i, j)
            } else {
                (j, i)
            };
            let x = choose|x: int| 0 <= x < ms[b].names.len() && ms[b].names[x] == n;
            lemma_all_fresh(ms, ms.len() as int, b);
            lemma_fresh_upto(ms, b, ms[b].names.len() as int, x);
            lemma_listed_before(n, ms, b, a);
        }
    }
}

/// No Prometheus name of the default registry is listed under two metrics.
pub proof fn lemma_default_unambiguous()
    ensures
        names_unambiguous(default_mappings()),
{
    let ms = default_mappings();
    reveal_strlit("jvm_threads_live_threads");
    reveal_strlit("jvm_threads_live");
    reveal_strlit("jvm_threads_daemon_threads");
    reveal_strlit("jvm_threads_daemon");
    reveal_strlit("jvm_threads_peak_threads");
    reveal_strlit("jvm_threads_peak");
    reveal_strlit("jvm_threads_states_threads");
    reveal_strlit("process_cpu_usage");
    reveal_strlit("process_cpu_time_ns_total");
    reveal_strlit("system_cpu_usage");
    reveal_strlit("system_cpu_count");
    reveal_strlit("system_load_average_1m");
    reveal_strlit("jvm_memory_used_bytes");
    reveal_strlit("jvm_memory_max_bytes");
    reveal_strlit("jvm_memory_committed_bytes");
    reveal_strlit("jvm_gc_pause_seconds_count");
    reveal_strlit("jvm_gc_pause_seconds_sum");
    reveal_strlit("jvm_gc_memory_allocated_bytes_total");
    reveal_strlit("jvm_gc_memory_allocated_bytes");
    reveal_strlit("jvm_gc_memory_promoted_bytes_total");
    reveal_strlit("jvm_gc_memory_promoted_bytes");
    reveal_strlit("jvm_classes_loaded_classes");
    reveal_strlit("jvm_classes_loaded");
    reveal_strlit("jvm_classes_unloaded_classes_total");
    reveal_strlit("jvm_classes_unloaded_classes");
    reveal_strlit("jvm_classes_unloaded");
    reveal_strlit("http_server_requests_seconds_count");
    reveal_strlit("http_server_requests_active_seconds_count");
    reveal_strlit("http_server_requests_seconds_sum");
    reveal_strlit("http_server_requests_active_seconds_sum");
    reveal_strlit("http_server_requests_seconds_max");
    reveal_strlit("hikaricp_connections_active");
    reveal_strlit("hikaricp_connections_idle");
    reveal_strlit("hikaricp_connections_pending");
    reveal_strlit("hikaricp_connections");
    reveal_strlit("hikaricp_connections_max");
    reveal_strlit("hikaricp_connections_timeout_total");
    reveal_strlit("tomcat_threads_busy_threads");
    reveal_strlit("tomcat_threads_busy");
    reveal_strlit("tomcat_threads_current_threads");
    reveal_strlit("tomcat_threads_current");
    reveal_strlit("tomcat_threads_config_max_threads");
    reveal_strlit("tomcat_threads_config_max");
    reveal_with_fuel(listed_before, 30);
    reveal_with_fuel(listed, 4);
    reveal_with_fuel(fresh_upto, 4);
    reveal_with_fuel(all_fresh, 30);
    // A name's length, and the letters where it differs from the names of
    // the same length, tell it apart from every other name.
    assert("jvm_threads_live_threads"@.len() == 24
        && "jvm_threads_live_threads"@[0] == 'j'
        && "jvm_threads_live_threads"@[4] == 't'
        && "jvm_threads_live_threads"@[12] == 'l');
    assert("jvm_threads_live"@.len() == 16
        && "jvm_threads_live"@[0] == 'j'
        && "jvm_threads_live"@[12] == 'l');
    assert("jvm_threads_daemon_threads"@.len() == 26
        && "jvm_threads_daemon_threads"@[4] == 't'
        && "jvm_threads_daemon_threads"@[12] == 'd');
    assert("jvm_threads_daemon"@.len() == 18
        && "jvm_threads_daemon"@[4] == 't');
    assert("jvm_threads_peak_threads"@.len() == 24
        && "jvm_threads_peak_threads"@[0] == 'j'
        && "jvm_threads_peak_threads"@[4] == 't'
        && "jvm_threads_peak_threads"@[12] == 'p');
    assert("jvm_threads_peak"@.len() == 16
        && "jvm_threads_peak"@[0] == 'j'
        && "jvm_threads_peak"@[12] == 'p');
    assert("jvm_threads_states_threads"@.len() == 26
        && "jvm_threads_states_threads"@[4] == 't'
        && "jvm_threads_states_threads"@[12] == 's');
    assert("process_cpu_usage"@.len() == 17);
    assert("process_cpu_time_ns_total"@.len() == 25
        && "process_cpu_time_ns_total"@[0] == 'p');
    assert("system_cpu_usage"@.len() == 16
        && "system_cpu_usage"@[0] == 's'
        && "system_cpu_usage"@[11] == 'u');
    assert("system_cpu_count"@.len() == 16
        && "system_cpu_count"@[0] == 's'
        && "system_cpu_count"@[11] == 'c');
    assert("system_load_average_1m"@.len() == 22
        && "system_load_average_1m"@[0] == 's');
    assert("jvm_memory_used_bytes"@.len() == 21);
    assert("jvm_memory_max_bytes"@.len() == 20
        && "jvm_memory_max_bytes"@[0] == 'j'
        && "jvm_memory_max_bytes"@[4] == 'm');
    assert("jvm_memory_committed_bytes"@.len() == 26
        && "jvm_memory_committed_bytes"@[4] == 'm');
    assert("jvm_gc_pause_seconds_count"@.len() == 26
        && "jvm_gc_pause_seconds_count"@[4] == 'g');
    assert("jvm_gc_pause_seconds_sum"@.len() == 24
        && "jvm_gc_pause_seconds_sum"@[0] == 'j'
        && "jvm_gc_pause_seconds_sum"@[4] == 'g');
    assert("jvm_gc_memory_allocated_bytes_total"@.len() == 35);
    assert("jvm_gc_memory_allocated_bytes"@.len() == 29);
    assert("jvm_gc_memory_promoted_bytes_total"@.len() == 34
        && "jvm_gc_memory_promoted_bytes_total"@[0] == 'j'
        && "jvm_gc_memory_promoted_bytes_total"@[4] == 'g');
    assert("jvm_gc_memory_promoted_bytes"@.len() == 28
        && "jvm_gc_memory_promoted_bytes"@[0] == 'j'
        && "jvm_gc_memory_promoted_bytes"@[4] == 'g');
    assert("jvm_classes_loaded_classes"@.len() == 26
        && "jvm_classes_loaded_classes"@[4] == 'c');
    assert("jvm_classes_loaded"@.len() == 18
        && "jvm_classes_loaded"@[4] == 'c');
    assert("jvm_classes_unloaded_classes_total"@.len() == 34
        && "jvm_classes_unloaded_classes_total"@[0] == 'j'
        && "jvm_classes_unloaded_classes_total"@[4] == 'c');
    assert("jvm_classes_unloaded_classes"@.len() == 28
        && "jvm_classes_unloaded_classes"@[0] == 'j'
        && "jvm_classes_unloaded_classes"@[4] == 'c');
    assert("jvm_classes_unloaded"@.len() == 20
        && "jvm_classes_unloaded"@[0] == 'j'
        && "jvm_classes_unloaded"@[4] == 'c');
    assert("http_server_requests_seconds_count"@.len() == 34
        && "http_server_requests_seconds_count"@[0] == 'h'
        && "http_server_requests_seconds_count"@[1] == 't');
    assert("http_server_requests_active_seconds_count"@.len() == 41);
    assert("http_server_requests_seconds_sum"@.len() == 32
        && "http_server_requests_seconds_sum"@[29] == 's');
    assert("http_server_requests_active_seconds_sum"@.len() == 39);
    assert("http_server_requests_seconds_max"@.len() == 32
        && "http_server_requests_seconds_max"@[29] == 'm');
    assert("hikaricp_connections_active"@.len() == 27
        && "hikaricp_connections_active"@[0] == 'h');
    assert("hikaricp_connections_idle"@.len() == 25
        && "hikaricp_connections_idle"@[0] == 'h');
    assert("hikaricp_connections_pending"@.len() == 28
        && "hikaricp_connections_pending"@[0] == 'h');
    assert("hikaricp_connections"@.len() == 20
        && "hikaricp_connections"@[0] == 'h');
    assert("hikaricp_connections_max"@.len() == 24
        && "hikaricp_connections_max"@[0] == 'h');
    assert("hikaricp_connections_timeout_total"@.len() == 34
        && "hikaricp_connections_timeout_total"@[0] == 'h'
        && "hikaricp_connections_timeout_total"@[1] == 'i');
    assert("tomcat_threads_busy_threads"@.len() == 27
        && "tomcat_threads_busy_threads"@[0] == 't');
    assert("tomcat_threads_busy"@.len() == 19);
    assert("tomcat_threads_current_threads"@.len() == 30);
    assert("tomcat_threads_current"@.len() == 22
        && "tomcat_threads_current"@[0] == 't');
    assert("tomcat_threads_config_max_threads"@.len() == 33);
    assert("tomcat_threads_config_max"@.len() == 25
        && "tomcat_threads_config_max"@[0] == 't');
    // So no name repeats one of an earlier mapping.
    assert(!listed_before(ms[0].names[0], ms, 0));
    assert(!listed_before(ms[0].names[1], ms, 0));
    assert(!listed_before(ms[1].names[0], ms, 1));
    assert(!listed_before(ms[1].names[1], ms, 1));
    assert(!listed_before(ms[2].names[0], ms, 2));
    assert(!listed_before(ms[2].names[1], ms, 2));
    assert(!listed_before(ms[3].names[0], ms, 3));
    assert(!listed_before(ms[4].names[0], ms, 4));
    assert(!listed_before(ms[4].names[1], ms, 4));
    assert(!listed_before(ms[5].names[0], ms, 5));
    assert(!listed_before(ms[6].names[0], ms, 6));
    assert(!listed_before(ms[7].names[0], ms, 7));
    assert(!listed_before(ms[8].names[0], ms, 8));
    assert(!listed_before(ms[9].names[0], ms, 9));
    assert(!listed_before(ms[10].names[0], ms, 10));
    assert(!listed_before(ms[11].names[0], ms, 11));
    assert(!listed_before(ms[12].names[0], ms, 12));
    assert(!listed_before(ms[13].names[0], ms, 13));
    assert(!listed_before(ms[13].names[1], ms, 13));
    assert(!listed_before(ms[14].names[0], ms, 14));
    assert(!listed_before(ms[14].names[1], ms, 14));
    assert(!listed_before(ms[15].names[0], ms, 15));
    assert(!listed_before(ms[15].names[1], ms, 15));
    assert(!listed_before(ms[16].names[0], ms, 16));
    assert(!listed_before(ms[16].names[1], ms, 16));
    assert(!listed_before(ms[16].names[2], ms, 16));
    assert(!listed_before(ms[17].names[0], ms, 17));
    assert(!listed_before(ms[17].names[1], ms, 17));
    assert(!listed_before(ms[18].names[0], ms, 18));
    assert(!listed_before(ms[18].names[1], ms, 18));
    assert(!listed_before(ms[19].names[0], ms, 19));
    assert(!listed_before(ms[20].names[0], ms, 20));
    assert(!listed_before(ms[21].names[0], ms, 21));
    assert(!listed_before(ms[22].names[0], ms, 22));
    assert(!listed_before(ms[23].names[0], ms, 23));
    assert(!listed_before(ms[24].names[0], ms, 24));
    assert(!listed_before(ms[25].names[0], ms, 25));
    assert(!listed_before(ms[26].names[0], ms, 26));
    assert(!listed_before(ms[26].names[1], ms, 26));
    assert(!listed_before(ms[27].names[0], ms, 27));
    assert(!listed_before(ms[27].names[1], ms, 27));
    assert(!listed_before(ms[28].names[0], ms, 28));
    assert(!listed_before(ms[28].names[1], ms, 28));
    assert(all_fresh(ms, 29));
    lemma_fresh_unambiguous(ms);
}


/// In the default registry a name resolves to a metric exactly when it is
/// one of that metric's name variants.
pub proof fn lemma_default_resolve(n: Seq<char>, c: CanonicalMetric)
    ensures
        resolve_in(default_mappings(), n) == Some(c) <==> names_for(default_mappings(), c).contains(n),
{
    lemma_default_unambiguous();
    lemma_resolve_sound(default_mappings(), n, c);
    if names_for(default_mappings(), c).contains(n) {
        lemma_resolve_names_for(default_mappings(), c, n);
    }
}

/// The Tomcat thread gauges of the default registry and their name
/// variants, Spring Boot 3.x first.
pub proof fn lemma_default_tomcat_names()
    ensures
        names_for(default_mappings(), CanonicalMetric::TomcatThreadsBusy) == seq![
            "tomcat_threads_busy_threads"@,
            "tomcat_threads_busy"@,
        ],
        names_for(default_mappings(), CanonicalMetric::TomcatThreadsCurrent) == seq![
            "tomcat_threads_current_threads"@,
            "tomcat_threads_current"@,
        ],
        names_for(default_mappings(), CanonicalMetric::TomcatThreadsMax) == seq![
            "tomcat_threads_config_max_threads"@,
            "tomcat_threads_config_max"@,
        ],
{
    reveal_with_fuel(names_for, 30);
}

/// The name variants of the scalar gauges of the default registry,
/// Spring Boot 3.x first.
pub proof fn lemma_default_gauge_names()
    ensures
        names_for(default_mappings(), CanonicalMetric::ThreadsLive) == seq!["jvm_threads_live_threads"@, "jvm_threads_live"@],
        names_for(default_mappings(), CanonicalMetric::ThreadsDaemon) == seq!["jvm_threads_daemon_threads"@, "jvm_threads_daemon"@],
        names_for(default_mappings(), CanonicalMetric::ThreadsPeak) == seq!["jvm_threads_peak_threads"@, "jvm_threads_peak"@],
        names_for(default_mappings(), CanonicalMetric::ProcessCpu) == seq!["process_cpu_usage"@, "process_cpu_time_ns_total"@],
        names_for(default_mappings(), CanonicalMetric::SystemCpu) == seq!["system_cpu_usage"@],
        names_for(default_mappings(), CanonicalMetric::SystemCpuCount) == seq!["system_cpu_count"@],
        names_for(default_mappings(), CanonicalMetric::LoadAverage1m) == seq!["system_load_average_1m"@],
        names_for(default_mappings(), CanonicalMetric::ClassesLoaded) == seq!["jvm_classes_loaded_classes"@, "jvm_classes_loaded"@],
        names_for(default_mappings(), CanonicalMetric::ClassesUnloaded) == seq!["jvm_classes_unloaded_classes_total"@, "jvm_classes_unloaded_classes"@, "jvm_classes_unloaded"@],
        names_for(default_mappings(), CanonicalMetric::HikariActive) == seq!["hikaricp_connections_active"@],
        names_for(default_mappings(), CanonicalMetric::HikariIdle) == seq!["hikaricp_connections_idle"@],
        names_for(default_mappings(), CanonicalMetric::HikariPending) == seq!["hikaricp_connections_pending"@],
        names_for(default_mappings(), CanonicalMetric::HikariTotal) == seq!["hikaricp_connections"@],
        names_for(default_mappings(), CanonicalMetric::HikariMax) == seq!["hikaricp_connections_max"@],
        names_for(default_mappings(), CanonicalMetric::HikariTimeoutTotal) == seq!["hikaricp_connections_timeout_total"@],
{
    reveal_with_fuel(names_for, 30);
}

} // verus!
