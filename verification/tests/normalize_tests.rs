use drishti::normalize::{CanonicalMetric, MetricRegistry};

#[test]
fn resolve_boot3_thread_names() {
    let reg = MetricRegistry::default_registry();
    assert_eq!(
        reg.resolve_prometheus("jvm_threads_live_threads"),
        Some(CanonicalMetric::ThreadsLive)
    );
    assert_eq!(
        reg.resolve_prometheus("jvm_threads_daemon_threads"),
        Some(CanonicalMetric::ThreadsDaemon)
    );
}

#[test]
fn resolve_boot2_thread_names() {
    let reg = MetricRegistry::default_registry();
    assert_eq!(reg.resolve_prometheus("jvm_threads_live"), Some(CanonicalMetric::ThreadsLive));
    assert_eq!(reg.resolve_prometheus("jvm_threads_daemon"), Some(CanonicalMetric::ThreadsDaemon));
}

#[test]
fn resolve_unknown_returns_none() {
    let reg = MetricRegistry::default_registry();
    assert_eq!(reg.resolve_prometheus("custom_app_metric"), None);
}

#[test]
fn get_all_variants() {
    let reg = MetricRegistry::default_registry();
    let names = reg.prometheus_names_for(CanonicalMetric::ThreadsLive);
    assert_eq!(names.len(), 2);
    assert!(names.contains(&"jvm_threads_live_threads"));
    assert!(names.contains(&"jvm_threads_live"));
}

#[test]
fn tomcat_naming_across_versions() {
    let reg = MetricRegistry::default_registry();
    assert_eq!(
        reg.resolve_prometheus("tomcat_threads_busy_threads"),
        Some(CanonicalMetric::TomcatThreadsBusy)
    );
    assert_eq!(reg.resolve_prometheus("tomcat_threads_busy"), Some(CanonicalMetric::TomcatThreadsBusy));
}

#[test]
fn http_observation_api_variant() {
    let reg = MetricRegistry::default_registry();
    assert_eq!(
        reg.resolve_prometheus("http_server_requests_seconds_count"),
        Some(CanonicalMetric::HttpRequestsCount)
    );
    assert_eq!(
        reg.resolve_prometheus("http_server_requests_active_seconds_count"),
        Some(CanonicalMetric::HttpRequestsCount)
    );
}

#[test]
fn names_for_each_resolve_back() {
    let all = [
        CanonicalMetric::HeapUsed,
        CanonicalMetric::HeapMax,
        CanonicalMetric::HeapCommitted,
        CanonicalMetric::NonHeapUsed,
        CanonicalMetric::NonHeapCommitted,
        CanonicalMetric::MemoryPoolUsed,
        CanonicalMetric::MemoryPoolMax,
        CanonicalMetric::MemoryPoolCommitted,
        CanonicalMetric::ProcessCpu,
        CanonicalMetric::SystemCpu,
        CanonicalMetric::SystemCpuCount,
        CanonicalMetric::LoadAverage1m,
        CanonicalMetric::ThreadsLive,
        CanonicalMetric::ThreadsDaemon,
        CanonicalMetric::ThreadsPeak,
        CanonicalMetric::ThreadStates,
        CanonicalMetric::GcPauseCount,
        CanonicalMetric::GcPauseSum,
        CanonicalMetric::GcPauseMax,
        CanonicalMetric::GcMemoryAllocated,
        CanonicalMetric::GcMemoryPromoted,
        CanonicalMetric::ClassesLoaded,
        CanonicalMetric::ClassesUnloaded,
        CanonicalMetric::HttpRequestsCount,
        CanonicalMetric::HttpRequestsSum,
        CanonicalMetric::HttpRequestsMax,
        CanonicalMetric::HikariActive,
        CanonicalMetric::HikariIdle,
        CanonicalMetric::HikariPending,
        CanonicalMetric::HikariTotal,
        CanonicalMetric::HikariMax,
        CanonicalMetric::HikariTimeoutTotal,
        CanonicalMetric::HikariAcquireSum,
        CanonicalMetric::HikariUsageSum,
        CanonicalMetric::HikariCreationSum,
        CanonicalMetric::TomcatThreadsBusy,
        CanonicalMetric::TomcatThreadsCurrent,
        CanonicalMetric::TomcatThreadsMax,
    ];
    let reg = MetricRegistry::default_registry();
    let mut seen = 0;
    for c in all {
        for name in reg.prometheus_names_for(c) {
            assert_eq!(reg.resolve_prometheus(name), Some(c), "{name}");
            seen += 1;
        }
    }
    assert_eq!(seen, 43);
}
