use drishti::anomaly::{AnomalyEngine, Severity};
use drishti::detectors::MemoryLeakDetector;
use drishti::model::{HikariMetrics, JvmInfo, JvmSnapshot, MemoryPool, MemoryUsage, PoolType};
use drishti::timeseries::TimeSeries;

#[test]
fn severity_ordering() {
    assert!(Severity::Critical > Severity::High);
    assert!(Severity::High > Severity::Warn);
    assert!(Severity::Warn > Severity::Info);
}

#[test]
fn severity_ranks_and_labels() {
    assert_eq!(Severity::Info.rank(), 0);
    assert_eq!(Severity::Critical.rank(), 3);
    assert_eq!(Severity::Warn.label(), "WARN");
    assert_eq!(Severity::Critical.label(), "CRIT");
}

#[test]
fn empty_engine_returns_no_alerts() {
    let engine = AnomalyEngine::new();
    let snap = JvmSnapshot::default();
    let alerts = engine.evaluate(&snap, &[]);
    assert!(alerts.is_empty());
}

#[test]
fn memory_usage_pct_normal() {
    let m = MemoryUsage {
        init: 0,
        used: 256 * 1024 * 1024,
        committed: 512 * 1024 * 1024,
        max: 512 * 1024 * 1024,
    };
    // 50 %, in millionths of a percent; 256 MiB, in millionths.
    assert_eq!(m.usage_pct(), Some(50_000_000));
    assert_eq!(m.used_mb(), 256_000_000);
    assert_eq!(m.max_mb(), 512_000_000);
}

#[test]
fn memory_usage_pct_undefined_max() {
    let m = MemoryUsage { init: 0, used: 100, committed: 200, max: -1 };
    assert!(m.usage_pct().is_none());
}

#[test]
fn memory_usage_pct_zero_max() {
    let m = MemoryUsage { init: 0, used: 100, committed: 200, max: 0 };
    assert!(m.usage_pct().is_none());
}

#[test]
fn hikari_saturation() {
    let h = HikariMetrics { active: 10, max: 10, pending: 3, ..Default::default() };
    assert!(h.is_saturated());
    assert_eq!(h.utilization_pct(), 100_000_000);
}

#[test]
fn hikari_not_saturated_without_waiters() {
    let h = HikariMetrics { active: 10, max: 10, pending: 0, ..Default::default() };
    assert!(!h.is_saturated());
    let empty = HikariMetrics { active: 3, max: 0, ..Default::default() };
    assert_eq!(empty.utilization_pct(), 0);
}

#[test]
fn jvm_info_uptime_human() {
    let info = JvmInfo { uptime_ms: 7_380_000, ..Default::default() };
    assert_eq!(info.uptime_human(), "2h 3m");
}

#[test]
fn jvm_info_uptime_under_an_hour() {
    let info = JvmInfo { uptime_ms: 1_500_000, ..Default::default() };
    assert_eq!(info.uptime_human(), "25m");
}

#[test]
fn jvm_info_java_version() {
    let mut info = JvmInfo { spec_version: "21".to_string(), ..Default::default() };
    assert_eq!(info.java_major_version(), Some(21));
    info.spec_version = "1.8".to_string();
    assert_eq!(info.java_major_version(), Some(8));
}

#[test]
fn jvm_info_java_version_with_minor_and_garbage() {
    let mut info = JvmInfo { spec_version: "17.0.2".to_string(), ..Default::default() };
    assert_eq!(info.java_major_version(), Some(17));
    info.spec_version = "unknown".to_string();
    assert_eq!(info.java_major_version(), None);
}

#[test]
fn default_snapshot_is_zero() {
    let snap = JvmSnapshot::default();
    assert_eq!(snap.heap.used, 0);
    assert_eq!(snap.thread_summary.live, 0);
    assert!(snap.hikari.is_none());
}

#[test]
fn push_and_evict() {
    let mut ts = TimeSeries::new(3);
    ts.push(10);
    ts.push(20);
    ts.push(30);
    assert_eq!(ts.len(), 3);
    ts.push(40);
    assert_eq!(ts.len(), 3);
    assert_eq!(ts.oldest().unwrap().1, 20);
    assert_eq!(ts.latest().unwrap().1, 40);
}

#[test]
fn last_n_values() {
    let mut ts = TimeSeries::new(10);
    for i in 0..5 {
        ts.push(i);
    }
    let last_3: Vec<_> = ts.last_n_values(3);
    assert_eq!(last_3, vec![&2, &3, &4]);
}

#[test]
fn last_n_values_more_than_stored() {
    let mut ts = TimeSeries::new(10);
    ts.push(7);
    ts.push(8);
    assert_eq!(ts.last_n_values(5), vec![&7, &8]);
    ts.clear();
    assert!(ts.is_empty());
    assert_eq!(ts.capacity(), 10);
}

fn mib(n: i64) -> i64 {
    n * 1024 * 1024
}

fn leak_snapshot(heap_used_mib: i64, old_gen_mib: i64) -> JvmSnapshot {
    let old = MemoryUsage { init: 0, used: mib(old_gen_mib), committed: mib(700), max: mib(700) };
    JvmSnapshot {
        heap: MemoryUsage { init: 0, used: mib(heap_used_mib), committed: mib(1000), max: mib(1000) },
        memory_pools: vec![MemoryPool {
            name: "G1 Old Gen".to_string(),
            pool_type: PoolType::Heap,
            usage: old,
            collection_usage: Some(old),
        }],
        ..Default::default()
    }
}

#[test]
fn leak_regression_runs_on_old_gen() {
    // Young-generation churn over a flat old generation is no leak.
    let history: Vec<JvmSnapshot> = (0..30).map(|i| leak_snapshot(500 + 10 * i, 300)).collect();
    let current = leak_snapshot(800, 300);
    let alerts = MemoryLeakDetector.evaluate(&current, &history);
    assert!(alerts.iter().all(|a| a.id != "mem_leak_detected"));
    // An old generation that grows 10 MiB per sample is.
    let history: Vec<JvmSnapshot> = (0..30).map(|i| leak_snapshot(800, 300 + 10 * i)).collect();
    let alerts = MemoryLeakDetector.evaluate(&current, &history);
    assert_eq!(alerts.len(), 1);
    assert_eq!(alerts[0].id, "mem_leak_detected");
    // 80 % full is not above 80 %: high, not critical.
    assert_eq!(alerts[0].severity, Severity::High);
    assert_eq!(alerts[0].confidence, 1_000_000);
    assert!(alerts[0].detail.starts_with("Old gen trending upward at 1.0%/sample"));
}
