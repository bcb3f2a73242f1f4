use drishti::model::{
    CacheMetrics, ExecutorMetrics, GcAlgorithm, GcCollectorStats, HikariMetrics, JvmSnapshot, LogEventCounts,
    MemoryPool, MemoryUsage, PoolType, TomcatMetrics,
};
use drishti::recommend::{Category, RecommendationEngine};
use drishti::rules::{
    default_engine, CacheHitRatioRule, ExecutorBacklogRule, HikariSlowAcquireRule, IncreaseHeapRule,
    LogVolumeRule, SwitchToZgcRule, TomcatConnectionLimitRule,
};
use drishti::targets::{TargetConfig, TargetManager};

fn snap_with_executor(active: i64, pool: i64, queued: i64) -> JvmSnapshot {
    JvmSnapshot {
        executors: vec![ExecutorMetrics {
            name: "applicationTaskExecutor".into(),
            pool_size: pool,
            core_size: pool,
            max_size: pool,
            active,
            queued,
            queue_remaining: Some(100),
            completed_total: 5000,
        }],
        ..Default::default()
    }
}

#[test]
fn executor_backlog_fires_when_saturated_with_queue() {
    let snap = snap_with_executor(8, 8, 20);
    let rec = ExecutorBacklogRule.evaluate(&snap, &[]).unwrap();
    assert_eq!(rec.category, Category::Executor);
    assert!(rec.config_changes[0].contains("spring.task.execution.pool.max-size"));
}

#[test]
fn executor_backlog_silent_when_pool_has_headroom() {
    let snap = snap_with_executor(3, 8, 5);
    assert!(ExecutorBacklogRule.evaluate(&snap, &[]).is_none());
}

#[test]
fn cache_hit_ratio_fires_below_50pct() {
    let snap = JvmSnapshot {
        caches: vec![CacheMetrics { name: "books".into(), hits: 300, misses: 900, size: 500, evictions: 50 }],
        ..Default::default()
    };
    let rec = CacheHitRatioRule.evaluate(&snap, &[]).unwrap();
    assert!(rec.title.contains("books"));
    assert!(rec.config_changes[0].contains("caffeine"));
}

#[test]
fn cache_rule_ignores_cold_caches() {
    let snap = JvmSnapshot {
        caches: vec![CacheMetrics { name: "cold".into(), hits: 1, misses: 5, ..Default::default() }],
        ..Default::default()
    };
    assert!(CacheHitRatioRule.evaluate(&snap, &[]).is_none());
}

#[test]
fn hikari_slow_acquire_distinguishes_db_bottleneck() {
    let snap = JvmSnapshot {
        hikari: Some(HikariMetrics {
            pool_name: "main".into(),
            active: 3,
            idle: 7,
            pending: 4,
            total: 10,
            max: 10,
            ..Default::default()
        }),
        ..Default::default()
    };
    let rec = HikariSlowAcquireRule.evaluate(&snap, &[]).unwrap();
    assert!(rec.suggestion.contains("database"));
}

#[test]
fn tomcat_connection_limit_fires_near_max() {
    let snap = JvmSnapshot {
        tomcat: Some(TomcatMetrics {
            threads_busy: 10,
            threads_current: 20,
            threads_max: 200,
            connections_current: 8000,
            connections_max: 8192,
        }),
        ..Default::default()
    };
    let rec = TomcatConnectionLimitRule.evaluate(&snap, &[]).unwrap();
    assert!(rec.config_changes[0].contains("server.tomcat.max-connections"));
}

#[test]
fn log_volume_fires_on_heavy_debug() {
    let snap = JvmSnapshot {
        log_events: LogEventCounts { debug: 50_000, trace: 5_000, ..Default::default() },
        ..Default::default()
    };
    let rec = LogVolumeRule.evaluate(&snap, &[]).unwrap();
    assert_eq!(rec.config_changes[0], "logging.level.root=INFO");
}

#[test]
fn default_engine_has_all_rules() {
    assert_eq!(default_engine().rule_count(), 12);
}

#[test]
fn empty_engine_returns_nothing() {
    // A threshold of 0.5, in millionths.
    let engine = RecommendationEngine::new(500_000);
    let snap = JvmSnapshot::default();
    let recs = engine.evaluate(&snap, &[]);
    assert!(recs.is_empty());
}

#[test]
fn default_engine_quiet_on_empty_snapshot() {
    let engine = default_engine();
    assert!(engine.evaluate(&JvmSnapshot::default(), &[]).is_empty());
}

fn test_config(id: &str, name: &str) -> TargetConfig {
    TargetConfig {
        id: id.to_string(),
        name: name.to_string(),
        actuator_url: Some(format!("http://{}:8080/actuator", id)),
        jolokia_url: None,
        gc_log_path: None,
        tags: vec![],
    }
}

#[test]
fn add_and_switch_targets() {
    let mut mgr = TargetManager::new();
    mgr.add_target(test_config("prod-1", "Production API"));
    mgr.add_target(test_config("staging-1", "Staging API"));
    assert_eq!(mgr.count(), 2);
    assert_eq!(mgr.active_id(), Some("prod-1"));
    mgr.next_target();
    assert_eq!(mgr.active_id(), Some("staging-1"));
    mgr.next_target();
    assert_eq!(mgr.active_id(), Some("prod-1"));
}

#[test]
fn remove_active_switches() {
    let mut mgr = TargetManager::new();
    mgr.add_target(test_config("a", "A"));
    mgr.add_target(test_config("b", "B"));
    mgr.set_active("a");
    mgr.remove_target("a");
    assert_eq!(mgr.active_id(), Some("b"));
}

#[test]
fn compare_metrics() {
    let mut mgr = TargetManager::new();
    mgr.add_target(test_config("a", "Service A"));
    mgr.add_target(test_config("b", "Service B"));
    let mut snap_a = JvmSnapshot::default();
    snap_a.heap.used = 256 * 1024 * 1024;
    snap_a.heap.max = 512 * 1024 * 1024;
    mgr.update_snapshot("a", snap_a);
    let mut snap_b = JvmSnapshot::default();
    snap_b.heap.used = 400 * 1024 * 1024;
    snap_b.heap.max = 512 * 1024 * 1024;
    mgr.update_snapshot("b", snap_b);
    let comparison = mgr.compare_heap_usage();
    assert_eq!(comparison.len(), 2);
    // Millionths of a percent: 50 % and 78.125 %.
    assert_eq!(comparison[0], ("Service A", 50_000_000));
    assert_eq!(comparison[1], ("Service B", 78_125_000));
}

#[test]
fn adding_an_existing_id_keeps_one_entry() {
    let mut mgr = TargetManager::new();
    mgr.add_target(test_config("a", "A"));
    mgr.add_target(test_config("a", "A2"));
    assert_eq!(mgr.count(), 1);
    assert_eq!(mgr.all_targets()[0].config.name, "A2");
}

#[test]
fn staleness_after_thirty_seconds() {
    let mut mgr = TargetManager::new();
    mgr.add_target(test_config("a", "A"));
    mgr.update_snapshot_at("a", JvmSnapshot::default(), 1_000);
    assert!(mgr.active().unwrap().is_connected());
    mgr.check_all_staleness_at(31_000);
    assert!(mgr.active().unwrap().is_connected());
    mgr.check_all_staleness_at(32_000);
    assert!(!mgr.active().unwrap().is_connected());
}

#[test]
fn record_error_counts() {
    let mut mgr = TargetManager::new();
    mgr.add_target(test_config("a", "A"));
    mgr.record_error("a", "boom".to_string());
    let t = mgr.active().unwrap();
    assert_eq!(t.error_count, 1);
    assert!(!t.is_connected());
}

const MIB: i64 = 1024 * 1024;

fn usage(used_mib: i64, max_mib: i64) -> MemoryUsage {
    MemoryUsage { init: 0, used: used_mib * MIB, committed: max_mib * MIB, max: max_mib * MIB }
}

fn heap_with_post_gc(used_mib: i64, post_gc_mib: i64) -> JvmSnapshot {
    JvmSnapshot {
        heap: usage(used_mib, 1000),
        memory_pools: vec![MemoryPool {
            name: "G1 Old Gen".into(),
            pool_type: PoolType::Heap,
            usage: usage(used_mib, 1000),
            collection_usage: Some(usage(post_gc_mib, 1000)),
        }],
        ..Default::default()
    }
}

#[test]
fn heap_rule_follows_post_gc_occupancy() {
    // 80 % full now, 30 % after collection: nothing to size.
    assert!(IncreaseHeapRule.evaluate(&heap_with_post_gc(800, 300), &[]).is_none());
    // 75 % after collection: grow the heap by half.
    let rec = IncreaseHeapRule.evaluate(&heap_with_post_gc(900, 750), &[]).unwrap();
    assert_eq!(rec.id, "increase_xmx");
    assert_eq!(rec.current_state, "Post-GC heap at 75% (750M/1000M)");
    assert_eq!(rec.jvm_flags, vec!["-Xmx1500m", "-Xms1500m"]);
    // No pool reports post-GC use: no decision.
    let mut snap = heap_with_post_gc(900, 750);
    snap.memory_pools[0].collection_usage = None;
    assert!(IncreaseHeapRule.evaluate(&snap, &[]).is_none());
}

fn large_g1(max_mib: i64) -> JvmSnapshot {
    let mut snap = JvmSnapshot {
        heap: usage(max_mib / 2, max_mib),
        gc_collectors: vec![GcCollectorStats {
            name: "G1 Young Generation".into(),
            collection_count: 10,
            collection_time_ms: 500,
        }],
        ..Default::default()
    };
    snap.jvm_info.gc_algorithm = GcAlgorithm::G1;
    snap.jvm_info.spec_version = "21".into();
    snap
}

#[test]
fn zgc_rule_is_for_heaps_above_16_gib() {
    // 8 GiB and 16 GiB heaps with 50 ms average pauses: no suggestion.
    assert!(SwitchToZgcRule.evaluate(&large_g1(8 * 1024), &[]).is_none());
    assert!(SwitchToZgcRule.evaluate(&large_g1(16 * 1024), &[]).is_none());
    let rec = SwitchToZgcRule.evaluate(&large_g1(32 * 1024), &[]).unwrap();
    assert_eq!(rec.id, "switch_to_zgc");
    assert_eq!(rec.jvm_flags, vec!["-XX:+UseZGC", "-XX:+ZGenerational"]);
}
