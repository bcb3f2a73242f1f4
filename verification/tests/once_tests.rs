use drishti::anomaly::{Alert, EvidenceTab, Severity};
use drishti::collector::once_outcome;
use drishti::gctail::GcTail;
use drishti::jolokia::{BulkRequestBuilder, JolokiaRequest, Json};
use drishti::model::{CpuMetrics, GcAlgorithm, GcCollectorStats, JvmInfo, JvmSnapshot, MemoryUsage, ThreadSummary};
use drishti::recommend::{Category, Recommendation};
use drishti::report::{report_of, summary_of};

fn snap_with_used(used: i64) -> JvmSnapshot {
    JvmSnapshot { heap: MemoryUsage { init: 0, used, committed: 0, max: 0 }, ..Default::default() }
}

#[test]
fn once_outcome_without_answers_fails() {
    let e = once_outcome(None, None, 0).unwrap_err();
    assert_eq!(e, "no data source reachable (no sources configured)");
    let e = once_outcome(Some(Err("boom".into())), None, 0).unwrap_err();
    assert_eq!(e, "no data source reachable (actuator: boom)");
    let e = once_outcome(Some(Err("a".into())), Some(Err("b".into())), 0).unwrap_err();
    assert_eq!(e, "no data source reachable (actuator: a; jolokia: b)");
}

#[test]
fn once_outcome_takes_what_answered() {
    let (s, w) = once_outcome(Some(Ok(snap_with_used(5))), Some(Err("x".into())), 0).unwrap();
    assert_eq!(s.heap.used, 5);
    assert_eq!(w, vec!["jolokia: x".to_string()]);
    let (s, w) = once_outcome(None, Some(Ok(snap_with_used(7))), 0).unwrap();
    assert_eq!(s.heap.used, 7);
    assert!(w.is_empty());
    // Both answered: merged, stamped with the time given.
    let (s, _) = once_outcome(Some(Ok(snap_with_used(5))), Some(Ok(snap_with_used(7))), 42).unwrap();
    assert_eq!(s.timestamp, 42);
}

#[test]
fn summary_lines() {
    let snap = JvmSnapshot {
        jvm_info: JvmInfo { vm_name: "OpenJDK 64-Bit Server VM".into(), uptime_ms: 7_380_000, ..Default::default() },
        heap: MemoryUsage { init: 0, used: 256 * 1024 * 1024, committed: 0, max: 512 * 1024 * 1024 },
        thread_summary: ThreadSummary { live: 7, ..Default::default() },
        cpu: CpuMetrics { process_cpu: 250_000, ..Default::default() },
        gc_collectors: vec![GcCollectorStats {
            name: "G1 Young Generation".into(),
            collection_count: 10,
            collection_time_ms: 500,
        }],
        ..Default::default()
    };
    assert_eq!(
        summary_of(&snap),
        vec![
            "OpenJDK 64-Bit Server VM (uptime 2h 3m)".to_string(),
            "heap: 256M / 512M (50%)   threads: 7 live   cpu: 25%".to_string(),
            "gc G1 Young Generation: 10 collections, 500ms total".to_string(),
        ]
    );
}

#[test]
fn report_lines() {
    let alerts = vec![Alert {
        id: "heap_high".into(),
        severity: Severity::Warn,
        title: "Heap usage high: 85%".into(),
        detail: "d".into(),
        evidence_tab: EvidenceTab::Memory,
        first_seen: 0,
        suppressed_until: None,
        confidence: 955_000,
    }];
    let recs = vec![Recommendation {
        id: "increase_xmx".into(),
        category: Category::HeapSizing,
        severity: Severity::Warn,
        title: "Increase -Xmx".into(),
        current_state: String::new(),
        suggestion: "grow".into(),
        rationale: String::new(),
        confidence: 700_000,
        jvm_flags: vec!["-Xmx1g".into(), "-Xms1g".into()],
        config_changes: vec![],
    }];
    assert_eq!(
        report_of(&alerts, &recs),
        vec![
            "Alerts (1):".to_string(),
            "  [WARN] Heap usage high: 85% — d (confidence 96%)".to_string(),
            String::new(),
            "Tuning recommendations (1):".to_string(),
            "  Increase -Xmx — grow".to_string(),
            "    flags: -Xmx1g -Xms1g".to_string(),
        ]
    );
}

#[test]
fn bulk_exec_keeps_arguments() {
    let reqs = BulkRequestBuilder::new()
        .exec("java.lang:type=Threading", "getThreadInfo", vec![Json::Str("x".into()), Json::Bool(true)])
        .build();
    match &reqs[0] {
        JolokiaRequest::Exec { mbean, operation, arguments: Some(args) } => {
            assert_eq!(mbean, "java.lang:type=Threading");
            assert_eq!(operation, "getThreadInfo");
            assert!(matches!(&args[0], Json::Str(s) if s == "x"));
            assert!(matches!(&args[1], Json::Bool(true)));
        }
        _ => panic!("expected an exec request with arguments"),
    }
}

#[test]
fn gc_tail_recognises_collector_after_window() {
    let mut tail = GcTail::new(None);
    let line = "[2024-01-15T10:30:00.000+0000][5.0s][info][gc] GC(3) Pause Init Mark (process weakrefs) 0.234ms";
    for _ in 0..19 {
        tail.on_line(line, 10);
        assert_eq!(tail.algorithm, GcAlgorithm::Unknown);
    }
    let ev = tail.on_line(line, 10).unwrap();
    assert_eq!(tail.algorithm, GcAlgorithm::Shenandoah);
    assert_eq!(tail.detect_lines.len(), 20);
    assert_eq!(ev.pause_ms, 234_000);
    // Once known, lines no longer feed recognition; blank lines change nothing.
    tail.on_line(line, 10);
    tail.on_line("   ", 3);
    assert_eq!(tail.detect_lines.len(), 20);
    assert_eq!(tail.pos, 213);
}
