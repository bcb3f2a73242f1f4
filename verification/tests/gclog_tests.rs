use drishti::g1::{parse_g1_event, parse_g1_event_at, parse_g1_log_at};
use drishti::gclog::{detect_algorithm, level_from_lowercase, parse_unified_line, LogLevel};
use drishti::gctail::GcTail;
use drishti::model::{GcAlgorithm, GcPhase};
use drishti::shenandoah::{parse_shenandoah_event, parse_shenandoah_log};
use drishti::zgc::{parse_zgc_event, parse_zgc_log};

#[test]
fn detect_g1() {
    let lines = vec![
        "[info][gc] GC(5) Pause Young (Normal) (G1 Evacuation Pause) 45M->12M(512M) 3.456ms",
    ];
    assert_eq!(detect_algorithm(&lines), GcAlgorithm::G1);
}

#[test]
fn detect_zgc_generational() {
    let lines = vec!["[info][gc] GC(0) Young Garbage Collection (Allocation Rate) 128M->64M 0.5ms"];
    assert_eq!(detect_algorithm(&lines), GcAlgorithm::ZgcGenerational);
}

#[test]
fn detect_shenandoah() {
    let lines = vec!["[info][gc] GC(3) Pause Init Mark (process weakrefs) 0.234ms"];
    assert_eq!(detect_algorithm(&lines), GcAlgorithm::Shenandoah);
}

#[test]
fn detect_nothing_known() {
    let lines = vec!["hello", "world"];
    assert_eq!(detect_algorithm(&lines), GcAlgorithm::Unknown);
}

#[test]
fn parse_g1_young_pause() {
    let line = "[2024-01-15T10:30:00.123+0000][1.234s][info][gc] GC(5) Pause Young (Normal) (G1 Evacuation Pause) 45M->12M(512M) 3.456ms";
    let event = parse_g1_event(line).unwrap();
    assert_eq!(event.id, 5);
    assert_eq!(event.phase, GcPhase::YoungPause);
    assert_eq!(event.heap_before_bytes, 45 * 1024 * 1024);
    assert_eq!(event.heap_after_bytes, 12 * 1024 * 1024);
    // 3.456 ms, in millionths of a millisecond.
    assert_eq!(event.pause_ms, 3_456_000);
}

#[test]
fn parse_g1_full_gc() {
    let line = "[2024-01-15T10:35:00.000+0000][5.000s][info][gc] GC(10) Pause Full (Allocation Failure) 500M->200M(512M) 1234.567ms";
    let event = parse_g1_event(line).unwrap();
    assert_eq!(event.phase, GcPhase::FullGc);
    assert_eq!(event.pause_ms, 1_234_567_000);
}

#[test]
fn g1_event_without_rfc3339_time_takes_now() {
    let line = "[2024-01-15T10:30:00.123+0000][1.234s][info][gc] GC(5) Pause Young (Normal) (G1 Evacuation Pause) 45M->12M(512M) 3.456ms";
    let event = parse_g1_event_at(line, 1_000).unwrap();
    assert_eq!(event.timestamp, 1_000);
    assert_eq!(event.collector, "G1");
    assert_eq!(event.cause, "Normal");
    assert_eq!(event.heap_capacity_bytes, 512 * 1024 * 1024);
}

#[test]
fn g1_event_with_rfc3339_time_keeps_it() {
    let line = "[2024-01-15T10:30:00.123+00:00][1.234s][info][gc] GC(5) Pause Mixed (G1 Evacuation Pause) 45M->12M(512M) 3.456ms";
    let event = parse_g1_event_at(line, 1_000).unwrap();
    assert_eq!(event.timestamp, 1_705_314_600_123);
    assert_eq!(event.phase, GcPhase::MixedPause);
}

#[test]
fn g1_log_keeps_only_pauses() {
    let text = "[2024-01-15T10:30:00.123+0000][1.234s][info][gc] GC(5) Pause Young (Normal) (G1 Evacuation Pause) 45M->12M(512M) 3.456ms\nnot a gc line\n[2024-01-15T10:35:00.000+0000][5.000s][info][gc] GC(10) Pause Full (Allocation Failure) 500M->200M(512M) 1234.567ms\n";
    let events = parse_g1_log_at(text, 7);
    assert_eq!(events.len(), 2);
    assert_eq!(events[0].id, 5);
    assert_eq!(events[1].id, 10);
}

#[test]
fn parse_zgc_classic_collection() {
    let line = "[2024-01-15T10:30:00.000+0000][5.0s][info][gc] GC(3) Garbage Collection (Allocation Rate) 3304M(20%)->384M(2%)";
    let event = parse_zgc_event(line).unwrap();
    assert_eq!(event.id, 3);
    assert_eq!(event.heap_before_bytes, 3304 * 1024 * 1024);
    assert_eq!(event.heap_after_bytes, 384 * 1024 * 1024);
}

#[test]
fn parse_zgc_gen_young() {
    let line = "[2024-01-15T10:30:00.000+0000][5.0s][info][gc] GC(0) Young Garbage Collection (Allocation Rate) 512M->128M";
    let event = parse_zgc_event(line).unwrap();
    assert_eq!(event.phase, GcPhase::YoungPause);
    assert!(event.collector.contains("Young"));
}

#[test]
fn parse_zgc_pause() {
    let line = "[2024-01-15T10:30:00.000+0000][5.0s][info][gc] GC(3) Pause Mark Start 0.012ms";
    let event = parse_zgc_event(line).unwrap();
    assert_eq!(event.phase, GcPhase::InitMark);
    assert_eq!(event.pause_ms, 12_000);
}

#[test]
fn parse_init_mark() {
    let line = "[2024-01-15T10:30:00.000+0000][5.0s][info][gc] GC(3) Pause Init Mark (process weakrefs) 0.234ms";
    let event = parse_shenandoah_event(line).unwrap();
    assert_eq!(event.phase, GcPhase::InitMark);
    assert_eq!(event.pause_ms, 234_000);
    assert_eq!(event.cause, "process weakrefs");
}

#[test]
fn parse_full_gc_degenerated() {
    let line = "[2024-01-15T10:35:00.000+0000][10.0s][info][gc] GC(5) Pause Full (Allocation Failure) 480M->120M(512M) 567.890ms";
    let event = parse_shenandoah_event(line).unwrap();
    assert_eq!(event.phase, GcPhase::DegeneratedGc);
    assert_eq!(event.heap_before_bytes, 480 * 1024 * 1024);
}

#[test]
fn parse_concurrent_marking() {
    let line = "[2024-01-15T10:30:00.500+0000][5.5s][info][gc] GC(3) Concurrent marking 400M->410M(512M) 12.345ms";
    let event = parse_shenandoah_event(line).unwrap();
    assert_eq!(event.phase, GcPhase::ConcurrentMark);
}

#[test]
fn parse_g1_pause_line() {
    let line = "[2024-01-15T10:30:00.123+0000][1.234s][info][gc] GC(5) Pause Young (Normal) (G1 Evacuation Pause) 45M->12M(512M) 3.456ms";
    let parsed = parse_unified_line(line).unwrap();
    assert_eq!(parsed.level, LogLevel::Info);
    assert_eq!(parsed.tags, vec!["gc"]);
    assert!(parsed.message.contains("Pause Young"));
    // 1.234 s, in millionths of a second.
    assert_eq!(parsed.uptime_secs, Some(1_234_000));
}

#[test]
fn parse_gc_phases_line() {
    let line = "[2024-01-15T10:30:00.456+0000][2.000s][debug][gc,phases] GC(5)   Pre Evacuate Collection Set: 0.1ms";
    let parsed = parse_unified_line(line).unwrap();
    assert_eq!(parsed.tags, vec!["gc", "phases"]);
    assert_eq!(parsed.level, LogLevel::Debug);
}

#[test]
fn unified_time_stamp_and_level_case() {
    let line = "[2024-01-15T10:30:00.123+00:00][1.000s][INFO][gc] GC(1) Pause Young 1M->0M(8M) 1.000ms";
    let parsed = parse_unified_line(line).unwrap();
    assert_eq!(parsed.timestamp, Some(1_705_314_600_123));
    assert_eq!(parsed.level, LogLevel::Info);
    // An offset without a colon is no RFC 3339 time: the line parses, the
    // time does not.
    let line = "[2024-01-15T10:30:00.123+0000][1.000s][Debug][gc] GC(1) x";
    let parsed = parse_unified_line(line).unwrap();
    assert_eq!(parsed.timestamp, None);
    assert_eq!(parsed.level, LogLevel::Debug);
}

#[test]
fn reject_non_unified_line() {
    let line = "just some random text";
    assert!(parse_unified_line(line).is_err());
}

#[test]
fn gc_tail_rotation_resets() {
    let mut tail = GcTail::new(Some(100));
    assert_eq!(tail.pos, 100);
    assert!(!tail.observe_len(100));
    assert!(tail.observe_len(150));
    assert_eq!(tail.pos, 100);
    assert!(tail.observe_len(40));
    assert_eq!(tail.pos, 0);
    assert_eq!(tail.algorithm, GcAlgorithm::Unknown);
}

#[test]
fn gc_tail_parses_lines_and_moves() {
    let mut tail = GcTail::new(None);
    let line = "[2024-01-15T10:30:00.123+0000][1.234s][info][gc] GC(5) Pause Young (Normal) (G1 Evacuation Pause) 45M->12M(512M) 3.456ms\n";
    let ev = tail.on_line_at(line, line.len() as u64, 9).unwrap();
    assert_eq!(ev.id, 5);
    assert_eq!(ev.timestamp, 9);
    assert_eq!(tail.pos, line.len() as u64);
    assert_eq!(tail.detect_lines.len(), 1);
    assert!(tail.on_line_at("   \n", 4, 9).is_none());
    assert_eq!(tail.detect_lines.len(), 1);
}

#[test]
fn gc_tail_recognises_collector_after_twenty_lines() {
    let mut tail = GcTail::new(None);
    let line = "[2024-01-15T10:30:00.000+0000][5.0s][info][gc] GC(3) Pause Init Mark (process weakrefs) 0.234ms";
    for _ in 0..19 {
        tail.on_line_at(line, 1, 0);
    }
    assert_eq!(tail.algorithm, GcAlgorithm::Unknown);
    let ev = tail.on_line_at(line, 1, 0).unwrap();
    assert_eq!(tail.algorithm, GcAlgorithm::Shenandoah);
    assert_eq!(ev.phase, GcPhase::InitMark);
    assert_eq!(tail.pos, 20);
}

#[test]
fn parse_zgc_pause_lines() {
    let log = "\
[2024-01-15T10:30:00.000+0000][5.0s][info][gc] GC(0) Pause Mark Start 0.012ms
[2024-01-15T10:30:00.100+0000][5.1s][info][gc] GC(0) Pause Mark End 0.008ms
[2024-01-15T10:30:00.200+0000][5.2s][info][gc] GC(0) Pause Relocate Start 0.005ms
[2024-01-15T10:30:01.000+0000][6.0s][info][gc] GC(0) Garbage Collection (Allocation Rate) 3304M(20%)->384M(2%)
";
    let events = parse_zgc_log(log);
    assert_eq!(events.len(), 4);
    assert_eq!(events[0].phase, GcPhase::InitMark);
    // 0.012 ms, in millionths of a millisecond.
    assert_eq!(events[0].pause_ms, 12_000);
    assert_eq!(events[3].heap_before_bytes, 3304 * 1024 * 1024);
}

#[test]
fn parse_zgc_generational() {
    let log = "[2024-01-15T10:30:00.000+0000][5.0s][info][gc] GC(0) Young Garbage Collection (Allocation Rate) 512M->128M\n";
    let events = parse_zgc_log(log);
    assert_eq!(events.len(), 1);
    assert_eq!(events[0].phase, GcPhase::YoungPause);
    assert!(events[0].collector.contains("Young"));
}

#[test]
fn parse_shenandoah_phases() {
    let log = "\
[2024-01-15T10:30:00.000+0000][5.0s][info][gc] GC(3) Pause Init Mark (process weakrefs) 0.234ms
[2024-01-15T10:30:00.500+0000][5.5s][info][gc] GC(3) Concurrent marking 400M->410M(512M) 12.345ms
[2024-01-15T10:30:01.000+0000][6.0s][info][gc] GC(3) Pause Final Mark (process weakrefs) 0.567ms
[2024-01-15T10:30:01.500+0000][6.5s][info][gc] GC(3) Concurrent evacuation 410M->350M(512M) 8.901ms
";
    let events = parse_shenandoah_log(log);
    assert_eq!(events.len(), 4);
    assert_eq!(events[0].phase, GcPhase::InitMark);
    assert_eq!(events[1].phase, GcPhase::ConcurrentMark);
    assert_eq!(events[2].phase, GcPhase::FinalMark);
    assert_eq!(events[3].phase, GcPhase::ConcurrentEvacuate);
}

#[test]
fn detect_shenandoah_degenerated() {
    let log = "[2024-01-15T10:35:00.000+0000][10.0s][info][gc] GC(5) Pause Full (Allocation Failure) 480M->120M(512M) 567.890ms\n";
    let events = parse_shenandoah_log(log);
    assert_eq!(events.len(), 1);
    assert_eq!(events[0].phase, GcPhase::DegeneratedGc);
}

#[test]
fn level_names_in_lower_case() {
    assert_eq!(level_from_lowercase("warning"), LogLevel::Warning);
    assert_eq!(level_from_lowercase("trace"), LogLevel::Trace);
    // Not lower case, or unknown: the default.
    assert_eq!(level_from_lowercase("ERROR"), LogLevel::Info);
    assert_eq!(level_from_lowercase("fatal"), LogLevel::Info);
}
