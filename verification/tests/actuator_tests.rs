use drishti::auth::base_url_of;
use drishti::converter::{prometheus_to_snapshot, prometheus_to_snapshot_at};
use drishti::health::{parse_status, ComponentHealth, HealthResponse};
use drishti::logfile::{parse_header_number, parse_range_total, LogPollError, LogTail};
use drishti::model::{HealthStatus, ThreadState};
use drishti::prometheus::{find_gauge, label_value, parse_prometheus_text};
use drishti::threads::{parse_thread_state, threads_from_dump, RawStackFrame, RawThread, ThreadDumpResponse};

#[test]
fn boot2_thread_names_work() {
    let text = "jvm_threads_live 48.0\njvm_threads_daemon 32.0\njvm_threads_peak 52.0\n";
    let snap = prometheus_to_snapshot(text);
    assert_eq!(snap.thread_summary.live, 48);
    assert_eq!(snap.thread_summary.daemon, 32);
}

#[test]
fn boot3_thread_names_work() {
    let text = "jvm_threads_live_threads 48.0\njvm_threads_daemon_threads 32.0\njvm_threads_peak_threads 52.0\n";
    let snap = prometheus_to_snapshot(text);
    assert_eq!(snap.thread_summary.live, 48);
}

#[test]
fn tomcat_boot2_names_work() {
    let text = "tomcat_threads_busy 5.0\ntomcat_threads_current 10.0\ntomcat_threads_config_max 200.0\n";
    let snap = prometheus_to_snapshot(text);
    assert!(snap.tomcat.is_some());
    assert_eq!(snap.tomcat.unwrap().threads_busy, 5);
}

#[test]
fn scrape_takes_the_given_time_and_counts_http() {
    let text = "http_server_requests_seconds_count{method=\"GET\",uri=\"/owners\",status=\"200\"} 10.0\nhttp_server_requests_seconds_count{method=\"GET\",uri=\"/owners\",status=\"500\"} 2.0\n";
    let snap = prometheus_to_snapshot_at(text, 42);
    assert_eq!(snap.timestamp, 42);
    assert_eq!(snap.http.total_requests, 12);
    assert_eq!(snap.http.total_errors, 2);
    assert_eq!(snap.http.endpoints.len(), 1);
    assert_eq!(snap.http.endpoints[0].uri, "/owners");
    assert!(snap.hikari.is_none());
}

#[test]
fn parse_simple_gauge() {
    let text = "process_cpu_usage 0.42\n";
    let samples = parse_prometheus_text(text);
    assert_eq!(samples.len(), 1);
    assert_eq!(samples[0].name, "process_cpu_usage");
    // 0.42, in millionths.
    assert_eq!(samples[0].value, 420_000);
}

#[test]
fn parse_labeled_metric() {
    let text = r#"jvm_memory_used_bytes{area="heap",id="G1 Eden Space"} 12345678.0"#;
    let samples = parse_prometheus_text(text);
    assert_eq!(samples.len(), 1);
    assert_eq!(label_value(&samples[0], "area").unwrap(), "heap");
    assert_eq!(label_value(&samples[0], "id").unwrap(), "G1 Eden Space");
}

#[test]
fn skip_comments_and_type_lines() {
    let text = "# HELP jvm_memory_used_bytes Used bytes\n# TYPE jvm_memory_used_bytes gauge\njvm_memory_used_bytes 42.0\n";
    let samples = parse_prometheus_text(text);
    assert_eq!(samples.len(), 1);
}

#[test]
fn find_gauge_with_labels() {
    let text = r#"jvm_memory_used_bytes{area="heap",id="G1 Old Gen"} 99999.0
jvm_memory_used_bytes{area="heap",id="G1 Eden Space"} 55555.0"#;
    let samples = parse_prometheus_text(text);
    let val = find_gauge(&samples, "jvm_memory_used_bytes", &[("id", "G1 Old Gen")]);
    assert_eq!(val, Some(99_999_000_000));
}

#[test]
fn find_gauge_misses_unknown_labels() {
    let samples = parse_prometheus_text("a{x=\"1\"} 1.0\n");
    assert_eq!(find_gauge(&samples, "a", &[("x", "2")]), None);
    assert_eq!(find_gauge(&samples, "b", &[]), None);
    assert_eq!(find_gauge(&samples, "a", &[]), Some(1_000_000));
}

fn frame(class: &str, method: &str, file: Option<&str>, line: i32, native: bool) -> RawStackFrame {
    RawStackFrame {
        class_name: class.to_string(),
        method_name: method.to_string(),
        file_name: file.map(|f| f.to_string()),
        line_number: line,
        native_method: native,
    }
}

fn thread(id: i64, name: &str, state: &str, daemon: bool, blocked: i64, waited: i64, stack: Vec<RawStackFrame>) -> RawThread {
    RawThread {
        thread_id: id,
        thread_name: name.to_string(),
        thread_state: state.to_string(),
        daemon,
        blocked_count: blocked,
        waited_count: waited,
        in_native: false,
        suspended: false,
        lock_name: None,
        lock_owner_name: None,
        lock_owner_id: None,
        stack_trace: stack,
    }
}

#[test]
fn parse_minimal_thread_dump() {
    let dump = ThreadDumpResponse {
        threads: vec![
            thread(1, "main", "RUNNABLE", false, 5, 10, vec![frame("com.example.App", "run", Some("App.java"), 42, false)]),
            thread(15, "HikariPool-1-connection-adder", "TIMED_WAITING", true, 0, 100, vec![]),
        ],
    };
    let threads = threads_from_dump(dump);
    assert_eq!(threads.len(), 2);
    assert_eq!(threads[0].name, "main");
    assert_eq!(threads[0].state, ThreadState::Runnable);
    assert!(!threads[0].daemon);
    assert_eq!(threads[0].stack_frames.len(), 1);
    assert!(threads[0].stack_frames[0].contains("App.run"));
    assert_eq!(threads[1].state, ThreadState::TimedWaiting);
    assert!(threads[1].daemon);
}

#[test]
fn parse_thread_dump_fixture() {
    let mut waiting = thread(20, "http-nio-8080-exec-1", "WAITING", true, 0, 50, vec![frame("sun.misc.Unsafe", "park", None, 0, true)]);
    waiting.lock_name = Some("java.util.concurrent.locks.AbstractQueuedSynchronizer$ConditionObject@1a2b3c4d".to_string());
    let dump = ThreadDumpResponse {
        threads: vec![
            thread(1, "main", "RUNNABLE", false, 3, 7, vec![frame("com.example.App", "run", Some("App.java"), 42, false)]),
            waiting,
        ],
    };
    let threads = threads_from_dump(dump);
    assert_eq!(threads.len(), 2);
    assert_eq!(threads[0].name, "main");
    assert_eq!(threads[0].state, ThreadState::Runnable);
    assert!(!threads[0].daemon);
    assert_eq!(threads[0].blocked_count, 3);
    assert_eq!(threads[1].state, ThreadState::Waiting);
    assert!(threads[1].daemon);
    assert!(threads[1].lock_name.is_some());
    assert_eq!(threads[1].stack_frames[0], "sun.misc.Unsafe.park(Unknown(Native Method))");
}

#[test]
fn stack_frame_texts() {
    assert_eq!(frame("a.B", "c", Some("B.java"), 7, false).to_string_frame(), "a.B.c(B.java:7)");
    assert_eq!(frame("a.B", "c", None, 0, false).to_string_frame(), "a.B.c(Unknown)");
}

#[test]
fn thread_states_ignore_case_and_dashes() {
    assert_eq!(parse_thread_state("timed-waiting"), ThreadState::TimedWaiting);
    assert_eq!(parse_thread_state("Blocked"), ThreadState::Blocked);
    assert_eq!(parse_thread_state("sleepy"), ThreadState::Unknown);
}

fn component(name: &str, status: &str) -> (String, ComponentHealth) {
    (name.to_string(), ComponentHealth { status: status.to_string() })
}

#[test]
fn parse_boot3_health() {
    let resp = HealthResponse {
        status: "UP".to_string(),
        components: vec![component("db", "UP"), component("diskSpace", "UP")],
        details: vec![],
    };
    let info = resp.to_health_info();
    assert_eq!(info.status, HealthStatus::Up);
    assert_eq!(info.components.len(), 2);
}

#[test]
fn parse_boot2_health_with_details() {
    let resp = HealthResponse {
        status: "UP".to_string(),
        components: vec![],
        details: vec![component("db", "UP")],
    };
    let info = resp.to_health_info();
    assert_eq!(info.status, HealthStatus::Up);
    assert_eq!(info.components.len(), 1);
}

#[test]
fn parse_health_boot3() {
    let resp = HealthResponse {
        status: "UP".to_string(),
        components: vec![component("db", "UP"), component("diskSpace", "UP")],
        details: vec![],
    };
    let info = resp.to_health_info();
    assert_eq!(info.status, HealthStatus::Up);
    assert_eq!(info.components.len(), 2);
    let db = info.components.iter().find(|(k, _)| k == "db").map(|(_, v)| *v);
    assert_eq!(db, Some(HealthStatus::Up));
}

#[test]
fn health_statuses() {
    assert_eq!(parse_status("down"), HealthStatus::Down);
    assert_eq!(parse_status("out_of_service"), HealthStatus::OutOfService);
    assert_eq!(parse_status("weird"), HealthStatus::Unknown);
}

#[test]
fn client_trims_trailing_slash() {
    assert_eq!(base_url_of("http://localhost:8778/jolokia/"), "http://localhost:8778/jolokia");
    assert_eq!(base_url_of("http://h//"), "http://h");
    assert_eq!(base_url_of("http://h"), "http://h");
}

#[test]
fn log_tail_starts_four_kib_before_end() {
    assert_eq!(LogTail::starting_at(10_000).offset(), 10_000 - 4096);
    assert_eq!(LogTail::starting_at(100).offset(), 0);
}

#[test]
fn log_tail_partial_content_moves_position() {
    let mut t = LogTail::starting_at(5000);
    let r = t.poll_step(206, "héllo\n", Some("bytes 904-910/911")).unwrap().unwrap();
    assert_eq!(r.text, "héllo\n");
    assert_eq!(r.offset, 904);
    assert_eq!(r.total_size, 911);
    assert_eq!(t.offset(), 904 + 7);
    assert!(t.poll_step(206, "", None).unwrap().is_none());
    assert_eq!(t.offset(), 911);
}

#[test]
fn log_tail_full_content_keeps_only_new_part() {
    let mut t = LogTail::starting_at(0);
    let r = t.poll_step(200, "abc", None).unwrap().unwrap();
    assert_eq!(r.text, "abc");
    assert_eq!(t.offset(), 3);
    assert!(t.poll_step(200, "abc", None).unwrap().is_none());
    let r = t.poll_step(200, "abcdé", None).unwrap().unwrap();
    assert_eq!(r.text, "dé");
    assert_eq!(r.offset, 3);
    assert_eq!(r.total_size, 6);
    assert_eq!(t.offset(), 6);
}

#[test]
fn log_tail_rotation_and_errors() {
    let mut t = LogTail::starting_at(9000);
    assert!(t.poll_step(416, "", None).unwrap().is_none());
    assert_eq!(t.offset(), 0);
    assert_eq!(
        t.poll_step(404, "", None).err(),
        Some(LogPollError::EndpointNotFound { endpoint: "/actuator/logfile".to_string() })
    );
    assert_eq!(
        t.poll_step(503, "", None).err(),
        Some(LogPollError::Parse("Unexpected status 503 from /logfile".to_string()))
    );
}

#[test]
fn header_numbers() {
    assert_eq!(parse_header_number(Some("1234")), 1234);
    assert_eq!(parse_header_number(Some("x")), 0);
    assert_eq!(parse_header_number(None), 0);
    assert_eq!(parse_range_total(Some("bytes 0-9/77")), 77);
    assert_eq!(parse_range_total(Some("bytes 0-9/*")), 0);
    assert_eq!(parse_range_total(Some("55")), 55);
}
