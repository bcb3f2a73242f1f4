use drishti::jconvert::{bulk_to_snapshot, bulk_to_snapshot_at, extract_mbean_name, parse_size};
use drishti::jolokia::{BulkRequestBuilder, Json, JolokiaResponse, JsonNumber};

fn jint(n: i64) -> Json {
    Json::Number(JsonNumber { int: Some(n), text: n.to_string() })
}

fn jreal(text: &str) -> Json {
    Json::Number(JsonNumber { int: None, text: text.to_string() })
}

fn obj(members: Vec<(&str, Json)>) -> Json {
    Json::Object(members.into_iter().map(|(k, v)| (k.to_string(), v)).collect())
}

fn ok(value: Json) -> JolokiaResponse {
    JolokiaResponse { status: 200, value, request: obj(vec![]), timestamp: 0, error: None, stack_trace: None }
}

#[test]
fn standard_request_has_8_elements() {
    let reqs = BulkRequestBuilder::standard();
    assert_eq!(reqs.len(), 8);
}

#[test]
fn builder_keeps_order() {
    let reqs = BulkRequestBuilder::new()
        .read("java.lang:type=Memory", &["HeapMemoryUsage"])
        .search("java.lang:type=GarbageCollector,*")
        .build();
    assert_eq!(reqs.len(), 2);
}

#[test]
fn parse_ok_response() {
    let resp = JolokiaResponse {
        status: 200,
        value: obj(vec![("used", jint(12345)), ("max", jint(99999))]),
        request: obj(vec![]),
        timestamp: 1_700_000_000,
        error: None,
        stack_trace: None,
    };
    assert!(resp.is_ok());
    assert!(resp.server_error().is_none());
}

#[test]
fn parse_error_response() {
    let resp = JolokiaResponse {
        status: 404,
        value: Json::Null,
        request: obj(vec![]),
        timestamp: 1_700_000_000,
        error: Some("MBean not found".to_string()),
        stack_trace: None,
    };
    assert!(!resp.is_ok());
    assert_eq!(resp.error.as_deref(), Some("MBean not found"));
    assert!(resp.server_error().is_some());
}

#[test]
fn parse_bulk_with_deadlock() {
    let responses = vec![
        ok(obj(vec![
            ("HeapMemoryUsage", obj(vec![("init", jint(0)), ("used", jint(100)), ("committed", jint(200)), ("max", jint(200))])),
            ("NonHeapMemoryUsage", obj(vec![("init", jint(0)), ("used", jint(50)), ("committed", jint(100)), ("max", jint(-1))])),
        ])),
        ok(obj(vec![("ThreadCount", jint(10)), ("DaemonThreadCount", jint(5)), ("PeakThreadCount", jint(12))])),
        ok(obj(vec![])),
        ok(obj(vec![])),
        ok(obj(vec![
            ("ProcessCpuLoad", jreal("0.1")),
            ("SystemCpuLoad", jreal("0.2")),
            ("AvailableProcessors", jint(4)),
            ("SystemLoadAverage", jreal("1.0")),
        ])),
        ok(obj(vec![
            ("Uptime", jint(1000)),
            ("VmName", Json::Str("Test".to_string())),
            ("VmVendor", Json::Str("Test".to_string())),
            ("VmVersion", Json::Str("21".to_string())),
            ("SpecVersion", Json::Str("21".to_string())),
            ("InputArguments", Json::Array(vec![])),
        ])),
        ok(obj(vec![("LoadedClassCount", jint(100)), ("TotalLoadedClassCount", jint(110)), ("UnloadedClassCount", jint(10))])),
        ok(Json::Array(vec![jint(42), jint(43), jint(44)])),
    ];
    let snap = bulk_to_snapshot(&responses);
    assert_eq!(snap.deadlocks.len(), 1);
    assert_eq!(snap.deadlocks[0].thread_ids, vec![42, 43, 44]);
    assert_eq!(snap.heap.used, 100);
    assert_eq!(snap.thread_summary.live, 10);
    assert_eq!(snap.jvm_info.uptime_human(), "0m");
}

#[test]
fn short_bulk_reply_gives_empty_snapshot() {
    let snap = bulk_to_snapshot_at(&[], 5);
    assert_eq!(snap.timestamp, 5);
    assert_eq!(snap.heap.used, 0);
    assert!(snap.deadlocks.is_empty());
}

#[test]
fn mbean_names_and_sizes() {
    assert_eq!(extract_mbean_name("java.lang:type=MemoryPool,name=G1 Eden Space"), "G1 Eden Space");
    assert_eq!(parse_size("512m"), 512 * 1024 * 1024);
    assert_eq!(parse_size("2g"), 2 * 1024 * 1024 * 1024);
    assert_eq!(parse_size("64k"), 64 * 1024);
}
