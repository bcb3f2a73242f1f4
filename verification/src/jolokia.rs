//! Jolokia requests and responses, and the JSON values they carry.

use vstd::prelude::*;
use vstd::string::StringExecFns;
use crate::num::{parse_micros, real_micros};
use crate::text::{chars_of, str_eq};

verus! {

// ─────────────────────────────── JSON ───────────────────────────────

/// A JSON number: its value when it is an integer that fits in `i64`, and
/// its text.
#[derive(Debug, Clone)]
pub struct JsonNumber {
    pub int: Option<i64>,
    pub text: String,
}

/// A JSON value. Object members keep their order; each key occurs once.
#[derive(Debug)]
pub enum Json {
    Null,
    Bool(bool),
    Number(JsonNumber),
    Str(String),
    Array(Vec<Json>),
    Object(Vec<(String, Json)>),
}

/// The member `key` of an object (`Value::get`).
pub open spec fn json_get(v: Json, key: Seq<char>) -> Option<Json> {
    match v {
        Json::Object(m) => member_of(m@, key),
        _ => None,
    }
}

pub open spec fn member_of(m: Seq<(String, Json)>, key: Seq<char>) -> Option<Json>
    decreases m.len(),
{
    if m.len() == 0 {
        None
    } else if m[0].0@ == key {
        Some(m[0].1)
    } else {
        member_of(m.drop_first(), key)
    }
}

/// `Value::as_i64`.
pub open spec fn json_i64(v: Json) -> Option<i64> {
    match v {
        Json::Number(n) => n.int,
        _ => None,
    }
}

/// `Value::as_f64`, in millionths.
pub open spec fn json_micros(v: Json) -> Option<int> {
    match v {
        Json::Number(n) => real_micros(n.text@),
        _ => None,
    }
}

/// `Value::as_str`.
pub open spec fn json_str(v: Json) -> Option<Seq<char>> {
    match v {
        Json::Str(s) => Some(s@),
        _ => None,
    }
}

pub open spec fn opt_json_i64(v: Option<Json>) -> Option<i64> {
    match v {
        Some(j) => json_i64(j),
        None => None,
    }
}

pub open spec fn opt_json_str(v: Option<Json>) -> Option<Seq<char>> {
    match v {
        Some(j) => json_str(j),
        None => None,
    }
}

pub open spec fn opt_json_micros(v: Option<Json>) -> Option<int> {
    match v {
        Some(j) => json_micros(j),
        None => None,
    }
}

impl Json {
    /// The member `key` of an object.
    pub fn get(&self, key: &str) -> (r: Option<&Json>)
        ensures
            match r {
                Some(j) => json_get(*self, key@) == Some(*j),
                None => json_get(*self, key@) is None,
            },
    {
        match self {
            Json::Object(m) => {
                let mut i: usize = 0;
                assert(m@.skip(0) =~= m@);
                while i < m.len()
                    invariant
                        i <= m@.len(),
                        json_get(*self, key@) == member_of(m@, key@),
                        member_of(m@, key@) == member_of(m@.skip(i as int), key@),
                    decreases m@.len() - i,
                {
                    proof {
                        assert(m@.skip(i as int)[0] == m@[i as int]);
                        assert(m@.skip(i as int).drop_first() =~= m@.skip(i + 1));
                    }
                    if str_eq(m[i].0.as_str(), key) {
                        return Some(&m[i].1);
                    }
                    i += 1;
                }
                assert(m@.skip(i as int) =~= Seq::<(String, Json)>::empty());
                None
            },
            _ => None,
        }
    }

    pub fn as_i64(&self) -> (r: Option<i64>)
        ensures
            r == json_i64(*self),
    {
        match self {
            Json::Number(n) => n.int,
            _ => None,
        }
    }

    /// The number in millionths.
    pub fn as_micros(&self) -> (r: Option<i64>)
        ensures
            match r {
                Some(x) => json_micros(*self) == Some(x as int),
                None => json_micros(*self) is None,
            },
    {
        match self {
            Json::Number(n) => parse_micros(&chars_of(n.text.as_str())),
            _ => None,
        }
    }

    pub fn as_str(&self) -> (r: Option<&str>)
        ensures
            match r {
                Some(s) => json_str(*self) == Some(s@),
                None => json_str(*self) is None,
            },
    {
        match self {
            Json::Str(s) => Some(s.as_str()),
            _ => None,
        }
    }

    pub fn is_null(&self) -> (r: bool)
        ensures
            r == (*self is Null),
    {
        match self {
            Json::Null => true,
            _ => false,
        }
    }
}

/// The member `key` of an optional value.
pub fn get_opt<'a>(v: Option<&'a Json>, key: &str) -> (r: Option<&'a Json>)
    ensures
        match v {
            Some(j) => match r {
                Some(x) => json_get(*j, key@) == Some(*x),
                None => json_get(*j, key@) is None,
            },
            None => r is None,
        },
{
    match v {
        Some(j) => j.get(key),
        None => None,
    }
}

/// `v.get(key).and_then(as_i64).unwrap_or(d)`.
pub fn i64_or(v: &Json, key: &str, d: i64) -> (r: i64)
    ensures
        r == (match opt_json_i64(json_get(*v, key@)) {
            Some(x) => x,
            None => d,
        }),
{
    match v.get(key) {
        Some(j) => match j.as_i64() {
            Some(x) => x,
            None => d,
        },
        None => d,
    }
}

/// `v.get(key).and_then(as_str).unwrap_or("")`, as a string.
pub fn str_or_empty(v: &Json, key: &str) -> (r: String)
    ensures
        r@ == (match opt_json_str(json_get(*v, key@)) {
            Some(s) => s,
            None => Seq::<char>::empty(),
        }),
{
    match v.get(key) {
        Some(j) => match j.as_str() {
            Some(s) => String::from_str(s),
            None => String::new(),
        },
        None => String::new(),
    }
}

/// `v.get(key).and_then(as_f64)`, in millionths, or 0.
pub fn micros_or_zero(v: &Json, key: &str) -> (r: i64)
    ensures
        r == (match opt_json_micros(json_get(*v, key@)) {
            Some(x) => x,
            None => 0,
        }),
{
    match v.get(key) {
        Some(j) => match j.as_micros() {
            Some(x) => x,
            None => 0,
        },
        None => 0,
    }
}

// ───────────────────────────── requests ─────────────────────────────

/// One Jolokia operation.
#[derive(Debug)]
pub enum JolokiaRequest {
    Read { mbean: String, attribute: Option<Vec<String>> },
    Exec { mbean: String, operation: String, arguments: Option<Vec<Json>> },
    Search { mbean: String },
    List { path: Option<String> },
}

/// A request as the contracts see it.
pub enum RequestView {
    Read { mbean: Seq<char>, attribute: Option<Seq<Seq<char>>> },
    Exec { mbean: Seq<char>, operation: Seq<char>, arguments: Option<Seq<Json>> },
    Search { mbean: Seq<char> },
    List { path: Option<Seq<char>> },
}

pub open spec fn string_views(v: Seq<String>) -> Seq<Seq<char>> {
    v.map_values(|s: String| s@)
}

pub open spec fn request_view(r: JolokiaRequest) -> RequestView {
    match r {
        JolokiaRequest::Read { mbean, attribute } => RequestView::Read {
            mbean: mbean@,
            attribute: match attribute {
                Some(a) => Some(string_views(a@)),
                None => None,
            },
        },
        JolokiaRequest::Exec { mbean, operation, arguments } => RequestView::Exec {
            mbean: mbean@,
            operation: operation@,
            arguments: match arguments {
                Some(a) => Some(a@),
                None => None,
            },
        },
        JolokiaRequest::Search { mbean } => RequestView::Search { mbean: mbean@ },
        JolokiaRequest::List { path } => RequestView::List {
            path: match path {
                Some(p) => Some(p@),
                None => None,
            },
        },
    }
}

pub open spec fn request_views(v: Seq<JolokiaRequest>) -> Seq<RequestView> {
    v.map_values(|r: JolokiaRequest| request_view(r))
}

pub open spec fn str_list(v: Seq<&str>) -> Seq<Seq<char>> {
    v.map_values(|s: &str| s@)
}

/// Composes a bulk request, one operation after another.
#[derive(Debug)]
pub struct BulkRequestBuilder {
    requests: Vec<JolokiaRequest>,
}

impl BulkRequestBuilder {
    pub closed spec fn requests(&self) -> Seq<RequestView> {
        request_views(self.requests@)
    }

    pub fn new() -> (r: Self)
        ensures
            r.requests() == Seq::<RequestView>::empty(),
    {
        let r = BulkRequestBuilder { requests: Vec::new() };
        assert(r.requests() =~= Seq::<RequestView>::empty());
        r
    }

    fn add(self, req: JolokiaRequest) -> (r: Self)
        ensures
            r.requests() == self.requests().push(request_view(req)),
    {
        let mut s = self;
        let ghost before = s.requests@;
        s.requests.push(req);
        assert(request_views(s.requests@) =~= request_views(before).push(request_view(req)));
        s
    }

    /// Reads the given attributes of an MBean.
    pub fn read(self, mbean: &str, attributes: &[&str]) -> (r: Self)
        ensures
            r.requests() == self.requests().push(
                RequestView::Read { mbean: mbean@, attribute: Some(str_list(attributes@)) },
            ),
    {
        let mut names: Vec<String> = Vec::new();
        let mut i: usize = 0;
        while i < attributes.len()
            invariant
                i <= attributes@.len(),
                string_views(names@) == str_list(attributes@.take(i as int)),
            decreases attributes@.len() - i,
        {
            let ghost before = names@;
            names.push(String::from_str(attributes[i]));
            assert(string_views(names@) =~= string_views(before).push(attributes@[i as int]@));
            assert(str_list(attributes@.take(i + 1)) =~= str_list(attributes@.take(i as int)).push(
                attributes@[i as int]@,
            ));
            i += 1;
        }
        assert(attributes@.take(attributes@.len() as int) =~= attributes@);
        self.add(JolokiaRequest::Read { mbean: String::from_str(mbean), attribute: Some(names) })
    }

    /// Reads every attribute of an MBean.
    pub fn read_all(self, mbean: &str) -> (r: Self)
        ensures
            r.requests() == self.requests().push(RequestView::Read { mbean: mbean@, attribute: None }),
    {
        self.add(JolokiaRequest::Read { mbean: String::from_str(mbean), attribute: None })
    }

    /// Runs an operation without arguments.
    pub fn exec_no_args(self, mbean: &str, operation: &str) -> (r: Self)
        ensures
            r.requests() == self.requests().push(
                RequestView::Exec { mbean: mbean@, operation: operation@, arguments: None },
            ),
    {
        self.add(
            JolokiaRequest::Exec {
                mbean: String::from_str(mbean),
                operation: String::from_str(operation),
                arguments: None,
            },
        )
    }

    /// Runs an operation with arguments.
    pub fn exec(self, mbean: &str, operation: &str, args: Vec<Json>) -> (r: Self)
        ensures
            r.requests() == self.requests().push(
                RequestView::Exec {
                    mbean: mbean@,
                    operation: operation@,
                    arguments: Some(args@),
                },
            ),
    {
        self.add(
            JolokiaRequest::Exec {
                mbean: String::from_str(mbean),
                operation: String::from_str(operation),
                arguments: Some(args),
            },
        )
    }

    /// Searches MBeans by pattern.
    pub fn search(self, mbean_pattern: &str) -> (r: Self)
        ensures
            r.requests() == self.requests().push(RequestView::Search { mbean: mbean_pattern@ }),
    {
        self.add(JolokiaRequest::Search { mbean: String::from_str(mbean_pattern) })
    }

    pub fn build(self) -> (r: Vec<JolokiaRequest>)
        ensures
            request_views(r@) == self.requests(),
    {
        self.requests
    }

    /// The standard bulk request: memory, threads, collectors, memory pools,
    /// operating system, runtime, class loading, and the deadlock check, in
    /// that order.
    pub fn standard() -> (r: Vec<JolokiaRequest>)
        ensures
            request_views(r@) == standard_requests(),
    {
        let a1: [&str; 2] = ["HeapMemoryUsage", "NonHeapMemoryUsage"];
        let a2: [&str; 3] = ["ThreadCount", "DaemonThreadCount", "PeakThreadCount"];
        let a3: [&str; 3] = ["Usage", "CollectionUsage", "Type"];
        let a4: [&str; 6] = [
            "ProcessCpuLoad",
            "SystemCpuLoad",
            "AvailableProcessors",
            "TotalPhysicalMemorySize",
            "FreePhysicalMemorySize",
            "SystemLoadAverage",
        ];
        let a5: [&str; 6] = [
            "Uptime",
            "VmName",
            "VmVendor",
            "VmVersion",
            "SpecVersion",
            "InputArguments",
        ];
        assert(str_list(a1@) =~= seq!["HeapMemoryUsage"@, "NonHeapMemoryUsage"@]);
        assert(str_list(a2@) =~= seq!["ThreadCount"@, "DaemonThreadCount"@, "PeakThreadCount"@]);
        assert(str_list(a3@) =~= seq!["Usage"@, "CollectionUsage"@, "Type"@]);
        assert(str_list(a4@) =~= seq![
            "ProcessCpuLoad"@,
            "SystemCpuLoad"@,
            "AvailableProcessors"@,
            "TotalPhysicalMemorySize"@,
            "FreePhysicalMemorySize"@,
            "SystemLoadAverage"@,
        ]);
        assert(str_list(a5@) =~= seq![
            "Uptime"@,
            "VmName"@,
            "VmVendor"@,
            "VmVersion"@,
            "SpecVersion"@,
            "InputArguments"@,
        ]);
        let r = Self::new().read("java.lang:type=Memory", &a1).read(
            "java.lang:type=Threading",
            &a2,
        ).read_all("java.lang:type=GarbageCollector,name=*").read(
            "java.lang:type=MemoryPool,name=*",
            &a3,
        ).read("java.lang:type=OperatingSystem", &a4).read("java.lang:type=Runtime", &a5).read_all(
            "java.lang:type=ClassLoading",
        ).exec_no_args("java.lang:type=Threading", "findDeadlockedThreads").build();
        assert(request_views(r@) =~= standard_requests());
        r
    }
}

/// The standard bulk request.
pub open spec fn standard_requests() -> Seq<RequestView> {
    seq![
        RequestView::Read {
            mbean: "java.lang:type=Memory"@,
            attribute: Some(seq!["HeapMemoryUsage"@, "NonHeapMemoryUsage"@]),
        },
        RequestView::Read {
            mbean: "java.lang:type=Threading"@,
            attribute: Some(seq!["ThreadCount"@, "DaemonThreadCount"@, "PeakThreadCount"@]),
        },
        RequestView::Read { mbean: "java.lang:type=GarbageCollector,name=*"@, attribute: None },
        RequestView::Read {
            mbean: "java.lang:type=MemoryPool,name=*"@,
            attribute: Some(seq!["Usage"@, "CollectionUsage"@, "Type"@]),
        },
        RequestView::Read {
            mbean: "java.lang:type=OperatingSystem"@,
            attribute: Some(
                seq![
                    "ProcessCpuLoad"@,
                    "SystemCpuLoad"@,
                    "AvailableProcessors"@,
                    "TotalPhysicalMemorySize"@,
                    "FreePhysicalMemorySize"@,
                    "SystemLoadAverage"@,
                ],
            ),
        },
        RequestView::Read {
            mbean: "java.lang:type=Runtime"@,
            attribute: Some(
                seq![
                    "Uptime"@,
                    "VmName"@,
                    "VmVendor"@,
                    "VmVersion"@,
                    "SpecVersion"@,
                    "InputArguments"@,
                ],
            ),
        },
        RequestView::Read { mbean: "java.lang:type=ClassLoading"@, attribute: None },
        RequestView::Exec {
            mbean: "java.lang:type=Threading"@,
            operation: "findDeadlockedThreads"@,
            arguments: None,
        },
    ]
}

// ───────────────────────────── responses ─────────────────────────────

/// One response of a bulk reply: `{ request, value, status, timestamp,
/// error?, stacktrace? }`.
#[derive(Debug)]
pub struct JolokiaResponse {
    /// 200 on success, 404 when the MBean is unknown, ...
    pub status: u32,
    pub value: Json,
    pub request: Json,
    /// Server time, seconds since the Unix epoch.
    pub timestamp: u64,
    pub error: Option<String>,
    pub stack_trace: Option<String>,
}

#[derive(Debug, Clone)]
pub enum JolokiaResponseError {
    ServerError { status: u32, message: String },
    ParseError { message: String, raw_value: String },
}

impl JolokiaResponse {
    /// The response reports success.
    pub fn is_ok(&self) -> (r: bool)
        ensures
            r == (self.status == 200),
    {
        self.status == 200
    }

    /// The error a failed response reports (its message, or empty).
    pub fn server_error(&self) -> (r: Option<JolokiaResponseError>)
        ensures
            match r {
                Some(JolokiaResponseError::ServerError { status, message }) => self.status != 200
                    && status == self.status && message@ == (match self.error {
                    Some(e) => e@,
                    None => Seq::<char>::empty(),
                }),
                Some(_) => false,
                None => self.status == 200,
            },
    {
        if self.is_ok() {
            None
        } else {
            Some(
                JolokiaResponseError::ServerError {
                    status: self.status,
                    message: match &self.error {
                        Some(e) => e.clone(),
                        None => String::new(),
                    },
                },
            )
        }
    }
}

} // verus!
