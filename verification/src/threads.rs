//! `/actuator/threaddump` responses, turned into thread records.

use vstd::prelude::*;
use vstd::string::StringExecFns;
use crate::model::{ThreadInfo, ThreadState};
use crate::num::{int_text, push_int};
use crate::text::{ascii_upper, chars_of, is_ascii_text, push_char, str_eq, to_upper, uppercase};

verus! {

/// One stack frame as the endpoint reports it.
#[derive(Debug, Clone)]
pub struct RawStackFrame {
    pub class_name: String,
    pub method_name: String,
    pub file_name: Option<String>,
    pub line_number: i32,
    pub native_method: bool,
}

/// One thread as the endpoint reports it.
#[derive(Debug, Clone)]
pub struct RawThread {
    pub thread_id: i64,
    pub thread_name: String,
    pub thread_state: String,
    pub daemon: bool,
    pub blocked_count: i64,
    pub waited_count: i64,
    pub in_native: bool,
    pub suspended: bool,
    pub lock_name: Option<String>,
    pub lock_owner_name: Option<String>,
    pub lock_owner_id: Option<i64>,
    pub stack_trace: Vec<RawStackFrame>,
}

/// A decoded `/actuator/threaddump` response.
#[derive(Debug, Clone)]
pub struct ThreadDumpResponse {
    pub threads: Vec<RawThread>,
}

/// `Class.method(File.java:42)`, `(File.java(Native Method))` for a native
/// frame without a line, `(File.java)` otherwise; "Unknown" when no file.
pub open spec fn frame_text(f: RawStackFrame) -> Seq<char> {
    let file = match f.file_name {
        Some(n) => n@,
        None => "Unknown"@,
    };
    let line = if f.line_number > 0 {
        ":"@ + int_text(f.line_number as int)
    } else if f.native_method {
        "(Native Method)"@
    } else {
        Seq::<char>::empty()
    };
    f.class_name@ + "."@ + f.method_name@ + "("@ + file + line + ")"@
}

impl RawStackFrame {
    pub fn to_string_frame(&self) -> (r: String)
        ensures
            r@ == frame_text(*self),
    {
        let mut s = self.class_name.clone();
        s.append(".");
        s.append(self.method_name.as_str());
        s.append("(");
        match &self.file_name {
            Some(n) => s.append(n.as_str()),
            None => s.append("Unknown"),
        }
        if self.line_number > 0 {
            s.append(":");
            push_int(&mut s, self.line_number as i128);
        } else if self.native_method {
            s.append("(Native Method)");
        }
        s.append(")");
        s
    }
}

/// `str::replace('-', "_")`.
pub open spec fn dashes_to_underscores(s: Seq<char>) -> Seq<char> {
    s.map_values(|c: char| if c == '-' { '_' } else { c })
}

/// The thread state named by a state text (case-insensitive, `-` or `_`).
pub open spec fn thread_state_named(s: Seq<char>) -> ThreadState {
    thread_state_of_upper(uppercase(s))
}

/// The thread state named by an upper-case state text (`-` or `_`).
pub open spec fn thread_state_of_upper(t: Seq<char>) -> ThreadState {
    let u = dashes_to_underscores(t);
    if u == "NEW"@ {
        ThreadState::New
    } else if u == "RUNNABLE"@ {
        ThreadState::Runnable
    } else if u == "BLOCKED"@ {
        ThreadState::Blocked
    } else if u == "WAITING"@ {
        ThreadState::Waiting
    } else if u == "TIMED_WAITING"@ {
        ThreadState::TimedWaiting
    } else if u == "TERMINATED"@ {
        ThreadState::Terminated
    } else {
        ThreadState::Unknown
    }
}

pub fn parse_thread_state(s: &str) -> (r: ThreadState)
    ensures
        r == thread_state_named(s@),
        is_ascii_text(s@) ==> r == thread_state_of_upper(ascii_upper(s@)),
{
    let u = to_upper(s);
    let v = chars_of(u.as_str());
    let mut w = String::new();
    let mut i: usize = 0;
    while i < v.len()
        invariant
            i <= v@.len(),
            w@ == dashes_to_underscores(v@.take(i as int)),
        decreases v@.len() - i,
    {
        push_char(&mut w, if v[i] == '-' { '_' } else { v[i] });
        assert(dashes_to_underscores(v@.take(i + 1)) =~= dashes_to_underscores(v@.take(i as int)).push(
            if v@[i as int] == '-' { '_' } else { v@[i as int] },
        ));
        i += 1;
    }
    assert(v@.take(v@.len() as int) =~= v@);
    let t = w.as_str();
    if str_eq(t, "NEW") {
        ThreadState::New
    } else if str_eq(t, "RUNNABLE") {
        ThreadState::Runnable
    } else if str_eq(t, "BLOCKED") {
        ThreadState::Blocked
    } else if str_eq(t, "WAITING") {
        ThreadState::Waiting
    } else if str_eq(t, "TIMED_WAITING") {
        ThreadState::TimedWaiting
    } else if str_eq(t, "TERMINATED") {
        ThreadState::Terminated
    } else {
        ThreadState::Unknown
    }
}

pub open spec fn frame_texts(fs: Seq<RawStackFrame>) -> Seq<Seq<char>> {
    fs.map_values(|f: RawStackFrame| frame_text(f))
}

pub open spec fn texts_of(v: Seq<String>) -> Seq<Seq<char>> {
    v.map_values(|s: String| s@)
}

/// The record of a reported thread: its first 20 frames as text, no CPU
/// time.
pub open spec fn thread_from_raw(t: RawThread, info: ThreadInfo) -> bool {
    &&& info.id == t.thread_id
    &&& info.name@ == t.thread_name@
    &&& info.state == thread_state_named(t.thread_state@)
    &&& info.daemon == t.daemon
    &&& info.cpu_time_ns is None
    &&& info.blocked_count == t.blocked_count
    &&& info.waited_count == t.waited_count
    &&& info.lock_name == t.lock_name
    &&& info.lock_owner_name == t.lock_owner_name
    &&& info.lock_owner_id == t.lock_owner_id
    &&& info.in_native == t.in_native
    &&& info.suspended == t.suspended
    &&& texts_of(info.stack_frames@) == frame_texts(
        if t.stack_trace@.len() > 20 {
            t.stack_trace@.take(20)
        } else {
            t.stack_trace@
        },
    )
}

fn thread_info(t: RawThread) -> (r: ThreadInfo)
    ensures
        thread_from_raw(t, r),
{
    let n = if t.stack_trace.len() > 20 {
        20
    } else {
        t.stack_trace.len()
    };
    let mut frames: Vec<String> = Vec::new();
    let mut i: usize = 0;
    while i < n
        invariant
            n <= t.stack_trace@.len(),
            n == (if t.stack_trace@.len() > 20 { 20 } else { t.stack_trace@.len() }),
            i <= n,
            texts_of(frames@) == frame_texts(t.stack_trace@.take(i as int)),
        decreases n - i,
    {
        let f = t.stack_trace[i].to_string_frame();
        let ghost before = frames@;
        frames.push(f);
        assert(texts_of(frames@) =~= texts_of(before).push(f@));
        assert(t.stack_trace@.take(i + 1) =~= t.stack_trace@.take(i as int).push(t.stack_trace@[i as int]));
        assert(frame_texts(t.stack_trace@.take(i + 1)) =~= frame_texts(t.stack_trace@.take(i as int)).push(
            frame_text(t.stack_trace@[i as int]),
        ));
        i += 1;
    }
    assert(t.stack_trace@.take(n as int) =~= (if t.stack_trace@.len() > 20 {
        t.stack_trace@.take(20)
    } else {
        t.stack_trace@
    }));
    let state = parse_thread_state(t.thread_state.as_str());
    ThreadInfo {
        id: t.thread_id,
        name: t.thread_name,
        state,
        daemon: t.daemon,
        cpu_time_ns: None,
        blocked_count: t.blocked_count,
        waited_count: t.waited_count,
        lock_name: t.lock_name,
        lock_owner_name: t.lock_owner_name,
        lock_owner_id: t.lock_owner_id,
        stack_frames: frames,
        in_native: t.in_native,
        suspended: t.suspended,
    }
}

/// The thread records of a decoded thread dump, in order.
pub fn threads_from_dump(dump: ThreadDumpResponse) -> (r: Vec<ThreadInfo>)
    ensures
        r@.len() == dump.threads@.len(),
        forall|i: int| 0 <= i < r@.len() ==> thread_from_raw(dump.threads@[i], #[trigger] r@[i]),
{
    let ghost ts = dump.threads@;
    let mut out: Vec<ThreadInfo> = Vec::new();
    for t in it: dump.threads.into_iter()
        invariant
            it.seq() == ts,
            out@.len() == it.index(),
            forall|k: int| 0 <= k < out@.len() ==> thread_from_raw(ts[k], #[trigger] out@[k]),
    {
        out.push(thread_info(t));
    }
    out
}

} // verus!
