//! G1 pause events of a unified GC log:
//! `GC(5) Pause Young (Normal) (G1 Evacuation Pause) 45M->12M(512M) 3.456ms`.

use vstd::prelude::*;
use vstd::string::StringExecFns;
use crate::clock::now_millis;
use crate::gclog::{
    GcEventView, GcPhaseView, UnifiedView, event_view, event_views, mib_of, mib_ok, parse_mib,
    parse_unified_line, stamp, unified_line_ok, unified_spec, unified_view,
};
use crate::model::{GcEvent, GcPhase};
use crate::num::{parse_micros, parse_u64_in, parse_unsigned, real_micros};
use crate::scan::{
    digits1, digits1_exec, is_ascii_digit, lemma_runs, lit, lit_exec, not1, not1_exec, num1, num1_exec,
    opt_pos, run_digits, ws1, ws1_exec,
};
use crate::text::{chars_of, lines, lines_of, slice_of, string_of, views};

verus! {

pub type Span = (int, int);

/// `(\d+)M->(\d+)M\((\d+)M\)` at `i`: the three numbers and the end.
pub open spec fn heap3(s: Seq<char>, i: int) -> Option<(Span, Span, Span, int)> {
    match digits1(s, i) {
        None => None,
        Some(a) => match lit(s, a, "M->"@) {
            None => None,
            Some(b) => match digits1(s, b) {
                None => None,
                Some(c) => match lit(s, c, "M("@) {
                    None => None,
                    Some(d) => match digits1(s, d) {
                        None => None,
                        Some(e) => match lit(s, e, "M)"@) {
                            None => None,
                            Some(f) => Some(((i, a), (b, c), (d, e), f)),
                        },
                    },
                },
            },
        },
    }
}

/// `([0-9.]+)ms` at `i`: the number and the end.
pub open spec fn millis(s: Seq<char>, i: int) -> Option<(Span, int)> {
    match num1(s, i) {
        None => None,
        Some(a) => match lit(s, a, "ms"@) {
            None => None,
            Some(b) => Some(((i, a), b)),
        },
    }
}

/// `\(([^)]+)\)` at `i`: the text between the parentheses and the end.
pub open spec fn paren1(s: Seq<char>, i: int) -> Option<(Span, int)> {
    match lit(s, i, "("@) {
        None => None,
        Some(a) => match not1(s, a, ')') {
            None => None,
            Some(b) => match lit(s, b, ")"@) {
                None => None,
                Some(c) => Some(((a, b), c)),
            },
        },
    }
}

pub struct G1Caps {
    pub id: Span,
    pub phase: Span,
    pub cause: Span,
    pub before: Span,
    pub after: Span,
    pub capacity: Span,
    pub pause: Span,
}

/// `\s+(\d+)M->(\d+)M\((\d+)M\)\s+([0-9.]+)ms` at `i`.
pub open spec fn g1_tail(s: Seq<char>, i: int) -> Option<(Span, Span, Span, Span)> {
    match ws1(s, i) {
        None => None,
        Some(a) => match heap3(s, a) {
            None => None,
            Some(h) => match ws1(s, h.3) {
                None => None,
                Some(b) => match millis(s, b) {
                    None => None,
                    Some(m) => Some((h.0, h.1, h.2, m.0)),
                },
            },
        },
    }
}

/// After the phase word ending at `g`:
/// `\s+\(([^)]+)\)(?:\s+\(([^)]+)\))?` and the tail (the optional group
/// taken when the rest then matches).
pub open spec fn g1_after_phase(s: Seq<char>, id: Span, phase: Span) -> Option<G1Caps> {
    match ws1(s, phase.1) {
        None => None,
        Some(h) => match paren1(s, h) {
            None => None,
            Some(p) => {
                let with_second = match ws1(s, p.1) {
                    None => None,
                    Some(n) => match paren1(s, n) {
                        None => None,
                        Some(q) => g1_tail(s, q.1),
                    },
                };
                let tail = match with_second {
                    Some(t) => Some(t),
                    None => g1_tail(s, p.1),
                };
                match tail {
                    None => None,
                    Some(t) => Some(
                        G1Caps {
                            id,
                            phase,
                            cause: p.0,
                            before: t.0,
                            after: t.1,
                            capacity: t.2,
                            pause: t.3,
                        },
                    ),
                }
            },
        }
    }
}

/// The G1 pause grammar
/// `GC\((\d+)\)\s+Pause\s+(Young|Mixed|Full)\s+\(([^)]+)\)(?:\s+\(([^)]+)\))?\s+(\d+)M->(\d+)M\((\d+)M\)\s+([0-9.]+)ms`
/// at position `i`.
pub open spec fn g1_at(s: Seq<char>, i: int) -> Option<G1Caps> {
    match lit(s, i, "GC("@) {
        None => None,
        Some(a) => match digits1(s, a) {
            None => None,
            Some(b) => match lit(s, b, ")"@) {
                None => None,
                Some(c) => match ws1(s, c) {
                    None => None,
                    Some(d) => match lit(s, d, "Pause"@) {
                        None => None,
                        Some(e) => match ws1(s, e) {
                            None => None,
                            Some(f) => {
                                let young = match lit(s, f, "Young"@) {
                                    Some(g) => g1_after_phase(s, (a, b), (f, g)),
                                    None => None,
                                };
                                let mixed = match lit(s, f, "Mixed"@) {
                                    Some(g) => g1_after_phase(s, (a, b), (f, g)),
                                    None => None,
                                };
                                let full = match lit(s, f, "Full"@) {
                                    Some(g) => g1_after_phase(s, (a, b), (f, g)),
                                    None => None,
                                };
                                if young is Some {
                                    young
                                } else if mixed is Some {
                                    mixed
                                } else {
                                    full
                                }
                            },
                        },
                    },
                },
            },
        },
    }
}

/// The leftmost match at or after `i`.
pub open spec fn g1_find(s: Seq<char>, i: int) -> Option<G1Caps>
    decreases s.len() + 1 - i,
{
    if i < 0 || i > s.len() {
        None
    } else {
        match g1_at(s, i) {
            Some(c) => Some(c),
            None => g1_find(s, i + 1),
        }
    }
}

pub open spec fn span_text(s: Seq<char>, p: Span) -> Seq<char> {
    s.subrange(p.0, p.1)
}

pub open spec fn g1_phase(p: Seq<char>) -> GcPhaseView {
    if p == "Young"@ {
        GcPhaseView::YoungPause
    } else if p == "Mixed"@ {
        GcPhaseView::MixedPause
    } else if p == "Full"@ {
        GcPhaseView::FullGc
    } else {
        GcPhaseView::Other(p)
    }
}

/// The event of a G1 pause line; lines without a time take `now`.
pub open spec fn g1_event_spec(line: Seq<char>, now: int) -> Option<GcEventView> {
    match unified_spec(line) {
        None => None,
        Some(u) => {
            let m = u.message;
            match g1_find(m, 0) {
                None => None,
                Some(c) => match parse_unsigned(span_text(m, c.id), u64::MAX as int) {
                    None => None,
                    Some(id) => match mib_of(span_text(m, c.before)) {
                        None => None,
                        Some(b) => match mib_of(span_text(m, c.after)) {
                            None => None,
                            Some(a) => match mib_of(span_text(m, c.capacity)) {
                                None => None,
                                Some(cap) => match real_micros(span_text(m, c.pause)) {
                                    None => None,
                                    Some(p) => Some(
                                        GcEventView {
                                            id,
                                            collector: "G1"@,
                                            cause: span_text(m, c.cause),
                                            phase: g1_phase(span_text(m, c.phase)),
                                            before: b,
                                            after: a,
                                            capacity: cap,
                                            pause: p,
                                            timestamp: stamp(u, now),
                                        },
                                    ),
                                },
                            },
                        },
                    },
                },
            }
        },
    }
}

/// The line can be read without an arithmetic overflow: each megabyte
/// figure that gets multiplied fits in `i64` as bytes.
pub open spec fn g1_line_ok(line: Seq<char>) -> bool {
    &&& unified_line_ok(line)
    &&& match unified_spec(line) {
        None => true,
        Some(u) => match g1_find(u.message, 0) {
            None => true,
            Some(c) => {
                let m = u.message;
                parse_unsigned(span_text(m, c.id), u64::MAX as int) is Some ==> {
                    &&& mib_ok(span_text(m, c.before))
                    &&& (mib_of(span_text(m, c.before)) is Some ==> {
                        &&& mib_ok(span_text(m, c.after))
                        &&& (mib_of(span_text(m, c.after)) is Some ==> mib_ok(span_text(m, c.capacity)))
                    })
                }
            },
        },
    }
}

pub type SpanX = (usize, usize);

pub open spec fn span_of(p: SpanX) -> Span {
    (p.0 as int, p.1 as int)
}

pub fn heap3_exec(v: &[char], i: usize) -> (r: Option<(SpanX, SpanX, SpanX, usize)>)
    requires
        i <= v@.len(),
    ensures
        match r {
            Some(x) => heap3(v@, i as int) == Some((span_of(x.0), span_of(x.1), span_of(x.2), x.3 as int))
                && i <= x.0.0 <= x.0.1 <= x.1.0 <= x.1.1 <= x.2.0 <= x.2.1 <= x.3 <= v@.len(),
            None => heap3(v@, i as int) is None,
        },
{
    let arrow = ['M', '-', '>'];
    let mopen = ['M', '('];
    let mclose = ['M', ')'];
    assert(arrow@ =~= "M->"@) by {
        reveal_strlit("M->");
    }
    assert(mopen@ =~= "M("@) by {
        reveal_strlit("M(");
    }
    assert(mclose@ =~= "M)"@) by {
        reveal_strlit("M)");
    }
    let a = match digits1_exec(v, i) {
        Some(a) => a,
        None => {
            return None;
        },
    };
    let b = match lit_exec(v, a, &arrow) {
        Some(b) => b,
        None => {
            return None;
        },
    };
    let c = match digits1_exec(v, b) {
        Some(c) => c,
        None => {
            return None;
        },
    };
    let d = match lit_exec(v, c, &mopen) {
        Some(d) => d,
        None => {
            return None;
        },
    };
    let e = match digits1_exec(v, d) {
        Some(e) => e,
        None => {
            return None;
        },
    };
    let f = match lit_exec(v, e, &mclose) {
        Some(f) => f,
        None => {
            return None;
        },
    };
    Some(((i, a), (b, c), (d, e), f))
}

pub fn millis_exec(v: &[char], i: usize) -> (r: Option<(SpanX, usize)>)
    requires
        i <= v@.len(),
    ensures
        match r {
            Some(x) => millis(v@, i as int) == Some((span_of(x.0), x.1 as int)) && i <= x.0.0
                <= x.0.1 <= x.1 <= v@.len(),
            None => millis(v@, i as int) is None,
        },
{
    let ms = ['m', 's'];
    assert(ms@ =~= "ms"@) by {
        reveal_strlit("ms");
    }
    let a = match num1_exec(v, i) {
        Some(a) => a,
        None => {
            return None;
        },
    };
    match lit_exec(v, a, &ms) {
        Some(b) => Some(((i, a), b)),
        None => None,
    }
}

pub fn paren1_exec(v: &[char], i: usize) -> (r: Option<(SpanX, usize)>)
    requires
        i <= v@.len(),
    ensures
        match r {
            Some(x) => paren1(v@, i as int) == Some((span_of(x.0), x.1 as int)) && i <= x.0.0
                <= x.0.1 <= x.1 <= v@.len(),
            None => paren1(v@, i as int) is None,
        },
{
    let open_p = ['('];
    let close_p = [')'];
    assert(open_p@ =~= "("@) by {
        reveal_strlit("(");
    }
    assert(close_p@ =~= ")"@) by {
        reveal_strlit(")");
    }
    let a = match lit_exec(v, i, &open_p) {
        Some(a) => a,
        None => {
            return None;
        },
    };
    let b = match not1_exec(v, a, ')') {
        Some(b) => b,
        None => {
            return None;
        },
    };
    match lit_exec(v, b, &close_p) {
        Some(c) => Some(((a, b), c)),
        None => None,
    }
}

fn g1_tail_exec(v: &[char], i: usize) -> (r: Option<(SpanX, SpanX, SpanX, SpanX)>)
    requires
        i <= v@.len(),
    ensures
        match r {
            Some(x) => g1_tail(v@, i as int) == Some((span_of(x.0), span_of(x.1), span_of(x.2), span_of(x.3)))
                && x.0.0 <= x.0.1 <= v@.len() && x.1.0 <= x.1.1 <= v@.len() && x.2.0 <= x.2.1
                <= v@.len() && x.3.0 <= x.3.1 <= v@.len(),
            None => g1_tail(v@, i as int) is None,
        },
{
    let a = match ws1_exec(v, i) {
        Some(a) => a,
        None => {
            return None;
        },
    };
    let h = match heap3_exec(v, a) {
        Some(h) => h,
        None => {
            return None;
        },
    };
    let b = match ws1_exec(v, h.3) {
        Some(b) => b,
        None => {
            return None;
        },
    };
    match millis_exec(v, b) {
        Some(m) => Some((h.0, h.1, h.2, m.0)),
        None => None,
    }
}

pub struct G1CapsX {
    pub id: SpanX,
    pub phase: SpanX,
    pub cause: SpanX,
    pub before: SpanX,
    pub after: SpanX,
    pub capacity: SpanX,
    pub pause: SpanX,
}

pub open spec fn caps_view(c: G1CapsX) -> G1Caps {
    G1Caps {
        id: span_of(c.id),
        phase: span_of(c.phase),
        cause: span_of(c.cause),
        before: span_of(c.before),
        after: span_of(c.after),
        capacity: span_of(c.capacity),
        pause: span_of(c.pause),
    }
}

pub open spec fn caps_in(c: G1CapsX, n: int) -> bool {
    &&& c.id.0 <= c.id.1 <= n
    &&& c.phase.0 <= c.phase.1 <= n
    &&& c.cause.0 <= c.cause.1 <= n
    &&& c.before.0 <= c.before.1 <= n
    &&& c.after.0 <= c.after.1 <= n
    &&& c.capacity.0 <= c.capacity.1 <= n
    &&& c.pause.0 <= c.pause.1 <= n
}

fn g1_after_phase_exec(v: &[char], id: SpanX, phase: SpanX) -> (r: Option<G1CapsX>)
    requires
        id.0 <= id.1 <= v@.len(),
        phase.0 <= phase.1 <= v@.len(),
    ensures
        match r {
            Some(x) => g1_after_phase(v@, span_of(id), span_of(phase)) == Some(caps_view(x))
                && caps_in(x, v@.len() as int),
            None => g1_after_phase(v@, span_of(id), span_of(phase)) is None,
        },
{
    let h = match ws1_exec(v, phase.1) {
        Some(h) => h,
        None => {
            return None;
        },
    };
    let p = match paren1_exec(v, h) {
        Some(p) => p,
        None => {
            return None;
        },
    };
    let with_second = match ws1_exec(v, p.1) {
        None => None,
        Some(n) => match paren1_exec(v, n) {
            None => None,
            Some(q) => g1_tail_exec(v, q.1),
        },
    };
    let tail = match with_second {
        Some(t) => Some(t),
        None => g1_tail_exec(v, p.1),
    };
    match tail {
        None => None,
        Some(t) => Some(
            G1CapsX {
                id,
                phase,
                cause: p.0,
                before: t.0,
                after: t.1,
                capacity: t.2,
                pause: t.3,
            },
        ),
    }
}

fn g1_at_exec(v: &[char], i: usize) -> (r: Option<G1CapsX>)
    requires
        i <= v@.len(),
    ensures
        match r {
            Some(x) => g1_at(v@, i as int) == Some(caps_view(x)) && caps_in(x, v@.len() as int),
            None => g1_at(v@, i as int) is None,
        },
{
    let gc = ['G', 'C', '('];
    let close_p = [')'];
    let pause = ['P', 'a', 'u', 's', 'e'];
    let young = ['Y', 'o', 'u', 'n', 'g'];
    let mixed = ['M', 'i', 'x', 'e', 'd'];
    let full = ['F', 'u', 'l', 'l'];
    assert(gc@ =~= "GC("@) by {
        reveal_strlit("GC(");
    }
    assert(close_p@ =~= ")"@) by {
        reveal_strlit(")");
    }
    assert(pause@ =~= "Pause"@) by {
        reveal_strlit("Pause");
    }
    assert(young@ =~= "Young"@) by {
        reveal_strlit("Young");
    }
    assert(mixed@ =~= "Mixed"@) by {
        reveal_strlit("Mixed");
    }
    assert(full@ =~= "Full"@) by {
        reveal_strlit("Full");
    }
    let a = match lit_exec(v, i, &gc) {
        Some(a) => a,
        None => {
            return None;
        },
    };
    let b = match digits1_exec(v, a) {
        Some(b) => b,
        None => {
            return None;
        },
    };
    let c = match lit_exec(v, b, &close_p) {
        Some(c) => c,
        None => {
            return None;
        },
    };
    let d = match ws1_exec(v, c) {
        Some(d) => d,
        None => {
            return None;
        },
    };
    let e = match lit_exec(v, d, &pause) {
        Some(e) => e,
        None => {
            return None;
        },
    };
    let f = match ws1_exec(v, e) {
        Some(f) => f,
        None => {
            return None;
        },
    };
    let y = match lit_exec(v, f, &young) {
        Some(g) => g1_after_phase_exec(v, (a, b), (f, g)),
        None => None,
    };
    if y.is_some() {
        return y;
    }
    let m = match lit_exec(v, f, &mixed) {
        Some(g) => g1_after_phase_exec(v, (a, b), (f, g)),
        None => None,
    };
    if m.is_some() {
        return m;
    }
    match lit_exec(v, f, &full) {
        Some(g) => g1_after_phase_exec(v, (a, b), (f, g)),
        None => None,
    }
}

fn g1_find_exec(v: &[char]) -> (r: Option<G1CapsX>)
    ensures
        match r {
            Some(x) => g1_find(v@, 0) == Some(caps_view(x)) && caps_in(x, v@.len() as int),
            None => g1_find(v@, 0) is None,
        },
{
    let mut i: usize = 0;
    while i < v.len()
        invariant
            i <= v@.len(),
            g1_find(v@, 0) == g1_find(v@, i as int),
        decreases v@.len() - i,
    {
        match g1_at_exec(v, i) {
            Some(c) => {
                return Some(c);
            },
            None => {},
        }
        i += 1;
    }
    let last = g1_at_exec(v, i);
    assert(g1_find(v@, i + 1) is None);
    last
}

fn g1_phase_exec(p: &[char]) -> (r: GcPhase)
    ensures
        crate::gclog::phase_view(r) == g1_phase(p@),
{
    let s = string_of(p);
    if crate::text::str_eq(s.as_str(), "Young") {
        GcPhase::YoungPause
    } else if crate::text::str_eq(s.as_str(), "Mixed") {
        GcPhase::MixedPause
    } else if crate::text::str_eq(s.as_str(), "Full") {
        GcPhase::FullGc
    } else {
        GcPhase::Other(s)
    }
}

pub open spec fn opt_event(r: Option<GcEvent>) -> Option<GcEventView> {
    match r {
        Some(e) => Some(event_view(e)),
        None => None,
    }
}

/// The G1 pause event of a line, with `now` (ms since the epoch) as the
/// time of a line that has none.
pub fn parse_g1_event_at(line: &str, now: i64) -> (r: Option<GcEvent>)
    requires
        g1_line_ok(line@),
    ensures
        opt_event(r) == g1_event_spec(line@, now as int),
{
    let u = match parse_unified_line(line) {
        Ok(u) => u,
        Err(_) => {
            return None;
        },
    };
    let m = chars_of(u.message.as_str());
    let c = match g1_find_exec(&m) {
        Some(c) => c,
        None => {
            return None;
        },
    };
    let id = match parse_u64_in(&m, c.id.0, c.id.1) {
        Some(x) => x,
        None => {
            return None;
        },
    };
    let before = match parse_mib(&m, c.before.0, c.before.1) {
        Some(x) => x,
        None => {
            return None;
        },
    };
    let after = match parse_mib(&m, c.after.0, c.after.1) {
        Some(x) => x,
        None => {
            return None;
        },
    };
    let capacity = match parse_mib(&m, c.capacity.0, c.capacity.1) {
        Some(x) => x,
        None => {
            return None;
        },
    };
    let pause = match parse_micros(&slice_of(&m, c.pause.0, c.pause.1)) {
        Some(x) => x,
        None => {
            return None;
        },
    };
    let cause = string_of(&slice_of(&m, c.cause.0, c.cause.1));
    let phase = g1_phase_exec(&slice_of(&m, c.phase.0, c.phase.1));
    let timestamp = match u.timestamp {
        Some(t) => t,
        None => now,
    };
    Some(
        GcEvent {
            id,
            collector: String::from_str("G1"),
            cause,
            phase,
            heap_before_bytes: before,
            heap_after_bytes: after,
            heap_capacity_bytes: capacity,
            pause_ms: pause,
            timestamp,
        },
    )
}

/// The G1 pause event of a line; a line without a time is stamped with the
/// wall clock.
pub fn parse_g1_event(line: &str) -> (r: Option<GcEvent>)
    requires
        g1_line_ok(line@),
    ensures
        match r {
            Some(e) => g1_event_spec(line@, e.timestamp as int) == Some(event_view(e)),
            None => forall|t: int| #[trigger] g1_event_spec(line@, t) is None,
        },
{
    let now = now_millis();
    let r = parse_g1_event_at(line, now);
    proof {
        match &r {
            Some(e) => {
                let u = unified_spec(line@).unwrap();
                assert(stamp(u, now as int) == e.timestamp);
                assert(g1_event_spec(line@, e.timestamp as int) == g1_event_spec(line@, now as int));
            },
            None => {},
        }
    }
    r
}

/// The G1 pause events of the lines of a log, in order.
pub open spec fn g1_log_spec(ls: Seq<Seq<char>>, now: int) -> Seq<GcEventView>
    decreases ls.len(),
{
    if ls.len() == 0 {
        Seq::empty()
    } else {
        let prev = g1_log_spec(ls.drop_last(), now);
        match g1_event_spec(ls.last(), now) {
            Some(e) => prev.push(e),
            None => prev,
        }
    }
}

/// Every line of the text can be read without overflow.
pub open spec fn g1_log_ok(text: Seq<char>) -> bool {
    forall|i: int| 0 <= i < lines(text).len() ==> g1_line_ok(#[trigger] lines(text)[i])
}

/// The G1 pause events of a log text, lines without a time taking `now`.
pub fn parse_g1_log_at(text: &str, now: i64) -> (r: Vec<GcEvent>)
    requires
        g1_log_ok(text@),
    ensures
        event_views(r@) == g1_log_spec(lines(text@), now as int),
{
    let chars = chars_of(text);
    let ls = lines_of(&chars);
    let ghost lv = lines(text@);
    let mut out: Vec<GcEvent> = Vec::new();
    let mut i: usize = 0;
    while i < ls.len()
        invariant
            i <= ls@.len(),
            views(ls@) == lv,
            lv == lines(text@),
            g1_log_ok(text@),
            event_views(out@) == g1_log_spec(lv.take(i as int), now as int),
        decreases ls@.len() - i,
    {
        proof {
            assert(lv.take(i + 1).drop_last() =~= lv.take(i as int));
            assert(lv.take(i + 1).last() == lv[i as int]);
            assert(lv[i as int] == ls@[i as int]@);
        }
        let line = string_of(&ls[i]);
        let ghost before = out@;
        match parse_g1_event_at(line.as_str(), now) {
            Some(e) => {
                out.push(e);
                assert(event_views(out@) =~= event_views(before).push(event_view(e)));
            },
            None => {},
        }
        i += 1;
    }
    assert(lv.take(lv.len() as int) =~= lv);
    out
}

/// The G1 pause events of a log text; lines without a time are stamped
/// with the wall clock.
pub fn parse_g1_log(text: &str) -> (r: Vec<GcEvent>)
    requires
        g1_log_ok(text@),
    ensures
        exists|now: int| event_views(r@) == #[trigger] g1_log_spec(lines(text@), now),
{
    let now = now_millis();
    parse_g1_log_at(text, now)
}


/// Whether a line can be read as a G1 event without overflow.
pub fn g1_line_fits(line: &str) -> (r: bool)
    ensures
        r == g1_line_ok(line@),
{
    if !crate::gclog::unified_line_fits(line) {
        return false;
    }
    let u = match parse_unified_line(line) {
        Ok(u) => u,
        Err(_) => {
            return true;
        },
    };
    let m = chars_of(u.message.as_str());
    match g1_find_exec(&m) {
        None => true,
        Some(c) => {
            if parse_u64_in(&m, c.id.0, c.id.1).is_none() {
                return true;
            }
            if !crate::gclog::mib_fits(&m, c.before.0, c.before.1) {
                return false;
            }
            if !crate::gclog::reads_as_i64(&m, c.before.0, c.before.1) {
                return true;
            }
            if !crate::gclog::mib_fits(&m, c.after.0, c.after.1) {
                return false;
            }
            if !crate::gclog::reads_as_i64(&m, c.after.0, c.after.1) {
                return true;
            }
            crate::gclog::mib_fits(&m, c.capacity.0, c.capacity.1)
        },
    }
}

// ─────────────────────────── heap figures ───────────────────────────

/// `t` is a non-empty run of ASCII digits.
pub open spec fn all_digits(t: Seq<char>) -> bool {
    t.len() > 0 && forall|k: int| 0 <= k < t.len() ==> '0' <= #[trigger] t[k] <= '9'
}

/// The text holds `A M->B M(C M)` (no spaces): the digits of `A` at `a`,
/// of `B` right after `M->`, and of `C` right after `M(`, closed by `M)`.
pub open spec fn heap_figures(m: Seq<char>, a: Span, b: Span, c: Span) -> bool {
    &&& 0 <= a.0 < a.1
    &&& b.0 == a.1 + 3
    &&& b.0 < b.1
    &&& c.0 == b.1 + 2
    &&& c.0 < c.1
    &&& c.1 + 2 <= m.len()
    &&& all_digits(m.subrange(a.0, a.1))
    &&& m.subrange(a.1, b.0) == "M->"@
    &&& all_digits(m.subrange(b.0, b.1))
    &&& m.subrange(b.1, c.0) == "M("@
    &&& all_digits(m.subrange(c.0, c.1))
    &&& m.subrange(c.1, c.1 + 2) == "M)"@
}

/// The bytes a megabyte figure stands for, 0 when it does not fit.
pub open spec fn mib_bytes_or_zero(t: Seq<char>) -> int {
    match mib_of(t) {
        Some(b) => b,
        None => 0,
    }
}

proof fn lemma_run_digits_all(s: Seq<char>, i: int)
    requires
        0 <= i <= s.len(),
    ensures
        forall|k: int| i <= k < run_digits(s, i) ==> '0' <= #[trigger] s[k] <= '9',
    decreases s.len() - i,
{
    lemma_runs(s, i, ' ');
    if i < s.len() && is_ascii_digit(s[i]) {
        lemma_run_digits_all(s, i + 1);
    }
}

pub proof fn lemma_digits1_text(s: Seq<char>, i: int)
    requires
        digits1(s, i) is Some,
    ensures
        i < digits1(s, i)->0 <= s.len(),
        all_digits(s.subrange(i, digits1(s, i)->0)),
{
    lemma_runs(s, i, ' ');
    lemma_run_digits_all(s, i);
    let e = digits1(s, i)->0;
    if e == i {
        assert(is_ascii_digit(s[i]));
        assert(run_digits(s, i) == run_digits(s, i + 1));
        lemma_runs(s, i + 1, ' ');
    }
    assert forall|k: int| 0 <= k < e - i implies '0' <= #[trigger] s.subrange(i, e)[k] <= '9' by {
        assert(s.subrange(i, e)[k] == s[i + k]);
    }
}

pub proof fn lemma_heap3_text(s: Seq<char>, i: int)
    ensures
        match heap3(s, i) {
            Some(h) => heap_figures(s, h.0, h.1, h.2),
            None => true,
        },
{
    reveal_strlit("M->");
    reveal_strlit("M(");
    reveal_strlit("M)");
    if heap3(s, i) is Some {
        lemma_digits1_text(s, i);
        let a = digits1(s, i)->0;
        let b = a + 3;
        lemma_digits1_text(s, b);
        let c = digits1(s, b)->0;
        let d = c + 2;
        lemma_digits1_text(s, d);
    }
}

/// What a G1 capture's heap figures say of the text.
pub open spec fn g1_caps_text(m: Seq<char>, c: G1Caps) -> bool {
    heap_figures(m, c.before, c.after, c.capacity)
}

proof fn lemma_g1_tail_text(s: Seq<char>, i: int)
    ensures
        match g1_tail(s, i) {
            Some(t) => heap_figures(s, t.0, t.1, t.2),
            None => true,
        },
{
    match ws1(s, i) {
        None => {},
        Some(a) => {
            lemma_heap3_text(s, a);
        },
    }
}

proof fn lemma_g1_after_phase_text(s: Seq<char>, id: Span, phase: Span)
    ensures
        g1_after_phase(s, id, phase) matches Some(c) ==> g1_caps_text(s, c),
{
    match ws1(s, phase.1) {
        None => {},
        Some(h) => match paren1(s, h) {
            None => {},
            Some(p) => {
                lemma_g1_tail_text(s, p.1);
                match ws1(s, p.1) {
                    None => {},
                    Some(n) => match paren1(s, n) {
                        None => {},
                        Some(q) => {
                            lemma_g1_tail_text(s, q.1);
                        },
                    },
                }
            },
        },
    }
}

proof fn lemma_g1_find_text(s: Seq<char>, i: int)
    ensures
        g1_find(s, i) matches Some(c) ==> g1_caps_text(s, c),
    decreases s.len() + 1 - i,
{
    if 0 <= i <= s.len() {
        match lit(s, i, "GC("@) {
            None => {},
            Some(a) => match digits1(s, a) {
                None => {},
                Some(b) => match lit(s, b, ")"@) {
                    None => {},
                    Some(c) => match ws1(s, c) {
                        None => {},
                        Some(d) => match lit(s, d, "Pause"@) {
                            None => {},
                            Some(e) => match ws1(s, e) {
                                None => {},
                                Some(f) => {
                                    match lit(s, f, "Young"@) {
                                        Some(g) => lemma_g1_after_phase_text(s, (a, b), (f, g)),
                                        None => {},
                                    }
                                    match lit(s, f, "Mixed"@) {
                                        Some(g) => lemma_g1_after_phase_text(s, (a, b), (f, g)),
                                        None => {},
                                    }
                                    match lit(s, f, "Full"@) {
                                        Some(g) => lemma_g1_after_phase_text(s, (a, b), (f, g)),
                                        None => {},
                                    }
                                },
                            },
                        },
                    },
                },
            },
        }
        lemma_g1_find_text(s, i + 1);
    }
}

/// The heap figures of a G1 event are read off its message in order: it
/// holds `A M->B M(C M)` and the event's heap before, after and capacity
/// are `A`, `B` and `C` megabytes (the number after `->` is what remains,
/// the one in parentheses the capacity).
pub proof fn lemma_g1_heap_figures(line: Seq<char>, now: int)
    ensures
        match g1_event_spec(line, now) {
            None => true,
            Some(e) => {
                let m = unified_spec(line)->0.message;
                exists|a: Span, b: Span, c: Span|
                    {
                        &&& #[trigger] heap_figures(m, a, b, c)
                        &&& e.before == mib_bytes_or_zero(m.subrange(a.0, a.1))
                        &&& e.after == mib_bytes_or_zero(m.subrange(b.0, b.1))
                        &&& e.capacity == mib_bytes_or_zero(m.subrange(c.0, c.1))
                    }
            },
        },
{
    match unified_spec(line) {
        None => {},
        Some(u) => {
            lemma_g1_find_text(u.message, 0);
            match g1_find(u.message, 0) {
                Some(c) => {
                    assert(heap_figures(u.message, c.before, c.after, c.capacity));
                },
                None => {},
            }
        },
    }
}

} // verus!
