//! ZGC events of a unified GC log: collection summaries
//! (`GC(0) Garbage Collection (Allocation Rate) 3304M(20%)->384M(2%)`,
//! `GC(0) Young Garbage Collection (...) 512M->128M` for generational ZGC)
//! and pauses (`GC(0) Pause Mark Start 0.012ms`).

use vstd::prelude::*;
use vstd::string::StringExecFns;
use crate::clock::now_millis;
use crate::g1::{
    Span, SpanX, all_digits, lemma_digits1_text, mib_bytes_or_zero, millis, millis_exec, opt_event,
    paren1, paren1_exec, span_of, span_text,
};
use crate::gclog::{
    GcEventView, GcPhaseView, event_view, event_views, mib_of, mib_ok, parse_mib,
    parse_unified_line, stamp, unified_line_ok, unified_spec,
};
use crate::model::{GcEvent, GcPhase};
use crate::num::{parse_micros, parse_u64_in, parse_unsigned, real_micros};
use crate::scan::{digits1, digits1_exec, lit, lit_exec, ws1, ws1_exec};
use crate::text::{chars_of, lines, lines_of, slice_of, str_eq, string_of, views};

verus! {

pub struct CollCaps {
    pub id: Span,
    pub generation: Option<Span>,
    pub cause: Span,
    pub before: Span,
    pub after: Span,
}

/// `->(\d+)M` at `i`: the number.
pub open spec fn arrow_mb(s: Seq<char>, i: int) -> Option<Span> {
    match lit(s, i, "->"@) {
        None => None,
        Some(a) => match digits1(s, a) {
            None => None,
            Some(b) => match lit(s, b, "M"@) {
                None => None,
                Some(_) => Some((a, b)),
            },
        },
    }
}

/// `Garbage Collection\s+\(([^)]+)\)\s+(\d+)M(?:\(\d+%\))?->(\d+)M` at `i`.
pub open spec fn coll_rest(s: Seq<char>, i: int, id: Span, generation: Option<Span>) -> Option<CollCaps> {
    match lit(s, i, "Garbage Collection"@) {
        None => None,
        Some(e) => match ws1(s, e) {
            None => None,
            Some(f) => match paren1(s, f) {
                None => None,
                Some(p) => match ws1(s, p.1) {
                    None => None,
                    Some(h) => match digits1(s, h) {
                        None => None,
                        Some(k) => match lit(s, k, "M"@) {
                            None => None,
                            Some(m1) => {
                                let with_pct = match lit(s, m1, "("@) {
                                    None => None,
                                    Some(q1) => match digits1(s, q1) {
                                        None => None,
                                        Some(q2) => match lit(s, q2, "%)"@) {
                                            None => None,
                                            Some(q3) => arrow_mb(s, q3),
                                        },
                                    },
                                };
                                let after = match with_pct {
                                    Some(a) => Some(a),
                                    None => arrow_mb(s, m1),
                                };
                                match after {
                                    None => None,
                                    Some(a) => Some(
                                        CollCaps {
                                            id,
                                            generation,
                                            cause: p.0,
                                            before: (h, k),
                                            after: a,
                                        },
                                    ),
                                }
                            },
                        },
                    },
                },
            },
        },
    }
}

/// The collection grammar
/// `GC\((\d+)\)\s+(?:(Young|Old)\s+)?Garbage Collection\s+\(([^)]+)\)\s+(\d+)M(?:\(\d+%\))?->(\d+)M`
/// at position `i`.
pub open spec fn coll_at(s: Seq<char>, i: int) -> Option<CollCaps> {
    match lit(s, i, "GC("@) {
        None => None,
        Some(a) => match digits1(s, a) {
            None => None,
            Some(b) => match lit(s, b, ")"@) {
                None => None,
                Some(c) => match ws1(s, c) {
                    None => None,
                    Some(d) => {
                        let young = match lit(s, d, "Young"@) {
                            None => None,
                            Some(y) => match ws1(s, y) {
                                None => None,
                                Some(y2) => coll_rest(s, y2, (a, b), Some((d, y))),
                            },
                        };
                        let old = match lit(s, d, "Old"@) {
                            None => None,
                            Some(o) => match ws1(s, o) {
                                None => None,
                                Some(o2) => coll_rest(s, o2, (a, b), Some((d, o))),
                            },
                        };
                        if young is Some {
                            young
                        } else if old is Some {
                            old
                        } else {
                            coll_rest(s, d, (a, b), None)
                        }
                    },
                },
            },
        },
    }
}

pub open spec fn coll_find(s: Seq<char>, i: int) -> Option<CollCaps>
    decreases s.len() + 1 - i,
{
    if i < 0 || i > s.len() {
        None
    } else {
        match coll_at(s, i) {
            Some(c) => Some(c),
            None => coll_find(s, i + 1),
        }
    }
}

pub struct ZPauseCaps {
    pub id: Span,
    pub phase: Span,
    pub pause: Span,
}

/// `\s+([0-9.]+)ms` after the phase words.
pub open spec fn zpause_rest(s: Seq<char>, id: Span, phase: Span) -> Option<ZPauseCaps> {
    match ws1(s, phase.1) {
        None => None,
        Some(w) => match millis(s, w) {
            None => None,
            Some(m) => Some(ZPauseCaps { id, phase, pause: m.0 }),
        },
    }
}

/// The pause grammar
/// `GC\((\d+)\)\s+Pause\s+(Mark Start|Mark End|Relocate Start)\s+([0-9.]+)ms`
/// at position `i`.
pub open spec fn zpause_at(s: Seq<char>, i: int) -> Option<ZPauseCaps> {
    match lit(s, i, "GC("@) {
        None => None,
        Some(a) => match digits1(s, a) {
            None => None,
            Some(b) => match lit(s, b, ")"@) {
                None => None,
                Some(c) => match ws1(s, c) {
                    None => None,
                    Some(d) => match lit(s, d, "Pause"@) {
                        None => None,
                        Some(e) => match ws1(s, e) {
                            None => None,
                            Some(f) => {
                                let ms = match lit(s, f, "Mark Start"@) {
                                    None => None,
                                    Some(g) => zpause_rest(s, (a, b), (f, g)),
                                };
                                let me = match lit(s, f, "Mark End"@) {
                                    None => None,
                                    Some(g) => zpause_rest(s, (a, b), (f, g)),
                                };
                                let rs = match lit(s, f, "Relocate Start"@) {
                                    None => None,
                                    Some(g) => zpause_rest(s, (a, b), (f, g)),
                                };
                                if ms is Some {
                                    ms
                                } else if me is Some {
                                    me
                                } else {
                                    rs
                                }
                            },
                        },
                    },
                },
            },
        },
    }
}

pub open spec fn zpause_find(s: Seq<char>, i: int) -> Option<ZPauseCaps>
    decreases s.len() + 1 - i,
{
    if i < 0 || i > s.len() {
        None
    } else {
        match zpause_at(s, i) {
            Some(c) => Some(c),
            None => zpause_find(s, i + 1),
        }
    }
}

pub open spec fn gen_text(s: Seq<char>, g: Option<Span>) -> Seq<char> {
    match g {
        Some(p) => span_text(s, p),
        None => Seq::empty(),
    }
}

pub open spec fn zgc_event_spec(line: Seq<char>, now: int) -> Option<GcEventView> {
    match unified_spec(line) {
        None => None,
        Some(u) => {
            let m = u.message;
            match coll_find(m, 0) {
                Some(c) => match parse_unsigned(span_text(m, c.id), u64::MAX as int) {
                    None => None,
                    Some(id) => match mib_of(span_text(m, c.before)) {
                        None => None,
                        Some(b) => match mib_of(span_text(m, c.after)) {
                            None => None,
                            Some(a) => {
                                let g = gen_text(m, c.generation);
                                Some(
                                    GcEventView {
                                        id,
                                        collector: if g.len() > 0 {
                                            "ZGC"@ + " "@ + g
                                        } else {
                                            "ZGC"@
                                        },
                                        cause: span_text(m, c.cause),
                                        phase: if g == "Young"@ {
                                            GcPhaseView::YoungPause
                                        } else if g == "Old"@ {
                                            GcPhaseView::FullGc
                                        } else {
                                            GcPhaseView::ConcurrentRelocate
                                        },
                                        before: b,
                                        after: a,
                                        capacity: 0,
                                        pause: 0,
                                        timestamp: stamp(u, now),
                                    },
                                )
                            },
                        },
                    },
                },
                None => match zpause_find(m, 0) {
                    None => None,
                    Some(c) => match parse_unsigned(span_text(m, c.id), u64::MAX as int) {
                        None => None,
                        Some(id) => match real_micros(span_text(m, c.pause)) {
                            None => None,
                            Some(p) => {
                                let ph = span_text(m, c.phase);
                                Some(
                                    GcEventView {
                                        id,
                                        collector: "ZGC"@,
                                        cause: ph,
                                        phase: if ph == "Mark Start"@ {
                                            GcPhaseView::InitMark
                                        } else if ph == "Mark End"@ {
                                            GcPhaseView::FinalMark
                                        } else if ph == "Relocate Start"@ {
                                            GcPhaseView::ConcurrentRelocate
                                        } else {
                                            GcPhaseView::Other(ph)
                                        },
                                        before: 0,
                                        after: 0,
                                        capacity: 0,
                                        pause: p,
                                        timestamp: stamp(u, now),
                                    },
                                )
                            },
                        },
                    },
                },
            }
        },
    }
}

pub open spec fn zgc_line_ok(line: Seq<char>) -> bool {
    &&& unified_line_ok(line)
    &&& match unified_spec(line) {
        None => true,
        Some(u) => match coll_find(u.message, 0) {
            None => true,
            Some(c) => {
                let m = u.message;
                parse_unsigned(span_text(m, c.id), u64::MAX as int) is Some ==> {
                    &&& mib_ok(span_text(m, c.before))
                    &&& (mib_of(span_text(m, c.before)) is Some ==> mib_ok(span_text(m, c.after)))
                }
            },
        },
    }
}

struct CollCapsX {
    id: SpanX,
    generation: Option<SpanX>,
    cause: SpanX,
    before: SpanX,
    after: SpanX,
}

spec fn coll_view(c: CollCapsX) -> CollCaps {
    CollCaps {
        id: span_of(c.id),
        generation: match c.generation {
            Some(g) => Some(span_of(g)),
            None => None,
        },
        cause: span_of(c.cause),
        before: span_of(c.before),
        after: span_of(c.after),
    }
}

spec fn coll_in(c: CollCapsX, n: int) -> bool {
    &&& c.id.0 <= c.id.1 <= n
    &&& (c.generation matches Some(g) ==> g.0 <= g.1 <= n)
    &&& c.cause.0 <= c.cause.1 <= n
    &&& c.before.0 <= c.before.1 <= n
    &&& c.after.0 <= c.after.1 <= n
}

fn arrow_mb_exec(v: &[char], i: usize) -> (r: Option<SpanX>)
    requires
        i <= v@.len(),
    ensures
        match r {
            Some(x) => arrow_mb(v@, i as int) == Some(span_of(x)) && x.0 <= x.1 <= v@.len(),
            None => arrow_mb(v@, i as int) is None,
        },
{
    let arrow = ['-', '>'];
    let mb = ['M'];
    assert(arrow@ =~= "->"@) by {
        reveal_strlit("->");
    }
    assert(mb@ =~= "M"@) by {
        reveal_strlit("M");
    }
    let a = match lit_exec(v, i, &arrow) {
        Some(a) => a,
        None => {
            return None;
        },
    };
    let b = match digits1_exec(v, a) {
        Some(b) => b,
        None => {
            return None;
        },
    };
    match lit_exec(v, b, &mb) {
        Some(_) => Some((a, b)),
        None => None,
    }
}

fn coll_rest_exec(v: &[char], i: usize, id: SpanX, generation: Option<SpanX>) -> (r: Option<CollCapsX>)
    requires
        i <= v@.len(),
        id.0 <= id.1 <= v@.len(),
        generation matches Some(g) ==> g.0 <= g.1 <= v@.len(),
    ensures
        match r {
            Some(x) => coll_rest(
                v@,
                i as int,
                span_of(id),
                match generation {
                    Some(g) => Some(span_of(g)),
                    None => None,
                },
            ) == Some(coll_view(x)) && coll_in(x, v@.len() as int),
            None => coll_rest(
                v@,
                i as int,
                span_of(id),
                match generation {
                    Some(g) => Some(span_of(g)),
                    None => None,
                },
            ) is None,
        },
{
    let gc = ['G', 'a', 'r', 'b', 'a', 'g', 'e', ' ', 'C', 'o', 'l', 'l', 'e', 'c', 't', 'i', 'o', 'n'];
    let mb = ['M'];
    let open_p = ['('];
    let pct = ['%', ')'];
    assert(gc@ =~= "Garbage Collection"@) by {
        reveal_strlit("Garbage Collection");
    }
    assert(mb@ =~= "M"@) by {
        reveal_strlit("M");
    }
    assert(open_p@ =~= "("@) by {
        reveal_strlit("(");
    }
    assert(pct@ =~= "%)"@) by {
        reveal_strlit("%)");
    }
    let e = match lit_exec(v, i, &gc) {
        Some(e) => e,
        None => {
            return None;
        },
    };
    let f = match ws1_exec(v, e) {
        Some(f) => f,
        None => {
            return None;
        },
    };
    let p = match paren1_exec(v, f) {
        Some(p) => p,
        None => {
            return None;
        },
    };
    let h = match ws1_exec(v, p.1) {
        Some(h) => h,
        None => {
            return None;
        },
    };
    let k = match digits1_exec(v, h) {
        Some(k) => k,
        None => {
            return None;
        },
    };
    let m1 = match lit_exec(v, k, &mb) {
        Some(m1) => m1,
        None => {
            return None;
        },
    };
    let with_pct = match lit_exec(v, m1, &open_p) {
        None => None,
        Some(q1) => match digits1_exec(v, q1) {
            None => None,
            Some(q2) => match lit_exec(v, q2, &pct) {
                None => None,
                Some(q3) => arrow_mb_exec(v, q3),
            },
        },
    };
    let after = match with_pct {
        Some(a) => Some(a),
        None => arrow_mb_exec(v, m1),
    };
    match after {
        None => None,
        Some(a) => Some(CollCapsX { id, generation, cause: p.0, before: (h, k), after: a }),
    }
}

#[verifier::spinoff_prover]
#[verifier::rlimit(40)]
fn coll_at_exec(v: &[char], i: usize) -> (r: Option<CollCapsX>)
    requires
        i <= v@.len(),
    ensures
        match r {
            Some(x) => coll_at(v@, i as int) == Some(coll_view(x)) && coll_in(x, v@.len() as int),
            None => coll_at(v@, i as int) is None,
        },
{
    let gc = ['G', 'C', '('];
    let close_p = [')'];
    let young = ['Y', 'o', 'u', 'n', 'g'];
    let old = ['O', 'l', 'd'];
    assert(gc@ =~= "GC("@) by {
        reveal_strlit("GC(");
    }
    assert(close_p@ =~= ")"@) by {
        reveal_strlit(")");
    }
    assert(young@ =~= "Young"@) by {
        reveal_strlit("Young");
    }
    assert(old@ =~= "Old"@) by {
        reveal_strlit("Old");
    }
    let a = match lit_exec(v, i, &gc) {
        Some(a) => a,
        None => {
            return None;
        },
    };
    let b = match digits1_exec(v, a) {
        Some(b) => b,
        None => {
            return None;
        },
    };
    let c = match lit_exec(v, b, &close_p) {
        Some(c) => c,
        None => {
            return None;
        },
    };
    let d = match ws1_exec(v, c) {
        Some(d) => d,
        None => {
            return None;
        },
    };
    let y = match lit_exec(v, d, &young) {
        None => None,
        Some(y) => match ws1_exec(v, y) {
            None => None,
            Some(y2) => coll_rest_exec(v, y2, (a, b), Some((d, y))),
        },
    };
    if y.is_some() {
        return y;
    }
    let o = match lit_exec(v, d, &old) {
        None => None,
        Some(o) => match ws1_exec(v, o) {
            None => None,
            Some(o2) => coll_rest_exec(v, o2, (a, b), Some((d, o))),
        },
    };
    if o.is_some() {
        return o;
    }
    coll_rest_exec(v, d, (a, b), None)
}

fn coll_find_exec(v: &[char]) -> (r: Option<CollCapsX>)
    ensures
        match r {
            Some(x) => coll_find(v@, 0) == Some(coll_view(x)) && coll_in(x, v@.len() as int),
            None => coll_find(v@, 0) is None,
        },
{
    let mut i: usize = 0;
    while i < v.len()
        invariant
            i <= v@.len(),
            coll_find(v@, 0) == coll_find(v@, i as int),
        decreases v@.len() - i,
    {
        match coll_at_exec(v, i) {
            Some(c) => {
                return Some(c);
            },
            None => {},
        }
        i += 1;
    }
    let last = coll_at_exec(v, i);
    assert(coll_find(v@, i + 1) is None);
    last
}

struct ZPauseCapsX {
    id: SpanX,
    phase: SpanX,
    pause: SpanX,
}

spec fn zpause_view(c: ZPauseCapsX) -> ZPauseCaps {
    ZPauseCaps { id: span_of(c.id), phase: span_of(c.phase), pause: span_of(c.pause) }
}

spec fn zpause_in(c: ZPauseCapsX, n: int) -> bool {
    c.id.0 <= c.id.1 <= n && c.phase.0 <= c.phase.1 <= n && c.pause.0 <= c.pause.1 <= n
}

fn zpause_rest_exec(v: &[char], id: SpanX, phase: SpanX) -> (r: Option<ZPauseCapsX>)
    requires
        id.0 <= id.1 <= v@.len(),
        phase.0 <= phase.1 <= v@.len(),
    ensures
        match r {
            Some(x) => zpause_rest(v@, span_of(id), span_of(phase)) == Some(zpause_view(x))
                && zpause_in(x, v@.len() as int),
            None => zpause_rest(v@, span_of(id), span_of(phase)) is None,
        },
{
    match ws1_exec(v, phase.1) {
        None => None,
        Some(w) => match millis_exec(v, w) {
            None => None,
            Some(m) => Some(ZPauseCapsX { id, phase, pause: m.0 }),
        },
    }
}

fn zpause_at_exec(v: &[char], i: usize) -> (r: Option<ZPauseCapsX>)
    requires
        i <= v@.len(),
    ensures
        match r {
            Some(x) => zpause_at(v@, i as int) == Some(zpause_view(x)) && zpause_in(x, v@.len() as int),
            None => zpause_at(v@, i as int) is None,
        },
{
    let gc = ['G', 'C', '('];
    let close_p = [')'];
    let pause = ['P', 'a', 'u', 's', 'e'];
    let mark_start = ['M', 'a', 'r', 'k', ' ', 'S', 't', 'a', 'r', 't'];
    let mark_end = ['M', 'a', 'r', 'k', ' ', 'E', 'n', 'd'];
    let reloc = ['R', 'e', 'l', 'o', 'c', 'a', 't', 'e', ' ', 'S', 't', 'a', 'r', 't'];
    assert(gc@ =~= "GC("@) by {
        reveal_strlit("GC(");
    }
    assert(close_p@ =~= ")"@) by {
        reveal_strlit(")");
    }
    assert(pause@ =~= "Pause"@) by {
        reveal_strlit("Pause");
    }
    assert(mark_start@ =~= "Mark Start"@) by {
        reveal_strlit("Mark Start");
    }
    assert(mark_end@ =~= "Mark End"@) by {
        reveal_strlit("Mark End");
    }
    assert(reloc@ =~= "Relocate Start"@) by {
        reveal_strlit("Relocate Start");
    }
    let a = match lit_exec(v, i, &gc) {
        Some(a) => a,
        None => {
            return None;
        },
    };
    let b = match digits1_exec(v, a) {
        Some(b) => b,
        None => {
            return None;
        },
    };
    let c = match lit_exec(v, b, &close_p) {
        Some(c) => c,
        None => {
            return None;
        },
    };
    let d = match ws1_exec(v, c) {
        Some(d) => d,
        None => {
            return None;
        },
    };
    let e = match lit_exec(v, d, &pause) {
        Some(e) => e,
        None => {
            return None;
        },
    };
    let f = match ws1_exec(v, e) {
        Some(f) => f,
        None => {
            return None;
        },
    };
    let ms = match lit_exec(v, f, &mark_start) {
        None => None,
        Some(g) => zpause_rest_exec(v, (a, b), (f, g)),
    };
    if ms.is_some() {
        return ms;
    }
    let me = match lit_exec(v, f, &mark_end) {
        None => None,
        Some(g) => zpause_rest_exec(v, (a, b), (f, g)),
    };
    if me.is_some() {
        return me;
    }
    match lit_exec(v, f, &reloc) {
        None => None,
        Some(g) => zpause_rest_exec(v, (a, b), (f, g)),
    }
}

fn zpause_find_exec(v: &[char]) -> (r: Option<ZPauseCapsX>)
    ensures
        match r {
            Some(x) => zpause_find(v@, 0) == Some(zpause_view(x)) && zpause_in(x, v@.len() as int),
            None => zpause_find(v@, 0) is None,
        },
{
    let mut i: usize = 0;
    while i < v.len()
        invariant
            i <= v@.len(),
            zpause_find(v@, 0) == zpause_find(v@, i as int),
        decreases v@.len() - i,
    {
        match zpause_at_exec(v, i) {
            Some(c) => {
                return Some(c);
            },
            None => {},
        }
        i += 1;
    }
    let last = zpause_at_exec(v, i);
    assert(zpause_find(v@, i + 1) is None);
    last
}

/// The ZGC event of a line, with `now` (ms since the epoch) as the time of
/// a line that has none.
pub fn parse_zgc_event_at(line: &str, now: i64) -> (r: Option<GcEvent>)
    requires
        zgc_line_ok(line@),
    ensures
        opt_event(r) == zgc_event_spec(line@, now as int),
{
    let u = match parse_unified_line(line) {
        Ok(u) => u,
        Err(_) => {
            return None;
        },
    };
    let m = chars_of(u.message.as_str());
    let timestamp = match u.timestamp {
        Some(t) => t,
        None => now,
    };
    match coll_find_exec(&m) {
        Some(c) => {
            let id = match parse_u64_in(&m, c.id.0, c.id.1) {
                Some(x) => x,
                None => {
                    return None;
                },
            };
            let g = match c.generation {
                Some(g) => string_of(&slice_of(&m, g.0, g.1)),
                None => String::new(),
            };
            let cause = string_of(&slice_of(&m, c.cause.0, c.cause.1));
            let before = match parse_mib(&m, c.before.0, c.before.1) {
                Some(x) => x,
                None => {
                    return None;
                },
            };
            let after = match parse_mib(&m, c.after.0, c.after.1) {
                Some(x) => x,
                None => {
                    return None;
                },
            };
            let phase = if str_eq(g.as_str(), "Young") {
                GcPhase::YoungPause
            } else if str_eq(g.as_str(), "Old") {
                GcPhase::FullGc
            } else {
                GcPhase::ConcurrentRelocate
            };
            let mut collector = String::from_str("ZGC");
            if chars_of(g.as_str()).len() > 0 {
                collector.append(" ");
                collector.append(g.as_str());
            }
            Some(
                GcEvent {
                    id,
                    collector,
                    cause,
                    phase,
                    heap_before_bytes: before,
                    heap_after_bytes: after,
                    heap_capacity_bytes: 0,
                    pause_ms: 0,
                    timestamp,
                },
            )
        },
        None => match zpause_find_exec(&m) {
            None => None,
            Some(c) => {
                let id = match parse_u64_in(&m, c.id.0, c.id.1) {
                    Some(x) => x,
                    None => {
                        return None;
                    },
                };
                let pause = match parse_micros(&slice_of(&m, c.pause.0, c.pause.1)) {
                    Some(x) => x,
                    None => {
                        return None;
                    },
                };
                let ph = string_of(&slice_of(&m, c.phase.0, c.phase.1));
                let phase = if str_eq(ph.as_str(), "Mark Start") {
                    GcPhase::InitMark
                } else if str_eq(ph.as_str(), "Mark End") {
                    GcPhase::FinalMark
                } else if str_eq(ph.as_str(), "Relocate Start") {
                    GcPhase::ConcurrentRelocate
                } else {
                    GcPhase::Other(ph.clone())
                };
                Some(
                    GcEvent {
                        id,
                        collector: String::from_str("ZGC"),
                        cause: ph,
                        phase,
                        heap_before_bytes: 0,
                        heap_after_bytes: 0,
                        heap_capacity_bytes: 0,
                        pause_ms: pause,
                        timestamp,
                    },
                )
            },
        },
    }
}

/// The ZGC event of a line; a line without a time is stamped with the
/// wall clock.
pub fn parse_zgc_event(line: &str) -> (r: Option<GcEvent>)
    requires
        zgc_line_ok(line@),
    ensures
        match r {
            Some(e) => zgc_event_spec(line@, e.timestamp as int) == Some(event_view(e)),
            None => forall|t: int| #[trigger] zgc_event_spec(line@, t) is None,
        },
{
    let now = now_millis();
    let r = parse_zgc_event_at(line, now);
    proof {
        match &r {
            Some(e) => {
                let u = unified_spec(line@).unwrap();
                assert(stamp(u, now as int) == e.timestamp);
                assert(zgc_event_spec(line@, e.timestamp as int) == zgc_event_spec(line@, now as int));
            },
            None => {},
        }
    }
    r
}

pub open spec fn zgc_log_spec(ls: Seq<Seq<char>>, now: int) -> Seq<GcEventView>
    decreases ls.len(),
{
    if ls.len() == 0 {
        Seq::empty()
    } else {
        let prev = zgc_log_spec(ls.drop_last(), now);
        match zgc_event_spec(ls.last(), now) {
            Some(e) => prev.push(e),
            None => prev,
        }
    }
}

pub open spec fn zgc_log_ok(text: Seq<char>) -> bool {
    forall|i: int| 0 <= i < lines(text).len() ==> zgc_line_ok(#[trigger] lines(text)[i])
}

/// The ZGC events of a log text, lines without a time taking `now`.
pub fn parse_zgc_log_at(text: &str, now: i64) -> (r: Vec<GcEvent>)
    requires
        zgc_log_ok(text@),
    ensures
        event_views(r@) == zgc_log_spec(lines(text@), now as int),
{
    let chars = chars_of(text);
    let ls = lines_of(&chars);
    let ghost lv = lines(text@);
    let mut out: Vec<GcEvent> = Vec::new();
    let mut i: usize = 0;
    while i < ls.len()
        invariant
            i <= ls@.len(),
            views(ls@) == lv,
            lv == lines(text@),
            zgc_log_ok(text@),
            event_views(out@) == zgc_log_spec(lv.take(i as int), now as int),
        decreases ls@.len() - i,
    {
        proof {
            assert(lv.take(i + 1).drop_last() =~= lv.take(i as int));
            assert(lv.take(i + 1).last() == lv[i as int]);
            assert(lv[i as int] == ls@[i as int]@);
        }
        let line = string_of(&ls[i]);
        let ghost before = out@;
        match parse_zgc_event_at(line.as_str(), now) {
            Some(e) => {
                out.push(e);
                assert(event_views(out@) =~= event_views(before).push(event_view(e)));
            },
            None => {},
        }
        i += 1;
    }
    assert(lv.take(lv.len() as int) =~= lv);
    out
}

/// The ZGC events of a log text; lines without a time are stamped with the
/// wall clock.
pub fn parse_zgc_log(text: &str) -> (r: Vec<GcEvent>)
    requires
        zgc_log_ok(text@),
    ensures
        exists|now: int| event_views(r@) == #[trigger] zgc_log_spec(lines(text@), now),
{
    let now = now_millis();
    parse_zgc_log_at(text, now)
}


/// Whether a line can be read as a ZGC event without overflow.
pub fn zgc_line_fits(line: &str) -> (r: bool)
    ensures
        r == zgc_line_ok(line@),
{
    if !crate::gclog::unified_line_fits(line) {
        return false;
    }
    let u = match parse_unified_line(line) {
        Ok(u) => u,
        Err(_) => {
            return true;
        },
    };
    let m = chars_of(u.message.as_str());
    match coll_find_exec(&m) {
        None => true,
        Some(c) => {
            if parse_u64_in(&m, c.id.0, c.id.1).is_none() {
                return true;
            }
            if !crate::gclog::mib_fits(&m, c.before.0, c.before.1) {
                return false;
            }
            if !crate::gclog::reads_as_i64(&m, c.before.0, c.before.1) {
                return true;
            }
            crate::gclog::mib_fits(&m, c.after.0, c.after.1)
        },
    }
}

// ─────────────────────────── heap figures ───────────────────────────

/// The text holds `B M->A M` or `B M(P%)->A M` (no spaces): the digits of
/// the heap before at `b` and of the heap after at `a`, right after `->`.
pub open spec fn zgc_figures(m: Seq<char>, b: Span, a: Span) -> bool {
    &&& 0 <= b.0 < b.1
    &&& b.1 + 3 <= a.0 < a.1 < m.len()
    &&& all_digits(m.subrange(b.0, b.1))
    &&& all_digits(m.subrange(a.0, a.1))
    &&& m[b.1] == 'M'
    &&& m.subrange(a.0 - 2, a.0) == "->"@
    &&& m[a.1] == 'M'
    &&& (a.0 == b.1 + 3 || m.subrange(b.1, b.1 + 2) == "M("@ && all_digits(m.subrange(b.1 + 2, a.0 - 4))
        && m.subrange(a.0 - 4, a.0 - 2) == "%)"@)
}

proof fn lemma_arrow_mb_text(s: Seq<char>, i: int)
    ensures
        match arrow_mb(s, i) {
            Some(a) => {
                &&& a.0 == i + 2
                &&& 0 <= i
                &&& a.0 < a.1 < s.len()
                &&& s.subrange(i, i + 2) == "->"@
                &&& all_digits(s.subrange(a.0, a.1))
                &&& s[a.1] == 'M'
            },
            None => true,
        },
{
    reveal_strlit("->");
    reveal_strlit("M");
    if arrow_mb(s, i) is Some {
        lemma_digits1_text(s, i + 2);
        let b = digits1(s, i + 2)->0;
        assert(s.subrange(b, b + 1)[0] == s[b]);
    }
}

proof fn lemma_coll_rest_text(s: Seq<char>, i: int, id: Span, generation: Option<Span>)
    ensures
        coll_rest(s, i, id, generation) matches Some(c) ==> zgc_figures(s, c.before, c.after),
{
    reveal_strlit("M");
    reveal_strlit("(");
    reveal_strlit("%)");
    reveal_strlit("->");
    reveal_strlit("M(");
    match lit(s, i, "Garbage Collection"@) {
        None => {},
        Some(e) => match ws1(s, e) {
            None => {},
            Some(f) => match paren1(s, f) {
                None => {},
                Some(p) => match ws1(s, p.1) {
                    None => {},
                    Some(h) => match digits1(s, h) {
                        None => {},
                        Some(k) => match lit(s, k, "M"@) {
                            None => {},
                            Some(m1) => {
                                lemma_digits1_text(s, h);
                                assert(s.subrange(k, k + 1)[0] == s[k]);
                                lemma_arrow_mb_text(s, m1);
                                match lit(s, m1, "("@) {
                                    None => {},
                                    Some(q1) => match digits1(s, q1) {
                                        None => {},
                                        Some(q2) => match lit(s, q2, "%)"@) {
                                            None => {},
                                            Some(q3) => {
                                                lemma_digits1_text(s, q1);
                                                lemma_arrow_mb_text(s, q3);
                                                assert(s.subrange(k, k + 2) =~= "M("@) by {
                                                    assert(s.subrange(k, k + 1)[0] == s[k]);
                                                    assert(s.subrange(m1, m1 + 1)[0] == s[m1]);
                                                    assert(s.subrange(k, k + 2)[1] == s[m1]);
                                                }
                                            },
                                        },
                                    },
                                }
                            },
                        },
                    },
                },
            },
        },
    }
}

proof fn lemma_coll_find_text(s: Seq<char>, i: int)
    ensures
        coll_find(s, i) matches Some(c) ==> zgc_figures(s, c.before, c.after),
    decreases s.len() + 1 - i,
{
    if 0 <= i <= s.len() {
        match lit(s, i, "GC("@) {
            None => {},
            Some(a) => match digits1(s, a) {
                None => {},
                Some(b) => match lit(s, b, ")"@) {
                    None => {},
                    Some(c) => match ws1(s, c) {
                        None => {},
                        Some(d) => {
                            match lit(s, d, "Young"@) {
                                None => {},
                                Some(y) => match ws1(s, y) {
                                    None => {},
                                    Some(y2) => lemma_coll_rest_text(s, y2, (a, b), Some((d, y))),
                                },
                            }
                            match lit(s, d, "Old"@) {
                                None => {},
                                Some(o) => match ws1(s, o) {
                                    None => {},
                                    Some(o2) => lemma_coll_rest_text(s, o2, (a, b), Some((d, o))),
                                },
                            }
                            lemma_coll_rest_text(s, d, (a, b), None);
                        },
                    },
                },
            },
        }
        lemma_coll_find_text(s, i + 1);
    }
}

/// The heap figures of a ZGC event are read off its message in order:
/// either it is a pause (no heap figures, both 0), or the message holds
/// `B M->A M` (possibly `B M(P%)->A M`) and the event's heap before and
/// after are `B` and `A` megabytes: the number after `->` is what remains.
pub proof fn lemma_zgc_heap_figures(line: Seq<char>, now: int)
    ensures
        match zgc_event_spec(line, now) {
            None => true,
            Some(e) => {
                let m = unified_spec(line)->0.message;
                ||| e.before == 0 && e.after == 0
                ||| exists|b: Span, a: Span|
                    {
                        &&& #[trigger] zgc_figures(m, b, a)
                        &&& e.before == mib_bytes_or_zero(m.subrange(b.0, b.1))
                        &&& e.after == mib_bytes_or_zero(m.subrange(a.0, a.1))
                    }
            },
        },
{
    match unified_spec(line) {
        None => {},
        Some(u) => {
            lemma_coll_find_text(u.message, 0);
            match coll_find(u.message, 0) {
                Some(c) => {
                    assert(zgc_figures(u.message, c.before, c.after));
                },
                None => {},
            }
        },
    }
}

} // verus!
