//! Shenandoah events of a unified GC log: pauses
//! (`GC(3) Pause Init Mark (process weakrefs) 0.234ms`,
//! `GC(5) Pause Full (Allocation Failure) 480M->120M(512M) 567.890ms`) and
//! concurrent phases (`GC(3) Concurrent marking 400M->410M(512M) 12.345ms`).

use vstd::prelude::*;
use vstd::string::StringExecFns;
use crate::clock::now_millis;
use crate::g1::{
    Span, SpanX, heap3, heap3_exec, heap_figures, lemma_heap3_text, mib_bytes_or_zero, millis,
    millis_exec, opt_event, span_of, span_text,
};
use crate::gclog::{
    GcEventView, GcPhaseView, event_view, event_views, mib_of, mib_ok, parse_mib,
    parse_unified_line, stamp, unified_line_ok, unified_spec,
};
use crate::model::{GcEvent, GcPhase};
use crate::num::{parse_micros, parse_u64_in, parse_unsigned, real_micros};
use crate::scan::{digits1, digits1_exec, lit, lit_exec, run_not, run_not_exec, ws1, ws1_exec};
use crate::text::{chars_of, lines, lines_of, slice_of, str_eq, string_of, views};

verus! {

pub struct ShenCaps {
    pub id: Span,
    pub phase: Span,
    pub cause: Option<Span>,
    pub heap: Option<(Span, Span, Span)>,
    pub time: Span,
}

/// `(?:(\d+)M->(\d+)M\((\d+)M\)\s+)?([0-9.]+)ms` at `i`.
pub open spec fn heap_then_ms(s: Seq<char>, i: int) -> Option<(Option<(Span, Span, Span)>, Span)> {
    let with_heap = match heap3(s, i) {
        None => None,
        Some(h) => match ws1(s, h.3) {
            None => None,
            Some(w) => match millis(s, w) {
                None => None,
                Some(m) => Some((Some((h.0, h.1, h.2)), m.0)),
            },
        },
    };
    match with_heap {
        Some(x) => Some(x),
        None => match millis(s, i) {
            None => None,
            Some(m) => Some((None, m.0)),
        },
    }
}

/// After a pause phase: `\s+(?:\(([^)]*)\)\s+)?` and [`heap_then_ms`].
pub open spec fn pause_rest(s: Seq<char>, id: Span, phase: Span) -> Option<ShenCaps> {
    match ws1(s, phase.1) {
        None => None,
        Some(y) => {
            let with_cause = match lit(s, y, "("@) {
                None => None,
                Some(c1) => {
                    let c2 = run_not(s, c1, ')');
                    match lit(s, c2, ")"@) {
                        None => None,
                        Some(c3) => match ws1(s, c3) {
                            None => None,
                            Some(c4) => match heap_then_ms(s, c4) {
                                None => None,
                                Some(t) => Some(
                                    ShenCaps { id, phase, cause: Some((c1, c2)), heap: t.0, time: t.1 },
                                ),
                            },
                        },
                    }
                },
            };
            match with_cause {
                Some(x) => Some(x),
                None => match heap_then_ms(s, y) {
                    None => None,
                    Some(t) => Some(ShenCaps { id, phase, cause: None, heap: t.0, time: t.1 }),
                },
            }
        },
    }
}

/// After a concurrent phase: `\s+` and [`heap_then_ms`].
pub open spec fn conc_rest(s: Seq<char>, id: Span, phase: Span) -> Option<ShenCaps> {
    match ws1(s, phase.1) {
        None => None,
        Some(y) => match heap_then_ms(s, y) {
            None => None,
            Some(t) => Some(ShenCaps { id, phase, cause: None, heap: t.0, time: t.1 }),
        },
    }
}

/// `GC\((\d+)\)\s+` then `word\s+` at `i`: the id and where the phase
/// words start.
pub open spec fn gc_head(s: Seq<char>, i: int, word: Seq<char>) -> Option<(Span, int)> {
    match lit(s, i, "GC("@) {
        None => None,
        Some(a) => match digits1(s, a) {
            None => None,
            Some(b) => match lit(s, b, ")"@) {
                None => None,
                Some(c) => match ws1(s, c) {
                    None => None,
                    Some(d) => match lit(s, d, word) {
                        None => None,
                        Some(e) => match ws1(s, e) {
                            None => None,
                            Some(f) => Some(((a, b), f)),
                        },
                    },
                },
            },
        },
    }
}

pub open spec fn pause_phases() -> Seq<Seq<char>> {
    seq!["Init Mark"@, "Final Mark"@, "Init Update Refs"@, "Final Update Refs"@, "Full"@]
}

pub open spec fn conc_phases() -> Seq<Seq<char>> {
    seq!["marking"@, "evacuation"@, "update references"@, "cleanup"@, "precleaning"@, "reset"@]
}

/// The first phase word of `alts` (from `k` on) that matches at `f` with
/// the rest of the pause grammar after it.
pub open spec fn pause_alts(s: Seq<char>, id: Span, f: int, alts: Seq<Seq<char>>, k: int) -> Option<ShenCaps>
    decreases alts.len() - k,
{
    if k < 0 || k >= alts.len() {
        None
    } else {
        let here = match lit(s, f, alts[k]) {
            None => None,
            Some(g) => pause_rest(s, id, (f, g)),
        };
        if here is Some {
            here
        } else {
            pause_alts(s, id, f, alts, k + 1)
        }
    }
}

pub open spec fn conc_alts(s: Seq<char>, id: Span, f: int, alts: Seq<Seq<char>>, k: int) -> Option<ShenCaps>
    decreases alts.len() - k,
{
    if k < 0 || k >= alts.len() {
        None
    } else {
        let here = match lit(s, f, alts[k]) {
            None => None,
            Some(g) => conc_rest(s, id, (f, g)),
        };
        if here is Some {
            here
        } else {
            conc_alts(s, id, f, alts, k + 1)
        }
    }
}

/// The pause grammar
/// `GC\((\d+)\)\s+Pause\s+(Init Mark|Final Mark|Init Update Refs|Final Update Refs|Full)\s+(?:\(([^)]*)\)\s+)?(?:(\d+)M->(\d+)M\((\d+)M\)\s+)?([0-9.]+)ms`
/// at `i`.
pub open spec fn shen_pause_at(s: Seq<char>, i: int) -> Option<ShenCaps> {
    match gc_head(s, i, "Pause"@) {
        None => None,
        Some(h) => pause_alts(s, h.0, h.1, pause_phases(), 0),
    }
}

/// The concurrent-phase grammar
/// `GC\((\d+)\)\s+Concurrent\s+(marking|evacuation|update references|cleanup|precleaning|reset)\s+(?:(\d+)M->(\d+)M\((\d+)M\)\s+)?([0-9.]+)ms`
/// at `i`.
pub open spec fn shen_conc_at(s: Seq<char>, i: int) -> Option<ShenCaps> {
    match gc_head(s, i, "Concurrent"@) {
        None => None,
        Some(h) => conc_alts(s, h.0, h.1, conc_phases(), 0),
    }
}

pub open spec fn shen_pause_find(s: Seq<char>, i: int) -> Option<ShenCaps>
    decreases s.len() + 1 - i,
{
    if i < 0 || i > s.len() {
        None
    } else {
        match shen_pause_at(s, i) {
            Some(c) => Some(c),
            None => shen_pause_find(s, i + 1),
        }
    }
}

pub open spec fn shen_conc_find(s: Seq<char>, i: int) -> Option<ShenCaps>
    decreases s.len() + 1 - i,
{
    if i < 0 || i > s.len() {
        None
    } else {
        match shen_conc_at(s, i) {
            Some(c) => Some(c),
            None => shen_conc_find(s, i + 1),
        }
    }
}

/// A heap figure: its bytes, or 0 when absent or unreadable.
pub open spec fn heap_or_zero(s: Seq<char>, p: Option<Span>) -> int {
    match p {
        Some(q) => match mib_of(span_text(s, q)) {
            Some(b) => b,
            None => 0,
        },
        None => 0,
    }
}

pub open spec fn heap_part(h: Option<(Span, Span, Span)>, k: int) -> Option<Span> {
    match h {
        Some(t) => Some(if k == 0 {
            t.0
        } else if k == 1 {
            t.1
        } else {
            t.2
        }),
        None => None,
    }
}

pub open spec fn shen_pause_phase(p: Seq<char>) -> GcPhaseView {
    if p == "Init Mark"@ {
        GcPhaseView::InitMark
    } else if p == "Final Mark"@ {
        GcPhaseView::FinalMark
    } else if p == "Init Update Refs"@ {
        GcPhaseView::InitUpdateRefs
    } else if p == "Final Update Refs"@ {
        GcPhaseView::FinalUpdateRefs
    } else if p == "Full"@ {
        GcPhaseView::DegeneratedGc
    } else {
        GcPhaseView::Other(p)
    }
}

pub open spec fn shen_conc_phase(p: Seq<char>) -> GcPhaseView {
    if p == "marking"@ {
        GcPhaseView::ConcurrentMark
    } else if p == "evacuation"@ {
        GcPhaseView::ConcurrentEvacuate
    } else if p == "update references"@ {
        GcPhaseView::ConcurrentUpdateRefs
    } else {
        GcPhaseView::Other("Concurrent "@ + p)
    }
}

pub open spec fn shen_event_spec(line: Seq<char>, now: int) -> Option<GcEventView> {
    match unified_spec(line) {
        None => None,
        Some(u) => {
            let m = u.message;
            match shen_pause_find(m, 0) {
                Some(c) => match parse_unsigned(span_text(m, c.id), u64::MAX as int) {
                    None => None,
                    Some(id) => match real_micros(span_text(m, c.time)) {
                        None => None,
                        Some(t) => Some(
                            GcEventView {
                                id,
                                collector: "Shenandoah"@,
                                cause: match c.cause {
                                    Some(p) => span_text(m, p),
                                    None => Seq::empty(),
                                },
                                phase: shen_pause_phase(span_text(m, c.phase)),
                                before: heap_or_zero(m, heap_part(c.heap, 0)),
                                after: heap_or_zero(m, heap_part(c.heap, 1)),
                                capacity: heap_or_zero(m, heap_part(c.heap, 2)),
                                pause: t,
                                timestamp: stamp(u, now),
                            },
                        ),
                    },
                },
                None => match shen_conc_find(m, 0) {
                    None => None,
                    Some(c) => match parse_unsigned(span_text(m, c.id), u64::MAX as int) {
                        None => None,
                        Some(id) => match real_micros(span_text(m, c.time)) {
                            None => None,
                            Some(t) => Some(
                                GcEventView {
                                    id,
                                    collector: "Shenandoah"@,
                                    cause: "Concurrent "@ + span_text(m, c.phase),
                                    phase: shen_conc_phase(span_text(m, c.phase)),
                                    before: heap_or_zero(m, heap_part(c.heap, 0)),
                                    after: heap_or_zero(m, heap_part(c.heap, 1)),
                                    capacity: heap_or_zero(m, heap_part(c.heap, 2)),
                                    pause: t,
                                    timestamp: stamp(u, now),
                                },
                            ),
                        },
                    },
                },
            }
        },
    }
}

/// Each megabyte figure that gets multiplied fits in `i64` as bytes.
pub open spec fn heaps_ok(m: Seq<char>, h: Option<(Span, Span, Span)>) -> bool {
    match h {
        Some(t) => mib_ok(span_text(m, t.0)) && mib_ok(span_text(m, t.1)) && mib_ok(span_text(m, t.2)),
        None => true,
    }
}

pub open spec fn shen_line_ok(line: Seq<char>) -> bool {
    &&& unified_line_ok(line)
    &&& match unified_spec(line) {
        None => true,
        Some(u) => {
            let m = u.message;
            match shen_pause_find(m, 0) {
                Some(c) => parse_unsigned(span_text(m, c.id), u64::MAX as int) is Some ==> heaps_ok(
                    m,
                    c.heap,
                ),
                None => match shen_conc_find(m, 0) {
                    Some(c) => parse_unsigned(span_text(m, c.id), u64::MAX as int) is Some
                        ==> heaps_ok(m, c.heap),
                    None => true,
                },
            }
        },
    }
}

// ───────────────────────────── exec ─────────────────────────────

struct ShenCapsX {
    id: SpanX,
    phase: SpanX,
    cause: Option<SpanX>,
    heap: Option<(SpanX, SpanX, SpanX)>,
    time: SpanX,
}

spec fn shen_view(c: ShenCapsX) -> ShenCaps {
    ShenCaps {
        id: span_of(c.id),
        phase: span_of(c.phase),
        cause: match c.cause {
            Some(p) => Some(span_of(p)),
            None => None,
        },
        heap: match c.heap {
            Some(h) => Some((span_of(h.0), span_of(h.1), span_of(h.2))),
            None => None,
        },
        time: span_of(c.time),
    }
}

spec fn shen_in(c: ShenCapsX, n: int) -> bool {
    &&& c.id.0 <= c.id.1 <= n
    &&& c.phase.0 <= c.phase.1 <= n
    &&& (c.cause matches Some(p) ==> p.0 <= p.1 <= n)
    &&& (c.heap matches Some(h) ==> h.0.0 <= h.0.1 <= n && h.1.0 <= h.1.1 <= n && h.2.0 <= h.2.1
        <= n)
    &&& c.time.0 <= c.time.1 <= n
}

spec fn heap_x(h: Option<(SpanX, SpanX, SpanX)>) -> Option<(Span, Span, Span)> {
    match h {
        Some(h) => Some((span_of(h.0), span_of(h.1), span_of(h.2))),
        None => None,
    }
}

fn heap_then_ms_exec(v: &[char], i: usize) -> (r: Option<(Option<(SpanX, SpanX, SpanX)>, SpanX)>)
    requires
        i <= v@.len(),
    ensures
        match r {
            Some(x) => heap_then_ms(v@, i as int) == Some((heap_x(x.0), span_of(x.1)))
                && x.1.0 <= x.1.1 <= v@.len() && (x.0 matches Some(h) ==> h.0.0 <= h.0.1 <= v@.len()
                && h.1.0 <= h.1.1 <= v@.len() && h.2.0 <= h.2.1 <= v@.len()),
            None => heap_then_ms(v@, i as int) is None,
        },
{
    let with_heap = match heap3_exec(v, i) {
        None => None,
        Some(h) => match ws1_exec(v, h.3) {
            None => None,
            Some(w) => match millis_exec(v, w) {
                None => None,
                Some(m) => Some((Some((h.0, h.1, h.2)), m.0)),
            },
        },
    };
    match with_heap {
        Some(x) => Some(x),
        None => match millis_exec(v, i) {
            None => None,
            Some(m) => Some((None, m.0)),
        },
    }
}

fn pause_rest_exec(v: &[char], id: SpanX, phase: SpanX) -> (r: Option<ShenCapsX>)
    requires
        id.0 <= id.1 <= v@.len(),
        phase.0 <= phase.1 <= v@.len(),
    ensures
        match r {
            Some(x) => pause_rest(v@, span_of(id), span_of(phase)) == Some(shen_view(x)) && shen_in(
                x,
                v@.len() as int,
            ),
            None => pause_rest(v@, span_of(id), span_of(phase)) is None,
        },
{
    let open_p = ['('];
    let close_p = [')'];
    assert(open_p@ =~= "("@) by {
        reveal_strlit("(");
    }
    assert(close_p@ =~= ")"@) by {
        reveal_strlit(")");
    }
    let y = match ws1_exec(v, phase.1) {
        Some(y) => y,
        None => {
            return None;
        },
    };
    let with_cause = match lit_exec(v, y, &open_p) {
        None => None,
        Some(c1) => {
            let c2 = run_not_exec(v, c1, ')');
            match lit_exec(v, c2, &close_p) {
                None => None,
                Some(c3) => match ws1_exec(v, c3) {
                    None => None,
                    Some(c4) => match heap_then_ms_exec(v, c4) {
                        None => None,
                        Some(t) => Some(
                            ShenCapsX { id, phase, cause: Some((c1, c2)), heap: t.0, time: t.1 },
                        ),
                    },
                },
            }
        },
    };
    match with_cause {
        Some(x) => Some(x),
        None => match heap_then_ms_exec(v, y) {
            None => None,
            Some(t) => Some(ShenCapsX { id, phase, cause: None, heap: t.0, time: t.1 }),
        },
    }
}

fn conc_rest_exec(v: &[char], id: SpanX, phase: SpanX) -> (r: Option<ShenCapsX>)
    requires
        id.0 <= id.1 <= v@.len(),
        phase.0 <= phase.1 <= v@.len(),
    ensures
        match r {
            Some(x) => conc_rest(v@, span_of(id), span_of(phase)) == Some(shen_view(x)) && shen_in(
                x,
                v@.len() as int,
            ),
            None => conc_rest(v@, span_of(id), span_of(phase)) is None,
        },
{
    match ws1_exec(v, phase.1) {
        None => None,
        Some(y) => match heap_then_ms_exec(v, y) {
            None => None,
            Some(t) => Some(ShenCapsX { id, phase, cause: None, heap: t.0, time: t.1 }),
        },
    }
}

fn gc_head_exec(v: &[char], i: usize, word: &[char]) -> (r: Option<(SpanX, usize)>)
    requires
        i <= v@.len(),
    ensures
        match r {
            Some(x) => gc_head(v@, i as int, word@) == Some((span_of(x.0), x.1 as int)) && x.0.0
                <= x.0.1 <= x.1 <= v@.len(),
            None => gc_head(v@, i as int, word@) is None,
        },
{
    let gc = ['G', 'C', '('];
    let close_p = [')'];
    assert(gc@ =~= "GC("@) by {
        reveal_strlit("GC(");
    }
    assert(close_p@ =~= ")"@) by {
        reveal_strlit(")");
    }
    let a = match lit_exec(v, i, &gc) {
        Some(a) => a,
        None => {
            return None;
        },
    };
    let b = match digits1_exec(v, a) {
        Some(b) => b,
        None => {
            return None;
        },
    };
    let c = match lit_exec(v, b, &close_p) {
        Some(c) => c,
        None => {
            return None;
        },
    };
    let d = match ws1_exec(v, c) {
        Some(d) => d,
        None => {
            return None;
        },
    };
    let e = match lit_exec(v, d, word) {
        Some(e) => e,
        None => {
            return None;
        },
    };
    match ws1_exec(v, e) {
        Some(f) => Some(((a, b), f)),
        None => None,
    }
}

fn phase_words(pause: bool) -> (r: Vec<Vec<char>>)
    ensures
        crate::text::views(r@) == (if pause {
            pause_phases()
        } else {
            conc_phases()
        }),
{
    let mut r: Vec<Vec<char>> = Vec::new();
    if pause {
        r.push(chars_of("Init Mark"));
        r.push(chars_of("Final Mark"));
        r.push(chars_of("Init Update Refs"));
        r.push(chars_of("Final Update Refs"));
        r.push(chars_of("Full"));
    } else {
        r.push(chars_of("marking"));
        r.push(chars_of("evacuation"));
        r.push(chars_of("update references"));
        r.push(chars_of("cleanup"));
        r.push(chars_of("precleaning"));
        r.push(chars_of("reset"));
    }
    assert(crate::text::views(r@) =~= (if pause {
        pause_phases()
    } else {
        conc_phases()
    }));
    r
}

fn shen_at_exec(v: &[char], i: usize, pause: bool) -> (r: Option<ShenCapsX>)
    requires
        i <= v@.len(),
    ensures
        match r {
            Some(x) => (if pause {
                shen_pause_at(v@, i as int)
            } else {
                shen_conc_at(v@, i as int)
            }) == Some(shen_view(x)) && shen_in(x, v@.len() as int),
            None => (if pause {
                shen_pause_at(v@, i as int)
            } else {
                shen_conc_at(v@, i as int)
            }) is None,
        },
{
    let word = if pause {
        chars_of("Pause")
    } else {
        chars_of("Concurrent")
    };
    let (id, f) = match gc_head_exec(v, i, &word) {
        Some(h) => h,
        None => {
            return None;
        },
    };
    let alts = phase_words(pause);
    let ghost av = crate::text::views(alts@);
    let mut k: usize = 0;
    while k < alts.len()
        invariant
            k <= alts@.len(),
            av == crate::text::views(alts@),
            id.0 <= id.1 <= f <= v@.len(),
            i <= v@.len(),
            pause ==> shen_pause_at(v@, i as int) == pause_alts(v@, span_of(id), f as int, pause_phases(), 0),
            !pause ==> shen_conc_at(v@, i as int) == conc_alts(v@, span_of(id), f as int, conc_phases(), 0),
            pause ==> av == pause_phases(),
            !pause ==> av == conc_phases(),
            pause ==> pause_alts(v@, span_of(id), f as int, av, 0) == pause_alts(
                v@,
                span_of(id),
                f as int,
                av,
                k as int,
            ),
            !pause ==> conc_alts(v@, span_of(id), f as int, av, 0) == conc_alts(
                v@,
                span_of(id),
                f as int,
                av,
                k as int,
            ),
        decreases alts@.len() - k,
    {
        assert(av[k as int] == alts@[k as int]@);
        let here = match lit_exec(v, f, &alts[k]) {
            None => None,
            Some(g) => if pause {
                pause_rest_exec(v, id, (f, g))
            } else {
                conc_rest_exec(v, id, (f, g))
            },
        };
        if here.is_some() {
            return here;
        }
        k += 1;
    }
    None
}

fn shen_find_exec(v: &[char], pause: bool) -> (r: Option<ShenCapsX>)
    ensures
        match r {
            Some(x) => (if pause {
                shen_pause_find(v@, 0)
            } else {
                shen_conc_find(v@, 0)
            }) == Some(shen_view(x)) && shen_in(x, v@.len() as int),
            None => (if pause {
                shen_pause_find(v@, 0)
            } else {
                shen_conc_find(v@, 0)
            }) is None,
        },
{
    let mut i: usize = 0;
    while i < v.len()
        invariant
            i <= v@.len(),
            pause ==> shen_pause_find(v@, 0) == shen_pause_find(v@, i as int),
            !pause ==> shen_conc_find(v@, 0) == shen_conc_find(v@, i as int),
        decreases v@.len() - i,
    {
        match shen_at_exec(v, i, pause) {
            Some(c) => {
                return Some(c);
            },
            None => {},
        }
        i += 1;
    }
    let last = shen_at_exec(v, i, pause);
    assert(shen_pause_find(v@, i + 1) is None);
    assert(shen_conc_find(v@, i + 1) is None);
    last
}

fn heap_or_zero_exec(m: &[char], p: Option<SpanX>) -> (r: i64)
    requires
        p matches Some(q) ==> q.0 <= q.1 <= m@.len() && mib_ok(span_text(m@, span_of(q))),
    ensures
        r == heap_or_zero(
            m@,
            match p {
                Some(q) => Some(span_of(q)),
                None => None,
            },
        ),
{
    match p {
        Some(q) => match parse_mib(m, q.0, q.1) {
            Some(b) => b,
            None => 0,
        },
        None => 0,
    }
}

/// The Shenandoah event of a line, with `now` (ms since the epoch) as the
/// time of a line that has none.
pub fn parse_shenandoah_event_at(line: &str, now: i64) -> (r: Option<GcEvent>)
    requires
        shen_line_ok(line@),
    ensures
        opt_event(r) == shen_event_spec(line@, now as int),
{
    let u = match parse_unified_line(line) {
        Ok(u) => u,
        Err(_) => {
            return None;
        },
    };
    let m = chars_of(u.message.as_str());
    let timestamp = match u.timestamp {
        Some(t) => t,
        None => now,
    };
    let (c, pause) = match shen_find_exec(&m, true) {
        Some(c) => (c, true),
        None => match shen_find_exec(&m, false) {
            Some(c) => (c, false),
            None => {
                return None;
            },
        },
    };
    let id = match parse_u64_in(&m, c.id.0, c.id.1) {
        Some(x) => x,
        None => {
            return None;
        },
    };
    let (hb, ha, hc) = match c.heap {
        Some(h) => (Some(h.0), Some(h.1), Some(h.2)),
        None => (None, None, None),
    };
    let before = heap_or_zero_exec(&m, hb);
    let after = heap_or_zero_exec(&m, ha);
    let capacity = heap_or_zero_exec(&m, hc);
    let time = match parse_micros(&slice_of(&m, c.time.0, c.time.1)) {
        Some(x) => x,
        None => {
            return None;
        },
    };
    let ph = string_of(&slice_of(&m, c.phase.0, c.phase.1));
    let (cause, phase) = if pause {
        let cause = match c.cause {
            Some(p) => string_of(&slice_of(&m, p.0, p.1)),
            None => String::new(),
        };
        let phase = if str_eq(ph.as_str(), "Init Mark") {
            GcPhase::InitMark
        } else if str_eq(ph.as_str(), "Final Mark") {
            GcPhase::FinalMark
        } else if str_eq(ph.as_str(), "Init Update Refs") {
            GcPhase::InitUpdateRefs
        } else if str_eq(ph.as_str(), "Final Update Refs") {
            GcPhase::FinalUpdateRefs
        } else if str_eq(ph.as_str(), "Full") {
            GcPhase::DegeneratedGc
        } else {
            GcPhase::Other(ph)
        };
        (cause, phase)
    } else {
        let mut cause = String::from_str("Concurrent ");
        cause.append(ph.as_str());
        let phase = if str_eq(ph.as_str(), "marking") {
            GcPhase::ConcurrentMark
        } else if str_eq(ph.as_str(), "evacuation") {
            GcPhase::ConcurrentEvacuate
        } else if str_eq(ph.as_str(), "update references") {
            GcPhase::ConcurrentUpdateRefs
        } else {
            GcPhase::Other(cause.clone())
        };
        (cause, phase)
    };
    Some(
        GcEvent {
            id,
            collector: String::from_str("Shenandoah"),
            cause,
            phase,
            heap_before_bytes: before,
            heap_after_bytes: after,
            heap_capacity_bytes: capacity,
            pause_ms: time,
            timestamp,
        },
    )
}

/// The Shenandoah event of a line; a line without a time is stamped with
/// the wall clock.
pub fn parse_shenandoah_event(line: &str) -> (r: Option<GcEvent>)
    requires
        shen_line_ok(line@),
    ensures
        match r {
            Some(e) => shen_event_spec(line@, e.timestamp as int) == Some(event_view(e)),
            None => forall|t: int| #[trigger] shen_event_spec(line@, t) is None,
        },
{
    let now = now_millis();
    let r = parse_shenandoah_event_at(line, now);
    proof {
        match &r {
            Some(e) => {
                let u = unified_spec(line@).unwrap();
                assert(stamp(u, now as int) == e.timestamp);
                assert(shen_event_spec(line@, e.timestamp as int) == shen_event_spec(line@, now as int));
            },
            None => {},
        }
    }
    r
}

pub open spec fn shen_log_spec(ls: Seq<Seq<char>>, now: int) -> Seq<GcEventView>
    decreases ls.len(),
{
    if ls.len() == 0 {
        Seq::empty()
    } else {
        let prev = shen_log_spec(ls.drop_last(), now);
        match shen_event_spec(ls.last(), now) {
            Some(e) => prev.push(e),
            None => prev,
        }
    }
}

pub open spec fn shen_log_ok(text: Seq<char>) -> bool {
    forall|i: int| 0 <= i < lines(text).len() ==> shen_line_ok(#[trigger] lines(text)[i])
}

/// The Shenandoah events of a log text, lines without a time taking `now`.
pub fn parse_shenandoah_log_at(text: &str, now: i64) -> (r: Vec<GcEvent>)
    requires
        shen_log_ok(text@),
    ensures
        event_views(r@) == shen_log_spec(lines(text@), now as int),
{
    let chars = chars_of(text);
    let ls = lines_of(&chars);
    let ghost lv = lines(text@);
    let mut out: Vec<GcEvent> = Vec::new();
    let mut i: usize = 0;
    while i < ls.len()
        invariant
            i <= ls@.len(),
            views(ls@) == lv,
            lv == lines(text@),
            shen_log_ok(text@),
            event_views(out@) == shen_log_spec(lv.take(i as int), now as int),
        decreases ls@.len() - i,
    {
        proof {
            assert(lv.take(i + 1).drop_last() =~= lv.take(i as int));
            assert(lv.take(i + 1).last() == lv[i as int]);
            assert(lv[i as int] == ls@[i as int]@);
        }
        let line = string_of(&ls[i]);
        let ghost before = out@;
        match parse_shenandoah_event_at(line.as_str(), now) {
            Some(e) => {
                out.push(e);
                assert(event_views(out@) =~= event_views(before).push(event_view(e)));
            },
            None => {},
        }
        i += 1;
    }
    assert(lv.take(lv.len() as int) =~= lv);
    out
}

/// The Shenandoah events of a log text; lines without a time are stamped
/// with the wall clock.
pub fn parse_shenandoah_log(text: &str) -> (r: Vec<GcEvent>)
    requires
        shen_log_ok(text@),
    ensures
        exists|now: int| event_views(r@) == #[trigger] shen_log_spec(lines(text@), now),
{
    let now = now_millis();
    parse_shenandoah_log_at(text, now)
}


fn heaps_fit(m: &[char], h: Option<(SpanX, SpanX, SpanX)>) -> (r: bool)
    requires
        h matches Some(t) ==> t.0.0 <= t.0.1 <= m@.len() && t.1.0 <= t.1.1 <= m@.len() && t.2.0
            <= t.2.1 <= m@.len(),
    ensures
        r == heaps_ok(m@, heap_x(h)),
{
    match h {
        Some(t) => crate::gclog::mib_fits(m, t.0.0, t.0.1) && crate::gclog::mib_fits(m, t.1.0, t.1.1)
            && crate::gclog::mib_fits(m, t.2.0, t.2.1),
        None => true,
    }
}

/// Whether a line can be read as a Shenandoah event without overflow.
pub fn shen_line_fits(line: &str) -> (r: bool)
    ensures
        r == shen_line_ok(line@),
{
    if !crate::gclog::unified_line_fits(line) {
        return false;
    }
    let u = match parse_unified_line(line) {
        Ok(u) => u,
        Err(_) => {
            return true;
        },
    };
    let m = chars_of(u.message.as_str());
    let c = match shen_find_exec(&m, true) {
        Some(c) => c,
        None => match shen_find_exec(&m, false) {
            Some(c) => c,
            None => {
                return true;
            },
        },
    };
    if parse_u64_in(&m, c.id.0, c.id.1).is_none() {
        return true;
    }
    heaps_fit(&m, c.heap)
}

// ─────────────────────────── heap figures ───────────────────────────

/// What a capture's heap figures say of the text.
pub open spec fn caps_heap_text(m: Seq<char>, h: Option<(Span, Span, Span)>) -> bool {
    match h {
        None => true,
        Some(t) => heap_figures(m, t.0, t.1, t.2),
    }
}

proof fn lemma_heap_then_ms_text(s: Seq<char>, i: int)
    ensures
        heap_then_ms(s, i) matches Some(t) ==> caps_heap_text(s, t.0),
{
    if heap3(s, i) is Some {
        lemma_heap3_text(s, i);
    }
}

proof fn lemma_pause_rest_text(s: Seq<char>, id: Span, phase: Span)
    ensures
        pause_rest(s, id, phase) matches Some(c) ==> caps_heap_text(s, c.heap),
{
    match ws1(s, phase.1) {
        None => {},
        Some(y) => {
            lemma_heap_then_ms_text(s, y);
            match lit(s, y, "("@) {
                None => {},
                Some(c1) => {
                    let c2 = run_not(s, c1, ')');
                    match lit(s, c2, ")"@) {
                        None => {},
                        Some(c3) => match ws1(s, c3) {
                            None => {},
                            Some(c4) => {
                                lemma_heap_then_ms_text(s, c4);
                            },
                        },
                    }
                },
            }
        },
    }
}

proof fn lemma_conc_rest_text(s: Seq<char>, id: Span, phase: Span)
    ensures
        conc_rest(s, id, phase) matches Some(c) ==> caps_heap_text(s, c.heap),
{
    match ws1(s, phase.1) {
        None => {},
        Some(y) => {
            lemma_heap_then_ms_text(s, y);
        },
    }
}

proof fn lemma_pause_alts_text(s: Seq<char>, id: Span, f: int, alts: Seq<Seq<char>>, k: int)
    ensures
        pause_alts(s, id, f, alts, k) matches Some(c) ==> caps_heap_text(s, c.heap),
    decreases alts.len() - k,
{
    if 0 <= k < alts.len() {
        match lit(s, f, alts[k]) {
            None => {},
            Some(g) => {
                lemma_pause_rest_text(s, id, (f, g));
            },
        }
        lemma_pause_alts_text(s, id, f, alts, k + 1);
    }
}

proof fn lemma_conc_alts_text(s: Seq<char>, id: Span, f: int, alts: Seq<Seq<char>>, k: int)
    ensures
        conc_alts(s, id, f, alts, k) matches Some(c) ==> caps_heap_text(s, c.heap),
    decreases alts.len() - k,
{
    if 0 <= k < alts.len() {
        match lit(s, f, alts[k]) {
            None => {},
            Some(g) => {
                lemma_conc_rest_text(s, id, (f, g));
            },
        }
        lemma_conc_alts_text(s, id, f, alts, k + 1);
    }
}

proof fn lemma_pause_find_text(s: Seq<char>, i: int)
    ensures
        shen_pause_find(s, i) matches Some(c) ==> caps_heap_text(s, c.heap),
    decreases s.len() + 1 - i,
{
    if 0 <= i <= s.len() {
        match gc_head(s, i, "Pause"@) {
            None => {},
            Some(h) => {
                lemma_pause_alts_text(s, h.0, h.1, pause_phases(), 0);
            },
        }
        lemma_pause_find_text(s, i + 1);
    }
}

proof fn lemma_conc_find_text(s: Seq<char>, i: int)
    ensures
        shen_conc_find(s, i) matches Some(c) ==> caps_heap_text(s, c.heap),
    decreases s.len() + 1 - i,
{
    if 0 <= i <= s.len() {
        match gc_head(s, i, "Concurrent"@) {
            None => {},
            Some(h) => {
                lemma_conc_alts_text(s, h.0, h.1, conc_phases(), 0);
            },
        }
        lemma_conc_find_text(s, i + 1);
    }
}

/// The heap figures of a Shenandoah event are read off its message in
/// order: either the message gave none and all three are 0, or it holds
/// `A M->B M(C M)` and the event's heap before, after and capacity are
/// `A`, `B` and `C` megabytes (the number after `->` is what remains, the
/// one in parentheses the capacity).
pub proof fn lemma_shen_heap_figures(line: Seq<char>, now: int)
    ensures
        match shen_event_spec(line, now) {
            None => true,
            Some(e) => {
                let m = unified_spec(line)->0.message;
                ||| e.before == 0 && e.after == 0 && e.capacity == 0
                ||| exists|a: Span, b: Span, c: Span|
                    {
                        &&& #[trigger] heap_figures(m, a, b, c)
                        &&& e.before == mib_bytes_or_zero(m.subrange(a.0, a.1))
                        &&& e.after == mib_bytes_or_zero(m.subrange(b.0, b.1))
                        &&& e.capacity == mib_bytes_or_zero(m.subrange(c.0, c.1))
                    }
            },
        },
{
    match unified_spec(line) {
        None => {},
        Some(u) => {
            let m = u.message;
            lemma_pause_find_text(m, 0);
            lemma_conc_find_text(m, 0);
            match shen_pause_find(m, 0) {
                Some(c) => match c.heap {
                    Some(t) => {
                        assert(heap_figures(m, t.0, t.1, t.2));
                    },
                    None => {},
                },
                None => match shen_conc_find(m, 0) {
                    Some(c) => match c.heap {
                        Some(t) => {
                            assert(heap_figures(m, t.0, t.1, t.2));
                        },
                        None => {},
                    },
                    None => {},
                },
            }
        },
    }
}

} // verus!
