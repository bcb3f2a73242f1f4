//! The text of a one-shot reading: the compact summary of a snapshot, and
//! the report of alerts and tuning recommendations.

use vstd::prelude::*;
use crate::anomaly::{alert_views, severity_label, Alert, AlertView};
use crate::collector::joined;
use crate::fmt::{fixed_text, push_fixed};
use crate::model::{mib_micros, uptime_text, usage_pct_spec, GcCollectorStats, JvmSnapshot};
use crate::num::{int_text, push_int};
use crate::recommend::{rec_views, texts, Recommendation, RecommendationView};

verus! {

/// The heap, thread and CPU line of the summary; figures rounded to whole
/// numbers.
pub open spec fn heap_line(s: JvmSnapshot) -> Seq<char> {
    let pct = match usage_pct_spec(s.heap.used as int, s.heap.max as int) {
        Some(x) => x,
        None => 0,
    };
    "heap: "@ + fixed_text(mib_micros(s.heap.used as int), 0) + "M / "@ + fixed_text(
        mib_micros(s.heap.max as int),
        0,
    ) + "M ("@ + fixed_text(pct, 0) + "%)   threads: "@ + int_text(s.thread_summary.live as int)
        + " live   cpu: "@ + fixed_text(s.cpu.process_cpu * 100, 0) + "%"@
}

/// The summary line of one collector.
pub open spec fn gc_line(c: GcCollectorStats) -> Seq<char> {
    "gc "@ + c.name@ + ": "@ + int_text(c.collection_count as int) + " collections, "@ + int_text(
        c.collection_time_ms as int,
    ) + "ms total"@
}

/// The compact summary of a snapshot: the VM and its uptime, the heap
/// line, and one line per collector.
pub open spec fn summary_lines(s: JvmSnapshot) -> Seq<Seq<char>> {
    seq![
        s.jvm_info.vm_name@ + " (uptime "@ + uptime_text(s.jvm_info.uptime_ms as int) + ")"@,
        heap_line(s),
    ] + s.gc_collectors@.map_values(|c: GcCollectorStats| gc_line(c))
}

/// The report line of one alert; the confidence as a whole percentage.
pub open spec fn alert_line(a: AlertView) -> Seq<char> {
    "  ["@ + severity_label(a.severity) + "] "@ + a.title + " — "@ + a.detail + " (confidence "@
        + fixed_text(a.confidence * 100, 0) + "%)"@
}

/// The report lines of one recommendation: its title and suggestion, then
/// its JVM flags when it has any.
pub open spec fn rec_lines(r: RecommendationView) -> Seq<Seq<char>> {
    let head = "  "@ + r.title + " — "@ + r.suggestion;
    if r.jvm_flags.len() == 0 {
        seq![head]
    } else {
        seq![head, "    flags: "@ + joined(r.jvm_flags, " "@)]
    }
}

pub open spec fn all_rec_lines(rs: Seq<RecommendationView>) -> Seq<Seq<char>>
    decreases rs.len(),
{
    if rs.len() == 0 {
        seq![]
    } else {
        all_rec_lines(rs.drop_last()) + rec_lines(rs.last())
    }
}

/// The report of alerts and recommendations: a count line and one line
/// per alert, a blank line, then a count line and the lines of each
/// recommendation.
pub open spec fn report_lines(alerts: Seq<AlertView>, recs: Seq<RecommendationView>) -> Seq<
    Seq<char>,
> {
    seq!["Alerts ("@ + int_text(alerts.len() as int) + "):"@] + alerts.map_values(
        |a: AlertView| alert_line(a),
    ) + seq![Seq::<char>::empty(), "Tuning recommendations ("@ + int_text(recs.len() as int) + "):"@]
        + all_rec_lines(recs)
}

fn push_str_of(s: &mut String, t: &str)
    ensures
        final(s)@ == old(s)@ + t@,
{
    s.append(t);
}

/// The texts of `v` joined by single spaces.
fn join_spaced(v: &Vec<String>) -> (r: String)
    ensures
        r@ == joined(texts(v@), " "@),
{
    proof {
        reveal_strlit(" ");
    }
    let ghost all = texts(v@);
    let mut r = String::new();
    let mut i: usize = 0;
    while i < v.len()
        invariant
            i <= v@.len(),
            all == texts(v@),
            r@ == joined(all.take(i as int), " "@),
        decreases v@.len() - i,
    {
        if i > 0 {
            push_str_of(&mut r, " ");
        }
        push_str_of(&mut r, v[i].as_str());
        proof {
            let t = all.take(i + 1);
            assert(t.drop_last() =~= all.take(i as int));
            assert(t.last() == v@[i as int]@);
            if i == 0 {
                assert(all.take(0) =~= Seq::<Seq<char>>::empty());
                assert(r@ =~= t[0]);
            } else {
                assert(r@ =~= joined(t.drop_last(), " "@) + " "@ + t.last());
            }
        }
        i += 1;
    }
    assert(all.take(v@.len() as int) =~= all);
    r
}

/// The compact summary of a snapshot, line by line.
pub fn summary_of(s: &JvmSnapshot) -> (r: Vec<String>)
    ensures
        texts(r@) == summary_lines(*s),
{
    proof {
        reveal_strlit(" (uptime ");
        reveal_strlit(")");
        reveal_strlit("heap: ");
        reveal_strlit("M / ");
        reveal_strlit("M (");
        reveal_strlit("%)   threads: ");
        reveal_strlit(" live   cpu: ");
        reveal_strlit("%");
        reveal_strlit("gc ");
        reveal_strlit(": ");
        reveal_strlit(" collections, ");
        reveal_strlit("ms total");
    }
    let mut r: Vec<String> = Vec::new();
    let mut first = s.jvm_info.vm_name.clone();
    first.append(" (uptime ");
    let up = s.jvm_info.uptime_human();
    first.append(up.as_str());
    first.append(")");
    r.push(first);
    let mut heap = String::from_str("heap: ");
    push_fixed(&mut heap, s.heap.used_mb(), 0);
    heap.append("M / ");
    push_fixed(&mut heap, s.heap.max_mb(), 0);
    heap.append("M (");
    let pct: i128 = match s.heap.usage_pct() {
        Some(x) => x,
        None => 0,
    };
    proof {
        if s.heap.max >= 1 {
            crate::model::lemma_tdiv_bound(s.heap.used * 100_000_000, s.heap.max as int);
        }
        crate::model::lemma_tdiv_bound(s.heap.used * 1_000_000, 1_048_576);
        crate::model::lemma_tdiv_bound(s.heap.max * 1_000_000, 1_048_576);
    }
    push_fixed(&mut heap, pct, 0);
    heap.append("%)   threads: ");
    push_int(&mut heap, s.thread_summary.live as i128);
    heap.append(" live   cpu: ");
    push_fixed(&mut heap, s.cpu.process_cpu_pct(), 0);
    heap.append("%");
    r.push(heap);
    let ghost head = texts(r@);
    assert(head =~= seq![
        s.jvm_info.vm_name@ + " (uptime "@ + uptime_text(s.jvm_info.uptime_ms as int) + ")"@,
        heap_line(*s),
    ]);
    let cs = &s.gc_collectors;
    let mut i: usize = 0;
    while i < cs.len()
        invariant
            i <= cs@.len(),
            *cs == s.gc_collectors,
            texts(r@) == head + cs@.take(i as int).map_values(|c: GcCollectorStats| gc_line(c)),
        decreases cs@.len() - i,
    {
        let c = &cs[i];
        let mut line = String::from_str("gc ");
        line.append(c.name.as_str());
        line.append(": ");
        push_int(&mut line, c.collection_count as i128);
        line.append(" collections, ");
        push_int(&mut line, c.collection_time_ms as i128);
        line.append("ms total");
        let ghost before = texts(r@);
        r.push(line);
        proof {
            assert(texts(r@) =~= before.push(gc_line(*c)));
            assert(cs@.take(i + 1).map_values(|c: GcCollectorStats| gc_line(c)) =~= cs@.take(
                i as int,
            ).map_values(|c: GcCollectorStats| gc_line(c)).push(gc_line(cs@[i as int])));
            assert(texts(r@) =~= head + cs@.take(i + 1).map_values(
                |c: GcCollectorStats| gc_line(c),
            ));
        }
        i += 1;
    }
    assert(cs@.take(cs@.len() as int) =~= cs@);
    r
}

/// The report of alerts and recommendations, line by line.
pub fn report_of(alerts: &Vec<Alert>, recs: &Vec<Recommendation>) -> (r: Vec<String>)
    ensures
        texts(r@) == report_lines(alert_views(alerts@), rec_views(recs@)),
{
    proof {
        reveal_strlit("Alerts (");
        reveal_strlit("):");
        reveal_strlit("  [");
        reveal_strlit("] ");
        reveal_strlit(" — ");
        reveal_strlit(" (confidence ");
        reveal_strlit("%)");
        reveal_strlit("Tuning recommendations (");
        reveal_strlit("  ");
        reveal_strlit("    flags: ");
    }
    let ghost av = alert_views(alerts@);
    let ghost rv = rec_views(recs@);
    let mut r: Vec<String> = Vec::new();
    let mut head = String::from_str("Alerts (");
    push_int(&mut head, alerts.len() as i128);
    head.append("):");
    r.push(head);
    let ghost top = texts(r@);
    assert(top =~= seq!["Alerts ("@ + int_text(av.len() as int) + "):"@]);
    let mut i: usize = 0;
    while i < alerts.len()
        invariant
            i <= alerts@.len(),
            av == alert_views(alerts@),
            texts(r@) == top + av.take(i as int).map_values(|a: AlertView| alert_line(a)),
        decreases alerts@.len() - i,
    {
        let a = &alerts[i];
        let mut line = String::from_str("  [");
        line.append(a.severity.label());
        line.append("] ");
        line.append(a.title.as_str());
        line.append(" — ");
        line.append(a.detail.as_str());
        line.append(" (confidence ");
        push_fixed(&mut line, a.confidence as i128 * 100, 0);
        line.append("%)");
        let ghost before = texts(r@);
        r.push(line);
        proof {
            assert(av[i as int] == a@);
            assert(texts(r@) =~= before.push(alert_line(a@)));
            assert(av.take(i + 1).map_values(|a: AlertView| alert_line(a)) =~= av.take(
                i as int,
            ).map_values(|a: AlertView| alert_line(a)).push(alert_line(av[i as int])));
        }
        i += 1;
    }
    assert(av.take(av.len() as int) =~= av);
    r.push(String::new());
    let mut mid = String::from_str("Tuning recommendations (");
    push_int(&mut mid, recs.len() as i128);
    mid.append("):");
    r.push(mid);
    let ghost upper = texts(r@);
    assert(upper =~= top + av.map_values(|a: AlertView| alert_line(a)) + seq![
        Seq::<char>::empty(),
        "Tuning recommendations ("@ + int_text(rv.len() as int) + "):"@,
    ]);
    let mut k: usize = 0;
    while k < recs.len()
        invariant
            k <= recs@.len(),
            rv == rec_views(recs@),
            texts(r@) == upper + all_rec_lines(rv.take(k as int)),
        decreases recs@.len() - k,
    {
        let c = &recs[k];
        let mut line = String::from_str("  ");
        line.append(c.title.as_str());
        line.append(" — ");
        line.append(c.suggestion.as_str());
        let ghost before = texts(r@);
        r.push(line);
        if c.jvm_flags.len() > 0 {
            let mut flags = String::from_str("    flags: ");
            let j = join_spaced(&c.jvm_flags);
            flags.append(j.as_str());
            r.push(flags);
        }
        proof {
            assert(rv[k as int] == c@);
            assert(rv.take(k + 1).drop_last() =~= rv.take(k as int));
            assert(texts(r@) =~= before + rec_lines(c@));
        }
        k += 1;
    }
    assert(rv.take(rv.len() as int) =~= rv);
    r
}

} // verus!
