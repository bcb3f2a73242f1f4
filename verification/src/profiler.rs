//! Profiling support: reading collapsed stacks into a call tree, and the
//! commands that drive async-profiler.
//!
//! Collapsed-stack input has one stack per line: frames joined by `;`,
//! outermost first, then a space and a sample count. The call tree has a
//! root named `(all)`; each node counts the samples of the stacks that pass
//! through it (`total_samples`) and of those that end in it
//! (`self_samples`), and its children come in decreasing order of
//! `total_samples`, a tie keeping the order in which the frames first
//! appeared.

use vstd::prelude::*;
use crate::num::parse_unsigned;
use crate::prometheus::split_at_char;
use crate::text::{lines, trim, views, chars_of, lines_of, trimmed, slice_of, string_of};

verus! {

// ─────────────────────────────── input ───────────────────────────────

/// A stack read from one line: its frames and its sample count.
pub type StackView = (Seq<Seq<char>>, nat);

/// Index of the last space in `t`, or -1.
pub open spec fn last_space(t: Seq<char>) -> int
    decreases t.len(),
{
    if t.len() == 0 {
        -1
    } else if t.last() == ' ' {
        t.len() - 1
    } else {
        last_space(t.drop_last())
    }
}

/// The stack a line holds: the line trimmed, split at its last space into
/// the frames (split at `;`) and a `u64` count. `None` for a blank line, a
/// line without a space, or a count that is not a `u64`.
pub open spec fn stack_line(line: Seq<char>) -> Option<StackView> {
    let t = trim(line);
    let k = last_space(t);
    if t.len() == 0 || k < 0 {
        None
    } else {
        match parse_unsigned(t.skip(k + 1), u64::MAX as int) {
            Some(c) => Some((split_at_char(t.take(k), ';'), c as nat)),
            None => None,
        }
    }
}

/// The stacks of a sequence of lines, skipping the lines that hold none.
pub open spec fn stack_entries(ls: Seq<Seq<char>>) -> Seq<StackView>
    decreases ls.len(),
{
    if ls.len() == 0 {
        seq![]
    } else {
        let prev = stack_entries(ls.drop_last());
        match stack_line(ls.last()) {
            Some(e) => prev.push(e),
            None => prev,
        }
    }
}

/// The stacks of a collapsed-stack text.
pub open spec fn collapsed_stacks(text: Seq<char>) -> Seq<StackView> {
    stack_entries(lines(text))
}

// ─────────────────────────────── the tree ───────────────────────────────

/// Sum of the sample counts of `es`.
pub open spec fn stacks_total(es: Seq<StackView>) -> nat
    decreases es.len(),
{
    if es.len() == 0 {
        0
    } else {
        stacks_total(es.drop_last()) + es.last().1
    }
}

/// Sum of the sample counts of the stacks of `es` that have no frame left.
pub open spec fn leaf_total(es: Seq<StackView>) -> nat
    decreases es.len(),
{
    if es.len() == 0 {
        0
    } else {
        leaf_total(es.drop_last()) + if es.last().0.len() == 0 {
            es.last().1
        } else {
            0
        }
    }
}

/// The distinct first frames of `es`, in the order they first appear.
pub open spec fn first_frames(es: Seq<StackView>) -> Seq<Seq<char>>
    decreases es.len(),
{
    if es.len() == 0 {
        seq![]
    } else {
        let f = first_frames(es.drop_last());
        let p = es.last().0;
        if p.len() > 0 && !f.contains(p[0]) {
            f.push(p[0])
        } else {
            f
        }
    }
}

/// The stacks of `es` whose first frame is `name`, with that frame dropped.
pub open spec fn below(es: Seq<StackView>, name: Seq<char>) -> Seq<StackView>
    decreases es.len(),
{
    if es.len() == 0 {
        seq![]
    } else {
        let r = below(es.drop_last(), name);
        let e = es.last();
        if e.0.len() > 0 && e.0[0] == name {
            r.push((e.0.drop_first(), e.1))
        } else {
            r
        }
    }
}

/// Position of `n` in `fs`, or `fs.len()` when absent.
pub open spec fn rank_in(fs: Seq<Seq<char>>, n: Seq<char>) -> int
    decreases fs.len(),
{
    if fs.len() == 0 {
        0
    } else if fs[0] == n {
        0
    } else {
        1 + rank_in(fs.drop_first(), n)
    }
}

/// `a` stands before `b` among siblings: more samples, or as many and a
/// frame that appeared first.
pub open spec fn comes_before(a: TreeNode, b: TreeNode, fs: Seq<Seq<char>>) -> bool {
    ||| a.total_samples > b.total_samples
    ||| a.total_samples == b.total_samples && rank_in(fs, a.name@) < rank_in(fs, b.name@)
}

/// `t` is the call tree of the stacks `es` (with paths taken from `t`'s own
/// position): its counts are those of `es`, it has one child per distinct
/// first frame, in order, and each child is the tree of the stacks below it.
pub open spec fn describes(t: TreeNode, es: Seq<StackView>) -> bool
    decreases t,
{
    let fs = first_frames(es);
    let cs = t.children@;
    &&& t.total_samples == stacks_total(es)
    &&& t.self_samples == leaf_total(es)
    &&& cs.len() == fs.len()
    &&& forall|i: int| 0 <= i < cs.len() ==> fs.contains(#[trigger] cs[i].name@)
    &&& forall|i: int, j: int|
        #![trigger cs[i], cs[j]]
        0 <= i < j < cs.len() ==> cs[i].name@ != cs[j].name@ && comes_before(cs[i], cs[j], fs)
    &&& forall|i: int| 0 <= i < cs.len() ==> describes(#[trigger] cs[i], below(es, cs[i].name@))
}

/// A node of the call tree.
pub struct TreeNode {
    pub name: String,
    pub self_samples: u64,
    pub total_samples: u64,
    pub children: Vec<TreeNode>,
}

// ─────────────────────────────── lemmas ───────────────────────────────

proof fn lemma_last_space(t: Seq<char>, i: int)
    requires
        0 <= i <= t.len(),
        forall|j: int| i <= j < t.len() ==> t[j] != ' ',
    ensures
        last_space(t) == last_space(t.take(i)),
    decreases t.len() - i,
{
    if i < t.len() {
        lemma_last_space(t, i + 1);
        assert(t.take(i + 1).drop_last() =~= t.take(i));
    } else {
        assert(t.take(i) =~= t);
    }
}

proof fn lemma_last_space_bounds(t: Seq<char>)
    ensures
        -1 <= last_space(t) < t.len(),
        last_space(t) >= 0 ==> t[last_space(t)] == ' ',
    decreases t.len(),
{
    if t.len() > 0 && t.last() != ' ' {
        lemma_last_space_bounds(t.drop_last());
    }
}

proof fn lemma_total_prefix(es: Seq<StackView>, k: int)
    requires
        0 <= k <= es.len(),
    ensures
        stacks_total(es.take(k)) <= stacks_total(es),
        leaf_total(es) <= stacks_total(es),
    decreases es.len(),
{
    if es.len() > 0 {
        if k < es.len() {
            lemma_total_prefix(es.drop_last(), k);
            assert(es.drop_last().take(k) =~= es.take(k));
        } else {
            assert(es.take(k) =~= es);
            lemma_total_prefix(es.drop_last(), 0);
        }
    } else {
        assert(es.take(k) =~= es);
    }
}

proof fn lemma_below_total(es: Seq<StackView>, n: Seq<char>)
    ensures
        stacks_total(below(es, n)) <= stacks_total(es),
    decreases es.len(),
{
    if es.len() > 0 {
        lemma_below_total(es.drop_last(), n);
        let r = below(es.drop_last(), n);
        let e = es.last();
        if e.0.len() > 0 && e.0[0] == n {
            assert(r.push((e.0.drop_first(), e.1)).drop_last() =~= r);
        }
    }
}

proof fn lemma_first_frames_distinct(es: Seq<StackView>)
    ensures
        first_frames(es).no_duplicates(),
    decreases es.len(),
{
    if es.len() > 0 {
        lemma_first_frames_distinct(es.drop_last());
    }
}

proof fn lemma_first_frames_none(es: Seq<StackView>)
    requires
        forall|k: int| 0 <= k < es.len() ==> (#[trigger] es[k]).0.len() == 0,
    ensures
        first_frames(es).len() == 0,
    decreases es.len(),
{
    if es.len() > 0 {
        lemma_first_frames_none(es.drop_last());
    }
}

proof fn lemma_rank_in(fs: Seq<Seq<char>>, i: int)
    requires
        fs.no_duplicates(),
        0 <= i < fs.len(),
    ensures
        rank_in(fs, fs[i]) == i,
    decreases i,
{
    if i > 0 {
        let t = fs.drop_first();
        assert(t[i - 1] == fs[i]);
        lemma_rank_in(t, i - 1);
    }
}

// ─────────────────────────────── shape ───────────────────────────────

/// Sum of the totals of `cs`.
pub open spec fn child_sum(cs: Seq<TreeNode>) -> nat
    decreases cs.len(),
{
    if cs.len() == 0 {
        0
    } else {
        child_sum(cs.drop_last()) + cs.last().total_samples as nat
    }
}

/// At every node, the total is the node's own samples plus its children's
/// totals, sibling names differ, and children never gain samples from one
/// to the next.
pub open spec fn well_shaped(t: TreeNode) -> bool
    decreases t,
{
    let cs = t.children@;
    &&& t.total_samples == t.self_samples + child_sum(cs)
    &&& forall|i: int, j: int|
        #![trigger cs[i], cs[j]]
        0 <= i < j < cs.len() ==> cs[i].total_samples >= cs[j].total_samples && cs[i].name@
            != cs[j].name@
    &&& forall|i: int| 0 <= i < cs.len() ==> well_shaped(#[trigger] cs[i])
}

/// Sum of the sample counts of the stacks below each name of `ns`.
spec fn names_total(ns: Seq<Seq<char>>, es: Seq<StackView>) -> nat
    decreases ns.len(),
{
    if ns.len() == 0 {
        0
    } else {
        names_total(ns.drop_last(), es) + stacks_total(below(es, ns.last()))
    }
}

spec fn child_names(cs: Seq<TreeNode>) -> Seq<Seq<char>> {
    Seq::new(cs.len(), |i: int| cs[i].name@)
}

proof fn lemma_total_push(es: Seq<StackView>, e: StackView)
    ensures
        stacks_total(es.push(e)) == stacks_total(es) + e.1,
        leaf_total(es.push(e)) == leaf_total(es) + if e.0.len() == 0 {
            e.1
        } else {
            0
        },
{
    assert(es.push(e).drop_last() =~= es);
}

proof fn lemma_names_total_empty(ns: Seq<Seq<char>>)
    ensures
        names_total(ns, seq![]) == 0,
    decreases ns.len(),
{
    if ns.len() > 0 {
        lemma_names_total_empty(ns.drop_last());
    }
}

proof fn lemma_names_total_push(ns: Seq<Seq<char>>, es: Seq<StackView>, e: StackView)
    requires
        ns.no_duplicates(),
    ensures
        names_total(ns, es.push(e)) == names_total(ns, es) + if e.0.len() > 0 && ns.contains(
            e.0[0],
        ) {
            e.1
        } else {
            0
        },
    decreases ns.len(),
{
    assert(es.push(e).drop_last() =~= es);
    if ns.len() > 0 {
        let rest = ns.drop_last();
        let n = ns.last();
        assert(rest.no_duplicates());
        lemma_names_total_push(rest, es, e);
        let r = below(es, n);
        if e.0.len() > 0 && e.0[0] == n {
            lemma_total_push(r, (e.0.drop_first(), e.1));
            assert(!rest.contains(n));
        } else {
            if e.0.len() > 0 && ns.contains(e.0[0]) {
                let w = choose|w: int| 0 <= w < ns.len() && ns[w] == e.0[0];
                assert(rest[w] == e.0[0]);
            }
            if e.0.len() > 0 && rest.contains(e.0[0]) {
                let w = choose|w: int| 0 <= w < rest.len() && rest[w] == e.0[0];
                assert(ns[w] == e.0[0]);
            }
        }
    }
}

proof fn lemma_first_frames_grow(es: Seq<StackView>, e: StackView)
    ensures
        forall|f: Seq<char>| first_frames(es).contains(f) ==> first_frames(es.push(e)).contains(f),
        e.0.len() > 0 ==> first_frames(es.push(e)).contains(e.0[0]),
{
    assert(es.push(e).drop_last() =~= es);
    let f0 = first_frames(es);
    if e.0.len() > 0 && !f0.contains(e.0[0]) {
        assert(f0.push(e.0[0])[f0.len() as int] == e.0[0]);
        assert forall|f: Seq<char>| f0.contains(f) implies f0.push(e.0[0]).contains(f) by {
            let w = choose|w: int| 0 <= w < f0.len() && f0[w] == f;
            assert(f0.push(e.0[0])[w] == f);
        }
    }
}

proof fn lemma_names_cover(ns: Seq<Seq<char>>, es: Seq<StackView>)
    requires
        ns.no_duplicates(),
        forall|f: Seq<char>| first_frames(es).contains(f) ==> ns.contains(f),
    ensures
        names_total(ns, es) + leaf_total(es) == stacks_total(es),
    decreases es.len(),
{
    if es.len() == 0 {
        lemma_names_total_empty(ns);
        assert(es =~= seq![]);
    } else {
        let es0 = es.drop_last();
        let e = es.last();
        assert(es0.push(e) =~= es);
        lemma_first_frames_grow(es0, e);
        lemma_names_cover(ns, es0);
        lemma_names_total_push(ns, es0, e);
        lemma_total_push(es0, e);
    }
}

proof fn lemma_child_sum_names(cs: Seq<TreeNode>, es: Seq<StackView>)
    requires
        forall|i: int|
            0 <= i < cs.len() ==> (#[trigger] cs[i]).total_samples == stacks_total(
                below(es, cs[i].name@),
            ),
    ensures
        child_sum(cs) == names_total(child_names(cs), es),
    decreases cs.len(),
{
    if cs.len() > 0 {
        let rest = cs.drop_last();
        assert(child_names(cs).drop_last() =~= child_names(rest));
        lemma_child_sum_names(rest, es);
    }
}

/// The call tree of any stacks is well shaped: at every node the total is
/// the node's own samples plus its children's totals, and siblings are
/// distinct and in non-increasing order of total.
pub proof fn lemma_tree_well_shaped(t: TreeNode, es: Seq<StackView>)
    requires
        describes(t, es),
    ensures
        well_shaped(t),
    decreases t,
{
    let cs = t.children@;
    let fs = first_frames(es);
    let ns = child_names(cs);
    assert forall|i: int| 0 <= i < cs.len() implies (#[trigger] cs[i]).total_samples
        == stacks_total(below(es, cs[i].name@)) by {
        assert(describes(cs[i], below(es, cs[i].name@)));
    }
    lemma_child_sum_names(cs, es);
    assert(ns.no_duplicates()) by {
        assert forall|i: int, j: int| 0 <= i < ns.len() && 0 <= j < ns.len() && i != j implies ns[i]
            != ns[j] by {
            if i < j {
                assert(cs[i].name@ != cs[j].name@);
            } else {
                assert(cs[j].name@ != cs[i].name@);
            }
        }
    }
    lemma_first_frames_distinct(es);
    assert forall|f: Seq<char>| fs.contains(f) implies ns.contains(f) by {
        ns.unique_seq_to_set();
        fs.unique_seq_to_set();
        assert(ns.to_set().subset_of(fs.to_set())) by {
            assert forall|x: Seq<char>| ns.to_set().contains(x) implies fs.to_set().contains(x) by {
                let w = choose|w: int| 0 <= w < ns.len() && ns[w] == x;
                assert(fs.contains(cs[w].name@));
            }
        }
        vstd::set_lib::lemma_subset_equality(ns.to_set(), fs.to_set());
        assert(fs.to_set().contains(f));
    }
    lemma_names_cover(ns, es);
    assert forall|i: int| 0 <= i < cs.len() implies well_shaped(#[trigger] cs[i]) by {
        lemma_tree_well_shaped(cs[i], below(es, cs[i].name@));
    }
}

// ─────────────────────────────── reading ───────────────────────────────

/// A stack as read: its frames and its count.
struct Stack {
    frames: Vec<Vec<char>>,
    count: u64,
}

spec fn stack_view(s: Stack) -> StackView {
    (views(s.frames@), s.count as nat)
}

spec fn stacks_view(v: Seq<Stack>) -> Seq<StackView> {
    v.map_values(|s: Stack| stack_view(s))
}

/// The stacks of the entries `idxs` of `es`, with their first `d` frames
/// dropped.
spec fn rel_view(es: Seq<StackView>, idxs: Seq<usize>, d: int) -> Seq<StackView> {
    Seq::new(idxs.len(), |k: int| (es[idxs[k] as int].0.skip(d), es[idxs[k] as int].1))
}

fn last_space_exec(v: &[char]) -> (r: Option<usize>)
    ensures
        match r {
            Some(k) => last_space(v@) == k as int,
            None => last_space(v@) == -1,
        },
{
    let mut i = v.len();
    while i > 0 && v[i - 1] != ' '
        invariant
            i <= v@.len(),
            forall|j: int| i <= j < v@.len() ==> v@[j] != ' ',
        decreases i,
    {
        i -= 1;
    }
    proof {
        lemma_last_space(v@, i as int);
        if i > 0 {
            assert(v@.take(i as int).last() == ' ');
        } else {
            assert(v@.take(0) =~= Seq::<char>::empty());
        }
    }
    if i == 0 {
        None
    } else {
        Some(i - 1)
    }
}

fn split_exec(v: &[char], c: char) -> (r: Vec<Vec<char>>)
    ensures
        views(r@) == split_at_char(v@, c),
{
    let mut out: Vec<Vec<char>> = Vec::new();
    let mut start: usize = 0;
    assert(v@.subrange(0, v@.len() as int) =~= v@);
    assert(views(out@) =~= Seq::<Seq<char>>::empty());
    loop
        invariant
            start <= v@.len(),
            split_at_char(v@, c) == views(out@) + split_at_char(
                v@.subrange(start as int, v@.len() as int),
                c,
            ),
        decreases v@.len() - start,
    {
        let ghost s = v@.subrange(start as int, v@.len() as int);
        let k = crate::text::index_of(v, c, start);
        proof {
            crate::text::lemma_index_of_from_char(s, c, 0, k - start);
        }
        let piece = slice_of(v, start, k);
        out.push(piece);
        assert(views(out@) =~= views(out@.drop_last()).push(piece@));
        if k == v.len() {
            proof {
                assert(s.take(s.len() as int) =~= s);
                assert(piece@ =~= s);
                assert(split_at_char(s, c) == seq![s]);
                assert(views(out@) =~= views(out@.drop_last()) + seq![s]);
            }
            return out;
        }
        proof {
            let first = s.take(k - start);
            assert(first =~= piece@);
            let rest = split_at_char(s.skip(k - start + 1), c);
            assert(split_at_char(s, c) == seq![first] + rest);
            assert(s.skip(k - start + 1) =~= v@.subrange(k + 1, v@.len() as int));
            assert(views(out@.drop_last()) + (seq![first] + rest) =~= views(out@) + rest);
        }
        start = k + 1;
    }
}

fn parse_stack_line(line: &[char]) -> (r: Option<Stack>)
    ensures
        match r {
            Some(s) => stack_line(line@) == Some(stack_view(s)),
            None => stack_line(line@) is None,
        },
{
    let t = trimmed(line);
    if t.len() == 0 {
        return None;
    }
    match last_space_exec(&t) {
        None => None,
        Some(k) => {
            proof {
                lemma_last_space_bounds(t@);
            }
            let n = t.len();
            match crate::num::parse_u64_in(&t, k + 1, n) {
                None => {
                    assert(t@.subrange(k + 1, n as int) =~= t@.skip(k + 1));
                    None
                },
                Some(count) => {
                    assert(t@.subrange(k + 1, n as int) =~= t@.skip(k + 1));
                    let stack = slice_of(&t, 0, k);
                    assert(stack@ =~= t@.take(k as int));
                    let frames = split_exec(&stack, ';');
                    Some(Stack { frames, count })
                },
            }
        },
    }
}

fn read_stacks(text: &str) -> (r: Vec<Stack>)
    ensures
        stacks_view(r@) == collapsed_stacks(text@),
{
    let chars = chars_of(text);
    let ls = lines_of(&chars);
    let mut out: Vec<Stack> = Vec::new();
    let n = ls.len();
    let mut i: usize = 0;
    assert(views(ls@).take(0) =~= Seq::<Seq<char>>::empty());
    assert(stacks_view(out@) =~= Seq::<StackView>::empty());
    while i < n
        invariant
            n == ls@.len(),
            i <= n,
            views(ls@) == lines(text@),
            stacks_view(out@) == stack_entries(views(ls@).take(i as int)),
        decreases n - i,
    {
        let ghost pre = views(ls@).take(i as int);
        let ghost cur = views(ls@).take(i + 1);
        assert(cur.drop_last() =~= pre);
        assert(cur.last() == ls@[i as int]@);
        match parse_stack_line(&ls[i]) {
            Some(s) => {
                out.push(s);
                assert(stacks_view(out@) =~= stacks_view(out@.drop_last()).push(stack_view(s)));
            },
            None => {},
        }
        i += 1;
    }
    assert(views(ls@).take(n as int) =~= views(ls@));
    out
}

// ─────────────────────────────── building ───────────────────────────────

fn chars_eq(a: &[char], b: &[char]) -> (r: bool)
    ensures
        r == (a@ == b@),
{
    if a.len() != b.len() {
        return false;
    }
    let ok = crate::text::matches_at(a, b, 0);
    proof {
        if ok {
            assert(a@.subrange(0, b@.len() as int) =~= a@);
        } else {
            assert(a@.subrange(0, b@.len() as int) =~= a@);
        }
    }
    ok
}

fn sum_counts(es: &Vec<Stack>, idxs: &Vec<usize>, d: usize) -> (r: (u64, u64))
    requires
        forall|k: int| 0 <= k < idxs@.len() ==> (#[trigger] idxs@[k]) < es@.len(),
        forall|k: int|
            0 <= k < idxs@.len() ==> (#[trigger] es@[idxs@[k] as int]).frames@.len() >= d,
        stacks_total(rel_view(stacks_view(es@), idxs@, d as int)) <= u64::MAX,
    ensures
        r.0 == stacks_total(rel_view(stacks_view(es@), idxs@, d as int)),
        r.1 == leaf_total(rel_view(stacks_view(es@), idxs@, d as int)),
{
    let ghost rel = rel_view(stacks_view(es@), idxs@, d as int);
    let mut tot: u64 = 0;
    let mut leaf: u64 = 0;
    let mut k: usize = 0;
    assert(rel.take(0) =~= Seq::<StackView>::empty());
    while k < idxs.len()
        invariant
            rel == rel_view(stacks_view(es@), idxs@, d as int),
            k <= idxs@.len(),
            forall|j: int| 0 <= j < idxs@.len() ==> (#[trigger] idxs@[j]) < es@.len(),
            forall|j: int|
                0 <= j < idxs@.len() ==> (#[trigger] es@[idxs@[j] as int]).frames@.len() >= d,
            stacks_total(rel) <= u64::MAX,
            tot == stacks_total(rel.take(k as int)),
            leaf == leaf_total(rel.take(k as int)),
        decreases idxs@.len() - k,
    {
        let s = &es[idxs[k]];
        proof {
            assert(rel.take(k + 1).drop_last() =~= rel.take(k as int));
            lemma_total_prefix(rel, k + 1);
            lemma_total_prefix(rel.take(k + 1), 0);
            assert(rel[k as int].1 == s.count);
            assert(rel[k as int].0.len() == s.frames@.len() - d);
        }
        tot = tot + s.count;
        if s.frames.len() == d {
            leaf = leaf + s.count;
        }
        k += 1;
    }
    assert(rel.take(k as int) =~= rel);
    (tot, leaf)
}

fn first_frames_exec(es: &Vec<Stack>, idxs: &Vec<usize>, d: usize) -> (r: Vec<Vec<char>>)
    requires
        forall|k: int| 0 <= k < idxs@.len() ==> (#[trigger] idxs@[k]) < es@.len(),
        forall|k: int|
            0 <= k < idxs@.len() ==> (#[trigger] es@[idxs@[k] as int]).frames@.len() >= d,
    ensures
        views(r@) == first_frames(rel_view(stacks_view(es@), idxs@, d as int)),
{
    let ghost rel = rel_view(stacks_view(es@), idxs@, d as int);
    let mut fs: Vec<Vec<char>> = Vec::new();
    let mut k: usize = 0;
    assert(rel.take(0) =~= Seq::<StackView>::empty());
    assert(views(fs@) =~= Seq::<Seq<char>>::empty());
    while k < idxs.len()
        invariant
            rel == rel_view(stacks_view(es@), idxs@, d as int),
            k <= idxs@.len(),
            forall|j: int| 0 <= j < idxs@.len() ==> (#[trigger] idxs@[j]) < es@.len(),
            forall|j: int|
                0 <= j < idxs@.len() ==> (#[trigger] es@[idxs@[j] as int]).frames@.len() >= d,
            views(fs@) == first_frames(rel.take(k as int)),
        decreases idxs@.len() - k,
    {
        let s = &es[idxs[k]];
        proof {
            assert(rel.take(k + 1).drop_last() =~= rel.take(k as int));
            assert(rel.take(k + 1).last() == rel[k as int]);
            assert(rel[k as int].0 == views(s.frames@).skip(d as int));
        }
        if s.frames.len() > d {
            let f = &s.frames[d];
            assert(rel[k as int].0[0] == f@);
            let mut m: usize = 0;
            let mut found = false;
            while m < fs.len()
                invariant
                    m <= fs@.len(),
                    !found ==> forall|j: int| 0 <= j < m ==> views(fs@)[j] != f@,
                    found ==> views(fs@).contains(f@),
                decreases fs@.len() - m,
            {
                if chars_eq(&fs[m], f) {
                    found = true;
                    assert(views(fs@)[m as int] == f@);
                }
                m += 1;
            }
            if !found {
                let g = slice_of(f, 0, f.len());
                assert(g@ =~= f@);
                fs.push(g);
                assert(views(fs@) =~= views(fs@.drop_last()).push(f@));
            }
        }
        k += 1;
    }
    assert(rel.take(k as int) =~= rel);
    fs
}

fn stacks_below(es: &Vec<Stack>, idxs: &Vec<usize>, d: usize, name: &[char]) -> (r: Vec<usize>)
    requires
        forall|k: int| 0 <= k < idxs@.len() ==> (#[trigger] idxs@[k]) < es@.len(),
        forall|k: int|
            0 <= k < idxs@.len() ==> (#[trigger] es@[idxs@[k] as int]).frames@.len() >= d,
    ensures
        forall|k: int| 0 <= k < r@.len() ==> (#[trigger] r@[k]) < es@.len(),
        forall|k: int|
            0 <= k < r@.len() ==> (#[trigger] es@[r@[k] as int]).frames@.len() > d,
        rel_view(stacks_view(es@), r@, d + 1) == below(
            rel_view(stacks_view(es@), idxs@, d as int),
            name@,
        ),
{
    let ghost rel = rel_view(stacks_view(es@), idxs@, d as int);
    let mut out: Vec<usize> = Vec::new();
    let mut k: usize = 0;
    assert(rel.take(0) =~= Seq::<StackView>::empty());
    assert(rel_view(stacks_view(es@), out@, d + 1) =~= Seq::<StackView>::empty());
    while k < idxs.len()
        invariant
            rel == rel_view(stacks_view(es@), idxs@, d as int),
            k <= idxs@.len(),
            forall|j: int| 0 <= j < idxs@.len() ==> (#[trigger] idxs@[j]) < es@.len(),
            forall|j: int|
                0 <= j < idxs@.len() ==> (#[trigger] es@[idxs@[j] as int]).frames@.len() >= d,
            forall|j: int| 0 <= j < out@.len() ==> (#[trigger] out@[j]) < es@.len(),
            forall|j: int|
                0 <= j < out@.len() ==> (#[trigger] es@[out@[j] as int]).frames@.len() > d,
            rel_view(stacks_view(es@), out@, d + 1) == below(rel.take(k as int), name@),
        decreases idxs@.len() - k,
    {
        let i = idxs[k];
        let s = &es[i];
        let ghost e = rel[k as int];
        proof {
            assert(rel.take(k + 1).drop_last() =~= rel.take(k as int));
            assert(rel.take(k + 1).last() == e);
            assert(e.0 == views(s.frames@).skip(d as int));
        }
        if s.frames.len() > d && chars_eq(&s.frames[d], name) {
            let ghost before = rel_view(stacks_view(es@), out@, d + 1);
            out.push(i);
            proof {
                assert(e.0[0] == name@);
                assert(e.0.drop_first() =~= views(s.frames@).skip(d + 1));
                assert(rel_view(stacks_view(es@), out@, d + 1) =~= before.push(
                    (e.0.drop_first(), e.1),
                ));
            }
        } else {
            proof {
                if e.0.len() > 0 {
                    assert(e.0[0] == s.frames@[d as int]@);
                }
            }
        }
        k += 1;
    }
    assert(rel.take(k as int) =~= rel);
    out
}

fn build_node(es: &Vec<Stack>, idxs: &Vec<usize>, d: usize, bound: usize, name: String) -> (r:
    TreeNode)
    requires
        d <= bound,
        forall|k: int| 0 <= k < idxs@.len() ==> (#[trigger] idxs@[k]) < es@.len(),
        forall|k: int|
            0 <= k < idxs@.len() ==> (#[trigger] es@[idxs@[k] as int]).frames@.len() >= d,
        forall|i: int| 0 <= i < es@.len() ==> (#[trigger] es@[i]).frames@.len() <= bound,
        stacks_total(rel_view(stacks_view(es@), idxs@, d as int)) <= u64::MAX,
    ensures
        r.name@ == name@,
        describes(r, rel_view(stacks_view(es@), idxs@, d as int)),
    decreases bound - d,
{
    let ghost rel = rel_view(stacks_view(es@), idxs@, d as int);
    let (tot, leaf) = sum_counts(es, idxs, d);
    let fs = first_frames_exec(es, idxs, d);
    let ghost fsv = views(fs@);
    proof {
        lemma_first_frames_distinct(rel);
    }
    let mut out: Vec<TreeNode> = Vec::new();
    let ghost mut rk: Seq<int> = Seq::empty();
    if d < bound {
        let mut j: usize = 0;
        while j < fs.len()
            invariant
                d < bound,
                rel == rel_view(stacks_view(es@), idxs@, d as int),
                fsv == views(fs@),
                fsv == first_frames(rel),
                fsv.no_duplicates(),
                forall|k: int| 0 <= k < idxs@.len() ==> (#[trigger] idxs@[k]) < es@.len(),
                forall|k: int|
                    0 <= k < idxs@.len() ==> (#[trigger] es@[idxs@[k] as int]).frames@.len()
                        >= d,
                forall|i: int| 0 <= i < es@.len() ==> (#[trigger] es@[i]).frames@.len() <= bound,
                stacks_total(rel) <= u64::MAX,
                j <= fs@.len(),
                out@.len() == j,
                rk.len() == j,
                forall|i: int| 0 <= i < j ==> 0 <= #[trigger] rk[i] < j,
                forall|i: int| 0 <= i < j ==> fsv[#[trigger] rk[i]] == out@[i].name@,
                forall|i: int|
                    0 <= i < j ==> describes(#[trigger] out@[i], below(rel, out@[i].name@)),
                forall|a: int, b: int| #![trigger rk[a], rk[b]] 0 <= a < b < j ==> rk[a] != rk[b],
                forall|a: int, b: int|
                    #![trigger out@[a], out@[b]]
                    0 <= a < b < j ==> out@[a].total_samples > out@[b].total_samples || (
                    out@[a].total_samples == out@[b].total_samples && rk[a] < rk[b]),
            decreases fs@.len() - j,
        {
            let sub = stacks_below(es, idxs, d, &fs[j]);
            proof {
                lemma_below_total(rel, fsv[j as int]);
            }
            let child = build_node(es, &sub, d + 1, bound, string_of(&fs[j]));
            let mut p: usize = 0;
            while p < out.len() && out[p].total_samples >= child.total_samples
                invariant
                    p <= out@.len(),
                    forall|i: int| 0 <= i < p ==> (#[trigger] out@[i]).total_samples
                        >= child.total_samples,
                decreases out@.len() - p,
            {
                p += 1;
            }
            let ghost old_out = out@;
            let ghost old_rk = rk;
            out.insert(p, child);
            proof {
                rk = old_rk.insert(p as int, j as int);
                assert forall|i: int| 0 <= i < j + 1 implies 0 <= #[trigger] rk[i] < j + 1 by {
                    if i < p {
                        assert(rk[i] == old_rk[i]);
                    } else if i > p {
                        assert(rk[i] == old_rk[i - 1]);
                    }
                }
                assert forall|i: int| 0 <= i < j + 1 implies fsv[#[trigger] rk[i]]
                    == out@[i].name@ by {
                    if i < p {
                        assert(rk[i] == old_rk[i]);
                        assert(out@[i] == old_out[i]);
                    } else if i > p {
                        assert(rk[i] == old_rk[i - 1]);
                        assert(out@[i] == old_out[i - 1]);
                    }
                }
                assert forall|i: int| 0 <= i < j + 1 implies describes(
                    #[trigger] out@[i],
                    below(rel, out@[i].name@),
                ) by {
                    if i < p {
                        assert(out@[i] == old_out[i]);
                    } else if i > p {
                        assert(out@[i] == old_out[i - 1]);
                    }
                }
                assert forall|a: int, b: int| 0 <= a < b < j + 1 implies #[trigger] rk[a]
                    != #[trigger] rk[b] by {
                    if a < p {
                        assert(rk[a] == old_rk[a]);
                    } else if a > p {
                        assert(rk[a] == old_rk[a - 1]);
                    }
                    if b < p {
                        assert(rk[b] == old_rk[b]);
                    } else if b > p {
                        assert(rk[b] == old_rk[b - 1]);
                    }
                }
                assert forall|a: int, b: int| 0 <= a < b < j + 1 implies #[trigger] out@[a].total_samples
                    > #[trigger] out@[b].total_samples || (out@[a].total_samples
                    == out@[b].total_samples && rk[a] < rk[b]) by {
                    if a < p {
                        assert(rk[a] == old_rk[a]);
                        assert(out@[a] == old_out[a]);
                    } else if a > p {
                        assert(rk[a] == old_rk[a - 1]);
                        assert(out@[a] == old_out[a - 1]);
                    }
                    if b < p {
                        assert(rk[b] == old_rk[b]);
                        assert(out@[b] == old_out[b]);
                    } else if b > p {
                        assert(rk[b] == old_rk[b - 1]);
                        assert(out@[b] == old_out[b - 1]);
                        if p < old_out.len() {
                            assert(old_out[p as int].total_samples < out@[p as int].total_samples);
                            if b - 1 > p {
                                assert(old_out[p as int].total_samples >= old_out[b
                                    - 1].total_samples);
                            }
                        }
                    }
                }
            }
            j += 1;
        }
    } else {
        proof {
            assert forall|k: int| 0 <= k < rel.len() implies (#[trigger] rel[k]).0.len() == 0 by {
                assert(es@[idxs@[k] as int].frames@.len() <= bound);
            }
            lemma_first_frames_none(rel);
        }
    }
    proof {
        assert forall|i: int| 0 <= i < out@.len() implies rank_in(fsv, #[trigger] out@[i].name@)
            == rk[i] by {
            lemma_rank_in(fsv, rk[i]);
        }
        let cs = out@;
        assert forall|i: int| 0 <= i < cs.len() implies fsv.contains(#[trigger] cs[i].name@) by {
            assert(fsv[rk[i]] == cs[i].name@);
        }
        assert forall|a: int, b: int| #![trigger cs[a], cs[b]] 0 <= a < b < cs.len() implies cs[a].name@
            != cs[b].name@ && comes_before(cs[a], cs[b], fsv) by {
            assert(rank_in(fsv, cs[a].name@) == rk[a]);
            assert(rank_in(fsv, cs[b].name@) == rk[b]);
            assert(rk[a] != rk[b]);
        }
    }
    TreeNode { name, self_samples: leaf, total_samples: tot, children: out }
}

/// Every stack read from a line has at least one frame (`split` never
/// gives an empty list).
proof fn lemma_entries_have_frames(ls: Seq<Seq<char>>)
    ensures
        forall|i: int|
            0 <= i < stack_entries(ls).len() ==> (#[trigger] stack_entries(ls)[i]).0.len() > 0,
    decreases ls.len(),
{
    if ls.len() > 0 {
        lemma_entries_have_frames(ls.drop_last());
        let prev = stack_entries(ls.drop_last());
        match stack_line(ls.last()) {
            Some(e) => {
                let t = trim(ls.last());
                let k = last_space(t);
                assert(e.0 == split_at_char(t.take(k), ';'));
                assert(split_at_char(t.take(k), ';').len() > 0);
                assert forall|i: int| 0 <= i < prev.push(e).len() implies (#[trigger] prev.push(
                    e,
                )[i]).0.len() > 0 by {
                    if i < prev.len() {
                        assert(prev.push(e)[i] == prev[i]);
                    }
                }
            },
            None => {},
        }
    }
}

/// Stacks that all have a frame leave no samples at the node they start from.
proof fn lemma_leaf_total_zero(es: Seq<StackView>)
    requires
        forall|i: int| 0 <= i < es.len() ==> (#[trigger] es[i]).0.len() > 0,
    ensures
        leaf_total(es) == 0,
    decreases es.len(),
{
    if es.len() > 0 {
        let f = es.drop_last();
        assert forall|i: int| 0 <= i < f.len() implies (#[trigger] f[i]).0.len() > 0 by {
            assert(f[i] == es[i]);
        }
        lemma_leaf_total_zero(f);
        assert(es.last() == es[es.len() - 1]);
    }
}

/// The call tree of a collapsed-stack text, as a one-element vector holding
/// the root `(all)`.
pub fn collapsed_to_tree(collapsed: &str) -> (r: Vec<TreeNode>)
    requires
        stacks_total(collapsed_stacks(collapsed@)) <= u64::MAX,
    ensures
        r@.len() == 1,
        r@[0].name@ == seq!['(', 'a', 'l', 'l', ')'],
        r@[0].total_samples == stacks_total(collapsed_stacks(collapsed@)),
        r@[0].self_samples == 0,
        describes(r@[0], collapsed_stacks(collapsed@)),
        well_shaped(r@[0]),
{
    let es = read_stacks(collapsed);
    let ghost ev = stacks_view(es@);
    let n = es.len();
    let mut bound: usize = 0;
    let mut idxs: Vec<usize> = Vec::new();
    let mut i: usize = 0;
    while i < n
        invariant
            n == es@.len(),
            i <= n,
            idxs@.len() == i,
            forall|k: int| 0 <= k < i ==> (#[trigger] idxs@[k]) == k,
            forall|k: int| 0 <= k < i ==> (#[trigger] es@[k]).frames@.len() <= bound,
        decreases n - i,
    {
        if es[i].frames.len() > bound {
            bound = es[i].frames.len();
        }
        idxs.push(i);
        i += 1;
    }
    proof {
        assert forall|k: int| 0 <= k < ev.len() implies #[trigger] rel_view(ev, idxs@, 0)[k]
            == ev[k] by {
            assert(ev[k].0.skip(0) =~= ev[k].0);
        }
        assert(rel_view(ev, idxs@, 0) =~= ev);
    }
    let root = build_node(&es, &idxs, 0, bound, "(all)".to_string());
    proof {
        reveal_strlit("(all)");
        lemma_tree_well_shaped(root, ev);
        lemma_entries_have_frames(lines(collapsed@));
        lemma_leaf_total_zero(ev);
    }
    vec![root]
}

// ─────────────────────────────── flattening ───────────────────────────────

/// One row of the call tree laid out for display.
#[derive(Debug, Clone)]
pub struct FlatProfileLine {
    pub depth: usize,
    pub name: String,
    /// The node's share of all samples, in millionths of a percent.
    pub total_pct: u128,
    /// The node's own share of all samples, in millionths of a percent.
    pub self_pct: u128,
    pub total_samples: u64,
    pub self_samples: u64,
}

/// A display row as the contracts see it.
pub struct FlatLineView {
    pub depth: int,
    pub name: Seq<char>,
    pub total_pct: int,
    pub self_pct: int,
    pub total_samples: int,
    pub self_samples: int,
}

impl View for FlatProfileLine {
    type V = FlatLineView;

    open spec fn view(&self) -> FlatLineView {
        FlatLineView {
            depth: self.depth as int,
            name: self.name@,
            total_pct: self.total_pct as int,
            self_pct: self.self_pct as int,
            total_samples: self.total_samples as int,
            self_samples: self.self_samples as int,
        }
    }
}

pub open spec fn flat_views(v: Seq<FlatProfileLine>) -> Seq<FlatLineView> {
    v.map_values(|l: FlatProfileLine| l@)
}

/// `n` samples of `total`, in millionths of a percent (rounded down); no
/// share at all of an empty total.
pub open spec fn sample_share(n: int, total: int) -> int {
    if total > 0 {
        n * 100_000_000 / total
    } else {
        0
    }
}

/// The display row of one node.
pub open spec fn node_line(t: TreeNode, depth: int, total: int) -> FlatLineView {
    FlatLineView {
        depth,
        name: t.name@,
        total_pct: sample_share(t.total_samples as int, total),
        self_pct: sample_share(t.self_samples as int, total),
        total_samples: t.total_samples as int,
        self_samples: t.self_samples as int,
    }
}

/// The rows of a subtree, in pre-order: the node, then each child's
/// subtree one level deeper.
pub open spec fn flat_lines(t: TreeNode, depth: int, total: int) -> Seq<FlatLineView>
    decreases t, t.children@.len() + 1,
{
    seq![node_line(t, depth, total)] + flat_kids(t, t.children@.len() as int, depth + 1, total)
}

/// The rows of the subtrees of the first `k` children of `t`.
pub open spec fn flat_kids(t: TreeNode, k: int, depth: int, total: int) -> Seq<FlatLineView>
    decreases t, k,
{
    if k <= 0 || k > t.children@.len() {
        seq![]
    } else {
        flat_kids(t, k - 1, depth, total) + flat_lines(t.children@[k - 1], depth, total)
    }
}

/// The number of levels below a node.
pub open spec fn tree_depth(t: TreeNode) -> nat
    decreases t, t.children@.len() + 1,
{
    kids_depth(t, t.children@.len() as int)
}

/// The number of levels below the deepest of the first `k` children of
/// `t`, counting the step to the child.
pub open spec fn kids_depth(t: TreeNode, k: int) -> nat
    decreases t, k,
{
    if k <= 0 || k > t.children@.len() {
        0
    } else {
        let a = kids_depth(t, k - 1);
        let b = tree_depth(t.children@[k - 1]) + 1;
        if a >= b {
            a
        } else {
            b
        }
    }
}

proof fn lemma_kids_depth(t: TreeNode, k: int, i: int)
    requires
        0 <= i < k <= t.children@.len(),
    ensures
        tree_depth(t.children@[i]) + 1 <= kids_depth(t, k),
    decreases k,
{
    if i < k - 1 {
        lemma_kids_depth(t, k - 1, i);
    }
}

fn share_of(n: u64, total: u64) -> (r: u128)
    ensures
        r as int == sample_share(n as int, total as int),
{
    if total > 0 {
        (n as u128) * 100_000_000 / (total as u128)
    } else {
        0
    }
}

impl TreeNode {
    /// The rows of this subtree in pre-order, this node at `depth`, each
    /// share taken of `total_root` samples.
    pub fn flatten(&self, depth: usize, total_root: u64) -> (r: Vec<FlatProfileLine>)
        requires
            depth + tree_depth(*self) <= usize::MAX,
        ensures
            flat_views(r@) == flat_lines(*self, depth as int, total_root as int),
        decreases *self,
    {
        let mut lines: Vec<FlatProfileLine> = Vec::new();
        lines.push(
            FlatProfileLine {
                depth,
                name: self.name.clone(),
                total_pct: share_of(self.total_samples, total_root),
                self_pct: share_of(self.self_samples, total_root),
                total_samples: self.total_samples,
                self_samples: self.self_samples,
            },
        );
        let ghost head = seq![node_line(*self, depth as int, total_root as int)];
        assert(flat_views(lines@) =~= head);
        let n = self.children.len();
        let mut i: usize = 0;
        while i < n
            invariant
                n == self.children@.len(),
                i <= n,
                depth + tree_depth(*self) <= usize::MAX,
                head == seq![node_line(*self, depth as int, total_root as int)],
                flat_views(lines@) == head + flat_kids(*self, i as int, depth + 1, total_root as int),
            decreases n - i,
        {
            proof {
                lemma_kids_depth(*self, n as int, i as int);
            }
            let mut sub = self.children[i].flatten(depth + 1, total_root);
            let ghost before = lines@;
            let ghost added = sub@;
            lines.append(&mut sub);
            proof {
                assert(flat_views(lines@) =~= flat_views(before) + flat_views(added));
            }
            proof {
                assert(flat_kids(*self, i + 1, depth + 1, total_root as int) == flat_kids(
                    *self,
                    i as int,
                    depth + 1,
                    total_root as int,
                ) + flat_lines(self.children@[i as int], depth + 1, total_root as int));
                assert(flat_views(lines@) =~= head + flat_kids(*self, i + 1, depth + 1, total_root as int));
            }
            i += 1;
        }
        lines
    }
}

// ─────────────────────────────── sessions ───────────────────────────────

/// What went wrong with a profiling session.
#[derive(Debug)]
pub enum ProfilerError {
    NotAvailable,
    AlreadyRunning,
    RecordingFailed(String),
    BrowserFailed(String),
    JolokiaError(String),
    Io(std::io::Error),
}

/// What a profiling session samples.
#[derive(Debug, Clone, Copy, PartialEq, Eq, Structural)]
pub enum ProfileEvent {
    /// CPU time: where is time spent?
    Cpu,
    /// Allocations: what allocates the most?
    Alloc,
    /// Wall-clock time, blocked and waiting time included.
    Wall,
    /// Lock contention.
    Lock,
}

/// async-profiler's name of an event.
pub open spec fn event_name(e: ProfileEvent) -> Seq<char> {
    match e {
        ProfileEvent::Cpu => seq!['c', 'p', 'u'],
        ProfileEvent::Alloc => seq!['a', 'l', 'l', 'o', 'c'],
        ProfileEvent::Wall => seq!['w', 'a', 'l', 'l'],
        ProfileEvent::Lock => seq!['l', 'o', 'c', 'k'],
    }
}

impl ProfileEvent {
    /// async-profiler's name of the event ("cpu", "alloc", "wall", "lock").
    pub fn as_str(&self) -> (r: &'static str)
        ensures
            r@ == event_name(*self),
    {
        proof {
            reveal_strlit("cpu");
            reveal_strlit("alloc");
            reveal_strlit("wall");
            reveal_strlit("lock");
        }
        match self {
            ProfileEvent::Cpu => "cpu",
            ProfileEvent::Alloc => "alloc",
            ProfileEvent::Wall => "wall",
            ProfileEvent::Lock => "lock",
        }
    }
}

/// The file format a session writes.
#[derive(Debug, Clone, Copy, PartialEq, Eq, Structural)]
pub enum OutputFormat {
    /// Self-contained interactive HTML flame graph.
    Html,
    /// Collapsed stacks.
    Collapsed,
    /// Java Flight Recorder file.
    Jfr,
}

/// File extension of a format.
pub open spec fn format_extension(f: OutputFormat) -> Seq<char> {
    match f {
        OutputFormat::Html => seq!['h', 't', 'm', 'l'],
        OutputFormat::Collapsed => seq!['c', 'o', 'l', 'l', 'a', 'p', 's', 'e', 'd'],
        OutputFormat::Jfr => seq!['j', 'f', 'r'],
    }
}

impl OutputFormat {
    /// File extension of the format ("html", "collapsed", "jfr").
    pub fn extension(&self) -> (r: &'static str)
        ensures
            r@ == format_extension(*self),
    {
        proof {
            reveal_strlit("html");
            reveal_strlit("collapsed");
            reveal_strlit("jfr");
        }
        match self {
            OutputFormat::Html => "html",
            OutputFormat::Collapsed => "collapsed",
            OutputFormat::Jfr => "jfr",
        }
    }
}

/// Where a profiling session stands.
#[derive(Debug, Clone, PartialEq, Eq)]
pub enum ProfileStatus {
    Idle,
    Recording { event: ProfileEvent, elapsed_secs: u64, total_secs: u64 },
    Processing,
    Complete { output_path: String },
    Error(String),
}

/// Settings of a profiling session.
#[derive(Debug, Clone)]
pub struct ProfileConfig {
    pub event: ProfileEvent,
    pub duration_secs: u64,
    pub output_format: OutputFormat,
    /// PID of the JVM to profile with a local `asprof`.
    pub target_pid: Option<u32>,
    /// Directory that receives the output files.
    pub output_dir: String,
}

/// `PathBuf::join` of a relative name onto a directory: a `/` goes between
/// them unless the directory is empty or already ends in one.
pub open spec fn join_path(dir: Seq<char>, name: Seq<char>) -> Seq<char> {
    if dir.len() == 0 {
        name
    } else if dir.last() == '/' {
        dir + name
    } else {
        dir + seq!['/'] + name
    }
}

/// The directory under the system's temporary directory that receives
/// profiles.
pub open spec fn profiles_dir(temp_dir: Seq<char>) -> Seq<char> {
    join_path(
        temp_dir,
        seq!['d', 'r', 'i', 's', 'h', 't', 'i', '-', 'p', 'r', 'o', 'f', 'i', 'l', 'e', 's'],
    )
}

fn join_exec(dir: &str, name: &str) -> (r: String)
    ensures
        r@ == join_path(dir@, name@),
{
    let mut s = String::from_str(dir);
    let d = chars_of(dir);
    if d.len() > 0 && d[d.len() - 1] != '/' {
        s.append("/");
        proof {
            reveal_strlit("/");
        }
    }
    s.append(name);
    s
}

impl ProfileConfig {
    /// The default settings, with output under the temporary directory
    /// `temp_dir`: CPU, 30 seconds, an HTML flame graph, no PID.
    pub fn default_in(temp_dir: &str) -> (r: ProfileConfig)
        ensures
            r.event == ProfileEvent::Cpu,
            r.duration_secs == 30,
            r.output_format == OutputFormat::Html,
            r.target_pid is None,
            r.output_dir@ == profiles_dir(temp_dir@),
    {
        let dir = join_exec(temp_dir, "drishti-profiles");
        proof {
            reveal_strlit("drishti-profiles");
        }
        ProfileConfig {
            event: ProfileEvent::Cpu,
            duration_secs: 30,
            output_format: OutputFormat::Html,
            target_pid: None,
            output_dir: dir,
        }
    }
}

/// Name of the output file of a session whose local start time reads
/// `stamp`: `drishti_<event>_<stamp>.<extension>`.
pub open spec fn profile_file_name(c: ProfileConfig, stamp: Seq<char>) -> Seq<char> {
    seq!['d', 'r', 'i', 's', 'h', 't', 'i', '_'] + event_name(c.event) + seq!['_'] + stamp + seq![
        '.',
    ] + format_extension(c.output_format)
}

/// Path of the output file of a session whose local start time reads `stamp`.
pub open spec fn profile_output_path(c: ProfileConfig, stamp: Seq<char>) -> Seq<char> {
    join_path(c.output_dir@, profile_file_name(c, stamp))
}

/// async-profiler's command that starts a session.
pub open spec fn start_command_text(c: ProfileConfig, stamp: Seq<char>) -> Seq<char> {
    seq!['s', 't', 'a', 'r', 't', ',', 'e', 'v', 'e', 'n', 't', '='] + event_name(c.event) + seq![
        ',',
        'f',
        'i',
        'l',
        'e',
        '=',
    ] + profile_output_path(c, stamp) + seq![
        ',',
        'f',
        'l',
        'a',
        'm',
        'e',
        'g',
        'r',
        'a',
        'p',
        'h',
    ]
}

/// async-profiler's command that stops a session.
pub open spec fn stop_command_text(c: ProfileConfig, stamp: Seq<char>) -> Seq<char> {
    seq!['s', 't', 'o', 'p', ',', 'f', 'i', 'l', 'e', '='] + profile_output_path(c, stamp)
}

/// The `asprof` command line that profiles `pid` locally.
pub open spec fn asprof_args(c: ProfileConfig, stamp: Seq<char>, pid: u32) -> Seq<Seq<char>> {
    seq![
        seq!['a', 's', 'p', 'r', 'o', 'f'],
        seq!['-', 'd'],
        crate::num::int_text(c.duration_secs as int),
        seq!['-', 'e'],
        event_name(c.event),
        seq!['-', 'f'],
        profile_output_path(c, stamp),
        crate::num::int_text(pid as int),
    ]
}

/// The local time, as `chrono::Local::now().format("%Y%m%d_%H%M%S")`
/// writes it. Nothing is promised of the text: it depends on the clock and
/// the time zone.
#[verifier::external_body]
fn local_stamp() -> String {
    chrono::Local::now().format("%Y%m%d_%H%M%S").to_string()
}

/// Profiling sessions and their settings.
pub struct ProfileManager {
    pub status: ProfileStatus,
    pub config: ProfileConfig,
    pub last_output: Option<String>,
}

impl ProfileManager {
    /// An idle manager with the default settings under `temp_dir`.
    pub fn new(temp_dir: &str) -> (r: ProfileManager)
        ensures
            r.status == ProfileStatus::Idle,
            r.config.event == ProfileEvent::Cpu,
            r.config.duration_secs == 30,
            r.config.output_format == OutputFormat::Html,
            r.config.target_pid is None,
            r.config.output_dir@ == profiles_dir(temp_dir@),
            r.last_output is None,
    {
        ProfileManager {
            status: ProfileStatus::Idle,
            config: ProfileConfig::default_in(temp_dir),
            last_output: None,
        }
    }

    /// Whether a session is recording.
    pub fn is_recording(&self) -> (r: bool)
        ensures
            r == (self.status is Recording),
    {
        match self.status {
            ProfileStatus::Recording { .. } => true,
            _ => false,
        }
    }

    /// Path of the output file for a session whose local start time reads
    /// `stamp`.
    pub fn output_path_at(&self, stamp: &str) -> (r: String)
        ensures
            r@ == profile_output_path(self.config, stamp@),
    {
        let mut name = String::from_str("drishti_");
        name.append(self.config.event.as_str());
        name.append("_");
        name.append(stamp);
        name.append(".");
        name.append(self.config.output_format.extension());
        proof {
            reveal_strlit("drishti_");
            reveal_strlit("_");
            reveal_strlit(".");
            assert(name@ =~= profile_file_name(self.config, stamp@));
        }
        join_exec(self.config.output_dir.as_str(), name.as_str())
    }

    /// The command that starts a session, for a start time reading `stamp`.
    pub fn build_start_command_at(&self, stamp: &str) -> (r: String)
        ensures
            r@ == start_command_text(self.config, stamp@),
    {
        let path = self.output_path_at(stamp);
        let mut s = String::from_str("start,event=");
        s.append(self.config.event.as_str());
        s.append(",file=");
        s.append(path.as_str());
        s.append(",flamegraph");
        proof {
            reveal_strlit("start,event=");
            reveal_strlit(",file=");
            reveal_strlit(",flamegraph");
            assert(s@ =~= start_command_text(self.config, stamp@));
        }
        s
    }

    /// The command that starts a session now.
    pub fn build_start_command(&self) -> (r: String)
        ensures
            exists|stamp: Seq<char>| r@ == start_command_text(self.config, stamp),
    {
        let stamp = local_stamp();
        self.build_start_command_at(stamp.as_str())
    }

    /// The command that stops a session, for a start time reading `stamp`.
    pub fn build_stop_command_at(&self, stamp: &str) -> (r: String)
        ensures
            r@ == stop_command_text(self.config, stamp@),
    {
        let path = self.output_path_at(stamp);
        let mut s = String::from_str("stop,file=");
        s.append(path.as_str());
        proof {
            reveal_strlit("stop,file=");
            assert(s@ =~= stop_command_text(self.config, stamp@));
        }
        s
    }

    /// The command that stops a session now.
    pub fn build_stop_command(&self) -> (r: String)
        ensures
            exists|stamp: Seq<char>| r@ == stop_command_text(self.config, stamp),
    {
        let stamp = local_stamp();
        self.build_stop_command_at(stamp.as_str())
    }

    /// The `asprof` command line that profiles `pid`, for a start time
    /// reading `stamp`.
    pub fn build_asprof_command_at(&self, pid: u32, stamp: &str) -> (r: Vec<String>)
        ensures
            crate::jolokia::string_views(r@) == asprof_args(self.config, stamp@, pid),
    {
        let mut v: Vec<String> = Vec::new();
        v.push(String::from_str("asprof"));
        v.push(String::from_str("-d"));
        v.push(crate::num::int_string(self.config.duration_secs as i128));
        v.push(String::from_str("-e"));
        v.push(String::from_str(self.config.event.as_str()));
        v.push(String::from_str("-f"));
        v.push(self.output_path_at(stamp));
        v.push(crate::num::int_string(pid as i128));
        proof {
            reveal_strlit("asprof");
            reveal_strlit("-d");
            reveal_strlit("-e");
            reveal_strlit("-f");
            let want = asprof_args(self.config, stamp@, pid);
            assert(v@.len() == 8);
            assert forall|i: int| 0 <= i < 8 implies #[trigger] crate::jolokia::string_views(v@)[i]
                == want[i] by {
                assert(crate::jolokia::string_views(v@)[i] == v@[i]@);
            }
            assert(crate::jolokia::string_views(v@) =~= want);
        }
        v
    }

    /// The `asprof` command line that profiles `pid` now.
    pub fn build_asprof_command(&self, pid: u32) -> (r: Vec<String>)
        ensures
            exists|stamp: Seq<char>|
                crate::jolokia::string_views(r@) == asprof_args(self.config, stamp, pid),
    {
        let stamp = local_stamp();
        self.build_asprof_command_at(pid, stamp.as_str())
    }

    /// Whether a local session may start: not while one records, and only
    /// with a target PID, which is returned.
    pub fn check_local_start(&self) -> (r: Result<u32, ProfilerError>)
        ensures
            self.status is Recording ==> r matches Err(ProfilerError::AlreadyRunning),
            !(self.status is Recording) && self.config.target_pid is None ==> r matches Err(
                ProfilerError::NotAvailable,
            ),
            !(self.status is Recording) && self.config.target_pid is Some ==> r == Ok::<
                u32,
                ProfilerError,
            >(self.config.target_pid->0),
    {
        if self.is_recording() {
            return Err(ProfilerError::AlreadyRunning);
        }
        match self.config.target_pid {
            Some(pid) => Ok(pid),
            None => Err(ProfilerError::NotAvailable),
        }
    }

    /// Records that a local session started writing to `output_path`.
    pub fn mark_started(&mut self, output_path: String)
        ensures
            final(self).status == (ProfileStatus::Recording {
                event: old(self).config.event,
                elapsed_secs: 0,
                total_secs: old(self).config.duration_secs,
            }),
            final(self).config == old(self).config,
            final(self).last_output == Some(output_path),
    {
        self.status = ProfileStatus::Recording {
            event: self.config.event,
            elapsed_secs: 0,
            total_secs: self.config.duration_secs,
        };
        self.last_output = Some(output_path);
    }

    /// The Jolokia request that starts a remote session, for a start time
    /// reading `stamp`.
    pub fn jolokia_start_request_at(&self, stamp: &str) -> (r: crate::jolokia::JolokiaRequest)
        ensures
            profiler_exec(r, start_command_text(self.config, stamp@)),
    {
        Self::exec_request(self.build_start_command_at(stamp))
    }

    /// The Jolokia request that starts a remote session now.
    pub fn jolokia_start_request(&self) -> (r: crate::jolokia::JolokiaRequest)
        ensures
            exists|stamp: Seq<char>| profiler_exec(r, start_command_text(self.config, stamp)),
    {
        let stamp = local_stamp();
        self.jolokia_start_request_at(stamp.as_str())
    }

    /// The Jolokia request that stops a remote session, for a start time
    /// reading `stamp`.
    pub fn jolokia_stop_request_at(&self, stamp: &str) -> (r: crate::jolokia::JolokiaRequest)
        ensures
            profiler_exec(r, stop_command_text(self.config, stamp@)),
    {
        Self::exec_request(self.build_stop_command_at(stamp))
    }

    /// The Jolokia request that stops a remote session now.
    pub fn jolokia_stop_request(&self) -> (r: crate::jolokia::JolokiaRequest)
        ensures
            exists|stamp: Seq<char>| profiler_exec(r, stop_command_text(self.config, stamp)),
    {
        let stamp = local_stamp();
        self.jolokia_stop_request_at(stamp.as_str())
    }

    /// The Jolokia request that runs an async-profiler command on the
    /// target JVM.
    fn exec_request(command: String) -> (r: crate::jolokia::JolokiaRequest)
        ensures
            profiler_exec(r, command@),
    {
        proof {
            reveal_strlit("one.profiler:type=AsyncProfiler");
            reveal_strlit("execute");
        }
        let mut args: Vec<crate::jolokia::Json> = Vec::new();
        args.push(crate::jolokia::Json::Str(command));
        let mbean = String::from_str("one.profiler:type=AsyncProfiler");
        let operation = String::from_str("execute");
        assert(mbean@ == profiler_mbean());
        assert(operation@ == seq!['e', 'x', 'e', 'c', 'u', 't', 'e']);
        assert(args@[0] matches crate::jolokia::Json::Str(c) && c@ == command@);
        crate::jolokia::JolokiaRequest::Exec { mbean, operation, arguments: Some(args) }
    }
}

/// `r` runs the async-profiler command `command` through its MBean.
pub open spec fn profiler_exec(r: crate::jolokia::JolokiaRequest, command: Seq<char>) -> bool {
    match r {
        crate::jolokia::JolokiaRequest::Exec { mbean, operation, arguments } => {
            &&& mbean@ == profiler_mbean()
            &&& operation@ == seq!['e', 'x', 'e', 'c', 'u', 't', 'e']
            &&& match arguments {
                Some(a) => a@.len() == 1 && match a@[0] {
                    crate::jolokia::Json::Str(c) => c@ == command,
                    _ => false,
                },
                None => false,
            }
        },
        _ => false,
    }
}

/// The MBean async-profiler registers.
pub open spec fn profiler_mbean() -> Seq<char> {
    seq![
        'o', 'n', 'e', '.', 'p', 'r', 'o', 'f', 'i', 'l', 'e', 'r', ':', 't', 'y', 'p', 'e', '=',
        'A', 's', 'y', 'n', 'c', 'P', 'r', 'o', 'f', 'i', 'l', 'e', 'r',
    ]
}

// ─────────────────────────────── the panel ───────────────────────────────

/// The text of an I/O error, as its `Display` writes it. Nothing is
/// promised of the text.
#[verifier::external_body]
fn io_error_text(e: &std::io::Error) -> String {
    format!("{}", e)
}

/// The message of an error without an I/O cause.
pub open spec fn error_message(e: ProfilerError) -> Seq<char> {
    match e {
        ProfilerError::NotAvailable => "async-profiler not available on target JVM"@,
        ProfilerError::AlreadyRunning => "Profiling already in progress"@,
        ProfilerError::RecordingFailed(m) => "Profile recording failed: "@ + m@,
        ProfilerError::BrowserFailed(m) => "Failed to open browser: "@ + m@,
        ProfilerError::JolokiaError(m) => "Jolokia error: "@ + m@,
        ProfilerError::Io(_) => "IO error: "@,
    }
}

impl ProfilerError {
    /// The error's message; an I/O error's own text follows "IO error: ".
    pub fn message(&self) -> (r: String)
        ensures
            !(*self is Io) ==> r@ == error_message(*self),
            *self is Io ==> r@.subrange(0, 10) == error_message(*self),
    {
        proof {
            reveal_strlit("IO error: ");
        }
        match self {
            ProfilerError::NotAvailable => String::from_str("async-profiler not available on target JVM"),
            ProfilerError::AlreadyRunning => String::from_str("Profiling already in progress"),
            ProfilerError::RecordingFailed(m) => {
                let mut s = String::from_str("Profile recording failed: ");
                s.append(m.as_str());
                s
            },
            ProfilerError::BrowserFailed(m) => {
                let mut s = String::from_str("Failed to open browser: ");
                s.append(m.as_str());
                s
            },
            ProfilerError::JolokiaError(m) => {
                let mut s = String::from_str("Jolokia error: ");
                s.append(m.as_str());
                s
            },
            ProfilerError::Io(e) => {
                let mut s = String::from_str("IO error: ");
                let t = io_error_text(e);
                s.append(t.as_str());
                assert(s@.subrange(0, 10) =~= "IO error: "@);
                s
            },
        }
    }
}

/// The event at a position of the panel's cycle.
pub open spec fn event_at(i: int) -> ProfileEvent {
    if i == 1 {
        ProfileEvent::Alloc
    } else if i == 2 {
        ProfileEvent::Wall
    } else if i == 3 {
        ProfileEvent::Lock
    } else {
        ProfileEvent::Cpu
    }
}

/// The profiler tab's settings and its session.
pub struct ProfilerPanel {
    pub manager: ProfileManager,
    /// Position of the chosen event in the cycle cpu, alloc, wall, lock.
    pub selected_event: usize,
    pub duration_secs: u64,
}

impl ProfilerPanel {
    /// A panel with the default settings under `temp_dir`.
    pub fn new(temp_dir: &str) -> (r: ProfilerPanel)
        ensures
            r.selected_event == 0,
            r.duration_secs == 30,
            r.manager.status == ProfileStatus::Idle,
            r.manager.config.event == ProfileEvent::Cpu,
    {
        ProfilerPanel { manager: ProfileManager::new(temp_dir), selected_event: 0, duration_secs: 30 }
    }

    /// Chooses the next event of the cycle.
    pub fn cycle_event(&mut self)
        ensures
            final(self).selected_event == (old(self).selected_event as int + 1) % 4,
            final(self).manager.config.event == event_at(final(self).selected_event as int),
            final(self).duration_secs == old(self).duration_secs,
    {
        let k = self.selected_event % 4;
        self.selected_event = if k == 3 {
            0
        } else {
            k + 1
        };
        self.manager.config.event = if self.selected_event == 1 {
            ProfileEvent::Alloc
        } else if self.selected_event == 2 {
            ProfileEvent::Wall
        } else if self.selected_event == 3 {
            ProfileEvent::Lock
        } else {
            ProfileEvent::Cpu
        };
    }

    /// Ten seconds more, up to five minutes.
    pub fn increase_duration(&mut self)
        ensures
            final(self).duration_secs == if old(self).duration_secs + 10 < 300 {
                old(self).duration_secs + 10
            } else {
                300
            },
            final(self).manager.config.duration_secs == final(self).duration_secs,
            final(self).selected_event == old(self).selected_event,
    {
        self.duration_secs = if self.duration_secs < 290 { self.duration_secs + 10 } else { 300 };
        self.manager.config.duration_secs = self.duration_secs;
    }

    /// Ten seconds less, down to five seconds.
    pub fn decrease_duration(&mut self)
        ensures
            final(self).duration_secs == if old(self).duration_secs >= 15 {
                old(self).duration_secs - 10
            } else {
                5
            },
            final(self).manager.config.duration_secs == final(self).duration_secs,
            final(self).selected_event == old(self).selected_event,
    {
        self.duration_secs = if self.duration_secs >= 15 { self.duration_secs - 10 } else { 5 };
        self.manager.config.duration_secs = self.duration_secs;
    }

    /// Whether a recording may start now, and on which PID: not in
    /// read-only mode (the status then says so), not while one records,
    /// and only with a PID (else the status carries the error).
    pub fn begin_recording(&mut self, readonly: bool) -> (r: Option<u32>)
        ensures
            readonly ==> r is None && final(self).manager.status is Error
                && final(self).manager.status->Error_0@ == "readonly mode — profiling disabled"@,
            !readonly && old(self).manager.status is Recording ==> r is None && final(self).manager.status == old(self).manager.status,
            !readonly && !(old(self).manager.status is Recording) ==> match old(self).manager.config.target_pid {
                Some(pid) => r == Some(pid) && final(self).manager.status == old(self).manager.status,
                None => r is None && final(self).manager.status is Error
                    && final(self).manager.status->Error_0@ == error_message(
                    ProfilerError::NotAvailable,
                ),
            },
            final(self).manager.config == old(self).manager.config,
    {
        if readonly {
            self.manager.status = ProfileStatus::Error(
                String::from_str("readonly mode — profiling disabled"),
            );
            return None;
        }
        if self.manager.is_recording() {
            return None;
        }
        match self.manager.check_local_start() {
            Ok(pid) => Some(pid),
            Err(e) => {
                let m = e.message();
                self.manager.status = ProfileStatus::Error(m);
                None
            },
        }
    }
}

} // verus!
