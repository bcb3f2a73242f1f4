//! The MBean browser: MBean names grouped into a tree of domains, the rows
//! it shows, and moving and unfolding within it.
//!
//! An MBean name is `domain:key=value,...`. Domains come in the order of
//! `String`'s `Ord` (character by character); the MBeans of a domain keep
//! the order they were listed in, each shown by its first `type=` or
//! `name=` property.

use vstd::prelude::*;
use crate::prometheus::split_at_char;
use crate::text::{chars_of, index_of, index_of_from, lemma_index_of_from, slice_of, starts_with, string_of};

verus! {

// ─────────────────────────────── order ───────────────────────────────

/// `a` comes before `b` in `String`'s order: the first differing character
/// decides, and a proper prefix comes first.
pub open spec fn text_lt(a: Seq<char>, b: Seq<char>) -> bool
    decreases a.len(),
{
    if a.len() == 0 {
        b.len() > 0
    } else if b.len() == 0 {
        false
    } else if a[0] != b[0] {
        a[0] < b[0]
    } else {
        text_lt(a.drop_first(), b.drop_first())
    }
}

proof fn lemma_text_lt_irreflexive(a: Seq<char>)
    ensures
        !text_lt(a, a),
    decreases a.len(),
{
    if a.len() > 0 {
        lemma_text_lt_irreflexive(a.drop_first());
    }
}

proof fn lemma_text_lt_total(a: Seq<char>, b: Seq<char>)
    ensures
        a == b || text_lt(a, b) || text_lt(b, a),
        !(text_lt(a, b) && text_lt(b, a)),
    decreases a.len(),
{
    if a.len() == 0 || b.len() == 0 {
        if a.len() == 0 && b.len() == 0 {
            assert(a =~= b);
        }
    } else if a[0] == b[0] {
        let (x, y) = (a.drop_first(), b.drop_first());
        lemma_text_lt_total(x, y);
        if x == y {
            assert forall|k: int| 0 <= k < a.len() implies a[k] == b[k] by {
                if k > 0 {
                    assert(a[k] == x[k - 1]);
                    assert(b[k] == y[k - 1]);
                }
            }
            assert(a =~= b);
        }
    }
}

proof fn lemma_text_lt_transitive(a: Seq<char>, b: Seq<char>, c: Seq<char>)
    requires
        text_lt(a, b),
        text_lt(b, c),
    ensures
        text_lt(a, c),
    decreases a.len(),
{
    if a.len() > 0 && b.len() > 0 && c.len() > 0 && a[0] == b[0] && b[0] == c[0] {
        lemma_text_lt_transitive(a.drop_first(), b.drop_first(), c.drop_first());
    }
}

fn text_less(a: &[char], b: &[char]) -> (r: bool)
    ensures
        r == text_lt(a@, b@),
{
    let mut i: usize = 0;
    assert(a@.skip(0) =~= a@);
    assert(b@.skip(0) =~= b@);
    while i < a.len() && i < b.len() && a[i] == b[i]
        invariant
            i <= a@.len(),
            i <= b@.len(),
            text_lt(a@, b@) == text_lt(a@.skip(i as int), b@.skip(i as int)),
        decreases a@.len() - i,
    {
        assert(a@.skip(i as int).drop_first() =~= a@.skip(i + 1));
        assert(b@.skip(i as int).drop_first() =~= b@.skip(i + 1));
        i += 1;
    }
    assert(a@.skip(i as int).len() == a@.len() - i);
    if i == a.len() {
        i < b.len()
    } else if i == b.len() {
        false
    } else {
        a[i] < b[i]
    }
}

fn text_eq(a: &[char], b: &[char]) -> (r: bool)
    ensures
        r == (a@ == b@),
{
    let lt = text_less(a, b);
    let gt = text_less(b, a);
    proof {
        lemma_text_lt_total(a@, b@);
        if a@ == b@ {
            lemma_text_lt_irreflexive(a@);
        }
    }
    !lt && !gt
}

// ─────────────────────────────── names ───────────────────────────────

/// The domain of an MBean name and the rest after its first `:` (all of
/// the name and nothing, when it has none).
pub open spec fn split_name(n: Seq<char>) -> (Seq<char>, Seq<char>) {
    let k = index_of_from(n, ':', 0);
    if k < n.len() {
        (n.take(k), n.skip(k + 1))
    } else {
        (n, seq![])
    }
}

/// The first of `ps` that starts with `type=` or `name=`.
pub open spec fn first_key(ps: Seq<Seq<char>>) -> Option<Seq<char>>
    decreases ps.len(),
{
    if ps.len() == 0 {
        None
    } else if starts_with(ps[0], "type="@) || starts_with(ps[0], "name="@) {
        Some(ps[0])
    } else {
        first_key(ps.drop_first())
    }
}

/// How an MBean is shown under its domain.
pub open spec fn short_name(bean: Seq<char>) -> Seq<char> {
    match first_key(split_at_char(bean, ',')) {
        Some(p) => p,
        None => bean,
    }
}

/// The distinct domains of `names`, in order.
pub open spec fn domains_of(names: Seq<Seq<char>>) -> Set<Seq<char>> {
    Set::new(|d: Seq<char>| exists|j: int| 0 <= j < names.len() && split_name(names[j]).0 == d)
}

/// The rests of the names in domain `d`, in the order listed.
pub open spec fn beans_in(names: Seq<Seq<char>>, d: Seq<char>) -> Seq<Seq<char>>
    decreases names.len(),
{
    if names.len() == 0 {
        seq![]
    } else if split_name(names.last()).0 == d {
        beans_in(names.drop_last(), d).push(split_name(names.last()).1)
    } else {
        beans_in(names.drop_last(), d)
    }
}

/// A node of the MBean tree.
#[derive(Debug)]
pub struct MBeanNode {
    pub name: String,
    pub full_path: String,
    pub is_domain: bool,
    pub expanded: bool,
    pub children: Vec<MBeanNode>,
    /// Attribute names and values, each name once.
    pub attributes: Vec<(String, String)>,
}

/// `n` shows the MBean `bean` of domain `d`.
pub open spec fn bean_node(n: MBeanNode, d: Seq<char>, bean: Seq<char>) -> bool {
    &&& n.name@ == short_name(bean)
    &&& n.full_path@ == d + seq![':'] + bean
    &&& !n.is_domain
    &&& !n.expanded
    &&& n.children@.len() == 0
    &&& n.attributes@.len() == 0
}

/// `t` is the (folded) tree of the MBean names `names`: one domain node
/// per domain, in order, each holding its MBeans in the order listed.
pub open spec fn tree_of(t: Seq<MBeanNode>, names: Seq<Seq<char>>) -> bool {
    &&& forall|i: int, j: int| 0 <= i < j < t.len() ==> text_lt(#[trigger] t[i].name@, #[trigger] t[j].name@)
    &&& forall|d: Seq<char>| domains_of(names).contains(d) <==> exists|i: int| 0 <= i < t.len() && #[trigger] t[i].name@ == d
    &&& forall|i: int| 0 <= i < t.len() ==> {
        let n = #[trigger] t[i];
        let bs = beans_in(names, n.name@);
        &&& n.full_path@ == n.name@
        &&& n.is_domain
        &&& !n.expanded
        &&& n.attributes@.len() == 0
        &&& n.children@.len() == bs.len()
        &&& forall|k: int| 0 <= k < bs.len() ==> bean_node(#[trigger] n.children@[k], n.name@, bs[k])
    }
}

// ─────────────────────────────── building ───────────────────────────────

fn split_name_exec(n: &[char]) -> (r: (Vec<char>, Vec<char>))
    ensures
        (r.0@, r.1@) == split_name(n@),
{
    let k = index_of(n, ':', 0);
    if k < n.len() {
        let a = slice_of(n, 0, k);
        let b = slice_of(n, k + 1, n.len());
        assert(a@ =~= n@.take(k as int));
        assert(b@ =~= n@.skip(k + 1));
        (a, b)
    } else {
        let a = slice_of(n, 0, n.len());
        assert(a@ =~= n@);
        (a, Vec::new())
    }
}

fn has_key_prefix(p: &[char]) -> (r: bool)
    ensures
        r == (starts_with(p@, "type="@) || starts_with(p@, "name="@)),
{
    let t = chars_of("type=");
    let m = chars_of("name=");
    crate::text::has_prefix(p, &t) || crate::text::has_prefix(p, &m)
}

fn short_name_exec(bean: &[char]) -> (r: String)
    ensures
        r@ == short_name(bean@),
{
    let mut start: usize = 0;
    assert(bean@.subrange(0, bean@.len() as int) =~= bean@);
    loop
        invariant
            start <= bean@.len(),
            first_key(split_at_char(bean@, ',')) == first_key(
                split_at_char(bean@.subrange(start as int, bean@.len() as int), ','),
            ),
        decreases bean@.len() - start,
    {
        let ghost s = bean@.subrange(start as int, bean@.len() as int);
        let k = index_of(bean, ',', start);
        proof {
            crate::text::lemma_index_of_from_char(s, ',', 0, k - start);
        }
        let piece = slice_of(bean, start, k);
        if has_key_prefix(&piece) {
            proof {
                if k == bean@.len() {
                    assert(s.take(s.len() as int) =~= s);
                    assert(piece@ =~= s);
                    assert(split_at_char(s, ',') == seq![s]);
                } else {
                    assert(piece@ =~= s.take(k - start));
                    assert(split_at_char(s, ',')[0] == s.take(k - start));
                }
            }
            return string_of(&piece);
        }
        if k == bean.len() {
            proof {
                assert(s.take(s.len() as int) =~= s);
                assert(piece@ =~= s);
                assert(split_at_char(s, ',') == seq![s]);
                assert(seq![s].drop_first() =~= Seq::<Seq<char>>::empty());
                assert(seq![s][0] == s);
                assert(first_key(seq![s]) == first_key(Seq::<Seq<char>>::empty()));
                assert(first_key(split_at_char(bean@, ',')) is None);
            }
            return string_of(bean);
        }
        proof {
            let rest = split_at_char(s.skip(k - start + 1), ',');
            assert(piece@ =~= s.take(k - start));
            assert(split_at_char(s, ',') == seq![s.take(k - start)] + rest);
            assert((seq![s.take(k - start)] + rest).drop_first() =~= rest);
            assert(s.skip(k - start + 1) =~= bean@.subrange(k + 1, bean@.len() as int));
        }
        start = k + 1;
    }
}

/// A domain with the rests of its names, while grouping.
struct Group {
    domain: Vec<char>,
    beans: Vec<Vec<char>>,
}

spec fn group_views(g: Seq<Group>) -> Seq<(Seq<char>, Seq<Seq<char>>)> {
    g.map_values(|x: Group| (x.domain@, crate::text::views(x.beans@)))
}

spec fn grouped(g: Seq<(Seq<char>, Seq<Seq<char>>)>, names: Seq<Seq<char>>) -> bool {
    &&& forall|i: int, j: int| 0 <= i < j < g.len() ==> text_lt(#[trigger] g[i].0, #[trigger] g[j].0)
    &&& forall|d: Seq<char>| domains_of(names).contains(d) <==> exists|i: int| 0 <= i < g.len() && #[trigger] g[i].0 == d
    &&& forall|i: int| 0 <= i < g.len() ==> (#[trigger] g[i]).1 == beans_in(names, g[i].0)
}

proof fn lemma_beans_push(names: Seq<Seq<char>>, n: Seq<char>, d: Seq<char>)
    ensures
        beans_in(names.push(n), d) == if split_name(n).0 == d {
            beans_in(names, d).push(split_name(n).1)
        } else {
            beans_in(names, d)
        },
{
    assert(names.push(n).drop_last() =~= names);
}

proof fn lemma_beans_absent(names: Seq<Seq<char>>, d: Seq<char>)
    requires
        !domains_of(names).contains(d),
    ensures
        beans_in(names, d) == Seq::<Seq<char>>::empty(),
    decreases names.len(),
{
    if names.len() > 0 {
        let m = names.drop_last();
        assert(!domains_of(m).contains(d)) by {
            if domains_of(m).contains(d) {
                let j = choose|j: int| 0 <= j < m.len() && split_name(m[j]).0 == d;
                assert(names[j] == m[j]);
            }
        }
        lemma_beans_absent(m, d);
        assert(split_name(names[names.len() - 1]).0 != d);
    }
}

fn group_names(names: &Vec<String>) -> (r: Vec<Group>)
    ensures
        grouped(group_views(r@), crate::console::texts(names@)),
{
    let ghost ns = crate::console::texts(names@);
    let mut g: Vec<Group> = Vec::new();
    let mut i: usize = 0;
    assert(ns.take(0) =~= Seq::<Seq<char>>::empty());
    assert(group_views(g@) =~= Seq::<(Seq<char>, Seq<Seq<char>>)>::empty());
    assert forall|d: Seq<char>| !domains_of(ns.take(0)).contains(d) by {}
    while i < names.len()
        invariant
            ns == crate::console::texts(names@),
            i <= names@.len(),
            grouped(group_views(g@), ns.take(i as int)),
        decreases names@.len() - i,
    {
        let ghost pre = ns.take(i as int);
        let ghost cur = ns.take(i + 1);
        let ghost gv = group_views(g@);
        let n = chars_of(names[i].as_str());
        assert(cur =~= pre.push(n@));
        let (d, bean) = split_name_exec(&n);
        let mut p: usize = 0;
        while p < g.len() && text_less(&g[p].domain, &d)
            invariant
                p <= g@.len(),
                gv == group_views(g@),
                forall|k: int| 0 <= k < p ==> text_lt(#[trigger] gv[k].0, d@),
            decreases g@.len() - p,
        {
            p += 1;
        }
        assert forall|dd: Seq<char>| #[trigger] domains_of(cur).contains(dd) <==> (domains_of(pre).contains(dd)
            || dd == d@) by {
            if domains_of(cur).contains(dd) {
                let j = choose|j: int| 0 <= j < cur.len() && split_name(cur[j]).0 == dd;
                if j < pre.len() {
                    assert(pre[j] == cur[j]);
                }
            }
            if domains_of(pre).contains(dd) {
                let j = choose|j: int| 0 <= j < pre.len() && split_name(pre[j]).0 == dd;
                assert(cur[j] == pre[j]);
            }
            if dd == d@ {
                assert(cur[i as int] == n@);
            }
        }
        if p < g.len() && text_eq(&g[p].domain, &d) {
            assert(gv[p as int].0 == d@);
            assert(gv[p as int].1 == beans_in(pre, gv[p as int].0));
            let mut grp = g.remove(p);
            let ghost before_beans = crate::text::views(grp.beans@);
            grp.beans.push(bean);
            assert(crate::text::views(grp.beans@) =~= before_beans.push(split_name(n@).1));
            g.insert(p, grp);
            proof {
                let gv2 = group_views(g@);
                assert(gv2 =~= gv.update(p as int, (d@, before_beans.push(split_name(n@).1))));
                assert forall|k: int| 0 <= k < gv2.len() implies #[trigger] gv2[k].0 == gv[k].0 by {}
                assert forall|a: int, b: int| 0 <= a < b < gv2.len() implies text_lt(#[trigger] gv2[a].0, #[trigger] gv2[b].0) by {
                    assert(gv2[a].0 == gv[a].0);
                    assert(gv2[b].0 == gv[b].0);
                }
                assert forall|k: int| 0 <= k < gv2.len() implies (#[trigger] gv2[k]).1 == beans_in(cur, gv2[k].0) by {
                    lemma_beans_push(pre, n@, gv2[k].0);
                    if k != p {
                        assert(gv[k].0 != d@) by {
                            if gv[k].0 == d@ {
                                assert(gv[p as int].0 == d@);
                                if k < p {
                                    assert(text_lt(gv[k].0, gv[p as int].0));
                                } else {
                                    assert(text_lt(gv[p as int].0, gv[k].0));
                                }
                                lemma_text_lt_irreflexive(d@);
                            }
                        }
                    }
                }
                assert forall|dd: Seq<char>| domains_of(cur).contains(dd) <==> exists|k: int| 0 <= k < gv2.len() && #[trigger] gv2[k].0 == dd by {
                    if domains_of(cur).contains(dd) {
                        if dd == d@ {
                            assert(gv2[p as int].0 == dd);
                        } else {
                            let k = choose|k: int| 0 <= k < gv.len() && #[trigger] gv[k].0 == dd;
                            assert(gv2[k].0 == dd);
                        }
                    }
                    if exists|k: int| 0 <= k < gv2.len() && #[trigger] gv2[k].0 == dd {
                        let k = choose|k: int| 0 <= k < gv2.len() && #[trigger] gv2[k].0 == dd;
                        assert(gv[k].0 == dd);
                    }
                }
            }
        } else {
            let mut beans: Vec<Vec<char>> = Vec::new();
            beans.push(bean);
            let grp = Group { domain: d, beans };
            let ghost newv = (grp.domain@, crate::text::views(grp.beans@));
            assert(crate::text::views(grp.beans@) =~= seq![split_name(n@).1]);
            g.insert(p, grp);
            proof {
                let gv2 = group_views(g@);
                assert(gv2 =~= gv.insert(p as int, newv));
                assert(!domains_of(pre).contains(d@)) by {
                    if domains_of(pre).contains(d@) {
                        let k = choose|k: int| 0 <= k < gv.len() && #[trigger] gv[k].0 == d@;
                        if k < p {
                            assert(text_lt(gv[k].0, d@));
                            lemma_text_lt_irreflexive(d@);
                        } else if k == p {
                        } else {
                            assert(text_lt(gv[p as int].0, gv[k].0));
                            lemma_text_lt_total(gv[p as int].0, d@);
                        }
                    }
                }
                lemma_beans_absent(pre, d@);
                lemma_beans_push(pre, n@, d@);
                assert(beans_in(cur, d@) =~= seq![split_name(n@).1]);
                if p < gv.len() {
                    lemma_text_lt_total(gv[p as int].0, d@);
                    assert(text_lt(d@, gv[p as int].0));
                }
                assert forall|a: int, b: int| 0 <= a < b < gv2.len() implies text_lt(#[trigger] gv2[a].0, #[trigger] gv2[b].0) by {
                    if a < p && b == p {
                    } else if a < p && b > p {
                        assert(gv2[b].0 == gv[b - 1].0);
                        if b - 1 > a {
                        }
                    } else if a == p && b > p {
                        assert(gv2[b].0 == gv[b - 1].0);
                        if b - 1 > p {
                            lemma_text_lt_transitive(d@, gv[p as int].0, gv[b - 1].0);
                        }
                    } else if a > p {
                        assert(gv2[a].0 == gv[a - 1].0);
                        assert(gv2[b].0 == gv[b - 1].0);
                    }
                }
                assert forall|k: int| 0 <= k < gv2.len() implies (#[trigger] gv2[k]).1 == beans_in(cur, gv2[k].0) by {
                    if k != p {
                        let kk = if k < p { k } else { k - 1 };
                        assert(gv2[k] == gv[kk]);
                        lemma_beans_push(pre, n@, gv[kk].0);
                        assert(gv[kk].0 != d@);
                    }
                }
                assert forall|dd: Seq<char>| domains_of(cur).contains(dd) <==> exists|k: int| 0 <= k < gv2.len() && #[trigger] gv2[k].0 == dd by {
                    if domains_of(cur).contains(dd) {
                        if dd == d@ {
                            assert(gv2[p as int].0 == dd);
                        } else {
                            let k = choose|k: int| 0 <= k < gv.len() && #[trigger] gv[k].0 == dd;
                            if k < p {
                                assert(gv2[k].0 == dd);
                            } else {
                                assert(gv2[k + 1].0 == dd);
                            }
                        }
                    }
                    if exists|k: int| 0 <= k < gv2.len() && #[trigger] gv2[k].0 == dd {
                        let k = choose|k: int| 0 <= k < gv2.len() && #[trigger] gv2[k].0 == dd;
                        if k < p {
                            assert(gv[k].0 == dd);
                        } else if k > p {
                            assert(gv[k - 1].0 == dd);
                        }
                    }
                }
            }
        }
        i += 1;
    }
    assert(ns.take(i as int) =~= ns);
    g
}

/// The tree of the MBean names `names`, every domain folded.
pub fn load_mbeans(names: &Vec<String>) -> (r: Vec<MBeanNode>)
    ensures
        tree_of(r@, crate::console::texts(names@)),
{
    let groups = group_names(names);
    let ghost gv = group_views(groups@);
    let mut out: Vec<MBeanNode> = Vec::new();
    let mut i: usize = 0;
    while i < groups.len()
        invariant
            gv == group_views(groups@),
            grouped(gv, crate::console::texts(names@)),
            i <= groups@.len(),
            out@.len() == i,
            forall|k: int| 0 <= k < i ==> (#[trigger] out@[k]).name@ == gv[k].0,
            forall|k: int| 0 <= k < i ==> {
                let n = #[trigger] out@[k];
                let bs = gv[k].1;
                &&& n.full_path@ == n.name@
                &&& n.is_domain
                &&& !n.expanded
                &&& n.attributes@.len() == 0
                &&& n.children@.len() == bs.len()
                &&& forall|m: int| 0 <= m < bs.len() ==> bean_node(#[trigger] n.children@[m], n.name@, bs[m])
            },
        decreases groups@.len() - i,
    {
        let grp = &groups[i];
        assert(gv[i as int] == (grp.domain@, crate::text::views(grp.beans@)));
        let mut children: Vec<MBeanNode> = Vec::new();
        let mut k: usize = 0;
        while k < grp.beans.len()
            invariant
                k <= grp.beans@.len(),
                children@.len() == k,
                forall|m: int| 0 <= m < k ==> bean_node(#[trigger] children@[m], grp.domain@, grp.beans@[m]@),
            decreases grp.beans@.len() - k,
        {
            let b = &grp.beans[k];
            let mut full = string_of(&grp.domain);
            full.append(":");
            let bs = string_of(b);
            proof {
                reveal_strlit(":");
            }
            full.append(bs.as_str());
            assert(full@ =~= grp.domain@ + seq![':'] + b@);
            let ghost before = children@;
            children.push(MBeanNode {
                name: short_name_exec(b),
                full_path: full,
                is_domain: false,
                expanded: false,
                children: Vec::new(),
                attributes: Vec::new(),
            });
            assert(children@ == before.push(children@[k as int]));
            k += 1;
        }
        out.push(MBeanNode {
            name: string_of(&grp.domain),
            full_path: string_of(&grp.domain),
            is_domain: true,
            expanded: false,
            children,
            attributes: Vec::new(),
        });
        i += 1;
    }
    proof {
        let t = out@;
        let ns = crate::console::texts(names@);
        assert forall|a: int, b: int| 0 <= a < b < t.len() implies text_lt(#[trigger] t[a].name@, #[trigger] t[b].name@) by {
            assert(text_lt(gv[a].0, gv[b].0));
        }
        assert forall|d: Seq<char>| domains_of(ns).contains(d) <==> exists|k: int| 0 <= k < t.len() && #[trigger] t[k].name@ == d by {
            if domains_of(ns).contains(d) {
                let k = choose|k: int| 0 <= k < gv.len() && #[trigger] gv[k].0 == d;
                assert(t[k].name@ == d);
            }
            if exists|k: int| 0 <= k < t.len() && #[trigger] t[k].name@ == d {
                let k = choose|k: int| 0 <= k < t.len() && #[trigger] t[k].name@ == d;
                assert(gv[k].0 == d);
            }
        }
        assert forall|k: int| 0 <= k < t.len() implies ({
            let n = #[trigger] t[k];
            let bs = beans_in(ns, n.name@);
            &&& n.full_path@ == n.name@
            &&& n.is_domain
            &&& !n.expanded
            &&& n.attributes@.len() == 0
            &&& n.children@.len() == bs.len()
            &&& forall|m: int| 0 <= m < bs.len() ==> bean_node(#[trigger] n.children@[m], n.name@, bs[m])
        }) by {
            assert(gv[k].1 == beans_in(ns, gv[k].0));
        }
    }
    out
}

// ─────────────────────────────── browsing ───────────────────────────────

/// A visible row of the tree.
#[derive(Debug, Clone)]
pub struct FlatNode {
    pub name: String,
    pub full_path: String,
    pub depth: usize,
    pub is_domain: bool,
    pub expanded: bool,
    pub has_children: bool,
}

/// A row as the contracts see it: name, path, depth, and whether it is a
/// domain, unfolded, and has children.
pub type RowView = (Seq<char>, Seq<char>, nat, bool, bool, bool);

/// The row showing node `n` at `depth`.
pub open spec fn node_row(n: MBeanNode, depth: nat) -> RowView {
    (n.name@, n.full_path@, depth, n.is_domain, n.expanded, n.children@.len() > 0)
}

/// The rows of a domain: the domain, then its MBeans when unfolded.
pub open spec fn domain_rows(n: MBeanNode) -> Seq<RowView> {
    seq![node_row(n, 0)] + if n.expanded {
        Seq::new(n.children@.len(), |k: int| node_row(n.children@[k], 1))
    } else {
        seq![]
    }
}

/// The rows of a tree of domains, in order.
pub open spec fn tree_rows(t: Seq<MBeanNode>) -> Seq<RowView>
    decreases t.len(),
{
    if t.len() == 0 {
        seq![]
    } else {
        tree_rows(t.drop_last()) + domain_rows(t.last())
    }
}

/// The views of some rows.
pub open spec fn row_views(v: Seq<FlatNode>) -> Seq<RowView> {
    v.map_values(
        |f: FlatNode| (f.name@, f.full_path@, f.depth as nat, f.is_domain, f.expanded, f.has_children),
    )
}

/// The first domain of `t` whose path is `p`.
pub open spec fn domain_with_path(t: Seq<MBeanNode>, p: Seq<char>) -> Option<int>
    decreases t.len(),
{
    if t.len() == 0 {
        None
    } else if t[0].full_path@ == p {
        Some(0)
    } else {
        match domain_with_path(t.drop_first(), p) {
            Some(i) => Some(i + 1),
            None => None,
        }
    }
}

proof fn lemma_domain_with_path(t: Seq<MBeanNode>, p: Seq<char>)
    ensures
        match domain_with_path(t, p) {
            Some(i) => 0 <= i < t.len() && t[i].full_path@ == p && forall|k: int| 0 <= k < i ==> t[k].full_path@ != p,
            None => forall|k: int| 0 <= k < t.len() ==> t[k].full_path@ != p,
        },
    decreases t.len(),
{
    if t.len() > 0 && t[0].full_path@ != p {
        lemma_domain_with_path(t.drop_first(), p);
        match domain_with_path(t.drop_first(), p) {
            Some(i) => {
                assert forall|k: int| 0 <= k < i + 1 implies t[k].full_path@ != p by {
                    if k > 0 {
                        assert(t[k] == t.drop_first()[k - 1]);
                    }
                }
            },
            None => {
                assert forall|k: int| 0 <= k < t.len() implies t[k].full_path@ != p by {
                    if k > 0 {
                        assert(t[k] == t.drop_first()[k - 1]);
                    }
                }
            },
        }
    }
}

fn copy_text(s: &String) -> (r: String)
    ensures
        r@ == s@,
{
    string_of(&chars_of(s.as_str()))
}

fn row_of(n: &MBeanNode, depth: usize) -> (r: FlatNode)
    ensures
        (r.name@, r.full_path@, r.depth as nat, r.is_domain, r.expanded, r.has_children)
            == node_row(*n, depth as nat),
{
    FlatNode {
        name: copy_text(&n.name),
        full_path: copy_text(&n.full_path),
        depth,
        is_domain: n.is_domain,
        expanded: n.expanded,
        has_children: n.children.len() > 0,
    }
}

/// The rows a tree of domains shows.
pub fn flatten(t: &Vec<MBeanNode>) -> (r: Vec<FlatNode>)
    ensures
        row_views(r@) == tree_rows(t@),
{
    let mut out: Vec<FlatNode> = Vec::new();
    let mut i: usize = 0;
    assert(t@.take(0) =~= Seq::<MBeanNode>::empty());
    assert(row_views(out@) =~= Seq::<RowView>::empty());
    while i < t.len()
        invariant
            i <= t@.len(),
            row_views(out@) == tree_rows(t@.take(i as int)),
        decreases t@.len() - i,
    {
        let n = &t[i];
        let ghost pre = row_views(out@);
        out.push(row_of(n, 0));
        assert(row_views(out@) =~= pre + seq![node_row(*n, 0)]);
        if n.expanded {
            let mut k: usize = 0;
            while k < n.children.len()
                invariant
                    k <= n.children@.len(),
                    row_views(out@) == pre + seq![node_row(*n, 0)] + Seq::new(
                        k as nat,
                        |m: int| node_row(n.children@[m], 1),
                    ),
                decreases n.children@.len() - k,
            {
                let ghost before = row_views(out@);
                out.push(row_of(&n.children[k], 1));
                assert(row_views(out@) =~= before.push(node_row(n.children@[k as int], 1)));
                k += 1;
                assert(row_views(out@) =~= pre + seq![node_row(*n, 0)] + Seq::new(
                    k as nat,
                    |m: int| node_row(n.children@[m], 1),
                ));
            }
        }
        assert(t@.take(i + 1).drop_last() =~= t@.take(i as int));
        assert(row_views(out@) =~= pre + domain_rows(*n));
        i += 1;
    }
    assert(t@.take(i as int) =~= t@);
    out
}

/// The MBean browser: the tree, its rows, and the selected row.
pub struct MBeanBrowser {
    pub tree: Vec<MBeanNode>,
    pub selected_index: usize,
    pub tree_loaded: bool,
    /// The rows shown, kept in step with `tree`.
    pub flat_view: Vec<FlatNode>,
    /// Attributes of the selected MBean, each name once.
    pub selected_attrs: Vec<(String, String)>,
    pub attr_scroll: usize,
}

impl MBeanBrowser {
    /// The rows shown are those of the tree.
    pub open spec fn in_step(&self) -> bool {
        row_views(self.flat_view@) == tree_rows(self.tree@)
    }

    /// An empty browser.
    pub fn new() -> (r: MBeanBrowser)
        ensures
            r.in_step(),
            r.tree@.len() == 0,
            r.selected_index == 0,
            !r.tree_loaded,
    {
        let r = MBeanBrowser {
            tree: Vec::new(),
            selected_index: 0,
            tree_loaded: false,
            flat_view: Vec::new(),
            selected_attrs: Vec::new(),
            attr_scroll: 0,
        };
        assert(row_views(r.flat_view@) =~= Seq::<RowView>::empty());
        r
    }

    /// Loads the tree of the MBean names `names`.
    pub fn load_mbeans(&mut self, names: &Vec<String>)
        ensures
            final(self).in_step(),
            tree_of(final(self).tree@, crate::console::texts(names@)),
            final(self).tree_loaded,
            final(self).selected_index == old(self).selected_index,
    {
        self.tree = load_mbeans(names);
        self.tree_loaded = true;
        self.flat_view = flatten(&self.tree);
    }

    /// Folds or unfolds the selected row when it is a domain.
    pub fn toggle_selected(&mut self)
        requires
            old(self).in_step(),
        ensures
            final(self).in_step(),
            final(self).selected_index == old(self).selected_index,
            final(self).tree@.len() == old(self).tree@.len(),
            old(self).selected_index < old(self).flat_view@.len() && old(self).flat_view@[old(self).selected_index as int].is_domain ==> match domain_with_path(
                old(self).tree@,
                old(self).flat_view@[old(self).selected_index as int].full_path@,
            ) {
                Some(i) => final(self).tree@[i].expanded == !old(self).tree@[i].expanded
                    && forall|k: int| 0 <= k < old(self).tree@.len() && k != i ==> final(self).tree@[k]
                        == old(self).tree@[k],
                None => final(self).tree@ == old(self).tree@,
            },
            !(old(self).selected_index < old(self).flat_view@.len() && old(self).flat_view@[old(self).selected_index as int].is_domain) ==> final(self).tree@ == old(self).tree@,
    {
        if self.selected_index >= self.flat_view.len() {
            return;
        }
        let sel = self.selected_index;
        if !self.flat_view[sel].is_domain {
            return;
        }
        let path = chars_of(self.flat_view[sel].full_path.as_str());
        let mut i: usize = 0;
        while i < self.tree.len() && !chars_eq_str(&path, &self.tree[i].full_path)
            invariant
                i <= self.tree@.len(),
                forall|k: int| 0 <= k < i ==> self.tree@[k].full_path@ != path@,
            decreases self.tree@.len() - i,
        {
            i += 1;
        }
        proof {
            lemma_domain_with_path(self.tree@, path@);
        }
        if i < self.tree.len() {
            let ghost old_tree = self.tree@;
            let mut n = self.tree.remove(i);
            n.expanded = !n.expanded;
            self.tree.insert(i, n);
            proof {
                assert forall|k: int| 0 <= k < old_tree.len() && k != i implies self.tree@[k] == old_tree[k] by {}
            }
            self.flat_view = flatten(&self.tree);
        }
    }

    /// Selects the next row, if there is one.
    pub fn select_next(&mut self)
        ensures
            final(self).selected_index == if old(self).selected_index + 1 < old(self).flat_view@.len() {
                old(self).selected_index + 1
            } else {
                old(self).selected_index as int
            },
            final(self).tree@ == old(self).tree@,
            final(self).flat_view@ == old(self).flat_view@,
    {
        let n = self.flat_view.len();
        if n > 0 && self.selected_index < n - 1 {
            self.selected_index = self.selected_index + 1;
        }
    }

    /// Selects the previous row, if there is one.
    pub fn select_prev(&mut self)
        ensures
            final(self).selected_index == if old(self).selected_index > 0 {
                old(self).selected_index - 1
            } else {
                0
            },
            final(self).tree@ == old(self).tree@,
            final(self).flat_view@ == old(self).flat_view@,
    {
        if self.selected_index > 0 {
            self.selected_index = self.selected_index - 1;
        }
    }

    /// Shows the attributes of the selected MBean from their start.
    pub fn set_attributes(&mut self, attrs: Vec<(String, String)>)
        ensures
            final(self).selected_attrs@ == attrs@,
            final(self).attr_scroll == 0,
            final(self).tree@ == old(self).tree@,
            final(self).flat_view@ == old(self).flat_view@,
            final(self).selected_index == old(self).selected_index,
    {
        self.selected_attrs = attrs;
        self.attr_scroll = 0;
    }
}

fn chars_eq_str(a: &[char], s: &String) -> (r: bool)
    ensures
        r == (a@ == s@),
{
    let b = chars_of(s.as_str());
    text_eq(a, &b)
}

} // verus!
