//! The Prometheus text exposition format, as served by
//! `/actuator/prometheus`: one sample per line,
//! `name{label="value",...} value [timestamp]` or `name value [timestamp]`;
//! `#` lines are comments.

use vstd::prelude::*;
use crate::num::{parse_micros, real_micros};
use crate::text::{
    chars_of, index_of, index_of_from, is_ws, is_ws_char, lemma_index_of_from, lines, lines_of,
    slice_of, string_of, trim, trim_bounds, views,
};

verus! {

/// One metric sample. The value is in millionths.
#[derive(Debug, Clone)]
pub struct Sample {
    pub name: String,
    /// Label names and values; each name once.
    pub labels: Vec<(String, String)>,
    pub value: i64,
}

pub struct SampleView {
    pub name: Seq<char>,
    pub labels: Seq<(Seq<char>, Seq<char>)>,
    pub value: int,
}

pub open spec fn label_views(v: Seq<(String, String)>) -> Seq<(Seq<char>, Seq<char>)> {
    v.map_values(|p: (String, String)| (p.0@, p.1@))
}

impl View for Sample {
    type V = SampleView;

    open spec fn view(&self) -> SampleView {
        SampleView { name: self.name@, labels: label_views(self.labels@), value: self.value as int }
    }
}

pub open spec fn sample_views(v: Seq<Sample>) -> Seq<SampleView> {
    v.map_values(|s: Sample| s@)
}

// ─────────────────────────────── words ───────────────────────────────

/// The first index at or after `i` that is not whitespace (or the length).
pub open spec fn skip_ws(s: Seq<char>, i: int) -> int
    decreases s.len() - i,
{
    if i >= s.len() {
        s.len() as int
    } else if is_ws(s[i]) {
        skip_ws(s, i + 1)
    } else {
        i
    }
}

/// The first index at or after `i` that is whitespace (or the length).
pub open spec fn word_end(s: Seq<char>, i: int) -> int
    decreases s.len() - i,
{
    if i >= s.len() {
        s.len() as int
    } else if is_ws(s[i]) {
        i
    } else {
        word_end(s, i + 1)
    }
}

/// Bounds of the first whitespace-separated word at or after `i`
/// (`split_whitespace`).
pub open spec fn word_after(s: Seq<char>, i: int) -> Option<(int, int)> {
    let a = skip_ws(s, i);
    if a >= s.len() {
        None
    } else {
        Some((a, word_end(s, a)))
    }
}

proof fn lemma_skip_ws(s: Seq<char>, i: int)
    requires
        0 <= i <= s.len(),
    ensures
        i <= skip_ws(s, i) <= s.len(),
        skip_ws(s, i) < s.len() ==> !is_ws(s[skip_ws(s, i)]),
    decreases s.len() - i,
{
    if i < s.len() && is_ws(s[i]) {
        lemma_skip_ws(s, i + 1);
    }
}

proof fn lemma_word_end(s: Seq<char>, i: int)
    requires
        0 <= i <= s.len(),
    ensures
        i <= word_end(s, i) <= s.len(),
    decreases s.len() - i,
{
    if i < s.len() && !is_ws(s[i]) {
        lemma_word_end(s, i + 1);
    }
}

fn skip_ws_exec(v: &[char], i: usize) -> (r: usize)
    requires
        i <= v@.len(),
    ensures
        r == skip_ws(v@, i as int),
        i <= r <= v@.len(),
{
    let mut k = i;
    while k < v.len() && is_ws_char(v[k])
        invariant
            i <= k <= v@.len(),
            skip_ws(v@, i as int) == skip_ws(v@, k as int),
        decreases v@.len() - k,
    {
        k += 1;
    }
    k
}

fn word_end_exec(v: &[char], i: usize) -> (r: usize)
    requires
        i <= v@.len(),
    ensures
        r == word_end(v@, i as int),
        i <= r <= v@.len(),
{
    let mut k = i;
    while k < v.len() && !is_ws_char(v[k])
        invariant
            i <= k <= v@.len(),
            word_end(v@, i as int) == word_end(v@, k as int),
        decreases v@.len() - k,
    {
        k += 1;
    }
    k
}

pub(crate) fn word_after_exec(v: &[char], i: usize) -> (r: Option<(usize, usize)>)
    requires
        i <= v@.len(),
    ensures
        match r {
            Some((a, z)) => word_after(v@, i as int) == Some((a as int, z as int)) && a < z
                <= v@.len(),
            None => word_after(v@, i as int) is None,
        },
{
    let a = skip_ws_exec(v, i);
    proof {
        lemma_skip_ws(v@, i as int);
    }
    if a >= v.len() {
        None
    } else {
        let z = word_end_exec(v, a);
        proof {
            assert(!is_ws(v@[a as int]));
            assert(word_end(v@, a as int) == word_end(v@, a + 1));
            lemma_word_end(v@, a + 1);
        }
        Some((a, z))
    }
}

// ─────────────────────────────── labels ───────────────────────────────

/// `str::split` at a character.
pub open spec fn split_at_char(s: Seq<char>, c: char) -> Seq<Seq<char>>
    decreases s.len(),
{
    let k = index_of_from(s, c, 0);
    if k >= s.len() {
        seq![s]
    } else {
        proof {
            lemma_index_of_from(s, c, 0);
        }
        seq![s.take(k)] + split_at_char(s.skip(k + 1), c)
    }
}

/// `str::trim_matches('"')`: drops every leading and trailing quote.
pub open spec fn strip_quotes(s: Seq<char>) -> Seq<char>
    decreases s.len(),
{
    if s.len() > 0 && s[0] == '"' {
        strip_quotes(s.drop_first())
    } else if s.len() > 0 && s.last() == '"' {
        strip_quotes(s.drop_last())
    } else {
        s
    }
}

/// Where the label `k` stands.
pub open spec fn label_pos(m: Seq<(Seq<char>, Seq<char>)>, k: Seq<char>) -> Option<int>
    decreases m.len(),
{
    if m.len() == 0 {
        None
    } else if m.last().0 == k {
        Some(m.len() - 1)
    } else {
        label_pos(m.drop_last(), k)
    }
}

/// The value of the label `k`.
pub open spec fn label_get(m: Seq<(Seq<char>, Seq<char>)>, k: Seq<char>) -> Option<Seq<char>> {
    match label_pos(m, k) {
        Some(i) => Some(m[i].1),
        None => None,
    }
}

/// `HashMap::insert`: a new label is added, an existing one gets the value.
pub open spec fn label_put(m: Seq<(Seq<char>, Seq<char>)>, k: Seq<char>, v: Seq<char>) -> Seq<
    (Seq<char>, Seq<char>),
> {
    match label_pos(m, k) {
        Some(i) => m.update(i, (k, v)),
        None => m.push((k, v)),
    }
}

/// One `key="value"` piece added to the labels.
pub open spec fn add_label_piece(m: Seq<(Seq<char>, Seq<char>)>, piece: Seq<char>) -> Seq<
    (Seq<char>, Seq<char>),
> {
    let pair = trim(piece);
    let eq = index_of_from(pair, '=', 0);
    if eq < pair.len() {
        let key = trim(pair.take(eq));
        let val = strip_quotes(trim(pair.skip(eq + 1)));
        if key.len() > 0 {
            label_put(m, key, val)
        } else {
            m
        }
    } else {
        m
    }
}

pub open spec fn labels_from(m: Seq<(Seq<char>, Seq<char>)>, pieces: Seq<Seq<char>>) -> Seq<
    (Seq<char>, Seq<char>),
>
    decreases pieces.len(),
{
    if pieces.len() == 0 {
        m
    } else {
        labels_from(add_label_piece(m, pieces[0]), pieces.drop_first())
    }
}

/// The labels of `key1="val1",key2="val2"` (escaped quotes are not
/// handled).
pub open spec fn parse_labels_spec(s: Seq<char>) -> Seq<(Seq<char>, Seq<char>)> {
    labels_from(Seq::empty(), split_at_char(s, ','))
}

proof fn lemma_label_pos(m: Seq<(Seq<char>, Seq<char>)>, k: Seq<char>)
    ensures
        label_pos(m, k) matches Some(i) ==> 0 <= i < m.len() && m[i].0 == k,
        label_pos(m, k) is None ==> forall|i: int| 0 <= i < m.len() ==> (#[trigger] m[i]).0 != k,
    decreases m.len(),
{
    if m.len() > 0 {
        lemma_label_pos(m.drop_last(), k);
        assert forall|i: int| 0 <= i < m.len() - 1 implies m.drop_last()[i] == #[trigger] m[i] by {}
    }
}

fn find_label(m: &Vec<(String, String)>, k: &[char]) -> (r: Option<usize>)
    ensures
        (match r {
            Some(i) => Some(i as int),
            None => None::<int>,
        }) == label_pos(label_views(m@), k@),
{
    let ghost lv = label_views(m@);
    let mut i = m.len();
    assert(lv.take(lv.len() as int) =~= lv);
    while i > 0
        invariant
            i <= m@.len(),
            lv == label_views(m@),
            label_pos(lv, k@) == label_pos(lv.take(i as int), k@),
        decreases i,
    {
        let key = chars_of(m[i - 1].0.as_str());
        proof {
            assert(lv.take(i as int).drop_last() =~= lv.take(i - 1));
            assert(lv.take(i as int).last() == lv[i - 1]);
        }
        if key.len() == k.len() && crate::text::matches_at(&key, k, 0) {
            assert(key@.subrange(0, k@.len() as int) =~= key@);
            return Some(i - 1);
        }
        assert(key@ != k@) by {
            if key@ == k@ {
                assert(key@.subrange(0, k@.len() as int) =~= key@);
            }
        }
        assert(lv[i - 1].0 == key@);
        i -= 1;
    }
    None
}

/// The value of the label `key` of a sample (`labels.get(key)`).
pub fn label_value<'a>(s: &'a Sample, key: &str) -> (r: Option<&'a String>)
    ensures
        match r {
            Some(v) => label_get(s@.labels, key@) == Some(v@),
            None => label_get(s@.labels, key@) is None,
        },
{
    let k = chars_of(key);
    proof {
        lemma_label_pos(s@.labels, key@);
    }
    match find_label(&s.labels, &k) {
        Some(i) => Some(&s.labels[i].1),
        None => None,
    }
}

fn put_label(m: &mut Vec<(String, String)>, k: &[char], v: &[char])
    ensures
        label_views(final(m)@) == label_put(label_views(old(m)@), k@, v@),
{
    let ghost lv = label_views(m@);
    proof {
        lemma_label_pos(lv, k@);
    }
    match find_label(m, k) {
        Some(i) => {
            m.set(i, (string_of(k), string_of(v)));
            assert(label_views(m@) =~= lv.update(i as int, (k@, v@)));
        },
        None => {
            m.push((string_of(k), string_of(v)));
            assert(label_views(m@) =~= lv.push((k@, v@)));
        },
    }
}

fn strip_quotes_bounds(v: &[char], from: usize, to: usize) -> (r: (usize, usize))
    requires
        from <= to <= v@.len(),
    ensures
        from <= r.0 <= r.1 <= to,
        v@.subrange(r.0 as int, r.1 as int) == strip_quotes(v@.subrange(from as int, to as int)),
{
    let mut a = from;
    let mut b = to;
    while a < b && (v[a] == '"' || v[b - 1] == '"')
        invariant
            from <= a <= b <= to <= v@.len(),
            strip_quotes(v@.subrange(from as int, to as int)) == strip_quotes(
                v@.subrange(a as int, b as int),
            ),
        decreases b - a,
    {
        let ghost s = v@.subrange(a as int, b as int);
        if v[a] == '"' {
            assert(s.drop_first() =~= v@.subrange(a + 1, b as int));
            a += 1;
        } else {
            assert(s.drop_last() =~= v@.subrange(a as int, b - 1));
            b -= 1;
        }
    }
    (a, b)
}

fn add_piece_exec(m: &mut Vec<(String, String)>, v: &[char], from: usize, to: usize)
    requires
        from <= to <= v@.len(),
    ensures
        label_views(final(m)@) == add_label_piece(
            label_views(old(m)@),
            v@.subrange(from as int, to as int),
        ),
{
    let (a, b) = trim_bounds(v, from, to);
    let ghost pair = v@.subrange(a as int, b as int);
    let eq = index_of(v, '=', a);
    proof {
        lemma_index_of_from(pair, '=', 0);
        if eq < b {
            crate::text::lemma_index_of_from_char(pair, '=', 0, eq - a);
        } else {
            crate::text::lemma_index_of_from_char(pair, '=', 0, pair.len() as int);
        }
    }
    if eq < b {
        let (ka, kb) = trim_bounds(v, a, eq);
        assert(v@.subrange(a as int, eq as int) =~= pair.take(eq - a));
        let (va, vb) = trim_bounds(v, eq + 1, b);
        assert(v@.subrange(eq + 1, b as int) =~= pair.skip(eq - a + 1));
        let (qa, qb) = strip_quotes_bounds(v, va, vb);
        if kb > ka {
            let key = slice_of(v, ka, kb);
            let val = slice_of(v, qa, qb);
            put_label(m, &key, &val);
        }
    }
}

fn parse_labels(v: &[char], from: usize, to: usize) -> (r: Vec<(String, String)>)
    requires
        from <= to <= v@.len(),
    ensures
        label_views(r@) == parse_labels_spec(v@.subrange(from as int, to as int)),
{
    let mut m: Vec<(String, String)> = Vec::new();
    let mut start = from;
    let ghost target = parse_labels_spec(v@.subrange(from as int, to as int));
    assert(label_views(m@) =~= Seq::<(Seq<char>, Seq<char>)>::empty());
    loop
        invariant
            from <= start <= to <= v@.len(),
            target == parse_labels_spec(v@.subrange(from as int, to as int)),
            target == labels_from(
                label_views(m@),
                split_at_char(v@.subrange(start as int, to as int), ','),
            ),
        decreases to - start,
    {
        let ghost s = v@.subrange(start as int, to as int);
        let k = index_of(v, ',', start);
        let end = if k < to {
            k
        } else {
            to
        };
        proof {
            if k < to {
                crate::text::lemma_index_of_from_char(s, ',', 0, k - start);
            } else {
                crate::text::lemma_index_of_from_char(s, ',', 0, s.len() as int);
            }
        }
        add_piece_exec(&mut m, v, start, end);
        if end == to {
            proof {
                assert(s.take(s.len() as int) =~= s);
                assert(split_at_char(s, ',') == seq![s]);
                assert(labels_from(label_views(m@), Seq::<Seq<char>>::empty()) == label_views(m@));
                assert(seq![s].drop_first() =~= Seq::<Seq<char>>::empty());
            }
            return m;
        }
        proof {
            let first = s.take(k - start);
            assert(first =~= v@.subrange(start as int, k as int));
            let rest = split_at_char(s.skip(k - start + 1), ',');
            assert(split_at_char(s, ',') == seq![first] + rest);
            assert((seq![first] + rest).drop_first() =~= rest);
            assert((seq![first] + rest)[0] == first);
            assert(s.skip(k - start + 1) =~= v@.subrange(k + 1, to as int));
        }
        start = k + 1;
    }
}

// ─────────────────────────────── lines ───────────────────────────────

/// The first `}` stands before the first `{`: slicing the labels between
/// them would panic.
pub open spec fn braces_reversed(line: Seq<char>) -> bool {
    let b = index_of_from(line, '{', 0);
    let e = index_of_from(line, '}', 0);
    b < line.len() && e < b
}

/// The sample of one trimmed line, if it holds one.
pub open spec fn prom_line(line: Seq<char>) -> Option<SampleView> {
    let b = index_of_from(line, '{', 0);
    if b < line.len() {
        let e = index_of_from(line, '}', 0);
        if e >= line.len() {
            None
        } else {
            let rest = trim(line.subrange(e + 1, line.len() as int));
            match word_after(rest, 0) {
                None => None,
                Some(w) => match real_micros(rest.subrange(w.0, w.1)) {
                    None => None,
                    Some(v) => Some(
                        SampleView {
                            name: line.take(b),
                            labels: parse_labels_spec(line.subrange(b + 1, e)),
                            value: v,
                        },
                    ),
                },
            }
        }
    } else {
        match word_after(line, 0) {
            None => None,
            Some(w1) => match word_after(line, w1.1) {
                None => None,
                Some(w2) => match real_micros(line.subrange(w2.0, w2.1)) {
                    None => None,
                    Some(v) => Some(
                        SampleView { name: line.subrange(w1.0, w1.1), labels: Seq::empty(), value: v },
                    ),
                },
            },
        }
    }
}

/// A line that is blank or a comment once trimmed.
pub open spec fn skipped_line(t: Seq<char>) -> bool {
    t.len() == 0 || t[0] == '#'
}

/// The samples of the given lines, in order.
pub open spec fn prom_samples(ls: Seq<Seq<char>>) -> Seq<SampleView>
    decreases ls.len(),
{
    if ls.len() == 0 {
        Seq::empty()
    } else {
        let prev = prom_samples(ls.drop_last());
        let t = trim(ls.last());
        if skipped_line(t) {
            prev
        } else {
            match prom_line(t) {
                Some(s) => prev.push(s),
                None => prev,
            }
        }
    }
}

/// No sample line of the text (blank and comment lines aside) has its
/// first `}` before its first `{`.
pub open spec fn prom_text_ok(text: Seq<char>) -> bool {
    forall|i: int|
        0 <= i < lines(text).len() ==> !skipped_line(trim(#[trigger] lines(text)[i]))
            ==> !braces_reversed(trim(lines(text)[i]))
}

fn parse_line(v: &[char]) -> (r: Option<Sample>)
    requires
        !braces_reversed(v@),
    ensures
        match r {
            Some(s) => prom_line(v@) == Some(s@),
            None => prom_line(v@) is None,
        },
{
    let b = index_of(v, '{', 0);
    if b < v.len() {
        let e = index_of(v, '}', 0);
        if e >= v.len() {
            return None;
        }
        assert(e > b);
        let (ra, rb) = trim_bounds(v, e + 1, v.len());
        let rest = slice_of(v, ra, rb);
        match word_after_exec(&rest, 0) {
            None => None,
            Some((wa, wz)) => {
                let word = slice_of(&rest, wa, wz);
                match parse_micros(&word) {
                    None => None,
                    Some(value) => {
                        let name = slice_of(v, 0, b);
                        assert(name@ =~= v@.take(b as int));
                        let labels = parse_labels(v, b + 1, e);
                        Some(Sample { name: string_of(&name), labels, value })
                    },
                }
            },
        }
    } else {
        match word_after_exec(v, 0) {
            None => None,
            Some((a1, z1)) => match word_after_exec(v, z1) {
                None => None,
                Some((a2, z2)) => {
                    let word = slice_of(v, a2, z2);
                    match parse_micros(&word) {
                        None => None,
                        Some(value) => {
                            let name = slice_of(v, a1, z1);
                            let labels: Vec<(String, String)> = Vec::new();
                            assert(label_views(labels@) =~= Seq::<(Seq<char>, Seq<char>)>::empty());
                            Some(Sample { name: string_of(&name), labels, value })
                        },
                    }
                },
            },
        }
    }
}

/// The samples of a Prometheus exposition text, in order. Blank and `#`
/// lines, and lines that hold no sample, are skipped.
pub fn parse_prometheus_text(text: &str) -> (r: Vec<Sample>)
    requires
        prom_text_ok(text@),
    ensures
        sample_views(r@) == prom_samples(lines(text@)),
{
    let chars = chars_of(text);
    let ls = lines_of(&chars);
    let ghost lv = lines(text@);
    let mut out: Vec<Sample> = Vec::new();
    let mut i: usize = 0;
    while i < ls.len()
        invariant
            i <= ls@.len(),
            views(ls@) == lv,
            lv == lines(text@),
            prom_text_ok(text@),
            sample_views(out@) == prom_samples(lv.take(i as int)),
        decreases ls@.len() - i,
    {
        proof {
            assert(lv.take(i + 1).drop_last() =~= lv.take(i as int));
            assert(lv.take(i + 1).last() == lv[i as int]);
            assert(lv[i as int] == ls@[i as int]@);
        }
        let line = &ls[i];
        let t = crate::text::trimmed(line);
        let ghost before = out@;
        if t.len() == 0 || t[0] == '#' {
        } else {
            assert(!braces_reversed(trim(lv[i as int])));
            match parse_line(&t) {
                Some(s) => {
                    out.push(s);
                    assert(sample_views(out@) =~= sample_views(before).push(out@.last()@));
                },
                None => {},
            }
        }
        i += 1;
    }
    assert(lv.take(lv.len() as int) =~= lv);
    out
}

/// The first sample named `name` carrying every given label with the given
/// value.
pub open spec fn gauge_match(s: SampleView, name: Seq<char>, labels: Seq<(Seq<char>, Seq<char>)>) -> bool {
    s.name == name && forall|j: int|
        0 <= j < labels.len() ==> label_get(s.labels, (#[trigger] labels[j]).0) == Some(labels[j].1)
}

pub open spec fn find_gauge_spec(
    samples: Seq<SampleView>,
    name: Seq<char>,
    labels: Seq<(Seq<char>, Seq<char>)>,
) -> Option<int>
    decreases samples.len(),
{
    if samples.len() == 0 {
        None
    } else if gauge_match(samples[0], name, labels) {
        Some(samples[0].value)
    } else {
        find_gauge_spec(samples.drop_first(), name, labels)
    }
}

pub open spec fn str_pairs(labels: Seq<(&str, &str)>) -> Seq<(Seq<char>, Seq<char>)> {
    labels.map_values(|p: (&str, &str)| (p.0@, p.1@))
}

fn has_labels(s: &Sample, labels: &[(&str, &str)]) -> (b: bool)
    ensures
        b == (forall|j: int|
            0 <= j < labels@.len() ==> label_get(
                s@.labels,
                (#[trigger] str_pairs(labels@)[j]).0,
            ) == Some(str_pairs(labels@)[j].1)),
{
    let mut j: usize = 0;
    while j < labels.len()
        invariant
            j <= labels@.len(),
            forall|k: int|
                0 <= k < j ==> label_get(s@.labels, (#[trigger] str_pairs(labels@)[k]).0) == Some(
                    str_pairs(labels@)[k].1,
                ),
        decreases labels@.len() - j,
    {
        let (k, v) = labels[j];
        let kc = chars_of(k);
        let vc = chars_of(v);
        assert(str_pairs(labels@)[j as int] == (k@, v@));
        let ok = match find_label(&s.labels, &kc) {
            Some(i) => {
                proof {
                    lemma_label_pos(s@.labels, k@);
                }
                crate::text::str_eq(s.labels[i].1.as_str(), v)
            },
            None => false,
        };
        if !ok {
            return false;
        }
        j += 1;
    }
    true
}

/// The value of the first sample named `name` that carries each of the
/// given labels with the given value.
pub fn find_gauge(samples: &[Sample], name: &str, labels: &[(&str, &str)]) -> (r: Option<i64>)
    ensures
        (match r {
            Some(v) => Some(v as int),
            None => None::<int>,
        }) == find_gauge_spec(sample_views(samples@), name@, str_pairs(labels@)),
{
    let ghost all = sample_views(samples@);
    let mut i: usize = 0;
    assert(all.skip(0) =~= all);
    while i < samples.len()
        invariant
            i <= samples@.len(),
            all == sample_views(samples@),
            find_gauge_spec(all, name@, str_pairs(labels@)) == find_gauge_spec(
                all.skip(i as int),
                name@,
                str_pairs(labels@),
            ),
        decreases samples@.len() - i,
    {
        let s = &samples[i];
        proof {
            assert(all.skip(i as int)[0] == s@);
            assert(all.skip(i as int).drop_first() =~= all.skip(i + 1));
        }
        if crate::text::str_eq(s.name.as_str(), name) && has_labels(s, labels) {
            return Some(s.value);
        }
        i += 1;
    }
    assert(all.skip(i as int) =~= Seq::<SampleView>::empty());
    None
}

} // verus!
