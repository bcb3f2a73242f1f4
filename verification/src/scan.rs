//! Building blocks of the line grammars: each step reads from a position
//! of a character sequence and gives the position after what it read.
//! Runs are maximal (greedy), as the grammars never need to give any back.

use vstd::prelude::*;
use crate::text::{is_ws, is_ws_char, occurs_at};

verus! {

pub open spec fn is_ascii_digit(c: char) -> bool {
    '0' <= c <= '9'
}

/// The end of the maximal run at `i` of characters that are not `c`.
pub open spec fn run_not(s: Seq<char>, i: int, c: char) -> int
    decreases s.len() - i,
{
    if i >= s.len() || s[i] == c {
        i
    } else {
        run_not(s, i + 1, c)
    }
}

/// The end of the maximal run of ASCII digits at `i`.
pub open spec fn run_digits(s: Seq<char>, i: int) -> int
    decreases s.len() - i,
{
    if i >= s.len() || !is_ascii_digit(s[i]) {
        i
    } else {
        run_digits(s, i + 1)
    }
}

/// The end of the maximal run of ASCII digits and dots at `i`.
pub open spec fn run_num(s: Seq<char>, i: int) -> int
    decreases s.len() - i,
{
    if i >= s.len() || !(is_ascii_digit(s[i]) || s[i] == '.') {
        i
    } else {
        run_num(s, i + 1)
    }
}

/// The end of the maximal run of whitespace at `i`.
pub open spec fn run_ws(s: Seq<char>, i: int) -> int
    decreases s.len() - i,
{
    if i >= s.len() || !is_ws(s[i]) {
        i
    } else {
        run_ws(s, i + 1)
    }
}

/// `\s+` at `i`.
pub open spec fn ws1(s: Seq<char>, i: int) -> Option<int> {
    if 0 <= i < s.len() && is_ws(s[i]) {
        Some(run_ws(s, i))
    } else {
        None
    }
}

/// `\d+` (ASCII) at `i`.
pub open spec fn digits1(s: Seq<char>, i: int) -> Option<int> {
    if 0 <= i < s.len() && is_ascii_digit(s[i]) {
        Some(run_digits(s, i))
    } else {
        None
    }
}

/// `[0-9.]+` at `i`.
pub open spec fn num1(s: Seq<char>, i: int) -> Option<int> {
    if 0 <= i < s.len() && (is_ascii_digit(s[i]) || s[i] == '.') {
        Some(run_num(s, i))
    } else {
        None
    }
}

/// `[^c]+` at `i`.
pub open spec fn not1(s: Seq<char>, i: int, c: char) -> Option<int> {
    if 0 <= i < s.len() && s[i] != c {
        Some(run_not(s, i, c))
    } else {
        None
    }
}

/// The literal `p` at `i`.
pub open spec fn lit(s: Seq<char>, i: int, p: Seq<char>) -> Option<int> {
    if occurs_at(s, p, i) {
        Some(i + p.len())
    } else {
        None
    }
}

pub proof fn lemma_runs(s: Seq<char>, i: int, c: char)
    requires
        0 <= i <= s.len(),
    ensures
        i <= run_not(s, i, c) <= s.len(),
        i <= run_digits(s, i) <= s.len(),
        i <= run_num(s, i) <= s.len(),
        i <= run_ws(s, i) <= s.len(),
    decreases s.len() - i,
{
    if i < s.len() {
        lemma_runs(s, i + 1, c);
    }
}

pub fn run_not_exec(v: &[char], i: usize, c: char) -> (r: usize)
    requires
        i <= v@.len(),
    ensures
        r == run_not(v@, i as int, c),
        i <= r <= v@.len(),
{
    let mut k = i;
    while k < v.len() && v[k] != c
        invariant
            i <= k <= v@.len(),
            run_not(v@, i as int, c) == run_not(v@, k as int, c),
        decreases v@.len() - k,
    {
        k += 1;
    }
    k
}

pub fn run_digits_exec(v: &[char], i: usize) -> (r: usize)
    requires
        i <= v@.len(),
    ensures
        r == run_digits(v@, i as int),
        i <= r <= v@.len(),
{
    let mut k = i;
    while k < v.len() && '0' <= v[k] && v[k] <= '9'
        invariant
            i <= k <= v@.len(),
            run_digits(v@, i as int) == run_digits(v@, k as int),
        decreases v@.len() - k,
    {
        k += 1;
    }
    k
}

pub fn run_num_exec(v: &[char], i: usize) -> (r: usize)
    requires
        i <= v@.len(),
    ensures
        r == run_num(v@, i as int),
        i <= r <= v@.len(),
{
    let mut k = i;
    while k < v.len() && (('0' <= v[k] && v[k] <= '9') || v[k] == '.')
        invariant
            i <= k <= v@.len(),
            run_num(v@, i as int) == run_num(v@, k as int),
        decreases v@.len() - k,
    {
        k += 1;
    }
    k
}

pub fn run_ws_exec(v: &[char], i: usize) -> (r: usize)
    requires
        i <= v@.len(),
    ensures
        r == run_ws(v@, i as int),
        i <= r <= v@.len(),
{
    let mut k = i;
    while k < v.len() && is_ws_char(v[k])
        invariant
            i <= k <= v@.len(),
            run_ws(v@, i as int) == run_ws(v@, k as int),
        decreases v@.len() - k,
    {
        k += 1;
    }
    k
}

pub open spec fn opt_pos(r: Option<usize>) -> Option<int> {
    match r {
        Some(x) => Some(x as int),
        None => None,
    }
}

pub fn ws1_exec(v: &[char], i: usize) -> (r: Option<usize>)
    requires
        i <= v@.len(),
    ensures
        opt_pos(r) == ws1(v@, i as int),
        r matches Some(e) ==> i < e <= v@.len(),
{
    if i < v.len() && is_ws_char(v[i]) {
        let e = run_ws_exec(v, i);
        proof {
            assert(run_ws(v@, i as int) == run_ws(v@, i + 1));
            lemma_runs(v@, i + 1, ' ');
        }
        Some(e)
    } else {
        None
    }
}

pub fn digits1_exec(v: &[char], i: usize) -> (r: Option<usize>)
    requires
        i <= v@.len(),
    ensures
        opt_pos(r) == digits1(v@, i as int),
        r matches Some(e) ==> i < e <= v@.len(),
{
    if i < v.len() && '0' <= v[i] && v[i] <= '9' {
        let e = run_digits_exec(v, i);
        proof {
            assert(run_digits(v@, i as int) == run_digits(v@, i + 1));
            lemma_runs(v@, i + 1, ' ');
        }
        Some(e)
    } else {
        None
    }
}

pub fn num1_exec(v: &[char], i: usize) -> (r: Option<usize>)
    requires
        i <= v@.len(),
    ensures
        opt_pos(r) == num1(v@, i as int),
        r matches Some(e) ==> i < e <= v@.len(),
{
    if i < v.len() && (('0' <= v[i] && v[i] <= '9') || v[i] == '.') {
        let e = run_num_exec(v, i);
        proof {
            assert(run_num(v@, i as int) == run_num(v@, i + 1));
            lemma_runs(v@, i + 1, ' ');
        }
        Some(e)
    } else {
        None
    }
}

pub fn not1_exec(v: &[char], i: usize, c: char) -> (r: Option<usize>)
    requires
        i <= v@.len(),
    ensures
        opt_pos(r) == not1(v@, i as int, c),
        r matches Some(e) ==> i < e <= v@.len(),
{
    if i < v.len() && v[i] != c {
        let e = run_not_exec(v, i, c);
        proof {
            assert(run_not(v@, i as int, c) == run_not(v@, i + 1, c));
            lemma_runs(v@, i + 1, c);
        }
        Some(e)
    } else {
        None
    }
}

pub fn lit_exec(v: &[char], i: usize, p: &[char]) -> (r: Option<usize>)
    requires
        i <= v@.len(),
    ensures
        opt_pos(r) == lit(v@, i as int, p@),
        r matches Some(e) ==> i <= e <= v@.len(),
{
    let n = p.len();
    let m = v.len();
    if crate::text::matches_at(v, p, i) {
        assert(i + n <= m);
        Some(i + n)
    } else {
        None
    }
}

} // verus!
