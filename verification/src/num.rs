//! Decimal numbers in text: parsing and printing.
//!
//! Integers are parsed as std's `from_str` does. Real numbers (metric values,
//! pause times, CPU loads) are held as whole millionths in an `i64`: the
//! decimal text is read exactly, truncated toward zero at the sixth decimal
//! place and saturated at the bounds of `i64`.

use vstd::prelude::*;
use crate::text::{index_of, index_of_from, lemma_index_of_from, push_char, slice_of};

verus! {

pub open spec fn is_digit(c: char) -> bool {
    '0' <= c && c <= '9'
}

pub open spec fn digit_val(c: char) -> int {
    c as int - '0' as int
}

pub open spec fn all_digits(s: Seq<char>) -> bool {
    forall|i: int| 0 <= i < s.len() ==> is_digit(#[trigger] s[i])
}

/// The value of a string of decimal digits.
pub open spec fn digits_value(s: Seq<char>) -> int
    decreases s.len(),
{
    if s.len() == 0 {
        0
    } else {
        digits_value(s.drop_last()) * 10 + digit_val(s.last())
    }
}

pub proof fn lemma_digits_value_nonneg(s: Seq<char>)
    requires
        all_digits(s),
    ensures
        digits_value(s) >= 0,
    decreases s.len(),
{
    if s.len() > 0 {
        lemma_digits_value_nonneg(s.drop_last());
    }
}

pub proof fn lemma_digits_value_prefix(s: Seq<char>, j: int)
    requires
        all_digits(s),
        0 <= j <= s.len(),
    ensures
        digits_value(s) >= digits_value(s.take(j)),
    decreases s.len(),
{
    if j < s.len() {
        lemma_digits_value_prefix(s.drop_last(), j);
        assert(s.drop_last().take(j) =~= s.take(j));
        lemma_digits_value_nonneg(s.drop_last());
    } else {
        assert(s.take(j) =~= s);
    }
}

/// The value of a string of digits, or `None` when it is empty, holds a
/// non-digit, or exceeds `max`.
pub open spec fn digits_upto(s: Seq<char>, max: int) -> Option<int> {
    if s.len() > 0 && all_digits(s) && digits_value(s) <= max {
        Some(digits_value(s))
    } else {
        None
    }
}

/// Unsigned integer parsing as std's `from_str` does it: an optional `+`,
/// then one or more decimal digits, with a value of at most `max`.
pub open spec fn parse_unsigned(s: Seq<char>, max: int) -> Option<int> {
    if s.len() > 0 && s[0] == '+' {
        digits_upto(s.drop_first(), max)
    } else {
        digits_upto(s, max)
    }
}

/// Signed `i64` parsing as std's `from_str` does it.
pub open spec fn parse_i64_spec(s: Seq<char>) -> Option<int> {
    if s.len() > 0 && s[0] == '-' {
        match digits_upto(s.drop_first(), 0x8000_0000_0000_0000) {
            Some(v) => Some(-v),
            None => None,
        }
    } else {
        parse_unsigned(s, i64::MAX as int)
    }
}

/// The digits `v[from..to]` as a number of at most `max`.
pub fn digits_in(v: &[char], from: usize, to: usize, max: u128) -> (r: Option<u128>)
    requires
        from <= to <= v@.len(),
    ensures
        match r {
            Some(x) => digits_upto(v@.subrange(from as int, to as int), max as int) == Some(
                x as int,
            ),
            None => digits_upto(v@.subrange(from as int, to as int), max as int) is None,
        },
{
    let ghost s = v@.subrange(from as int, to as int);
    if from == to {
        return None;
    }
    let mut acc: u128 = 0;
    let mut i = from;
    while i < to
        invariant
            from <= i <= to <= v@.len(),
            s == v@.subrange(from as int, to as int),
            all_digits(s.take(i - from)),
            acc as int == digits_value(s.take(i - from)),
            acc <= max,
        decreases to - i,
    {
        let c = v[i];
        assert(s[i - from] == c);
        assert(s.take(i - from + 1).drop_last() =~= s.take(i - from));
        if !('0' <= c && c <= '9') {
            assert(!all_digits(s));
            return None;
        }
        let d = (c as u32 - '0' as u32) as u128;
        if d > max || acc > (max - d) / 10 {
            proof {
                assert(all_digits(s.take(i - from + 1)));
                assert(digits_value(s.take(i - from + 1)) > max) by (nonlinear_arith)
                    requires
                        digits_value(s.take(i - from + 1)) == acc * 10 + d,
                        d > max || acc > (max - d) / 10,
                        acc >= 0,
                        d >= 0,
                {
                }
                if all_digits(s) {
                    lemma_digits_value_prefix(s, i - from + 1);
                }
            }
            return None;
        }
        acc = acc * 10 + d;
        i += 1;
        assert(all_digits(s.take(i - from)));
    }
    assert(s.take(to - from) =~= s);
    Some(acc)
}

/// `u64::from_str` on `v[from..to]`.
pub fn parse_u64_in(v: &[char], from: usize, to: usize) -> (r: Option<u64>)
    requires
        from <= to <= v@.len(),
    ensures
        r matches Some(x) ==> parse_unsigned(v@.subrange(from as int, to as int), u64::MAX as int)
            == Some(x as int),
        r is None ==> parse_unsigned(v@.subrange(from as int, to as int), u64::MAX as int) is None,
{
    let ghost s = v@.subrange(from as int, to as int);
    let mut a = from;
    if from < to && v[from] == '+' {
        a = from + 1;
        assert(s.drop_first() =~= v@.subrange(a as int, to as int));
    }
    match digits_in(v, a, to, u64::MAX as u128) {
        Some(x) => Some(x as u64),
        None => None,
    }
}

/// `u64::from_str`.
pub fn parse_u64(v: &[char]) -> (r: Option<u64>)
    ensures
        r matches Some(x) ==> parse_unsigned(v@, u64::MAX as int) == Some(x as int),
        r is None ==> parse_unsigned(v@, u64::MAX as int) is None,
{
    assert(v@.subrange(0, v@.len() as int) =~= v@);
    parse_u64_in(v, 0, v.len())
}

/// `i64::from_str` on `v[from..to]`.
pub fn parse_i64_in(v: &[char], from: usize, to: usize) -> (r: Option<i64>)
    requires
        from <= to <= v@.len(),
    ensures
        r matches Some(x) ==> parse_i64_spec(v@.subrange(from as int, to as int)) == Some(x as int),
        r is None ==> parse_i64_spec(v@.subrange(from as int, to as int)) is None,
{
    let ghost s = v@.subrange(from as int, to as int);
    if from < to && v[from] == '-' {
        assert(s.drop_first() =~= v@.subrange(from + 1, to as int));
        match digits_in(v, from + 1, to, 0x8000_0000_0000_0000u128) {
            Some(x) => {
                if x == 0x8000_0000_0000_0000u128 {
                    Some(i64::MIN)
                } else {
                    Some(-(x as i64))
                }
            },
            None => None,
        }
    } else {
        let mut a = from;
        if from < to && v[from] == '+' {
            a = from + 1;
            assert(s.drop_first() =~= v@.subrange(a as int, to as int));
        }
        match digits_in(v, a, to, i64::MAX as u128) {
            Some(x) => Some(x as i64),
            None => None,
        }
    }
}

/// `i64::from_str`.
pub fn parse_i64(v: &[char]) -> (r: Option<i64>)
    ensures
        r matches Some(x) ==> parse_i64_spec(v@) == Some(x as int),
        r is None ==> parse_i64_spec(v@) is None,
{
    assert(v@.subrange(0, v@.len() as int) =~= v@);
    parse_i64_in(v, 0, v.len())
}

/// `u32::from_str`.
pub fn parse_u32(v: &[char]) -> (r: Option<u32>)
    ensures
        r matches Some(x) ==> parse_unsigned(v@, u32::MAX as int) == Some(x as int),
        r is None ==> parse_unsigned(v@, u32::MAX as int) is None,
{
    let ghost s = v@;
    let mut a: usize = 0;
    if v.len() > 0 && v[0] == '+' {
        a = 1;
        assert(s.drop_first() =~= v@.subrange(1, v@.len() as int));
    } else {
        assert(s =~= v@.subrange(0, v@.len() as int));
    }
    match digits_in(v, a, v.len(), u32::MAX as u128) {
        Some(x) => Some(x as u32),
        None => None,
    }
}

// ───────────────────────── printing ─────────────────────────

pub open spec fn digit_char(d: int) -> char {
    (d + '0' as int) as char
}

/// Decimal text of a natural number, as `{}` formats it.
pub open spec fn nat_text(n: nat) -> Seq<char>
    decreases n,
{
    if n < 10 {
        seq![digit_char(n as int)]
    } else {
        nat_text(n / 10).push(digit_char((n % 10) as int))
    }
}

/// Decimal text of an integer, as `{}` formats it.
pub open spec fn int_text(n: int) -> Seq<char> {
    if n < 0 {
        seq!['-'] + nat_text((-n) as nat)
    } else {
        nat_text(n as nat)
    }
}

/// Appends the decimal text of `n` to `s`.
pub fn push_u128(s: &mut String, n: u128)
    ensures
        final(s)@ == old(s)@ + nat_text(n as nat),
    decreases n,
{
    if n < 10 {
        push_char(s, char_of_digit(n));
        assert(nat_text(n as nat) =~= seq![digit_char(n as int)]);
    } else {
        push_u128(s, n / 10);
        push_char(s, char_of_digit(n % 10));
        assert(old(s)@ + nat_text(n as nat) =~= old(s)@ + nat_text((n / 10) as nat) + seq![
            digit_char((n % 10) as int),
        ]);
    }
}

fn char_of_digit(d: u128) -> (c: char)
    requires
        d < 10,
    ensures
        c == digit_char(d as int),
{
    let c = if d == 0 { '0' } else if d == 1 { '1' } else if d == 2 { '2' } else if d == 3 {
        '3'
    } else if d == 4 { '4' } else if d == 5 { '5' } else if d == 6 { '6' } else if d == 7 {
        '7'
    } else if d == 8 { '8' } else { '9' };
    c
}

/// Appends the decimal text of `n` to `s`.
pub fn push_int(s: &mut String, n: i128)
    requires
        n > i128::MIN,
    ensures
        final(s)@ == old(s)@ + int_text(n as int),
{
    if n < 0 {
        push_char(s, '-');
        push_u128(s, (-n) as u128);
        assert(old(s)@ + int_text(n as int) =~= old(s)@.push('-') + nat_text((-n) as nat));
    } else {
        push_u128(s, n as u128);
    }
}

/// The decimal text of `n`.
pub fn int_string(n: i128) -> (s: String)
    requires
        n > i128::MIN,
    ensures
        s@ == int_text(n as int),
{
    let mut s = String::new();
    push_int(&mut s, n);
    assert(Seq::<char>::empty() + int_text(n as int) =~= int_text(n as int));
    s
}

// ───────────────────── real numbers as millionths ─────────────────────

pub open spec fn pow10(k: nat) -> nat
    decreases k,
{
    if k == 0 {
        1
    } else {
        10 * pow10((k - 1) as nat)
    }
}

/// The digit at position `i` of `d`, reading zeros past its end.
pub open spec fn dig_at(d: Seq<char>, i: int) -> int {
    if 0 <= i < d.len() {
        digit_val(d[i])
    } else {
        0
    }
}

/// The integer formed by the first `p` digits of `d` (zero-padded on the
/// right when `p` exceeds its length); zero when `p <= 0`.
pub open spec fn shifted(d: Seq<char>, p: int) -> int
    decreases p,
{
    if p <= 0 {
        0
    } else {
        shifted(d, p - 1) * 10 + dig_at(d, p - 1)
    }
}

/// `c` is `w`, or the ASCII upper-case form of `w`.
pub open spec fn same_ignoring_case(c: char, w: char) -> bool {
    c == w || ('A' <= c && c <= 'Z' && c as int + 32 == w as int)
}

/// `s` equals the lower-case ASCII word `w`, ignoring ASCII case.
pub open spec fn eq_ignore_case(s: Seq<char>, w: Seq<char>) -> bool {
    s.len() == w.len() && forall|i: int| 0 <= i < s.len() ==> same_ignoring_case(#[trigger] s[i], w[i])
}

/// An exponent: optional sign, then one or more digits.
pub open spec fn parse_exp(e: Seq<char>) -> Option<int> {
    let neg = e.len() > 0 && e[0] == '-';
    let b = if e.len() > 0 && (e[0] == '-' || e[0] == '+') {
        e.drop_first()
    } else {
        e
    };
    if b.len() > 0 && all_digits(b) {
        Some(if neg { -digits_value(b) } else { digits_value(b) })
    } else {
        None
    }
}

pub open spec fn min_int(a: int, b: int) -> int {
    if a <= b {
        a
    } else {
        b
    }
}

/// The digits and decimal-point position of an unsigned decimal number with
/// an optional exponent: `12.5e1` gives digits `125` and point `3`.
pub open spec fn decimal_shift(b: Seq<char>) -> Option<(Seq<char>, int)> {
    let ke = min_int(index_of_from(b, 'e', 0), index_of_from(b, 'E', 0));
    let mant = b.take(ke);
    let exp = if ke < b.len() {
        parse_exp(b.skip(ke + 1))
    } else {
        Some(0)
    };
    let kd = index_of_from(mant, '.', 0);
    let ip = mant.take(kd);
    let fp = if kd < mant.len() {
        mant.skip(kd + 1)
    } else {
        Seq::<char>::empty()
    };
    if all_digits(ip) && all_digits(fp) && ip.len() + fp.len() > 0 && exp is Some {
        Some((ip + fp, ip.len() + exp.unwrap()))
    } else {
        None
    }
}

pub open spec fn micro_cap_neg() -> int {
    0x8000_0000_0000_0000
}

/// A number in the text syntax of `f64::from_str`, as whole millionths:
/// truncated toward zero, saturated at the bounds of `i64`; infinities
/// saturate and NaN reads as zero. `None` when the text is not a number.
pub open spec fn real_micros(s: Seq<char>) -> Option<int> {
    let neg = s.len() > 0 && s[0] == '-';
    let body = if s.len() > 0 && (s[0] == '-' || s[0] == '+') {
        s.drop_first()
    } else {
        s
    };
    if eq_ignore_case(body, seq!['i', 'n', 'f']) || eq_ignore_case(
        body,
        seq!['i', 'n', 'f', 'i', 'n', 'i', 't', 'y'],
    ) {
        Some(
            if neg {
                i64::MIN as int
            } else {
                i64::MAX as int
            },
        )
    } else if eq_ignore_case(body, seq!['n', 'a', 'n']) {
        Some(0)
    } else {
        match decimal_shift(body) {
            Some((d, p)) => {
                let m = shifted(d, p + 6);
                Some(
                    if neg {
                        -min_int(m, micro_cap_neg())
                    } else {
                        min_int(m, i64::MAX as int)
                    },
                )
            },
            None => None,
        }
    }
}

proof fn lemma_sat_step(x: int, d: int, c: int)
    requires
        x >= 0,
        0 <= d <= 9,
        c > 0,
    ensures
        min_int(10 * min_int(x, c) + d, c) == min_int(10 * x + d, c),
{
}

proof fn lemma_shifted_nonneg(d: Seq<char>, p: int)
    requires
        all_digits(d),
    ensures
        shifted(d, p) >= 0,
    decreases p,
{
    if p > 0 {
        lemma_shifted_nonneg(d, p - 1);
    }
}

proof fn lemma_shifted_tail(d: Seq<char>, q: int)
    requires
        all_digits(d),
        q >= d.len(),
    ensures
        shifted(d, q) == shifted(d, d.len() as int) * pow10((q - d.len()) as nat),
    decreases q,
{
    let s0 = shifted(d, d.len() as int);
    if q > d.len() {
        lemma_shifted_tail(d, q - 1);
        let k = (q - d.len()) as nat;
        let b = pow10((k - 1) as nat);
        assert(pow10(k) == 10 * b);
        assert(dig_at(d, q - 1) == 0);
        assert(shifted(d, q) == shifted(d, q - 1) * 10);
        assert(shifted(d, q - 1) == s0 * b);
        assert(s0 * b * 10 == s0 * (10 * b)) by (nonlinear_arith);
    } else {
        assert(pow10(0) == 1);
        assert(s0 * 1 == s0);
    }
}

proof fn lemma_pow10_mono(a: nat, b: nat)
    requires
        a <= b,
    ensures
        pow10(a) <= pow10(b),
    decreases b,
{
    if a < b {
        lemma_pow10_mono(a, (b - 1) as nat);
    }
}

/// The point position actually iterated: at most 20 places past the digits.
pub open spec fn clamp_point(p: int, n: int) -> int {
    if p <= 0 {
        0
    } else if p > n + 20 {
        n + 20
    } else {
        p
    }
}

proof fn lemma_shifted_clamp(d: Seq<char>, p: int)
    requires
        all_digits(d),
    ensures
        min_int(shifted(d, p), micro_cap_neg()) == min_int(
            shifted(d, clamp_point(p, d.len() as int)),
            micro_cap_neg(),
        ),
{
    if p > d.len() + 20 {
        let n = (d.len() + 20) as int;
        lemma_shifted_tail(d, p);
        lemma_shifted_tail(d, n);
        lemma_shifted_nonneg(d, d.len() as int);
        let s0 = shifted(d, d.len() as int);
        if s0 > 0 {
            lemma_pow10_mono(20, (p - d.len()) as nat);
            assert(pow10(20) == 100000000000000000000) by {
                reveal_with_fuel(pow10, 21);
            }
            let a = pow10((p - d.len()) as nat);
            let b = pow10(20);
            assert(s0 * a >= a) by (nonlinear_arith)
                requires
                    s0 >= 1,
                    a >= 0,
            ;
            assert(s0 * b >= b) by (nonlinear_arith)
                requires
                    s0 >= 1,
                    b >= 0,
            ;
            assert(shifted(d, p) >= micro_cap_neg());
            assert(shifted(d, n) >= micro_cap_neg());
        } else {
            let a = pow10((p - d.len()) as nat);
            let b = pow10(20);
            assert(s0 * a == 0 && s0 * b == 0) by (nonlinear_arith)
                requires
                    s0 == 0,
            ;
            assert((n - d.len()) as nat == 20);
        }
    }
}

fn is_digit_char(c: char) -> (b: bool)
    ensures
        b == is_digit(c),
{
    '0' <= c && c <= '9'
}

fn digit_of(c: char) -> (d: u128)
    requires
        is_digit(c),
    ensures
        d as int == digit_val(c),
        d <= 9,
{
    (c as u32 - '0' as u32) as u128
}

fn same_ignoring_case_exec(c: char, w: char) -> (b: bool)
    ensures
        b == same_ignoring_case(c, w),
{
    c == w || ('A' <= c && c <= 'Z' && c as u32 + 32 == w as u32)
}

fn eq_ignore_case_exec(v: &[char], w: &[char]) -> (b: bool)
    ensures
        b == eq_ignore_case(v@, w@),
{
    if v.len() != w.len() {
        return false;
    }
    let mut i: usize = 0;
    while i < v.len()
        invariant
            v@.len() == w@.len(),
            i <= v@.len(),
            forall|k: int| 0 <= k < i ==> same_ignoring_case(#[trigger] v@[k], w@[k]),
        decreases v@.len() - i,
    {
        if !same_ignoring_case_exec(v[i], w[i]) {
            return false;
        }
        i += 1;
    }
    true
}

fn check_digits(v: &[char], from: usize, to: usize) -> (b: bool)
    requires
        from <= to <= v@.len(),
    ensures
        b == all_digits(v@.subrange(from as int, to as int)),
{
    let mut i = from;
    while i < to
        invariant
            from <= i <= to <= v@.len(),
            forall|k: int| from <= k < i ==> is_digit(#[trigger] v@[k]),
        decreases to - i,
    {
        if !is_digit_char(v[i]) {
            assert(v@.subrange(from as int, to as int)[i - from] == v@[i as int]);
            return false;
        }
        i += 1;
    }
    assert forall|k: int| 0 <= k < to - from implies is_digit(
        #[trigger] v@.subrange(from as int, to as int)[k],
    ) by {
        assert(v@.subrange(from as int, to as int)[k] == v@[from + k]);
    }
    true
}

/// Parses an exponent `v[from..to]`; its magnitude is saturated at `2^66`.
fn parse_exp_sat(v: &[char], from: usize, to: usize) -> (r: Option<i128>)
    requires
        from <= to <= v@.len(),
    ensures
        r is Some <==> parse_exp(v@.subrange(from as int, to as int)) is Some,
        r matches Some(x) ==> {
            let e = parse_exp(v@.subrange(from as int, to as int)).unwrap();
            &&& -0x4_0000_0000_0000_0000 <= x <= 0x4_0000_0000_0000_0000
            &&& (e >= 0x4_0000_0000_0000_0000 ==> x == 0x4_0000_0000_0000_0000)
            &&& (e <= -0x4_0000_0000_0000_0000 ==> x == -0x4_0000_0000_0000_0000)
            &&& (-0x4_0000_0000_0000_0000 < e < 0x4_0000_0000_0000_0000 ==> x == e)
        },
{
    let ghost e = v@.subrange(from as int, to as int);
    let neg = from < to && v[from] == '-';
    let mut a = from;
    if from < to && (v[from] == '-' || v[from] == '+') {
        a = from + 1;
        assert(e.drop_first() =~= v@.subrange(a as int, to as int));
    } else {
        assert(e =~= v@.subrange(a as int, to as int));
    }
    let ghost b = v@.subrange(a as int, to as int);
    if a == to || !check_digits(v, a, to) {
        return None;
    }
    let cap: u128 = 0x4_0000_0000_0000_0000;
    let mut acc: u128 = 0;
    let mut i = a;
    while i < to
        invariant
            a <= i <= to <= v@.len(),
            b == v@.subrange(a as int, to as int),
            all_digits(b),
            acc as int == min_int(digits_value(b.take(i - a)), cap as int),
            cap == 0x4_0000_0000_0000_0000,
        decreases to - i,
    {
        assert(b[i - a] == v@[i as int]);
        let dd = digit_of(v[i]);
        proof {
            lemma_digits_value_nonneg(b.take(i - a));
            lemma_sat_step(digits_value(b.take(i - a)), dd as int, cap as int);
            assert(b.take(i - a + 1).drop_last() =~= b.take(i - a));
        }
        let t = acc * 10 + dd;
        acc = if t > cap { cap } else { t };
        i += 1;
    }
    assert(b.take(to - a) =~= b);
    proof {
        lemma_digits_value_nonneg(b);
    }
    let m = acc as i128;
    Some(if neg { -m } else { m })
}

/// The digits and saturated point position of an unsigned decimal.
fn decimal_parts(b: &[char]) -> (r: Option<(Vec<char>, i128)>)
    ensures
        r is Some <==> decimal_shift(b@) is Some,
        r matches Some((d, p)) ==> {
            let ds = decimal_shift(b@).unwrap();
            &&& d@ == ds.0
            &&& clamp_point(p as int, d@.len() as int) == clamp_point(ds.1 + 6, d@.len() as int)
            &&& all_digits(d@)
        },
{
    let ghost bb = b@;
    let k1 = index_of(b, 'e', 0);
    let k2 = index_of(b, 'E', 0);
    let ke = if k1 <= k2 { k1 } else { k2 };
    let exp: Option<i128> = if ke < b.len() {
        parse_exp_sat(b, ke + 1, b.len())
    } else {
        Some(0)
    };
    assert(bb.skip(ke + 1) =~= bb.subrange(ke + 1, bb.len() as int));
    let mant = slice_of(b, 0, ke);
    assert(mant@ =~= bb.take(ke as int));
    let kd = index_of(&mant, '.', 0);
    let ip_ok = check_digits(&mant, 0, kd);
    let fp_start = if kd < mant.len() { kd + 1 } else { kd };
    let fp_ok = check_digits(&mant, fp_start, mant.len());
    assert(mant@.take(kd as int) =~= mant@.subrange(0, kd as int));
    proof {
        if kd < mant@.len() {
            assert(mant@.skip(kd + 1) =~= mant@.subrange(fp_start as int, mant@.len() as int));
        } else {
            assert(Seq::<char>::empty() =~= mant@.subrange(fp_start as int, mant@.len() as int));
        }
    }
    let n_ip = kd;
    let n_fp = mant.len() - fp_start;
    if !ip_ok || !fp_ok || n_ip + n_fp == 0 || exp.is_none() {
        return None;
    }
    let e = exp.unwrap();
    let mut d = slice_of(&mant, 0, kd);
    let tail = slice_of(&mant, fp_start, mant.len());
    let mut j: usize = 0;
    let ghost d0 = d@;
    while j < tail.len()
        invariant
            j <= tail@.len(),
            d@ == d0 + tail@.take(j as int),
        decreases tail@.len() - j,
    {
        d.push(tail[j]);
        j += 1;
        assert(d@ =~= d0 + tail@.take(j as int));
    }
    assert(tail@.take(tail@.len() as int) =~= tail@);
    let ghost ds = decimal_shift(bb);
    assert(ds is Some);
    assert(d@ == ds.unwrap().0);
    proof {
        let dd = d@;
        assert forall|k: int| 0 <= k < dd.len() implies is_digit(#[trigger] dd[k]) by {
            if k < n_ip {
                assert(dd[k] == mant@.subrange(0, kd as int)[k]);
            } else {
                assert(dd[k] == mant@.subrange(fp_start as int, mant@.len() as int)[k - n_ip]);
            }
        }
    }
    let p: i128 = n_ip as i128 + e + 6;
    Some((d, p))
}

/// `min(shifted(d, pc), 2^63)`.
fn shifted_sat(d: &[char], pc: i128) -> (r: u128)
    requires
        0 <= pc <= d@.len() + 20,
        all_digits(d@),
    ensures
        r as int == min_int(shifted(d@, pc as int), micro_cap_neg()),
{
    let cap: u128 = 0x8000_0000_0000_0000;
    let dlen = d.len() as i128;
    let mut acc: u128 = 0;
    let mut i: i128 = 0;
    while i < pc
        invariant
            0 <= i <= pc <= dlen + 20,
            dlen == d@.len(),
            all_digits(d@),
            acc as int == min_int(shifted(d@, i as int), cap as int),
            cap == 0x8000_0000_0000_0000,
        decreases pc - i,
    {
        let digit: u128 = if i < dlen {
            digit_of(d[i as usize])
        } else {
            0
        };
        proof {
            lemma_shifted_nonneg(d@, i as int);
            lemma_sat_step(shifted(d@, i as int), digit as int, cap as int);
        }
        let t = acc * 10 + digit;
        acc = if t > cap { cap } else { t };
        i += 1;
    }
    acc
}

/// A metric value in the text syntax of `f64::from_str`, as whole
/// millionths (see [`real_micros`]).
pub fn parse_micros(v: &[char]) -> (r: Option<i64>)
    ensures
        r matches Some(x) ==> real_micros(v@) == Some(x as int),
        r is None ==> real_micros(v@) is None,
{
    let neg = v.len() > 0 && v[0] == '-';
    let a: usize = if v.len() > 0 && (v[0] == '-' || v[0] == '+') {
        1
    } else {
        0
    };
    let body = slice_of(v, a, v.len());
    proof {
        if a == 1 {
            assert(body@ =~= v@.drop_first());
        } else {
            assert(body@ =~= v@);
        }
    }
    let inf = ['i', 'n', 'f'];
    let infinity = ['i', 'n', 'f', 'i', 'n', 'i', 't', 'y'];
    let nan = ['n', 'a', 'n'];
    assert(inf@ =~= seq!['i', 'n', 'f']);
    assert(infinity@ =~= seq!['i', 'n', 'f', 'i', 'n', 'i', 't', 'y']);
    assert(nan@ =~= seq!['n', 'a', 'n']);
    if eq_ignore_case_exec(&body, &inf) || eq_ignore_case_exec(&body, &infinity) {
        return Some(if neg { i64::MIN } else { i64::MAX });
    }
    if eq_ignore_case_exec(&body, &nan) {
        return Some(0);
    }
    match decimal_parts(&body) {
        None => None,
        Some((d, p)) => {
            let dlen = d.len() as i128;
            let pc: i128 = if p <= 0 {
                0
            } else if p > dlen + 20 {
                dlen + 20
            } else {
                p
            };
            proof {
                lemma_shifted_clamp(d@, decimal_shift(body@).unwrap().1 + 6);
            }
            let acc = shifted_sat(&d, pc);
            let cap: u128 = 0x8000_0000_0000_0000;
            if neg {
                if acc == cap {
                    Some(i64::MIN)
                } else {
                    Some(-(acc as i64))
                }
            } else {
                if acc >= cap {
                    Some(i64::MAX)
                } else {
                    Some(acc as i64)
                }
            }
        },
    }
}

} // verus!
