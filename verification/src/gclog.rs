//! Java 9+ unified GC logs: the `[time][uptime][level][tags] message`
//! prefix common to all collectors, and telling which collector wrote a
//! log.

use vstd::prelude::*;
use vstd::string::StringExecFns;
use crate::clock::{parse_rfc3339_millis, rfc3339_millis};
use crate::model::{GcAlgorithm, GcEvent, GcPhase};
use crate::num::{parse_i64_in, parse_i64_spec, parse_micros, real_micros};
use crate::prometheus::split_at_char;
use crate::scan::{
    digits1, lit, lit_exec, num1, num1_exec, run_not, run_not_exec, run_ws, run_ws_exec, lemma_runs,
};
use crate::text::{
    chars_of, contains, index_of, lowercase, push_char, slice_of, str_contains, str_eq,
    string_of, to_lower, trim, trim_bounds, trimmed,
};

verus! {

#[verifier::external_type_specification]
#[verifier::external_body]
pub struct ExIoError(std::io::Error);

#[derive(Debug)]
pub enum GcLogError {
    ParseError(String),
    UnsupportedFormat,
    Io(std::io::Error),
}

#[derive(Debug, Clone, Copy, PartialEq, Eq)]
pub enum LogLevel {
    Trace,
    Debug,
    Info,
    Warning,
    Error,
}

/// The prefix parts of a unified log line and its message.
#[derive(Debug, Clone)]
pub struct UnifiedLogLine {
    /// Milliseconds since the Unix epoch, when the time is RFC 3339.
    pub timestamp: Option<i64>,
    /// Uptime in millionths of a second.
    pub uptime_secs: Option<i64>,
    pub level: LogLevel,
    pub tags: Vec<String>,
    pub message: String,
}

// ───────────────────────── collector detection ─────────────────────────

/// The collector a single line shows, if any.
pub open spec fn line_algorithm(l: Seq<char>) -> Option<GcAlgorithm> {
    if contains(l, "G1 Evacuation Pause"@) || contains(l, "Pause Young (Normal)"@) || contains(
        l,
        "Pause Young (Concurrent Start)"@,
    ) || contains(l, "Pause Mixed"@) {
        Some(GcAlgorithm::G1)
    } else if contains(l, "Garbage Collection"@) || contains(l, "ZGC"@) {
        if contains(l, "Young Garbage Collection"@) || contains(l, "Old Garbage Collection"@)
            || contains(l, "Minor Collection"@) || contains(l, "Major Collection"@) {
            Some(GcAlgorithm::ZgcGenerational)
        } else {
            Some(GcAlgorithm::Zgc)
        }
    } else if contains(l, "Shenandoah"@) || contains(l, "Pause Init Mark"@) {
        Some(GcAlgorithm::Shenandoah)
    } else if contains(l, "Pause Full"@) && contains(l, "PSYoungGen"@) {
        Some(GcAlgorithm::Parallel)
    } else {
        None
    }
}

/// The collector of the first line that shows one.
pub open spec fn detect_spec(lines: Seq<Seq<char>>) -> GcAlgorithm
    decreases lines.len(),
{
    if lines.len() == 0 {
        GcAlgorithm::Unknown
    } else {
        match line_algorithm(lines[0]) {
            Some(a) => a,
            None => detect_spec(lines.drop_first()),
        }
    }
}

pub open spec fn str_seqs(v: Seq<&str>) -> Seq<Seq<char>> {
    v.map_values(|s: &str| s@)
}

fn line_algorithm_exec(l: &str) -> (r: Option<GcAlgorithm>)
    ensures
        r == line_algorithm(l@),
{
    if str_contains(l, "G1 Evacuation Pause") || str_contains(l, "Pause Young (Normal)")
        || str_contains(l, "Pause Young (Concurrent Start)") || str_contains(l, "Pause Mixed") {
        Some(GcAlgorithm::G1)
    } else if str_contains(l, "Garbage Collection") || str_contains(l, "ZGC") {
        if str_contains(l, "Young Garbage Collection") || str_contains(l, "Old Garbage Collection")
            || str_contains(l, "Minor Collection") || str_contains(l, "Major Collection") {
            Some(GcAlgorithm::ZgcGenerational)
        } else {
            Some(GcAlgorithm::Zgc)
        }
    } else if str_contains(l, "Shenandoah") || str_contains(l, "Pause Init Mark") {
        Some(GcAlgorithm::Shenandoah)
    } else if str_contains(l, "Pause Full") && str_contains(l, "PSYoungGen") {
        Some(GcAlgorithm::Parallel)
    } else {
        None
    }
}

/// The collector that wrote a log, from the first line that shows one.
pub fn detect_algorithm(sample_lines: &[&str]) -> (r: GcAlgorithm)
    ensures
        r == detect_spec(str_seqs(sample_lines@)),
{
    let ghost ls = str_seqs(sample_lines@);
    let mut i: usize = 0;
    assert(ls.skip(0) =~= ls);
    while i < sample_lines.len()
        invariant
            i <= sample_lines@.len(),
            ls == str_seqs(sample_lines@),
            detect_spec(ls) == detect_spec(ls.skip(i as int)),
        decreases sample_lines@.len() - i,
    {
        proof {
            assert(ls.skip(i as int)[0] == sample_lines@[i as int]@);
            assert(ls.skip(i as int).drop_first() =~= ls.skip(i + 1));
        }
        match line_algorithm_exec(sample_lines[i]) {
            Some(a) => {
                return a;
            },
            None => {},
        }
        i += 1;
    }
    assert(ls.skip(i as int) =~= Seq::<Seq<char>>::empty());
    GcAlgorithm::Unknown
}

// ───────────────────────────── the prefix ─────────────────────────────

pub open spec fn is_word_char(c: char) -> bool {
    ('a' <= c <= 'z') || ('A' <= c <= 'Z') || ('0' <= c <= '9') || c == '_'
}

pub open spec fn run_word(s: Seq<char>, i: int) -> int
    decreases s.len() - i,
{
    if i >= s.len() || !is_word_char(s[i]) {
        i
    } else {
        run_word(s, i + 1)
    }
}

/// `\w+` (ASCII word characters) at `i`.
pub open spec fn word1(s: Seq<char>, i: int) -> Option<int> {
    if 0 <= i < s.len() && is_word_char(s[i]) {
        Some(run_word(s, i))
    } else {
        None
    }
}

/// Bounds of the parts of `[time][uptime s][level][tags] message`.
pub struct PrefixParts {
    pub ts: (int, int),
    pub up: (int, int),
    pub level: (int, int),
    pub tags: (int, int),
    pub msg: (int, int),
}

/// The prefix grammar `^\[([^\]]*)\]\[([0-9.]+)s\]\[(\w+)\]\[([^\]]*)\]\s*(.*)`
/// on a trimmed line; the message runs to the end of the line.
pub open spec fn prefix_parts(t: Seq<char>) -> Option<PrefixParts> {
    match lit(t, 0, "["@) {
        None => None,
        Some(a) => {
            let b = run_not(t, a, ']');
            match lit(t, b, "]["@) {
                None => None,
                Some(c) => match num1(t, c) {
                    None => None,
                    Some(d) => match lit(t, d, "s]["@) {
                        None => None,
                        Some(e) => match word1(t, e) {
                            None => None,
                            Some(f) => match lit(t, f, "]["@) {
                                None => None,
                                Some(g) => {
                                    let h = run_not(t, g, ']');
                                    match lit(t, h, "]"@) {
                                        None => None,
                                        Some(k) => {
                                            let m = run_ws(t, k);
                                            let z = run_not(t, m, '\n');
                                            Some(
                                                PrefixParts {
                                                    ts: (a, b),
                                                    up: (c, d),
                                                    level: (e, f),
                                                    tags: (g, h),
                                                    msg: (m, z),
                                                },
                                            )
                                        },
                                    }
                                },
                            },
                        },
                    },
                },
            }
        },
    }
}

/// The level named by a level text (any case); `Info` when unknown.
pub open spec fn level_of(s: Seq<char>) -> LogLevel {
    level_of_lower(lowercase(s))
}

/// The level named by a lower-case level text; `Info` when unknown.
pub open spec fn level_of_lower(l: Seq<char>) -> LogLevel {
    if l == "trace"@ {
        LogLevel::Trace
    } else if l == "debug"@ {
        LogLevel::Debug
    } else if l == "info"@ {
        LogLevel::Info
    } else if l == "warning"@ {
        LogLevel::Warning
    } else if l == "error"@ {
        LogLevel::Error
    } else {
        LogLevel::Info
    }
}

/// The trimmed, non-empty comma-separated parts.
pub open spec fn tag_list(pieces: Seq<Seq<char>>) -> Seq<Seq<char>>
    decreases pieces.len(),
{
    if pieces.len() == 0 {
        Seq::empty()
    } else {
        let prev = tag_list(pieces.drop_last());
        let t = trim(pieces.last());
        if t.len() > 0 {
            prev.push(t)
        } else {
            prev
        }
    }
}

pub struct UnifiedView {
    pub timestamp: Option<int>,
    pub uptime: Option<int>,
    pub level: LogLevel,
    pub tags: Seq<Seq<char>>,
    pub message: Seq<char>,
}

pub open spec fn unified_view(u: UnifiedLogLine) -> UnifiedView {
    UnifiedView {
        timestamp: match u.timestamp {
            Some(t) => Some(t as int),
            None => None,
        },
        uptime: match u.uptime_secs {
            Some(t) => Some(t as int),
            None => None,
        },
        level: u.level,
        tags: u.tags@.map_values(|s: String| s@),
        message: u.message@,
    }
}

/// The parsed prefix of a line, if it has the unified shape.
pub open spec fn unified_spec(line: Seq<char>) -> Option<UnifiedView> {
    let t = trim(line);
    match prefix_parts(t) {
        None => None,
        Some(p) => Some(
            UnifiedView {
                timestamp: rfc3339_millis(t.subrange(p.ts.0, p.ts.1)),
                uptime: real_micros(t.subrange(p.up.0, p.up.1)),
                level: level_of(t.subrange(p.level.0, p.level.1)),
                tags: tag_list(split_at_char(t.subrange(p.tags.0, p.tags.1), ',')),
                message: t.subrange(p.msg.0, p.msg.1),
            },
        ),
    }
}

// ───────────────────────── the error message ─────────────────────────

/// Bytes of a character in UTF-8.
pub open spec fn utf8_width(c: char) -> int {
    if (c as int) < 0x80 {
        1
    } else if (c as int) < 0x800 {
        2
    } else if (c as int) < 0x10000 {
        3
    } else {
        4
    }
}

pub open spec fn utf8_len(s: Seq<char>) -> int
    decreases s.len(),
{
    if s.len() == 0 {
        0
    } else {
        utf8_len(s.drop_last()) + utf8_width(s.last())
    }
}

/// Byte `n` of `s` is the end of the text or the start of a character
/// (slicing `&s[..n]` does not panic).
pub open spec fn byte_boundary(s: Seq<char>, n: int) -> bool {
    utf8_len(s) <= n || exists|k: int| 0 <= k <= s.len() && #[trigger] utf8_len(s.take(k)) == n
}

/// The characters of the first `n` bytes of `s` (all of `s` when shorter).
pub open spec fn byte_prefix(s: Seq<char>, n: int) -> Seq<char>
    decreases s.len(),
{
    if s.len() == 0 || utf8_len(s) <= n {
        s
    } else {
        byte_prefix(s.drop_last(), n)
    }
}

/// The line cannot be read: its message quotes the first 80 bytes.
pub open spec fn unified_error_text(line: Seq<char>) -> Seq<char> {
    "Line doesn't match unified log format: "@ + byte_prefix(trim(line), 80)
}

/// What a line must satisfy for the error message to be cut at a
/// character boundary.
pub open spec fn unified_line_ok(line: Seq<char>) -> bool {
    prefix_parts(trim(line)) is Some || byte_boundary(trim(line), 80)
}

proof fn lemma_utf8_len_take(s: Seq<char>, k: int)
    requires
        0 <= k < s.len(),
    ensures
        utf8_len(s.take(k + 1)) == utf8_len(s.take(k)) + utf8_width(s[k]),
        utf8_len(s.take(k)) >= 0,
{
    assert(s.take(k + 1).drop_last() =~= s.take(k));
    lemma_utf8_len_nonneg(s.take(k));
}

proof fn lemma_utf8_len_nonneg(s: Seq<char>)
    ensures
        utf8_len(s) >= 0,
    decreases s.len(),
{
    if s.len() > 0 {
        lemma_utf8_len_nonneg(s.drop_last());
    }
}

/// `byte_prefix(s, n)` is `s.take(k)` for the `k` whose bytes are exactly
/// `n`, when the text is longer than `n` bytes.
proof fn lemma_byte_prefix(s: Seq<char>, n: int, k: int)
    requires
        0 <= k <= s.len(),
        utf8_len(s.take(k)) == n,
        forall|j: int| k < j <= s.len() ==> utf8_len(#[trigger] s.take(j)) > n,
    ensures
        byte_prefix(s, n) == s.take(k),
    decreases s.len(),
{
    if s.len() == k {
        assert(s.take(k) =~= s);
    } else {
        assert(s.take(s.len() as int) =~= s);
        let f = s.drop_last();
        assert forall|j: int| k < j <= f.len() implies utf8_len(#[trigger] f.take(j)) > n by {
            assert(f.take(j) =~= s.take(j));
        }
        assert(f.take(k) =~= s.take(k));
        lemma_byte_prefix(f, n, k);
    }
}

fn utf8_width_exec(c: char) -> (r: usize)
    ensures
        r == utf8_width(c),
{
    if (c as u32) < 0x80 {
        1
    } else if (c as u32) < 0x800 {
        2
    } else if (c as u32) < 0x10000 {
        3
    } else {
        4
    }
}

/// The characters of the first 80 bytes of `v`.
fn first_80_bytes(v: &[char]) -> (r: Vec<char>)
    requires
        byte_boundary(v@, 80),
    ensures
        r@ == byte_prefix(v@, 80),
{
    let mut bytes: usize = 0;
    let mut k: usize = 0;
    while k < v.len()
        invariant
            k <= v@.len(),
            bytes == utf8_len(v@.take(k as int)),
            bytes <= 80,
        ensures
            k <= v@.len(),
            bytes == utf8_len(v@.take(k as int)),
            bytes <= 80,
            k < v@.len() ==> bytes + utf8_width(v@[k as int]) > 80,
        decreases v@.len() - k,
    {
        proof {
            lemma_utf8_len_take(v@, k as int);
        }
        let w = utf8_width_exec(v[k]);
        if bytes + w > 80 {
            break;
        }
        bytes = bytes + w;
        k += 1;
    }
    proof {
        if k == v@.len() {
            assert(v@.take(k as int) =~= v@);
            assert(byte_prefix(v@, 80) == v@);
        } else {
            lemma_utf8_len_take(v@, k as int);
            assert forall|j: int| k < j <= v@.len() implies utf8_len(#[trigger] v@.take(j)) > 80 by {
                lemma_utf8_len_mono(v@, k + 1, j);
            }
            assert(utf8_len(v@) > 80) by {
                lemma_utf8_len_mono(v@, k + 1, v@.len() as int);
                assert(v@.take(v@.len() as int) =~= v@);
            }
            let kk = choose|kk: int| 0 <= kk <= v@.len() && #[trigger] utf8_len(v@.take(kk)) == 80;
            if kk > k {
                lemma_utf8_len_mono(v@, k + 1, kk);
            } else if kk < k {
                lemma_utf8_len_mono(v@, kk + 1, k as int);
                lemma_utf8_len_take(v@, kk);
            }
            assert(kk == k);
            lemma_byte_prefix(v@, 80, k as int);
        }
    }
    slice_of(v, 0, k)
}

proof fn lemma_utf8_len_mono(s: Seq<char>, i: int, j: int)
    requires
        0 <= i <= j <= s.len(),
    ensures
        utf8_len(s.take(i)) + (j - i) <= utf8_len(s.take(j)),
    decreases j - i,
{
    if i < j {
        lemma_utf8_len_mono(s, i, j - 1);
        lemma_utf8_len_take(s, j - 1);
    }
}

// ───────────────────────────── parsing ─────────────────────────────

fn word1_exec(v: &[char], i: usize) -> (r: Option<usize>)
    requires
        i <= v@.len(),
    ensures
        crate::scan::opt_pos(r) == word1(v@, i as int),
        r matches Some(e) ==> i < e <= v@.len(),
{
    if i < v.len() && is_word_exec(v[i]) {
        let mut k = i + 1;
        while k < v.len() && is_word_exec(v[k])
            invariant
                i < k <= v@.len(),
                run_word(v@, i as int) == run_word(v@, k as int),
            decreases v@.len() - k,
        {
            k += 1;
        }
        Some(k)
    } else {
        None
    }
}

fn is_word_exec(c: char) -> (b: bool)
    ensures
        b == is_word_char(c),
{
    ('a' <= c && c <= 'z') || ('A' <= c && c <= 'Z') || ('0' <= c && c <= '9') || c == '_'
}

fn prefix_parts_exec(t: &[char]) -> (r: Option<(usize, usize, usize, usize, usize, usize, usize, usize, usize, usize)>)
    ensures
        match r {
            Some(x) => prefix_parts(t@) == Some(
                PrefixParts {
                    ts: (x.0 as int, x.1 as int),
                    up: (x.2 as int, x.3 as int),
                    level: (x.4 as int, x.5 as int),
                    tags: (x.6 as int, x.7 as int),
                    msg: (x.8 as int, x.9 as int),
                },
            ) && x.0 <= x.1 <= x.2 <= x.3 <= x.4 <= x.5 <= x.6 <= x.7 <= x.8 <= x.9 <= t@.len(),
            None => prefix_parts(t@) is None,
        },
{
    let open_b = ['['];
    let mid = [']', '['];
    let up_end = ['s', ']', '['];
    let close_b = [']'];
    assert(open_b@ =~= "["@) by {
        reveal_strlit("[");
    }
    assert(mid@ =~= "]["@) by {
        reveal_strlit("][");
    }
    assert(up_end@ =~= "s]["@) by {
        reveal_strlit("s][");
    }
    assert(close_b@ =~= "]"@) by {
        reveal_strlit("]");
    }
    let a = match lit_exec(t, 0, &open_b) {
        Some(a) => a,
        None => {
            return None;
        },
    };
    let b = run_not_exec(t, a, ']');
    let c = match lit_exec(t, b, &mid) {
        Some(c) => c,
        None => {
            return None;
        },
    };
    let d = match num1_exec(t, c) {
        Some(d) => d,
        None => {
            return None;
        },
    };
    let e = match lit_exec(t, d, &up_end) {
        Some(e) => e,
        None => {
            return None;
        },
    };
    let f = match word1_exec(t, e) {
        Some(f) => f,
        None => {
            return None;
        },
    };
    let g = match lit_exec(t, f, &mid) {
        Some(g) => g,
        None => {
            return None;
        },
    };
    let h = run_not_exec(t, g, ']');
    let k = match lit_exec(t, h, &close_b) {
        Some(k) => k,
        None => {
            return None;
        },
    };
    let m = run_ws_exec(t, k);
    let z = run_not_exec(t, m, '\n');
    Some((a, b, c, d, e, f, g, h, m, z))
}

fn level_exec(s: &[char]) -> (r: LogLevel)
    ensures
        r == level_of(s@),
{
    let text = string_of(s);
    let l = to_lower(text.as_str());
    level_from_lowercase(l.as_str())
}

/// The level a lower-case level text names (`"info"`, `"warning"`, ...);
/// `Info` when unknown.
pub fn level_from_lowercase(t: &str) -> (r: LogLevel)
    ensures
        r == level_of_lower(t@),
{
    if str_eq(t, "trace") {
        LogLevel::Trace
    } else if str_eq(t, "debug") {
        LogLevel::Debug
    } else if str_eq(t, "info") {
        LogLevel::Info
    } else if str_eq(t, "warning") {
        LogLevel::Warning
    } else if str_eq(t, "error") {
        LogLevel::Error
    } else {
        LogLevel::Info
    }
}

fn tags_exec(v: &[char], from: usize, to: usize) -> (r: Vec<String>)
    requires
        from <= to <= v@.len(),
    ensures
        r@.map_values(|s: String| s@) == tag_list(split_at_char(v@.subrange(from as int, to as int), ',')),
{
    let mut tags: Vec<String> = Vec::new();
    let mut start = from;
    let ghost all = split_at_char(v@.subrange(from as int, to as int), ',');
    let ghost mut done: Seq<Seq<char>> = Seq::empty();
    assert(tags@.map_values(|s: String| s@) =~= tag_list(done));
    loop
        invariant
            from <= start <= to <= v@.len(),
            all == split_at_char(v@.subrange(from as int, to as int), ','),
            all == done + split_at_char(v@.subrange(start as int, to as int), ','),
            tags@.map_values(|s: String| s@) == tag_list(done),
        decreases to - start,
    {
        let ghost s = v@.subrange(start as int, to as int);
        let k = index_of(v, ',', start);
        let end = if k < to {
            k
        } else {
            to
        };
        proof {
            if k < to {
                crate::text::lemma_index_of_from_char(s, ',', 0, k - start);
            } else {
                crate::text::lemma_index_of_from_char(s, ',', 0, s.len() as int);
            }
        }
        let piece = slice_of(v, start, end);
        let t = trimmed(&piece);
        let ghost before = tags@;
        if t.len() > 0 {
            tags.push(string_of(&t));
            assert(tags@.map_values(|s: String| s@) =~= before.map_values(|s: String| s@).push(t@));
        }
        proof {
            let next = done.push(piece@);
            assert(next.drop_last() =~= done);
            assert(tag_list(next) == (if t@.len() > 0 {
                tag_list(done).push(t@)
            } else {
                tag_list(done)
            }));
            done = next;
        }
        if end == to {
            proof {
                assert(s.take(s.len() as int) =~= s);
                assert(piece@ =~= s);
                assert(split_at_char(s, ',') == seq![s]);
                assert(all =~= done);
            }
            return tags;
        }
        proof {
            let first = s.take(k - start);
            assert(first =~= piece@);
            let rest = split_at_char(s.skip(k - start + 1), ',');
            assert(split_at_char(s, ',') == seq![first] + rest);
            assert(s.skip(k - start + 1) =~= v@.subrange(k + 1, to as int));
            assert(all =~= done + split_at_char(v@.subrange(k + 1, to as int), ','));
        }
        start = k + 1;
    }
}

/// The prefix parts and message of a unified GC log line (trimmed); the
/// error quotes the first 80 bytes of a line without the unified shape.
pub fn parse_unified_line(line: &str) -> (r: Result<UnifiedLogLine, GcLogError>)
    requires
        unified_line_ok(line@),
    ensures
        match r {
            Ok(u) => unified_spec(line@) == Some(unified_view(u)),
            Err(GcLogError::ParseError(m)) => unified_spec(line@) is None && m@ == unified_error_text(
                line@,
            ),
            Err(_) => false,
        },
{
    let chars = chars_of(line);
    let t = trimmed(&chars);
    match prefix_parts_exec(&t) {
        None => {
            let mut m = String::from_str("Line doesn't match unified log format: ");
            let head = first_80_bytes(&t);
            let hs = string_of(&head);
            m.append(hs.as_str());
            Err(GcLogError::ParseError(m))
        },
        Some((a, b, c, d, e, f, g, h, m, z)) => {
            let ts = string_of(&slice_of(&t, a, b));
            let timestamp = parse_rfc3339_millis(ts.as_str());
            let uptime = parse_micros(&slice_of(&t, c, d));
            let level = level_exec(&slice_of(&t, e, f));
            let tags = tags_exec(&t, g, h);
            let message = string_of(&slice_of(&t, m, z));
            let u = UnifiedLogLine { timestamp, uptime_secs: uptime, level, tags, message };
            assert(unified_view(u).tags =~= tag_list(split_at_char(t@.subrange(g as int, h as int), ',')));
            Ok(u)
        },
    }
}

// ───────────────────────────── GC events ─────────────────────────────

/// A GC phase as the contracts see it.
pub enum GcPhaseView {
    YoungPause,
    MixedPause,
    FullGc,
    ConcurrentMark,
    ConcurrentEvacuate,
    ConcurrentRelocate,
    ConcurrentUpdateRefs,
    InitMark,
    FinalMark,
    InitUpdateRefs,
    FinalUpdateRefs,
    DegeneratedGc,
    Other(Seq<char>),
}

pub open spec fn phase_view(p: GcPhase) -> GcPhaseView {
    match p {
        GcPhase::YoungPause => GcPhaseView::YoungPause,
        GcPhase::MixedPause => GcPhaseView::MixedPause,
        GcPhase::FullGc => GcPhaseView::FullGc,
        GcPhase::ConcurrentMark => GcPhaseView::ConcurrentMark,
        GcPhase::ConcurrentEvacuate => GcPhaseView::ConcurrentEvacuate,
        GcPhase::ConcurrentRelocate => GcPhaseView::ConcurrentRelocate,
        GcPhase::ConcurrentUpdateRefs => GcPhaseView::ConcurrentUpdateRefs,
        GcPhase::InitMark => GcPhaseView::InitMark,
        GcPhase::FinalMark => GcPhaseView::FinalMark,
        GcPhase::InitUpdateRefs => GcPhaseView::InitUpdateRefs,
        GcPhase::FinalUpdateRefs => GcPhaseView::FinalUpdateRefs,
        GcPhase::DegeneratedGc => GcPhaseView::DegeneratedGc,
        GcPhase::Other(s) => GcPhaseView::Other(s@),
    }
}

pub struct GcEventView {
    pub id: int,
    pub collector: Seq<char>,
    pub cause: Seq<char>,
    pub phase: GcPhaseView,
    pub before: int,
    pub after: int,
    pub capacity: int,
    pub pause: int,
    pub timestamp: int,
}

pub open spec fn event_view(e: GcEvent) -> GcEventView {
    GcEventView {
        id: e.id as int,
        collector: e.collector@,
        cause: e.cause@,
        phase: phase_view(e.phase),
        before: e.heap_before_bytes as int,
        after: e.heap_after_bytes as int,
        capacity: e.heap_capacity_bytes as int,
        pause: e.pause_ms as int,
        timestamp: e.timestamp as int,
    }
}

pub open spec fn event_views(v: Seq<GcEvent>) -> Seq<GcEventView> {
    v.map_values(|e: GcEvent| event_view(e))
}

/// Multiplying the number (when it reads as an `i64`) by 2^20 stays within
/// `i64`.
pub open spec fn mib_ok(s: Seq<char>) -> bool {
    match parse_i64_spec(s) {
        Some(n) => i64::MIN <= n * 1_048_576 <= i64::MAX,
        None => true,
    }
}

/// Megabytes (`NNN` of `NNNM`) as bytes.
pub open spec fn mib_of(s: Seq<char>) -> Option<int> {
    match parse_i64_spec(s) {
        Some(n) => Some(n * 1_048_576),
        None => None,
    }
}

/// The `i64` of `v[from..to]` times 2^20.
pub fn parse_mib(v: &[char], from: usize, to: usize) -> (r: Option<i64>)
    requires
        from <= to <= v@.len(),
        mib_ok(v@.subrange(from as int, to as int)),
    ensures
        (match r {
            Some(x) => Some(x as int),
            None => None::<int>,
        }) == mib_of(v@.subrange(from as int, to as int)),
{
    match parse_i64_in(v, from, to) {
        Some(n) => {
            Some(n * 1024 * 1024)
        },
        None => None,
    }
}

/// The time of a line, or `now` when it has none.
pub open spec fn stamp(u: UnifiedView, now: int) -> int {
    match u.timestamp {
        Some(t) => t,
        None => now,
    }
}


// ───────────────────────────── conditions ─────────────────────────────

/// Whether byte `n` of `v` is the end of the text or starts a character.
fn byte_boundary_exec(v: &[char], n: usize) -> (r: bool)
    ensures
        r == byte_boundary(v@, n as int),
{
    let mut bytes: usize = 0;
    let mut k: usize = 0;
    while k < v.len()
        invariant
            k <= v@.len(),
            bytes == utf8_len(v@.take(k as int)),
            bytes < n || (bytes == 0 && n == 0),
            forall|j: int| 0 <= j <= k ==> utf8_len(#[trigger] v@.take(j)) < n || (j == 0 && n == 0),
        decreases v@.len() - k,
    {
        if bytes == n {
            return true;
        }
        proof {
            lemma_utf8_len_take(v@, k as int);
        }
        let w = utf8_width_exec(v[k]);
        let next = bytes as u128 + w as u128;
        if next == n as u128 {
            assert(utf8_len(v@.take(k + 1)) == n);
            return true;
        }
        if next > n as u128 {
            proof {
                assert forall|j: int| 0 <= j <= v@.len() implies #[trigger] utf8_len(v@.take(j)) != n by {
                    if j > k {
                        lemma_utf8_len_mono(v@, k + 1, j);
                    }
                }
                lemma_utf8_len_mono(v@, k + 1, v@.len() as int);
                assert(v@.take(v@.len() as int) =~= v@);
            }
            return false;
        }
        bytes = next as usize;
        k += 1;
    }
    assert(v@.take(k as int) =~= v@);
    true
}

/// Whether a unified GC log line can be read: it has the unified prefix,
/// or its error message can quote its first 80 bytes.
pub fn unified_line_fits(line: &str) -> (r: bool)
    ensures
        r == unified_line_ok(line@),
{
    let chars = chars_of(line);
    let t = trimmed(&chars);
    match prefix_parts_exec(&t) {
        Some(_) => true,
        None => byte_boundary_exec(&t, 80),
    }
}

/// Whether `v[from..to]` times 2^20 fits in `i64` (when it reads as one).
pub fn mib_fits(v: &[char], from: usize, to: usize) -> (r: bool)
    requires
        from <= to <= v@.len(),
    ensures
        r == mib_ok(v@.subrange(from as int, to as int)),
{
    match parse_i64_in(v, from, to) {
        Some(n) => {
            let b = n as i128 * 1_048_576;
            i64::MIN as i128 <= b && b <= i64::MAX as i128
        },
        None => true,
    }
}

/// Whether `v[from..to]` reads as an `i64`.
pub fn reads_as_i64(v: &[char], from: usize, to: usize) -> (r: bool)
    requires
        from <= to <= v@.len(),
    ensures
        r == (crate::num::parse_i64_spec(v@.subrange(from as int, to as int)) is Some),
{
    parse_i64_in(v, from, to).is_some()
}

} // verus!
