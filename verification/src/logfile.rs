//! Tailing the remote log file of `/actuator/logfile` with HTTP range
//! requests: what each answer means for the read position and for the
//! text handed on.
//!
//! The position counts bytes of UTF-8. A tail starts 4 KiB before the end
//! of the file as its size was first reported. A `206 Partial Content`
//! answer carries the bytes after the position; a `200 OK` answer carries
//! the whole file, of which only the part after the position is new; a
//! `416` means the file shrank (it was rotated), and reading starts over.

use vstd::prelude::*;
use crate::num::parse_unsigned;
use crate::text::{chars_of, slice_of, string_of};
use crate::config::opt_str_view;

verus! {

/// New text of the remote log file.
#[derive(Debug, Clone)]
pub struct LogChunk {
    pub text: String,
    /// Byte position of `text` in the file.
    pub offset: u64,
    /// Size of the file in bytes, 0 when the server did not say.
    pub total_size: u64,
}

/// What a poll of the log file can fail with.
#[derive(Debug, Clone, PartialEq, Eq)]
pub enum LogPollError {
    EndpointNotFound { endpoint: String },
    Parse(String),
}

/// Number of UTF-8 bytes of a character.
pub open spec fn utf8_width(c: char) -> nat {
    if (c as u32) < 0x80 {
        1
    } else if (c as u32) < 0x800 {
        2
    } else if (c as u32) < 0x10000 {
        3
    } else {
        4
    }
}

/// Number of UTF-8 bytes of a text.
pub open spec fn utf8_len(s: Seq<char>) -> nat
    decreases s.len(),
{
    if s.len() == 0 {
        0
    } else {
        utf8_len(s.drop_last()) + utf8_width(s.last())
    }
}

/// Byte position `off` of `s` falls between two characters.
pub open spec fn on_boundary(s: Seq<char>, off: int) -> bool
    decreases s.len(),
{
    if off == 0 {
        true
    } else if s.len() == 0 || off < utf8_width(s[0]) {
        false
    } else {
        on_boundary(s.drop_first(), off - utf8_width(s[0]))
    }
}

/// The characters of `s` after its first `off` bytes.
pub open spec fn after_bytes(s: Seq<char>, off: int) -> Seq<char>
    decreases s.len(),
{
    if off <= 0 || s.len() == 0 {
        s
    } else {
        after_bytes(s.drop_first(), off - utf8_width(s[0]))
    }
}

/// The text after the last `c` of `s` (all of `s` when it holds none):
/// the last piece of `str::split(c)`.
pub open spec fn after_last(s: Seq<char>, c: char) -> Seq<char>
    decreases s.len(),
{
    if s.len() == 0 {
        s
    } else if s.last() == c {
        seq![]
    } else {
        after_last(s.drop_last(), c).push(s.last())
    }
}

/// A header's value as a `u64`, 0 when absent or not a number.
pub open spec fn header_number(h: Option<Seq<char>>) -> nat {
    match h {
        Some(v) => match parse_unsigned(v, u64::MAX as int) {
            Some(n) => n as nat,
            None => 0,
        },
        None => 0,
    }
}

/// The file size at the end of a `Content-Range: bytes N-M/size` header, 0
/// when absent or not a number.
pub open spec fn range_total(h: Option<Seq<char>>) -> nat {
    match h {
        Some(v) => header_number(Some(after_last(v, '/'))),
        None => 0,
    }
}

/// Where reading starts for a file of `size` bytes: 4 KiB before the end,
/// or at the start of a smaller file.
pub open spec fn start_offset(size: int) -> int {
    if size > 4096 {
        size - 4096
    } else {
        0
    }
}

/// The message of an unexpected answer.
pub open spec fn unexpected_status_text(status: u16) -> Seq<char> {
    seq!['U', 'n', 'e', 'x', 'p', 'e', 'c', 't', 'e', 'd', ' ', 's', 't', 'a', 't', 'u', 's', ' ']
        + crate::num::int_text(status as int) + seq![
        ' ',
        'f',
        'r',
        'o',
        'm',
        ' ',
        '/',
        'l',
        'o',
        'g',
        'f',
        'i',
        'l',
        'e',
    ]
}

/// `r` is a chunk holding `text`, found at byte `offset` of a file of
/// `total` bytes.
pub open spec fn chunk_is(r: Option<LogChunk>, text: Seq<char>, offset: int, total: int) -> bool {
    match r {
        Some(ch) => ch.text@ == text && ch.offset == offset && ch.total_size == total,
        None => false,
    }
}

/// The endpoint of the remote log file.
pub open spec fn logfile_endpoint() -> Seq<char> {
    seq!['/', 'a', 'c', 't', 'u', 'a', 't', 'o', 'r', '/', 'l', 'o', 'g', 'f', 'i', 'l', 'e']
}

proof fn lemma_utf8_len_push(s: Seq<char>, c: char)
    ensures
        utf8_len(s.push(c)) == utf8_len(s) + utf8_width(c),
{
    assert(s.push(c).drop_last() =~= s);
}

fn width_exec(c: char) -> (r: u8)
    ensures
        r == utf8_width(c),
{
    let u = c as u32;
    if u < 0x80 {
        1
    } else if u < 0x800 {
        2
    } else if u < 0x10000 {
        3
    } else {
        4
    }
}

/// Number of UTF-8 bytes of `v`.
fn utf8_len_exec(v: &[char]) -> (r: u128)
    ensures
        r == utf8_len(v@),
{
    let mut n: u128 = 0;
    let mut i: usize = 0;
    assert(v@.take(0) =~= Seq::<char>::empty());
    while i < v.len()
        invariant
            i <= v@.len(),
            n == utf8_len(v@.take(i as int)),
            n <= 4 * i,
        decreases v@.len() - i,
    {
        proof {
            assert(v@.take(i + 1) =~= v@.take(i as int).push(v@[i as int]));
            lemma_utf8_len_push(v@.take(i as int), v@[i as int]);
        }
        n = n + width_exec(v[i]) as u128;
        i += 1;
    }
    assert(v@.take(i as int) =~= v@);
    n
}

/// A header's value as a `u64`, 0 when absent or not a number.
pub fn parse_header_number(h: Option<&str>) -> (r: u64)
    ensures
        r == header_number(opt_str_view(h)),
{
    match h {
        Some(v) => {
            let c = chars_of(v);
            match crate::num::parse_u64(&c) {
                Some(n) => n,
                None => 0,
            }
        },
        None => 0,
    }
}

/// The file size of a `Content-Range` header, 0 when absent or not a
/// number.
pub fn parse_range_total(h: Option<&str>) -> (r: u64)
    ensures
        r == range_total(opt_str_view(h)),
{
    match h {
        Some(v) => {
            let c = chars_of(v);
            let mut i = c.len();
            assert(c@.take(i as int) =~= c@);
            assert(c@ + c@.skip(i as int) =~= c@);
            while i > 0 && c[i - 1] != '/'
                invariant
                    i <= c@.len(),
                    after_last(c@, '/') == after_last(c@.take(i as int), '/') + c@.skip(i as int),
                decreases i,
            {
                let ghost t = c@.take(i as int);
                assert(t.drop_last() =~= c@.take(i - 1));
                assert(c@.skip(i - 1) =~= seq![t.last()] + c@.skip(i as int));
                assert(after_last(t, '/') == after_last(c@.take(i - 1), '/').push(t.last()));
                assert(after_last(c@.take(i - 1), '/').push(t.last()) + c@.skip(i as int)
                    =~= after_last(c@.take(i - 1), '/') + c@.skip(i - 1));
                i -= 1;
            }
            proof {
                let t = c@.take(i as int);
                if i > 0 {
                    assert(after_last(t, '/') =~= Seq::<char>::empty());
                } else {
                    assert(t =~= Seq::<char>::empty());
                }
                assert(after_last(c@, '/') =~= c@.skip(i as int));
                assert(c@.subrange(i as int, c@.len() as int) =~= c@.skip(i as int));
            }
            let n = c.len();
            match crate::num::parse_u64_in(&c, i, n) {
                Some(x) => x,
                None => 0,
            }
        },
        None => 0,
    }
}

/// The read position of a remote log tail.
pub struct LogTail {
    pub offset: u64,
}

impl LogTail {
    /// A tail of a file of `size` bytes: reading starts 4 KiB before its
    /// end.
    pub fn starting_at(size: u64) -> (r: LogTail)
        ensures
            r.offset == start_offset(size as int),
    {
        LogTail { offset: if size > 4096 { size - 4096 } else { 0 } }
    }

    /// The position, in bytes.
    pub fn offset(&self) -> (r: u64)
        ensures
            r == self.offset,
    {
        self.offset
    }

    /// A `206 Partial Content` answer: a non-empty body is the next chunk,
    /// and the position moves past it.
    fn on_partial(&mut self, body: &str, content_range: Option<&str>) -> (r: Option<LogChunk>)
        requires
            old(self).offset + utf8_len(body@) <= u64::MAX,
        ensures
            body@.len() == 0 ==> r is None && final(self).offset == old(self).offset,
            body@.len() > 0 ==> chunk_is(r, body@, old(self).offset as int, range_total(opt_str_view(content_range)) as int)
                && final(self).offset == old(self).offset + utf8_len(body@),
    {
        let total = parse_range_total(content_range);
        let v = chars_of(body);
        if v.len() == 0 {
            return None;
        }
        let n = utf8_len_exec(&v);
        let chunk = LogChunk { text: string_of(&v), offset: self.offset, total_size: total };
        self.offset = self.offset + n as u64;
        Some(chunk)
    }

    /// A `200 OK` answer carrying the whole file: the part after the
    /// position is the next chunk, if there is one, and the position moves
    /// to the end.
    fn on_full(&mut self, body: &str) -> (r: Option<LogChunk>)
        requires
            utf8_len(body@) <= u64::MAX,
            0 < old(self).offset < utf8_len(body@) ==> on_boundary(body@, old(self).offset as int),
        ensures
            utf8_len(body@) <= old(self).offset ==> r is None && final(self).offset == old(self).offset,
            utf8_len(body@) > old(self).offset ==> chunk_is(r, after_bytes(body@, old(self).offset as int),
                old(self).offset as int, utf8_len(body@) as int) && final(self).offset == utf8_len(body@),
    {
        let v = chars_of(body);
        let n = utf8_len_exec(&v);
        if n <= self.offset as u128 {
            return None;
        }
        let text = if self.offset > 0 {
            let k = skip_bytes(&v, self.offset);
            string_of(&slice_of(&v, k, v.len()))
        } else {
            string_of(&v)
        };
        proof {
            if self.offset == 0 {
                assert(after_bytes(body@, 0) == body@);
            }
        }
        let chunk = LogChunk { text, offset: self.offset, total_size: n as u64 };
        self.offset = n as u64;
        Some(chunk)
    }

    /// One answer to a range request for the log file, given its status,
    /// its body and its `Content-Range` header: the chunk it brings, if
    /// any, and the new position.
    pub fn poll_step(&mut self, status: u16, body: &str, content_range: Option<&str>) -> (r: Result<
        Option<LogChunk>,
        LogPollError,
    >)
        requires
            status == 206 ==> old(self).offset + utf8_len(body@) <= u64::MAX,
            status == 200 ==> utf8_len(body@) <= u64::MAX,
            status == 200 && 0 < old(self).offset < utf8_len(body@) ==> on_boundary(
                body@,
                old(self).offset as int,
            ),
        ensures
            status == 206 && body@.len() == 0 ==> r == Ok::<Option<LogChunk>, LogPollError>(None)
                && final(self).offset == old(self).offset,
            status == 206 && body@.len() > 0 ==> (r matches Ok(c) && chunk_is(c, body@, old(self).offset as int,
                range_total(opt_str_view(content_range)) as int))
                && final(self).offset == old(self).offset + utf8_len(body@),
            status == 200 && utf8_len(body@) <= old(self).offset ==> r == Ok::<Option<LogChunk>, LogPollError>(None)
                && final(self).offset == old(self).offset,
            status == 200 && utf8_len(body@) > old(self).offset ==> (r matches Ok(c) && chunk_is(c,
                after_bytes(body@, old(self).offset as int), old(self).offset as int,
                utf8_len(body@) as int)) && final(self).offset == utf8_len(body@),
            status == 416 ==> r == Ok::<Option<LogChunk>, LogPollError>(None) && final(self).offset == 0,
            status == 404 ==> (r matches Err(LogPollError::EndpointNotFound { endpoint })
                && endpoint@ == logfile_endpoint()) && final(self).offset == old(self).offset,
            status != 206 && status != 200 && status != 416 && status != 404 ==> (r matches Err(
                LogPollError::Parse(m)) && m@ == unexpected_status_text(status)) && final(self).offset == old(self).offset,
    {
        if status == 206 {
            Ok(self.on_partial(body, content_range))
        } else if status == 200 {
            Ok(self.on_full(body))
        } else if status == 416 {
            self.offset = 0;
            Ok(None)
        } else if status == 404 {
            proof {
                reveal_strlit("/actuator/logfile");
            }
            Err(LogPollError::EndpointNotFound { endpoint: String::from_str("/actuator/logfile") })
        } else {
            let mut m = String::from_str("Unexpected status ");
            let t = crate::num::int_string(status as i128);
            m.append(t.as_str());
            m.append(" from /logfile");
            proof {
                reveal_strlit("Unexpected status ");
                reveal_strlit(" from /logfile");
                assert(m@ =~= unexpected_status_text(status));
            }
            Err(LogPollError::Parse(m))
        }
    }
}

/// Index of the first character after the first `off` bytes of `v`.
fn skip_bytes(v: &[char], off: u64) -> (k: usize)
    requires
        on_boundary(v@, off as int),
    ensures
        k <= v@.len(),
        v@.skip(k as int) == after_bytes(v@, off as int),
{
    let mut k: usize = 0;
    let mut left: u64 = off;
    assert(v@.skip(0) =~= v@);
    while left > 0
        invariant
            k <= v@.len(),
            on_boundary(v@.skip(k as int), left as int),
            after_bytes(v@, off as int) == after_bytes(v@.skip(k as int), left as int),
        decreases left,
    {
        let ghost s = v@.skip(k as int);
        assert(s.len() > 0);
        assert(s[0] == v@[k as int]);
        let w = width_exec(v[k]);
        assert(s.drop_first() =~= v@.skip(k + 1));
        left = left - w as u64;
        k = k + 1;
    }
    k
}

} // verus!
