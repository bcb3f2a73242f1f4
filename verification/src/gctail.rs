//! Following a GC log file as it grows: the read position, log rotation,
//! recognising the collector from the first lines, and turning each new
//! line into an event.

use vstd::prelude::*;
use crate::gclog::{detect_algorithm, detect_spec, str_seqs, GcEventView};
use crate::g1::{g1_event_spec, g1_line_ok, opt_event, parse_g1_event_at};
use crate::model::{GcAlgorithm, GcEvent};
use crate::shenandoah::{parse_shenandoah_event_at, shen_event_spec, shen_line_ok};
use crate::text::{chars_of, string_of, trim, trimmed};
use crate::zgc::{parse_zgc_event_at, zgc_event_spec, zgc_line_ok};

verus! {

/// How many non-blank lines are gathered before the collector is guessed.
pub open spec fn detect_window() -> nat {
    20
}

/// The views of a vector of strings.
pub open spec fn string_seqs(v: Seq<String>) -> Seq<Seq<char>> {
    v.map_values(|s: String| s@)
}

/// The event a line gives once the collector is known to be `alg`; with
/// no collector known, the first parser that reads the line wins.
pub open spec fn tail_event_spec(alg: GcAlgorithm, line: Seq<char>, now: int) -> Option<
    GcEventView,
> {
    match alg {
        GcAlgorithm::G1 => g1_event_spec(line, now),
        GcAlgorithm::Zgc | GcAlgorithm::ZgcGenerational => zgc_event_spec(line, now),
        GcAlgorithm::Shenandoah => shen_event_spec(line, now),
        _ => match g1_event_spec(line, now) {
            Some(e) => Some(e),
            None => match zgc_event_spec(line, now) {
                Some(e) => Some(e),
                None => shen_event_spec(line, now),
            },
        },
    }
}

/// Every parser can read `line` without failing.
pub open spec fn gc_line_ok(line: Seq<char>) -> bool {
    g1_line_ok(line) && zgc_line_ok(line) && shen_line_ok(line)
}

/// The state of a GC log tail.
pub struct GcTail {
    /// Bytes of the file already read.
    pub pos: u64,
    /// The collector, once recognised.
    pub algorithm: GcAlgorithm,
    /// The non-blank lines gathered while the collector is unknown.
    pub detect_lines: Vec<String>,
}

impl GcTail {
    /// A tail of a file that holds `existing_len` bytes now (reading starts
    /// at its end), or that does not exist yet.
    pub fn new(existing_len: Option<u64>) -> (r: GcTail)
        ensures
            r.pos == match existing_len {
                Some(n) => n,
                None => 0,
            },
            r.algorithm == GcAlgorithm::Unknown,
            r.detect_lines@.len() == 0,
    {
        GcTail {
            pos: match existing_len {
                Some(n) => n,
                None => 0,
            },
            algorithm: GcAlgorithm::Unknown,
            detect_lines: Vec::new(),
        }
    }

    /// The file now holds `current_len` bytes. A file shorter than what was
    /// read was rotated: reading starts over, and the collector is
    /// recognised anew. Returns whether there is something new to read.
    pub fn observe_len(&mut self, current_len: u64) -> (r: bool)
        ensures
            current_len < old(self).pos ==> final(self).pos == 0 && final(self).algorithm
                == GcAlgorithm::Unknown && final(self).detect_lines@.len() == 0,
            current_len >= old(self).pos ==> final(self).pos == old(self).pos && final(self).algorithm == old(self).algorithm && final(self).detect_lines@ == old(self).detect_lines@,
            r == (current_len != final(self).pos),
    {
        if current_len < self.pos {
            self.pos = 0;
            self.algorithm = GcAlgorithm::Unknown;
            self.detect_lines = Vec::new();
        }
        current_len != self.pos
    }

    /// A line of `n` bytes was read: the position moves past it, a
    /// non-blank line feeds the recognition of the collector while that is
    /// unknown, and the line's event, if any, is returned. Lines without a
    /// time of their own take `now`.
    pub fn on_line_at(&mut self, line: &str, n: u64, now: i64) -> (r: Option<GcEvent>)
        requires
            old(self).pos + n <= u64::MAX,
            gc_line_ok(trim(line@)),
        ensures
            final(self).pos == old(self).pos + n,
            trim(line@).len() == 0 ==> r is None && final(self).algorithm == old(self).algorithm
                && final(self).detect_lines@ == old(self).detect_lines@,
            trim(line@).len() > 0 && old(self).algorithm != GcAlgorithm::Unknown ==> final(self).algorithm == old(self).algorithm && final(self).detect_lines@ == old(self).detect_lines@,
            trim(line@).len() > 0 && old(self).algorithm == GcAlgorithm::Unknown ==> string_seqs(
                final(self).detect_lines@,
            ) == string_seqs(old(self).detect_lines@).push(trim(line@)) && final(self).algorithm
                == if final(self).detect_lines@.len() >= detect_window() {
                detect_spec(string_seqs(final(self).detect_lines@))
            } else {
                GcAlgorithm::Unknown
            },
            trim(line@).len() > 0 ==> opt_event(r) == tail_event_spec(
                final(self).algorithm,
                trim(line@),
                now as int,
            ),
    {
        self.pos = self.pos + n;
        let chars = chars_of(line);
        let t = trimmed(&chars);
        if t.len() == 0 {
            return None;
        }
        let ts = string_of(&t);
        if matches!(self.algorithm, GcAlgorithm::Unknown) {
            let ghost before = string_seqs(self.detect_lines@);
            self.detect_lines.push(string_of(&t));
            assert(string_seqs(self.detect_lines@) =~= before.push(t@));
            if self.detect_lines.len() >= 20 {
                let mut refs: Vec<&str> = Vec::new();
                let mut i: usize = 0;
                while i < self.detect_lines.len()
                    invariant
                        i <= self.detect_lines@.len(),
                        refs@.len() == i,
                        forall|k: int| 0 <= k < i ==> (#[trigger] refs@[k])@
                            == self.detect_lines@[k]@,
                    decreases self.detect_lines@.len() - i,
                {
                    refs.push(self.detect_lines[i].as_str());
                    i += 1;
                }
                assert(str_seqs(refs@) =~= string_seqs(self.detect_lines@));
                self.algorithm = detect_algorithm(refs.as_slice());
            }
        }
        let s = ts.as_str();
        match self.algorithm {
            GcAlgorithm::G1 => parse_g1_event_at(s, now),
            GcAlgorithm::Zgc | GcAlgorithm::ZgcGenerational => parse_zgc_event_at(s, now),
            GcAlgorithm::Shenandoah => parse_shenandoah_event_at(s, now),
            _ => match parse_g1_event_at(s, now) {
                Some(e) => Some(e),
                None => match parse_zgc_event_at(s, now) {
                    Some(e) => Some(e),
                    None => parse_shenandoah_event_at(s, now),
                },
            },
        }
    }

    /// `on_line_at` with the current time for lines without a time of
    /// their own.
    pub fn on_line(&mut self, line: &str, n: u64) -> (r: Option<GcEvent>)
        requires
            old(self).pos + n <= u64::MAX,
            gc_line_ok(trim(line@)),
        ensures
            final(self).pos == old(self).pos + n,
            trim(line@).len() == 0 ==> r is None && final(self).algorithm == old(self).algorithm
                && final(self).detect_lines@ == old(self).detect_lines@,
            trim(line@).len() > 0 && old(self).algorithm != GcAlgorithm::Unknown ==> final(self).algorithm == old(self).algorithm && final(self).detect_lines@ == old(self).detect_lines@,
            trim(line@).len() > 0 && old(self).algorithm == GcAlgorithm::Unknown ==> string_seqs(
                final(self).detect_lines@,
            ) == string_seqs(old(self).detect_lines@).push(trim(line@)) && final(self).algorithm
                == if final(self).detect_lines@.len() >= detect_window() {
                detect_spec(string_seqs(final(self).detect_lines@))
            } else {
                GcAlgorithm::Unknown
            },
            trim(line@).len() > 0 ==> exists|now: int|
                opt_event(r) == tail_event_spec(final(self).algorithm, trim(line@), now),
    {
        let now = crate::clock::now_millis();
        self.on_line_at(line, n, now)
    }
}


/// Whether every parser can read the trimmed `line` without failing.
pub fn gc_line_fits(line: &str) -> (r: bool)
    ensures
        r == gc_line_ok(trim(line@)),
{
    let t = string_of(&trimmed(&chars_of(line)));
    crate::g1::g1_line_fits(t.as_str()) && crate::zgc::zgc_line_fits(t.as_str())
        && crate::shenandoah::shen_line_fits(t.as_str())
}

} // verus!
