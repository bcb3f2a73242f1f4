//! The application log as the logs tab shows it: each line's level, the
//! counts by level, the level filter, and the window of lines on screen.

use vstd::prelude::*;
use crate::collector::push_bounded;
use crate::logfile::{on_boundary, utf8_width};
use crate::text::{chars_of, contains, has_sub, string_of};
use crate::timeseries::keep_last;

verus! {

/// Severity of an application log line, from least to most severe.
#[derive(Debug, Clone, Copy, PartialEq, Eq, Structural)]
pub enum LogLevel {
    Trace,
    Debug,
    Info,
    Warn,
    Error,
}

/// Position of a level from least to most severe.
pub open spec fn level_rank(l: LogLevel) -> int {
    match l {
        LogLevel::Trace => 0,
        LogLevel::Debug => 1,
        LogLevel::Info => 2,
        LogLevel::Warn => 3,
        LogLevel::Error => 4,
    }
}

/// The label shown for a level, five characters wide.
pub open spec fn level_label(l: LogLevel) -> Seq<char> {
    match l {
        LogLevel::Trace => "TRACE"@,
        LogLevel::Debug => "DEBUG"@,
        LogLevel::Info => " INFO"@,
        LogLevel::Warn => " WARN"@,
        LogLevel::Error => "ERROR"@,
    }
}

/// The level after `l` in the filter's cycle, wrapping from `Error` to
/// `Trace`.
pub open spec fn next_level(l: LogLevel) -> LogLevel {
    match l {
        LogLevel::Trace => LogLevel::Debug,
        LogLevel::Debug => LogLevel::Info,
        LogLevel::Info => LogLevel::Warn,
        LogLevel::Warn => LogLevel::Error,
        LogLevel::Error => LogLevel::Trace,
    }
}

impl LogLevel {
    /// Position from least to most severe.
    pub fn rank(&self) -> (r: u8)
        ensures
            r == level_rank(*self),
    {
        match self {
            LogLevel::Trace => 0,
            LogLevel::Debug => 1,
            LogLevel::Info => 2,
            LogLevel::Warn => 3,
            LogLevel::Error => 4,
        }
    }

    /// The label shown for the level.
    pub fn label(&self) -> (r: &'static str)
        ensures
            r@ == level_label(*self),
    {
        match self {
            LogLevel::Trace => "TRACE",
            LogLevel::Debug => "DEBUG",
            LogLevel::Info => " INFO",
            LogLevel::Warn => " WARN",
            LogLevel::Error => "ERROR",
        }
    }
}

/// One line of the application log.
#[derive(Debug, Clone)]
pub struct LogEntry {
    pub timestamp: String,
    pub level: LogLevel,
    pub logger: String,
    pub message: String,
}

/// The level of a Spring Boot log line: the first of ` ERROR `, ` WARN `,
/// ` INFO `, ` DEBUG `, ` TRACE ` that occurs in it, `Info` when none does.
pub open spec fn line_level(s: Seq<char>) -> LogLevel {
    if contains(s, " ERROR "@) {
        LogLevel::Error
    } else if contains(s, " WARN "@) {
        LogLevel::Warn
    } else if contains(s, " INFO "@) {
        LogLevel::Info
    } else if contains(s, " DEBUG "@) {
        LogLevel::Debug
    } else if contains(s, " TRACE "@) {
        LogLevel::Trace
    } else {
        LogLevel::Info
    }
}

/// The characters of the first `n` UTF-8 bytes of `s`.
pub open spec fn byte_prefix(s: Seq<char>, n: int) -> Seq<char>
    decreases s.len(),
{
    if n <= 0 || s.len() == 0 {
        seq![]
    } else {
        seq![s[0]] + byte_prefix(s.drop_first(), n - utf8_width(s[0]))
    }
}

/// The time of a line: its first 23 bytes (`2024-01-15T10:30:00.123`),
/// empty when the line is shorter or byte 23 falls inside a character.
pub open spec fn line_time(s: Seq<char>) -> Seq<char> {
    if on_boundary(s, 23) {
        byte_prefix(s, 23)
    } else {
        seq![]
    }
}

fn first_bytes(v: &[char], n: usize) -> (r: Option<Vec<char>>)
    ensures
        match r {
            Some(p) => on_boundary(v@, n as int) && p@ == byte_prefix(v@, n as int),
            None => !on_boundary(v@, n as int),
        },
{
    let mut k: usize = 0;
    let mut left: usize = n;
    assert(v@.skip(0) =~= v@);
    assert(v@.take(0) =~= Seq::<char>::empty());
    while left > 0
        invariant
            k <= v@.len(),
            left <= n,
            on_boundary(v@, n as int) == on_boundary(v@.skip(k as int), left as int),
            byte_prefix(v@, n as int) == v@.take(k as int) + byte_prefix(v@.skip(k as int), left as int),
        decreases left,
    {
        let ghost s = v@.skip(k as int);
        if k >= v.len() {
            return None;
        }
        let c = v[k];
        let u = c as u32;
        let w: usize = if u < 0x80 {
            1
        } else if u < 0x800 {
            2
        } else if u < 0x10000 {
            3
        } else {
            4
        };
        assert(w == utf8_width(c));
        assert(s[0] == c);
        if left < w {
            return None;
        }
        proof {
            assert(s.drop_first() =~= v@.skip(k + 1));
            assert(v@.take(k + 1) =~= v@.take(k as int) + seq![c]);
            assert(byte_prefix(s, left as int) == seq![c] + byte_prefix(s.drop_first(), left - w));
        }
        left = left - w;
        k = k + 1;
        proof {
            assert(v@.take(k - 1) + (seq![c] + byte_prefix(v@.skip(k as int), left as int))
                =~= v@.take(k as int) + byte_prefix(v@.skip(k as int), left as int));
        }
    }
    assert(byte_prefix(v@.skip(k as int), 0) =~= Seq::<char>::empty());
    assert(v@.take(k as int) + Seq::<char>::empty() =~= v@.take(k as int));
    Some(crate::text::slice_of(v, 0, k))
}

/// A Spring Boot log line as an entry: its level, its time, the whole line
/// as the message, and no logger.
pub fn parse_log_line(line: &str) -> (r: LogEntry)
    ensures
        r.level == line_level(line@),
        r.timestamp@ == line_time(line@),
        r.message@ == line@,
        r.logger@.len() == 0,
{
    let v = chars_of(line);
    let level = if has_sub(&v, &chars_of(" ERROR ")) {
        LogLevel::Error
    } else if has_sub(&v, &chars_of(" WARN ")) {
        LogLevel::Warn
    } else if has_sub(&v, &chars_of(" INFO ")) {
        LogLevel::Info
    } else if has_sub(&v, &chars_of(" DEBUG ")) {
        LogLevel::Debug
    } else if has_sub(&v, &chars_of(" TRACE ")) {
        LogLevel::Trace
    } else {
        LogLevel::Info
    };
    let timestamp = match first_bytes(&v, 23) {
        Some(p) => string_of(&p),
        None => String::new(),
    };
    LogEntry { timestamp, level, logger: String::new(), message: string_of(&v) }
}

/// How many lines the log keeps.
pub open spec fn log_capacity() -> nat {
    2000
}

/// The lines of the application log with their counts and the level
/// filter.
pub struct LogBook {
    pub entries: Vec<LogEntry>,
    pub total_count: u64,
    pub error_count: u64,
    pub warn_count: u64,
    pub min_level: LogLevel,
    /// The first line shown when not following the log.
    pub scroll_offset: usize,
    /// Whether the window follows the newest lines.
    pub auto_scroll: bool,
}

/// The ranks of the levels of some entries.
pub open spec fn entry_levels(v: Seq<LogEntry>) -> Seq<LogLevel> {
    v.map_values(|e: LogEntry| e.level)
}

/// The entries at or above level `min`, in order.
pub open spec fn at_least(v: Seq<LogEntry>, min: LogLevel) -> Seq<LogEntry>
    decreases v.len(),
{
    if v.len() == 0 {
        seq![]
    } else if level_rank(v.last().level) >= level_rank(min) {
        at_least(v.drop_last(), min).push(v.last())
    } else {
        at_least(v.drop_last(), min)
    }
}

/// The first line shown, of `total` lines in a window `height` lines
/// high: the last screenful when following the log, else the chosen offset
/// held to the last screenful.
pub open spec fn window_start(auto_scroll: bool, offset: int, total: int, height: int) -> int {
    let last = if total > height {
        total - height
    } else {
        0
    };
    if auto_scroll {
        last
    } else if offset < last {
        offset
    } else {
        last
    }
}

/// The first line shown in the log window.
pub fn window_offset(auto_scroll: bool, offset: usize, total: usize, height: usize) -> (r: usize)
    ensures
        r == window_start(auto_scroll, offset as int, total as int, height as int),
{
    let last = if total > height {
        total - height
    } else {
        0
    };
    if auto_scroll {
        last
    } else if offset < last {
        offset
    } else {
        last
    }
}

impl LogBook {
    /// An empty log showing `Info` and above.
    pub fn new() -> (r: LogBook)
        ensures
            r.entries@.len() == 0,
            r.total_count == 0 && r.error_count == 0 && r.warn_count == 0,
            r.min_level == LogLevel::Info,
            r.scroll_offset == 0 && r.auto_scroll,
    {
        LogBook {
            entries: Vec::new(),
            total_count: 0,
            error_count: 0,
            warn_count: 0,
            min_level: LogLevel::Info,
            scroll_offset: 0,
            auto_scroll: true,
        }
    }

    /// Adds a line: it is counted, and the oldest lines beyond the capacity
    /// are dropped.
    pub fn add_log(&mut self, entry: LogEntry)
        requires
            old(self).total_count < u64::MAX,
            old(self).error_count < u64::MAX,
            old(self).warn_count < u64::MAX,
        ensures
            final(self).total_count == old(self).total_count + 1,
            final(self).error_count == old(self).error_count + if entry.level == LogLevel::Error {
                1int
            } else {
                0
            },
            final(self).warn_count == old(self).warn_count + if entry.level == LogLevel::Warn {
                1int
            } else {
                0
            },
            final(self).entries@ == keep_last(old(self).entries@.push(entry), log_capacity()),
            final(self).min_level == old(self).min_level,
            final(self).scroll_offset == old(self).scroll_offset,
            final(self).auto_scroll == old(self).auto_scroll,
    {
        self.total_count = self.total_count + 1;
        match entry.level {
            LogLevel::Error => {
                self.error_count = self.error_count + 1;
            },
            LogLevel::Warn => {
                self.warn_count = self.warn_count + 1;
            },
            _ => {},
        }
        push_bounded(&mut self.entries, entry, 2000);
    }

    /// Raises the level filter by one, wrapping from `Error` to `Trace`.
    pub fn cycle_min_level(&mut self)
        ensures
            final(self).min_level == next_level(old(self).min_level),
            final(self).entries@ == old(self).entries@,
            final(self).total_count == old(self).total_count,
            final(self).error_count == old(self).error_count,
            final(self).warn_count == old(self).warn_count,
            final(self).scroll_offset == old(self).scroll_offset,
            final(self).auto_scroll == old(self).auto_scroll,
    {
        self.min_level = match self.min_level {
            LogLevel::Trace => LogLevel::Debug,
            LogLevel::Debug => LogLevel::Info,
            LogLevel::Info => LogLevel::Warn,
            LogLevel::Warn => LogLevel::Error,
            LogLevel::Error => LogLevel::Trace,
        };
    }

    /// Moves the window one line up and stops following the log.
    pub fn scroll_up(&mut self)
        ensures
            !final(self).auto_scroll,
            final(self).scroll_offset == if old(self).scroll_offset > 0 {
                old(self).scroll_offset - 1
            } else {
                0
            },
            final(self).entries@ == old(self).entries@,
            final(self).min_level == old(self).min_level,
            final(self).total_count == old(self).total_count,
            final(self).error_count == old(self).error_count,
            final(self).warn_count == old(self).warn_count,
    {
        self.auto_scroll = false;
        self.scroll_offset = self.scroll_offset.saturating_sub(1);
    }

    /// Moves the window one line down.
    pub fn scroll_down(&mut self)
        requires
            old(self).scroll_offset < usize::MAX,
        ensures
            final(self).scroll_offset == old(self).scroll_offset + 1,
            final(self).auto_scroll == old(self).auto_scroll,
            final(self).entries@ == old(self).entries@,
            final(self).min_level == old(self).min_level,
            final(self).total_count == old(self).total_count,
            final(self).error_count == old(self).error_count,
            final(self).warn_count == old(self).warn_count,
    {
        self.scroll_offset = self.scroll_offset + 1;
    }

    /// Goes back to following the newest lines.
    pub fn scroll_bottom(&mut self)
        ensures
            final(self).auto_scroll,
            final(self).scroll_offset == 0,
            final(self).entries@ == old(self).entries@,
            final(self).min_level == old(self).min_level,
            final(self).total_count == old(self).total_count,
            final(self).error_count == old(self).error_count,
            final(self).warn_count == old(self).warn_count,
    {
        self.auto_scroll = true;
        self.scroll_offset = 0;
    }

    /// The lines the filter lets through, oldest first.
    pub fn visible(&self) -> (r: Vec<&LogEntry>)
        ensures
            r@.len() == at_least(self.entries@, self.min_level).len(),
            forall|i: int| 0 <= i < r@.len() ==> *r@[i] == at_least(self.entries@, self.min_level)[i],
    {
        let min = self.min_level.rank();
        let mut r: Vec<&LogEntry> = Vec::new();
        let mut i: usize = 0;
        let ghost es = self.entries@;
        assert(es.take(0) =~= Seq::<LogEntry>::empty());
        while i < self.entries.len()
            invariant
                es == self.entries@,
                min == level_rank(self.min_level),
                i <= es.len(),
                r@.len() == at_least(es.take(i as int), self.min_level).len(),
                forall|k: int| 0 <= k < r@.len() ==> *r@[k] == at_least(es.take(i as int), self.min_level)[k],
            decreases es.len() - i,
        {
            let e = &self.entries[i];
            assert(es.take(i + 1).drop_last() =~= es.take(i as int));
            if e.level.rank() >= min {
                r.push(e);
            }
            i += 1;
        }
        assert(es.take(i as int) =~= es);
        r
    }
}

/// The level filter comes back to where it started after five presses.
pub proof fn lemma_level_cycle(l: LogLevel)
    ensures
        next_level(next_level(next_level(next_level(next_level(l))))) == l,
{
}

} // verus!
