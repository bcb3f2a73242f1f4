//! The console tab's command line: editing, history, and reading the
//! command typed.
//!
//! Positions in the line count characters.

use vstd::prelude::*;
use crate::prometheus::{word_after, word_after_exec};
use crate::text::{chars_of, slice_of, string_of, trim, trimmed};

verus! {

/// A command of the console.
#[derive(Debug, Clone, PartialEq, Eq)]
pub enum ConsoleCommand {
    Help,
    Dashboard,
    /// `threads`, with the thread id typed after it, if any.
    Threads(Option<String>),
    Gc,
    Memory,
    Heap,
    Clear,
    Uptime,
    Alerts,
    Unknown(String),
}

/// The text of the `n`-th whitespace-separated word of `s`, if any.
pub open spec fn nth_word(s: Seq<char>, n: nat) -> Option<Seq<char>>
    decreases n,
{
    match word_after(s, 0) {
        None => None,
        Some((a, z)) => if n == 0 {
            Some(s.subrange(a, z))
        } else {
            nth_word(s.skip(z), (n - 1) as nat)
        },
    }
}

/// A word is one of the listed names.
pub open spec fn is_word(w: Seq<char>, names: Seq<Seq<char>>) -> bool {
    names.contains(w)
}

/// The command a (non-blank) line asks for, by its first word.
pub open spec fn command_spec(s: Seq<char>) -> Option<ConsoleCommand> {
    match nth_word(s, 0) {
        None => None,
        Some(w) => Some(
            if w == "help"@ || w == "?"@ {
                ConsoleCommand::Help
            } else if w == "dashboard"@ || w == "dash"@ {
                ConsoleCommand::Dashboard
            } else if w == "threads"@ || w == "thread"@ {
                ConsoleCommand::Threads(arbitrary())
            } else if w == "gc"@ {
                ConsoleCommand::Gc
            } else if w == "memory"@ || w == "mem"@ {
                ConsoleCommand::Memory
            } else if w == "heap"@ {
                ConsoleCommand::Heap
            } else if w == "clear"@ || w == "cls"@ {
                ConsoleCommand::Clear
            } else if w == "uptime"@ {
                ConsoleCommand::Uptime
            } else if w == "alerts"@ {
                ConsoleCommand::Alerts
            } else {
                ConsoleCommand::Unknown(arbitrary())
            },
        ),
    }
}

/// The command as the contracts see it: its kind, and its word (the thread
/// id of `threads`, the unknown word).
pub open spec fn command_view(c: ConsoleCommand) -> (int, Option<Seq<char>>) {
    match c {
        ConsoleCommand::Help => (0, None),
        ConsoleCommand::Dashboard => (1, None),
        ConsoleCommand::Threads(a) => (
            2,
            match a {
                Some(x) => Some(x@),
                None => None,
            },
        ),
        ConsoleCommand::Gc => (3, None),
        ConsoleCommand::Memory => (4, None),
        ConsoleCommand::Heap => (5, None),
        ConsoleCommand::Clear => (6, None),
        ConsoleCommand::Uptime => (7, None),
        ConsoleCommand::Alerts => (8, None),
        ConsoleCommand::Unknown(w) => (9, Some(w@)),
    }
}

/// What a line asks for: the kind of command by its first word, with the
/// second word for `threads` and the first word for an unknown command.
pub open spec fn parsed_command(s: Seq<char>) -> Option<(int, Option<Seq<char>>)> {
    match command_spec(s) {
        None => None,
        Some(c) => Some(
            match c {
                ConsoleCommand::Threads(_) => (2, nth_word(s, 1)),
                ConsoleCommand::Unknown(_) => (9, nth_word(s, 0)),
                _ => command_view(c),
            },
        ),
    }
}

fn word_is(w: &[char], name: &str) -> (r: bool)
    ensures
        r == (w@ == name@),
{
    let n = chars_of(name);
    if w.len() != n.len() {
        return false;
    }
    let mut i: usize = 0;
    while i < w.len()
        invariant
            w@.len() == n@.len(),
            n@ == name@,
            i <= w@.len(),
            forall|k: int| 0 <= k < i ==> w@[k] == n@[k],
        decreases w@.len() - i,
    {
        if w[i] != n[i] {
            return false;
        }
        i += 1;
    }
    assert(w@ =~= n@);
    true
}

/// The command a line asks for, by its first word; `None` for a blank
/// line.
pub fn parse_command(line: &str) -> (r: Option<ConsoleCommand>)
    ensures
        match r {
            Some(c) => parsed_command(line@) == Some(command_view(c)),
            None => parsed_command(line@) is None,
        },
{
    let v = chars_of(line);
    match word_after_exec(&v, 0) {
        None => None,
        Some((a, z)) => {
            let w = slice_of(&v, a, z);
            proof {
                assert(nth_word(v@, 0) == Some(w@));
            }
            let c = if word_is(&w, "help") || word_is(&w, "?") {
                ConsoleCommand::Help
            } else if word_is(&w, "dashboard") || word_is(&w, "dash") {
                ConsoleCommand::Dashboard
            } else if word_is(&w, "threads") || word_is(&w, "thread") {
                let rest = slice_of(&v, z, v.len());
                assert(rest@ =~= v@.skip(z as int));
                let arg = match word_after_exec(&rest, 0) {
                    None => None,
                    Some((b, y)) => Some(string_of(&slice_of(&rest, b, y))),
                };
                proof {
                    reveal_with_fuel(nth_word, 2);
                }
                ConsoleCommand::Threads(arg)
            } else if word_is(&w, "gc") {
                ConsoleCommand::Gc
            } else if word_is(&w, "memory") || word_is(&w, "mem") {
                ConsoleCommand::Memory
            } else if word_is(&w, "heap") {
                ConsoleCommand::Heap
            } else if word_is(&w, "clear") || word_is(&w, "cls") {
                ConsoleCommand::Clear
            } else if word_is(&w, "uptime") {
                ConsoleCommand::Uptime
            } else if word_is(&w, "alerts") {
                ConsoleCommand::Alerts
            } else {
                ConsoleCommand::Unknown(string_of(&w))
            };
            Some(c)
        },
    }
}

/// The command line of the console and its history.
pub struct LineEditor {
    pub input: String,
    /// Cursor position, in characters.
    pub cursor_pos: usize,
    pub history: Vec<String>,
    /// The history entry being shown, while browsing it.
    pub history_index: Option<usize>,
}

/// The views of a vector of strings.
pub open spec fn texts(v: Seq<String>) -> Seq<Seq<char>> {
    v.map_values(|s: String| s@)
}

impl LineEditor {
    /// The cursor stands inside the line, and a browsed entry exists.
    pub open spec fn well_formed(&self) -> bool {
        &&& self.cursor_pos <= self.input@.len()
        &&& match self.history_index {
            Some(i) => i < self.history@.len(),
            None => true,
        }
    }

    /// An empty line with no history.
    pub fn new() -> (r: LineEditor)
        ensures
            r.well_formed(),
            r.input@.len() == 0,
            r.cursor_pos == 0,
            r.history@.len() == 0,
            r.history_index is None,
    {
        LineEditor { input: String::new(), cursor_pos: 0, history: Vec::new(), history_index: None }
    }

    /// Inserts `c` at the cursor and moves past it; browsing the history
    /// stops.
    pub fn insert_char(&mut self, c: char)
        requires
            old(self).well_formed(),
        ensures
            final(self).well_formed(),
            final(self).input@ == old(self).input@.insert(old(self).cursor_pos as int, c),
            final(self).cursor_pos == old(self).cursor_pos + 1,
            texts(final(self).history@) == texts(old(self).history@),
            final(self).history_index is None,
    {
        let v = chars_of(self.input.as_str());
        let mut w = slice_of(&v, 0, self.cursor_pos);
        w.push(c);
        let rest = slice_of(&v, self.cursor_pos, v.len());
        let mut i: usize = 0;
        let ghost pre = w@;
        while i < rest.len()
            invariant
                i <= rest@.len(),
                w@ == pre + rest@.take(i as int),
            decreases rest@.len() - i,
        {
            w.push(rest[i]);
            i += 1;
            assert(rest@.take(i as int) =~= rest@.take(i - 1).push(rest@[i - 1]));
        }
        assert(rest@.take(i as int) =~= rest@);
        assert(w@ =~= v@.insert(self.cursor_pos as int, c));
        let n = w.len();
        assert(self.cursor_pos + 1 <= n);
        self.input = string_of(&w);
        self.cursor_pos = self.cursor_pos + 1;
        self.history_index = None;
    }

    /// Deletes the character before the cursor, if any.
    pub fn backspace(&mut self)
        requires
            old(self).well_formed(),
        ensures
            final(self).well_formed(),
            old(self).cursor_pos > 0 ==> final(self).cursor_pos == old(self).cursor_pos - 1
                && final(self).input@ == old(self).input@.remove(old(self).cursor_pos - 1),
            old(self).cursor_pos == 0 ==> final(self).cursor_pos == 0 && final(self).input@ == old(self).input@,
            texts(final(self).history@) == texts(old(self).history@),
            final(self).history_index == old(self).history_index,
    {
        if self.cursor_pos > 0 {
            let v = chars_of(self.input.as_str());
            let k = self.cursor_pos - 1;
            let mut w = slice_of(&v, 0, k);
            let rest = slice_of(&v, k + 1, v.len());
            let mut i: usize = 0;
            let ghost pre = w@;
            while i < rest.len()
                invariant
                    i <= rest@.len(),
                    w@ == pre + rest@.take(i as int),
                decreases rest@.len() - i,
            {
                w.push(rest[i]);
                i += 1;
                assert(rest@.take(i as int) =~= rest@.take(i - 1).push(rest@[i - 1]));
            }
            assert(rest@.take(i as int) =~= rest@);
            assert(w@ =~= v@.remove(k as int));
            self.input = string_of(&w);
            self.cursor_pos = k;
        }
    }

    /// Moves the cursor one character left, if it can.
    pub fn cursor_left(&mut self)
        requires
            old(self).well_formed(),
        ensures
            final(self).well_formed(),
            final(self).cursor_pos == if old(self).cursor_pos > 0 {
                old(self).cursor_pos - 1
            } else {
                0
            },
            final(self).input@ == old(self).input@,
            texts(final(self).history@) == texts(old(self).history@),
            final(self).history_index == old(self).history_index,
    {
        if self.cursor_pos > 0 {
            self.cursor_pos = self.cursor_pos - 1;
        }
    }

    /// Moves the cursor one character right, if it can.
    pub fn cursor_right(&mut self)
        requires
            old(self).well_formed(),
        ensures
            final(self).well_formed(),
            final(self).cursor_pos == if old(self).cursor_pos < old(self).input@.len() {
                old(self).cursor_pos + 1
            } else {
                old(self).cursor_pos as int
            },
            final(self).input@ == old(self).input@,
            texts(final(self).history@) == texts(old(self).history@),
            final(self).history_index == old(self).history_index,
    {
        let n = chars_of(self.input.as_str()).len();
        if self.cursor_pos < n {
            self.cursor_pos = self.cursor_pos + 1;
        }
    }

    /// Shows the previous history entry (the last one when not browsing),
    /// with the cursor at its end.
    pub fn history_up(&mut self)
        requires
            old(self).well_formed(),
        ensures
            final(self).well_formed(),
            texts(final(self).history@) == texts(old(self).history@),
            old(self).history@.len() == 0 ==> final(self).input@ == old(self).input@
                && final(self).cursor_pos == old(self).cursor_pos && final(self).history_index
                == old(self).history_index,
            old(self).history@.len() > 0 ==> final(self).history_index == Some(
                match old(self).history_index {
                    Some(i) => if i > 0 {
                        (i - 1) as usize
                    } else {
                        i
                    },
                    None => (old(self).history@.len() - 1) as usize,
                },
            ) && final(self).input@ == old(self).history@[final(self).history_index->0 as int]@
                && final(self).cursor_pos == final(self).input@.len(),
    {
        if self.history.len() == 0 {
            return;
        }
        let idx = match self.history_index {
            Some(i) => if i > 0 {
                i - 1
            } else {
                i
            },
            None => self.history.len() - 1,
        };
        self.history_index = Some(idx);
        let v = chars_of(self.history[idx].as_str());
        self.input = string_of(&v);
        self.cursor_pos = v.len();
    }

    /// Shows the next history entry, or an empty line after the last.
    pub fn history_down(&mut self)
        requires
            old(self).well_formed(),
        ensures
            final(self).well_formed(),
            texts(final(self).history@) == texts(old(self).history@),
            old(self).history_index is None ==> final(self).input@ == old(self).input@
                && final(self).cursor_pos == old(self).cursor_pos && final(self).history_index
                is None,
            old(self).history_index matches Some(i) ==> (if i + 1 < old(self).history@.len() {
                final(self).history_index == Some((i + 1) as usize) && final(self).input@ == old(self).history@[i + 1]@
            } else {
                final(self).history_index is None && final(self).input@.len() == 0
            }) && final(self).cursor_pos == final(self).input@.len(),
    {
        match self.history_index {
            None => {},
            Some(idx) => {
                let n = self.history.len();
                if idx + 1 < n {
                    self.history_index = Some(idx + 1);
                    let v = chars_of(self.history[idx + 1].as_str());
                    self.input = string_of(&v);
                    self.cursor_pos = v.len();
                } else {
                    self.history_index = None;
                    self.input = String::new();
                    self.cursor_pos = 0;
                }
            },
        }
    }

    /// Takes the typed command: a blank line is left as it is and gives
    /// `None`; otherwise the trimmed line joins the history, the line is
    /// cleared, and the trimmed line is returned.
    pub fn take_command(&mut self) -> (r: Option<String>)
        requires
            old(self).well_formed(),
        ensures
            final(self).well_formed(),
            trim(old(self).input@).len() == 0 ==> r is None && final(self).input@ == old(self).input@ && final(self).cursor_pos == old(self).cursor_pos && texts(final(self).history@) == texts(old(self).history@) && final(self).history_index == old(self).history_index,
            trim(old(self).input@).len() > 0 ==> (r matches Some(c) && c@ == trim(old(self).input@)
                && texts(final(self).history@) == texts(old(self).history@).push(c@))
                && final(self).input@.len() == 0 && final(self).cursor_pos == 0
                && final(self).history_index is None,
    {
        let v = chars_of(self.input.as_str());
        let t = trimmed(&v);
        if t.len() == 0 {
            return None;
        }
        let cmd = string_of(&t);
        let ghost before = texts(self.history@);
        self.history.push(string_of(&t));
        assert(texts(self.history@) =~= before.push(t@));
        self.history_index = None;
        self.input = String::new();
        self.cursor_pos = 0;
        Some(cmd)
    }
}

} // verus!
