//! What a key press does in the terminal interface: the next navigation
//! state, the action for the main loop, and the command for the tab that
//! owns the key.
//!
//! While the help overlay is shown, `?` and `Esc` close it and every other
//! key is ignored. While the console tab takes input, keys edit the command
//! line and `Esc` leaves input mode. Otherwise `q` quits, `?` opens help,
//! `Tab` / `BackTab` and the digits move between tabs, and the remaining
//! keys go to the active tab.

use vstd::prelude::*;
use crate::action::Action;
use crate::tabs::{tab_after, tab_at, tab_before, Tab};

verus! {

/// A key as the interface sees it.
#[derive(Debug, Clone, Copy, PartialEq, Eq)]
pub enum Key {
    Char(char),
    Esc,
    Enter,
    Backspace,
    Left,
    Right,
    Up,
    Down,
    Tab,
    BackTab,
    Home,
    End,
    Other,
}

/// The navigation state of the interface.
#[derive(Debug, Clone, Copy, PartialEq, Eq)]
pub struct Screen {
    pub active_tab: Tab,
    pub show_help: bool,
    /// The console tab is taking keys as command-line input.
    pub console_input: bool,
}

/// What the tab that owns a key is to do.
#[derive(Debug, Clone, Copy, PartialEq, Eq)]
pub enum Command {
    Nothing,
    ConsoleExecute,
    ConsoleBackspace,
    ConsoleLeft,
    ConsoleRight,
    ConsoleHistoryUp,
    ConsoleHistoryDown,
    ConsoleInsert(char),
    ThreadsScrollDown,
    ThreadsScrollUp,
    ThreadsScrollTop,
    HttpScrollDown,
    HttpScrollUp,
    HttpScrollTop,
    LogsScrollDown,
    LogsScrollUp,
    LogsScrollBottom,
    LogsCycleLevel,
    MBeansSelectNext,
    MBeansSelectPrev,
    MBeansToggle,
    ProfilerCycleEvent,
    ProfilerLonger,
    ProfilerShorter,
    ProfilerStart,
    ProfilerOpen,
}

/// The state with another active tab.
pub open spec fn on_tab(s: Screen, t: Tab) -> Screen {
    Screen { active_tab: t, ..s }
}

/// A key that edits the console's command line.
pub open spec fn console_key(k: Key) -> Command {
    match k {
        Key::Enter => Command::ConsoleExecute,
        Key::Backspace => Command::ConsoleBackspace,
        Key::Left => Command::ConsoleLeft,
        Key::Right => Command::ConsoleRight,
        Key::Up => Command::ConsoleHistoryUp,
        Key::Down => Command::ConsoleHistoryDown,
        Key::Char(c) => Command::ConsoleInsert(c),
        _ => Command::Nothing,
    }
}

/// Moving down in the active tab.
pub open spec fn down_command(t: Tab) -> Command {
    match t {
        Tab::Threads => Command::ThreadsScrollDown,
        Tab::Http => Command::HttpScrollDown,
        Tab::Logs => Command::LogsScrollDown,
        Tab::MBeans => Command::MBeansSelectNext,
        _ => Command::Nothing,
    }
}

/// Moving up in the active tab.
pub open spec fn up_command(t: Tab) -> Command {
    match t {
        Tab::Threads => Command::ThreadsScrollUp,
        Tab::Http => Command::HttpScrollUp,
        Tab::Logs => Command::LogsScrollUp,
        Tab::MBeans => Command::MBeansSelectPrev,
        _ => Command::Nothing,
    }
}

/// Going to the top of the active tab.
pub open spec fn top_command(t: Tab) -> Command {
    match t {
        Tab::Threads => Command::ThreadsScrollTop,
        Tab::Http => Command::HttpScrollTop,
        _ => Command::Nothing,
    }
}

/// What `k` does in state `s`: the next state, the action, the command.
pub open spec fn key_step(s: Screen, k: Key) -> (Screen, Action, Command) {
    let t = s.active_tab;
    if s.show_help {
        match k {
            Key::Char('?') | Key::Esc => (Screen { show_help: false, ..s }, Action::Render, Command::Nothing),
            _ => (s, Action::Render, Command::Nothing),
        }
    } else if t == Tab::Console && s.console_input {
        match k {
            Key::Esc => (Screen { console_input: false, ..s }, Action::Render, Command::Nothing),
            _ => (s, Action::Render, console_key(k)),
        }
    } else {
        match k {
            Key::Char('q') | Key::Char('Q') => (s, Action::Quit, Command::Nothing),
            Key::Char('?') => (Screen { show_help: true, ..s }, Action::Render, Command::Nothing),
            Key::Tab => (on_tab(s, tab_after(t)), Action::Render, Command::Nothing),
            Key::BackTab => (on_tab(s, tab_before(t)), Action::Render, Command::Nothing),
            Key::Char(c) if '1' <= c && c <= '9' => (
                on_tab(s, tab_at((c as int) - ('1' as int))),
                Action::Render,
                Command::Nothing,
            ),
            Key::Char('0') => (on_tab(s, tab_at(9)), Action::Render, Command::Nothing),
            Key::Char('j') | Key::Down => (s, Action::Render, down_command(t)),
            Key::Char('k') | Key::Up => (s, Action::Render, up_command(t)),
            Key::Char('g') | Key::Home => (s, Action::Render, top_command(t)),
            Key::Char('G') | Key::End => (
                s,
                Action::Render,
                if t == Tab::Logs {
                    Command::LogsScrollBottom
                } else {
                    Command::Nothing
                },
            ),
            Key::Char('L') if t == Tab::Logs => (s, Action::Render, Command::LogsCycleLevel),
            Key::Char('e') if t == Tab::Profiler => (s, Action::Render, Command::ProfilerCycleEvent),
            Key::Char('+') if t == Tab::Profiler => (s, Action::Render, Command::ProfilerLonger),
            Key::Char('=') if t == Tab::Profiler => (s, Action::Render, Command::ProfilerLonger),
            Key::Char('-') if t == Tab::Profiler => (s, Action::Render, Command::ProfilerShorter),
            Key::Enter => match t {
                Tab::MBeans => (s, Action::Render, Command::MBeansToggle),
                Tab::Console => (Screen { console_input: true, ..s }, Action::Render, Command::Nothing),
                Tab::Profiler => (s, Action::Render, Command::ProfilerStart),
                _ => (s, Action::Render, Command::Nothing),
            },
            Key::Char('o') if t == Tab::Profiler => (s, Action::Render, Command::ProfilerOpen),
            Key::Char('i') if t == Tab::Console => (
                Screen { console_input: true, ..s },
                Action::Render,
                Command::Nothing,
            ),
            _ => (s, Action::Noop, Command::Nothing),
        }
    }
}

fn down_exec(t: Tab) -> (r: Command)
    ensures
        r == down_command(t),
{
    match t {
        Tab::Threads => Command::ThreadsScrollDown,
        Tab::Http => Command::HttpScrollDown,
        Tab::Logs => Command::LogsScrollDown,
        Tab::MBeans => Command::MBeansSelectNext,
        _ => Command::Nothing,
    }
}

fn up_exec(t: Tab) -> (r: Command)
    ensures
        r == up_command(t),
{
    match t {
        Tab::Threads => Command::ThreadsScrollUp,
        Tab::Http => Command::HttpScrollUp,
        Tab::Logs => Command::LogsScrollUp,
        Tab::MBeans => Command::MBeansSelectPrev,
        _ => Command::Nothing,
    }
}

fn top_exec(t: Tab) -> (r: Command)
    ensures
        r == top_command(t),
{
    match t {
        Tab::Threads => Command::ThreadsScrollTop,
        Tab::Http => Command::HttpScrollTop,
        _ => Command::Nothing,
    }
}

/// What a key press does: the next navigation state, the action for the
/// main loop, and the command for the tab that owns the key.
pub fn handle_key(s: Screen, k: Key) -> (r: (Screen, Action, Command))
    ensures
        r == key_step(s, k),
{
    let t = s.active_tab;
    if s.show_help {
        return match k {
            Key::Char('?') | Key::Esc => (Screen { show_help: false, ..s }, Action::Render, Command::Nothing),
            _ => (s, Action::Render, Command::Nothing),
        };
    }
    if t == Tab::Console && s.console_input {
        return match k {
            Key::Esc => (Screen { console_input: false, ..s }, Action::Render, Command::Nothing),
            Key::Enter => (s, Action::Render, Command::ConsoleExecute),
            Key::Backspace => (s, Action::Render, Command::ConsoleBackspace),
            Key::Left => (s, Action::Render, Command::ConsoleLeft),
            Key::Right => (s, Action::Render, Command::ConsoleRight),
            Key::Up => (s, Action::Render, Command::ConsoleHistoryUp),
            Key::Down => (s, Action::Render, Command::ConsoleHistoryDown),
            Key::Char(c) => (s, Action::Render, Command::ConsoleInsert(c)),
            _ => (s, Action::Render, Command::Nothing),
        };
    }
    match k {
        Key::Char('q') | Key::Char('Q') => (s, Action::Quit, Command::Nothing),
        Key::Char('?') => (Screen { show_help: true, ..s }, Action::Render, Command::Nothing),
        Key::Tab => (Screen { active_tab: t.next(), ..s }, Action::Render, Command::Nothing),
        Key::BackTab => (Screen { active_tab: t.prev(), ..s }, Action::Render, Command::Nothing),
        Key::Char(c) if '1' <= c && c <= '9' => {
            let idx = (c as u32 - '1' as u32) as usize;
            (Screen { active_tab: Tab::from_index(idx), ..s }, Action::Render, Command::Nothing)
        },
        Key::Char('0') => (Screen { active_tab: Tab::from_index(9), ..s }, Action::Render, Command::Nothing),
        Key::Char('j') | Key::Down => (s, Action::Render, down_exec(t)),
        Key::Char('k') | Key::Up => (s, Action::Render, up_exec(t)),
        Key::Char('g') | Key::Home => (s, Action::Render, top_exec(t)),
        Key::Char('G') | Key::End => (
            s,
            Action::Render,
            if t == Tab::Logs {
                Command::LogsScrollBottom
            } else {
                Command::Nothing
            },
        ),
        Key::Char('L') if t == Tab::Logs => (s, Action::Render, Command::LogsCycleLevel),
        Key::Char('e') if t == Tab::Profiler => (s, Action::Render, Command::ProfilerCycleEvent),
        Key::Char('+') if t == Tab::Profiler => (s, Action::Render, Command::ProfilerLonger),
        Key::Char('=') if t == Tab::Profiler => (s, Action::Render, Command::ProfilerLonger),
        Key::Char('-') if t == Tab::Profiler => (s, Action::Render, Command::ProfilerShorter),
        Key::Enter => match t {
            Tab::MBeans => (s, Action::Render, Command::MBeansToggle),
            Tab::Console => (Screen { console_input: true, ..s }, Action::Render, Command::Nothing),
            Tab::Profiler => (s, Action::Render, Command::ProfilerStart),
            _ => (s, Action::Render, Command::Nothing),
        },
        Key::Char('o') if t == Tab::Profiler => (s, Action::Render, Command::ProfilerOpen),
        Key::Char('i') if t == Tab::Console => (Screen { console_input: true, ..s }, Action::Render, Command::Nothing),
        _ => (s, Action::Noop, Command::Nothing),
    }
}

/// While help is shown, no key changes the tab or reaches a tab, and every
/// key redraws.
pub proof fn lemma_help_swallows_keys(s: Screen, k: Key)
    requires
        s.show_help,
    ensures
        key_step(s, k).0.active_tab == s.active_tab,
        key_step(s, k).1 == Action::Render,
        key_step(s, k).2 == Command::Nothing,
{
}

/// While the console takes input, no key changes the tab or quits.
pub proof fn lemma_console_input_keeps_tab(s: Screen, k: Key)
    requires
        !s.show_help,
        s.active_tab == Tab::Console,
        s.console_input,
    ensures
        key_step(s, k).0.active_tab == Tab::Console,
        key_step(s, k).1 == Action::Render,
{
}

/// Outside help and console input, `q` quits and leaves the state as it is.
pub proof fn lemma_q_quits(s: Screen)
    requires
        !s.show_help,
        !(s.active_tab == Tab::Console && s.console_input),
    ensures
        key_step(s, Key::Char('q')) == (s, Action::Quit, Command::Nothing),
{
}

/// Outside help and console input, `BackTab` undoes `Tab`.
pub proof fn lemma_backtab_undoes_tab(s: Screen)
    requires
        !s.show_help,
        !s.console_input,
    ensures
        key_step(key_step(s, Key::Tab).0, Key::BackTab).0 == s,
{
    crate::tabs::lemma_next_prev_inverse(s.active_tab);
}

/// Outside help and console input, digit `d` (with `0` for ten) selects the
/// tab at position `d - 1`.
pub proof fn lemma_digits_select_tabs(s: Screen, c: char)
    requires
        !s.show_help,
        !(s.active_tab == Tab::Console && s.console_input),
        '1' <= c <= '9',
    ensures
        crate::tabs::tab_pos(key_step(s, Key::Char(c)).0.active_tab) == (c as int) - ('1' as int),
        crate::tabs::tab_pos(key_step(s, Key::Char('0')).0.active_tab) == 9,
{
}

} // verus!
