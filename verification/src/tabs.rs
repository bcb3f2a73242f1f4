//! The tabs of the terminal interface and how navigation moves between them.

use vstd::prelude::*;

verus! {

/// A tab of the terminal interface, in display order.
#[derive(Debug, Clone, Copy, PartialEq, Eq, Structural)]
pub enum Tab {
    Overview,
    Memory,
    Threads,
    Http,
    Db,
    Logs,
    MBeans,
    Profiler,
    Console,
    Recommendations,
}

/// How many tabs there are.
pub open spec fn tab_count() -> nat {
    10
}

/// Position of a tab in display order.
pub open spec fn tab_pos(t: Tab) -> nat {
    match t {
        Tab::Overview => 0,
        Tab::Memory => 1,
        Tab::Threads => 2,
        Tab::Http => 3,
        Tab::Db => 4,
        Tab::Logs => 5,
        Tab::MBeans => 6,
        Tab::Profiler => 7,
        Tab::Console => 8,
        Tab::Recommendations => 9,
    }
}

/// The tab at a position; positions past the last give the first tab.
pub open spec fn tab_at(i: int) -> Tab {
    if i == 1 {
        Tab::Memory
    } else if i == 2 {
        Tab::Threads
    } else if i == 3 {
        Tab::Http
    } else if i == 4 {
        Tab::Db
    } else if i == 5 {
        Tab::Logs
    } else if i == 6 {
        Tab::MBeans
    } else if i == 7 {
        Tab::Profiler
    } else if i == 8 {
        Tab::Console
    } else if i == 9 {
        Tab::Recommendations
    } else {
        Tab::Overview
    }
}

/// The tab after `t`, wrapping from the last to the first.
pub open spec fn tab_after(t: Tab) -> Tab {
    tab_at(((tab_pos(t) + 1) % tab_count()) as int)
}

/// The tab before `t`, wrapping from the first to the last.
pub open spec fn tab_before(t: Tab) -> Tab {
    if tab_pos(t) == 0 {
        tab_at(tab_count() - 1)
    } else {
        tab_at(tab_pos(t) - 1)
    }
}

/// Title shown in the tab bar.
pub open spec fn tab_title(t: Tab) -> Seq<char> {
    match t {
        Tab::Overview => seq!['O', 'v', 'e', 'r', 'v', 'i', 'e', 'w'],
        Tab::Memory => seq!['M', 'e', 'm', 'o', 'r', 'y'],
        Tab::Threads => seq!['T', 'h', 'r', 'e', 'a', 'd', 's'],
        Tab::Http => seq!['H', 'T', 'T', 'P'],
        Tab::Db => seq!['D', 'B', '/', 'P', 'o', 'o', 'l'],
        Tab::Logs => seq!['L', 'o', 'g', 's'],
        Tab::MBeans => seq!['M', 'B', 'e', 'a', 'n', 's'],
        Tab::Profiler => seq!['P', 'r', 'o', 'f', 'i', 'l', 'e', 'r'],
        Tab::Console => seq!['C', 'o', 'n', 's', 'o', 'l', 'e'],
        Tab::Recommendations => seq!['R', 'e', 'c', 'o', 'm', 'm', 'e', 'n', 'd'],
    }
}

/// `n` steps forward from `t`.
pub open spec fn tab_steps(t: Tab, n: nat) -> Tab
    decreases n,
{
    if n == 0 {
        t
    } else {
        tab_after(tab_steps(t, (n - 1) as nat))
    }
}

impl Tab {
    /// Every tab, in display order.
    pub fn all() -> (v: Vec<Tab>)
        ensures
            v.len() == tab_count(),
            forall|i: int| 0 <= i < v.len() ==> #[trigger] v@[i] == tab_at(i),
            forall|i: int| 0 <= i < v.len() ==> tab_pos(#[trigger] v@[i]) == i,
    {
        vec![
            Tab::Overview,
            Tab::Memory,
            Tab::Threads,
            Tab::Http,
            Tab::Db,
            Tab::Logs,
            Tab::MBeans,
            Tab::Profiler,
            Tab::Console,
            Tab::Recommendations,
        ]
    }

    /// Title shown in the tab bar.
    pub fn title(&self) -> (r: &'static str)
        ensures
            r@ == tab_title(*self),
    {
        proof {
            reveal_strlit("Overview");
            reveal_strlit("Memory");
            reveal_strlit("Threads");
            reveal_strlit("HTTP");
            reveal_strlit("DB/Pool");
            reveal_strlit("Logs");
            reveal_strlit("MBeans");
            reveal_strlit("Profiler");
            reveal_strlit("Console");
            reveal_strlit("Recommend");
        }
        match self {
            Tab::Overview => "Overview",
            Tab::Memory => "Memory",
            Tab::Threads => "Threads",
            Tab::Http => "HTTP",
            Tab::Db => "DB/Pool",
            Tab::Logs => "Logs",
            Tab::MBeans => "MBeans",
            Tab::Profiler => "Profiler",
            Tab::Console => "Console",
            Tab::Recommendations => "Recommend",
        }
    }

    /// Position of this tab in display order.
    pub fn index(&self) -> (r: usize)
        ensures
            r == tab_pos(*self),
            r < tab_count(),
    {
        match self {
            Tab::Overview => 0,
            Tab::Memory => 1,
            Tab::Threads => 2,
            Tab::Http => 3,
            Tab::Db => 4,
            Tab::Logs => 5,
            Tab::MBeans => 6,
            Tab::Profiler => 7,
            Tab::Console => 8,
            Tab::Recommendations => 9,
        }
    }

    /// The tab at position `i`; a position past the last gives `Overview`.
    pub fn from_index(i: usize) -> (r: Tab)
        ensures
            r == tab_at(i as int),
    {
        if i == 1 {
            Tab::Memory
        } else if i == 2 {
            Tab::Threads
        } else if i == 3 {
            Tab::Http
        } else if i == 4 {
            Tab::Db
        } else if i == 5 {
            Tab::Logs
        } else if i == 6 {
            Tab::MBeans
        } else if i == 7 {
            Tab::Profiler
        } else if i == 8 {
            Tab::Console
        } else if i == 9 {
            Tab::Recommendations
        } else {
            Tab::Overview
        }
    }

    /// The next tab, wrapping from the last to the first.
    pub fn next(&self) -> (r: Tab)
        ensures
            r == tab_after(*self),
    {
        Tab::from_index((self.index() + 1) % 10)
    }

    /// The previous tab, wrapping from the first to the last.
    pub fn prev(&self) -> (r: Tab)
        ensures
            r == tab_before(*self),
    {
        let i = self.index();
        Tab::from_index(if i == 0 { 9 } else { i - 1 })
    }
}

/// A tab's position leads back to the tab.
pub proof fn lemma_index_round_trip(t: Tab)
    ensures
        tab_at(tab_pos(t) as int) == t,
{
}

/// Every position before the end names the tab at that position.
pub proof fn lemma_position_round_trip(i: int)
    requires
        0 <= i < tab_count(),
    ensures
        tab_pos(tab_at(i)) == i,
{
}

/// Going back undoes going forward, and going forward undoes going back.
pub proof fn lemma_next_prev_inverse(t: Tab)
    ensures
        tab_before(tab_after(t)) == t,
        tab_after(tab_before(t)) == t,
{
}

/// Going forward once per tab comes back to the start, and no fewer steps do.
pub proof fn lemma_next_cycles(t: Tab)
    ensures
        tab_steps(t, tab_count()) == t,
        forall|k: nat| 0 < k < tab_count() ==> #[trigger] tab_steps(t, k) != t,
{
    lemma_steps_pos(t, tab_count());
    assert forall|k: nat| 0 < k < tab_count() implies #[trigger] tab_steps(t, k) != t by {
        lemma_steps_pos(t, k);
    }
}

proof fn lemma_steps_pos(t: Tab, k: nat)
    ensures
        tab_pos(tab_steps(t, k)) == (tab_pos(t) + k) % 10,
    decreases k,
{
    if k > 0 {
        lemma_steps_pos(t, (k - 1) as nat);
    }
}

} // verus!
