//! The messages that drive the terminal interface: every key press, data
//! update or system event becomes an action.

use vstd::prelude::*;

verus! {

/// An event of the terminal interface's state machine.
#[derive(Debug, Clone, PartialEq, Eq)]
pub enum Action {
    // Lifecycle
    Tick,
    Render,
    Quit,
    // Navigation
    TabNext,
    TabPrev,
    TabSelect(usize),
    // Data
    DataRefreshed,
    ConnectionLost(String),
    ConnectionRestored,
    // Interface
    ToggleHelp,
    ScrollUp,
    ScrollDown,
    ScrollTop,
    ScrollBottom,
    SelectNext,
    SelectPrev,
    Enter,
    Back,
    Filter(String),
    ClearFilter,
    // Theme
    SwitchTheme(String),
    // Alerts
    NewAlert(String),
    DismissAlert,
    // Terminal size
    Resize(u16, u16),
    // Nothing to do
    Noop,
}

} // verus!
