//! The screen and keyboard modes of the terminal application.

use vstd::prelude::*;

verus! {

/// Which view is currently active.
#[derive(Debug, Clone, Copy, PartialEq, Eq, Structural)]
pub enum View {
    WorkflowList,
    WorkflowDetail,
    TypeList,
    ActivityList,
    ActivityDetail,
    EventLog,
    EventDetail,
    Insights,
    InsightDetail,
}

/// Keyboard input mode.
#[derive(Debug, Clone, Copy, PartialEq, Eq, Structural)]
pub enum InputMode {
    Normal,
    FilterInput,
    SortSelect,
    DateRangeSelect,
    DateRangeCustom,
    /// Waiting for the second key after `g` (a two-key chord).
    PendingG,
    /// Typing a search query.
    SearchInput,
}

} // verus!
