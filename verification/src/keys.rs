//! Keyboard input and the actions it maps to in each view and input mode.

use vstd::prelude::*;
use crate::app::Action;
use crate::mode::{InputMode, View as Screen};
use crate::status::{DateRangePreset, TableColumn, WorkflowStatus};

verus! {

/// A key of the keyboard.
#[derive(Debug, Clone, Copy, PartialEq, Eq, Structural)]
pub enum KeyCode {
    Char(char),
    Enter,
    Esc,
    Backspace,
    Up,
    Down,
    PageUp,
    PageDown,
    Home,
    End,
    F(u8),
    Other,
}

/// A key press, with whether Control was held.
#[derive(Debug, Clone, Copy, PartialEq, Eq, Structural)]
pub struct KeyEvent {
    pub code: KeyCode,
    pub control: bool,
}

impl KeyEvent {
    /// A key press.
    pub fn new(code: KeyCode, control: bool) -> (r: KeyEvent)
        ensures
            r == (KeyEvent { code, control }),
    {
        KeyEvent { code, control }
    }
}

/// The status selected by a digit key from `1` to `7`.
pub open spec fn digit_status(c: char) -> Option<WorkflowStatus> {
    if c == '1' {
        Some(WorkflowStatus::Running)
    } else if c == '2' {
        Some(WorkflowStatus::Completed)
    } else if c == '3' {
        Some(WorkflowStatus::Failed)
    } else if c == '4' {
        Some(WorkflowStatus::Canceled)
    } else if c == '5' {
        Some(WorkflowStatus::Terminated)
    } else if c == '6' {
        Some(WorkflowStatus::TimedOut)
    } else if c == '7' {
        Some(WorkflowStatus::ContinuedAsNew)
    } else {
        None
    }
}

/// The preset range selected by a digit key from `1` to `6`.
pub open spec fn digit_preset(c: char) -> Option<DateRangePreset> {
    if c == '1' {
        Some(DateRangePreset::LastHour)
    } else if c == '2' {
        Some(DateRangePreset::Last6Hours)
    } else if c == '3' {
        Some(DateRangePreset::Last24Hours)
    } else if c == '4' {
        Some(DateRangePreset::Last3Days)
    } else if c == '5' {
        Some(DateRangePreset::Last7Days)
    } else if c == '6' {
        Some(DateRangePreset::Last30Days)
    } else {
        None
    }
}

/// The column toggled by a function key from F1 to F4.
pub open spec fn function_column(n: u8) -> Option<TableColumn> {
    if n == 1 {
        Some(TableColumn::Status)
    } else if n == 2 {
        Some(TableColumn::Type)
    } else if n == 3 {
        Some(TableColumn::WorkflowId)
    } else if n == 4 {
        Some(TableColumn::Started)
    } else {
        None
    }
}

/// What Enter does in a view.
pub open spec fn enter_action(view: Screen) -> Option<Action> {
    match view {
        Screen::WorkflowList | Screen::TypeList => Some(Action::ViewDetail),
        Screen::ActivityList => Some(Action::ToggleActivityDetail),
        Screen::Insights => Some(Action::ViewInsightDetail),
        Screen::EventLog => Some(Action::ViewEventDetail),
        _ => None,
    }
}

/// `r` is the action of character key `c` in normal mode in `view`.
pub open spec fn normal_char_ok(c: char, view: Screen, r: Option<Action>) -> bool {
    let lists = view == Screen::WorkflowList || view == Screen::TypeList;
    if c == 'q' {
        r == Some(Action::Quit)
    } else if c == 'j' {
        r == Some(Action::NavigateDown)
    } else if c == 'k' {
        r == Some(Action::NavigateUp)
    } else if c == 'g' {
        r == Some(Action::EnterPendingG)
    } else if c == 'G' {
        r == Some(Action::NavigateBottom)
    } else if c == '/' {
        r == Some(Action::OpenFilterInput)
    } else if c == 'r' {
        r == Some(Action::Refresh)
    } else if c == '?' {
        r == Some(Action::ToggleHelp)
    } else if c == 'd' && lists {
        r == Some(Action::EnterDateRangeMode)
    } else if c == 's' && lists {
        r == Some(Action::EnterSortMode)
    } else if c == 'T' && view == Screen::WorkflowList {
        r == Some(Action::ViewTypeList)
    } else if c == 'I' && view == Screen::WorkflowList {
        r == Some(Action::ViewInsights)
    } else if digit_status(c) is Some {
        r == Some(Action::SetStatusFilter(digit_status(c)))
    } else if c == '0' {
        r == Some(Action::ClearFilters)
    } else if c == ']' {
        r == Some(Action::NextStatusFilter)
    } else if c == '[' {
        r == Some(Action::PrevStatusFilter)
    } else if c == 'c' && view == Screen::WorkflowDetail {
        r matches Some(Action::CancelWorkflow(id)) && id@.len() == 0
    } else if c == 't' && view == Screen::WorkflowDetail {
        r matches Some(Action::TerminateWorkflow(id)) && id@.len() == 0
    } else if c == 'a' && view == Screen::WorkflowDetail {
        r == Some(Action::ViewActivities)
    } else if c == 'x' && view == Screen::WorkflowDetail {
        r == Some(Action::CopyWorkflowUrl)
    } else {
        r is None
    }
}

/// `r` is the action of a key press in `view` and input mode `mode`.
pub open spec fn key_action_ok(key: KeyEvent, view: Screen, mode: InputMode, r: Option<Action>) -> bool {
    match mode {
        InputMode::FilterInput => match key.code {
            KeyCode::Enter | KeyCode::Esc => r == Some(Action::CloseFilterInput),
            KeyCode::Char(c) => r == Some(Action::AppendFilterChar(c)),
            KeyCode::Backspace => r == Some(Action::DeleteFilterChar),
            _ => r is None,
        },
        InputMode::SearchInput => match key.code {
            KeyCode::Enter => r == Some(Action::CloseSearchInput),
            KeyCode::Esc => r == Some(Action::GoBack),
            KeyCode::Char(c) => r == Some(Action::AppendSearchChar(c)),
            KeyCode::Backspace => r == Some(Action::DeleteSearchChar),
            _ => r is None,
        },
        InputMode::SortSelect => match key.code {
            KeyCode::Esc => r == Some(Action::CloseSort),
            KeyCode::Char(c) => r == Some(Action::SortBy((c as u32) as u8)),
            _ => r is None,
        },
        InputMode::DateRangeSelect => match key.code {
            KeyCode::Char(c) => if digit_preset(c) is Some {
                r == Some(Action::SelectDateRangePreset(digit_preset(c)->0))
            } else if c == '0' {
                r == Some(Action::ClearDateRange)
            } else if c == 'c' {
                r == Some(Action::EnterCustomDateInput)
            } else {
                r is None
            },
            KeyCode::Esc => r == Some(Action::CloseDateRangeMode),
            _ => r is None,
        },
        InputMode::DateRangeCustom => match key.code {
            KeyCode::Enter => r == Some(Action::ApplyCustomDateRange),
            KeyCode::Esc => r == Some(Action::CancelCustomDateRange),
            KeyCode::Char(c) => r == Some(Action::AppendDateRangeChar(c)),
            KeyCode::Backspace => r == Some(Action::DeleteDateRangeChar),
            _ => r is None,
        },
        InputMode::PendingG => match key.code {
            KeyCode::Char(c) => if c == 'g' {
                r == Some(Action::NavigateTop)
            } else if c == 'x' && view == Screen::WorkflowDetail {
                r == Some(Action::OpenWorkflowUrl)
            } else {
                r == Some(Action::CancelPendingG)
            },
            _ => r == Some(Action::CancelPendingG),
        },
        InputMode::Normal => if key.control && key.code == KeyCode::Char('c') {
            r == Some(Action::Quit)
        } else {
            match key.code {
                KeyCode::Char(c) => normal_char_ok(c, view, r),
                KeyCode::Down => r == Some(Action::NavigateDown),
                KeyCode::Up => r == Some(Action::NavigateUp),
                KeyCode::PageUp => r == Some(Action::PageUp),
                KeyCode::PageDown => r == Some(Action::PageDown),
                KeyCode::Home => r == Some(Action::NavigateTop),
                KeyCode::End => r == Some(Action::NavigateBottom),
                KeyCode::Enter => r == enter_action(view),
                KeyCode::Esc => r == Some(Action::GoBack),
                KeyCode::F(n) => match function_column(n) {
                    Some(col) => r == Some(Action::ToggleColumn(col)),
                    None => r is None,
                },
                _ => r is None,
            }
        },
    }
}

/// The action of a key press in normal mode, for a character key.
fn normal_char(c: char, view: Screen) -> (r: Option<Action>)
    ensures
        normal_char_ok(c, view, r),
{
    let lists = view == Screen::WorkflowList || view == Screen::TypeList;
    if c == 'q' {
        Some(Action::Quit)
    } else if c == 'j' {
        Some(Action::NavigateDown)
    } else if c == 'k' {
        Some(Action::NavigateUp)
    } else if c == 'g' {
        Some(Action::EnterPendingG)
    } else if c == 'G' {
        Some(Action::NavigateBottom)
    } else if c == '/' {
        Some(Action::OpenFilterInput)
    } else if c == 'r' {
        Some(Action::Refresh)
    } else if c == '?' {
        Some(Action::ToggleHelp)
    } else if c == 'd' && lists {
        Some(Action::EnterDateRangeMode)
    } else if c == 's' && lists {
        Some(Action::EnterSortMode)
    } else if c == 'T' && view == Screen::WorkflowList {
        Some(Action::ViewTypeList)
    } else if c == 'I' && view == Screen::WorkflowList {
        Some(Action::ViewInsights)
    } else if c == '1' {
        Some(Action::SetStatusFilter(Some(WorkflowStatus::Running)))
    } else if c == '2' {
        Some(Action::SetStatusFilter(Some(WorkflowStatus::Completed)))
    } else if c == '3' {
        Some(Action::SetStatusFilter(Some(WorkflowStatus::Failed)))
    } else if c == '4' {
        Some(Action::SetStatusFilter(Some(WorkflowStatus::Canceled)))
    } else if c == '5' {
        Some(Action::SetStatusFilter(Some(WorkflowStatus::Terminated)))
    } else if c == '6' {
        Some(Action::SetStatusFilter(Some(WorkflowStatus::TimedOut)))
    } else if c == '7' {
        Some(Action::SetStatusFilter(Some(WorkflowStatus::ContinuedAsNew)))
    } else if c == '0' {
        Some(Action::ClearFilters)
    } else if c == ']' {
        Some(Action::NextStatusFilter)
    } else if c == '[' {
        Some(Action::PrevStatusFilter)
    } else if c == 'c' && view == Screen::WorkflowDetail {
        Some(Action::CancelWorkflow(String::new()))
    } else if c == 't' && view == Screen::WorkflowDetail {
        Some(Action::TerminateWorkflow(String::new()))
    } else if c == 'a' && view == Screen::WorkflowDetail {
        Some(Action::ViewActivities)
    } else if c == 'x' && view == Screen::WorkflowDetail {
        Some(Action::CopyWorkflowUrl)
    } else {
        None
    }
}

/// Maps a key press to the action it stands for in the given view and
/// input mode, if any.
pub fn key_to_action(key: KeyEvent, view: Screen, input_mode: InputMode) -> (r: Option<Action>)
    ensures
        key_action_ok(key, view, input_mode, r),
{
    match input_mode {
        InputMode::FilterInput => match key.code {
            KeyCode::Enter | KeyCode::Esc => Some(Action::CloseFilterInput),
            KeyCode::Char(c) => Some(Action::AppendFilterChar(c)),
            KeyCode::Backspace => Some(Action::DeleteFilterChar),
            _ => None,
        },
        InputMode::SearchInput => match key.code {
            KeyCode::Enter => Some(Action::CloseSearchInput),
            KeyCode::Esc => Some(Action::GoBack),
            KeyCode::Char(c) => Some(Action::AppendSearchChar(c)),
            KeyCode::Backspace => Some(Action::DeleteSearchChar),
            _ => None,
        },
        InputMode::SortSelect => match key.code {
            KeyCode::Esc => Some(Action::CloseSort),
            KeyCode::Char(c) => Some(Action::SortBy((c as u32) as u8)),
            _ => None,
        },
        InputMode::DateRangeSelect => match key.code {
            KeyCode::Char(c) => if c == '1' {
                Some(Action::SelectDateRangePreset(DateRangePreset::LastHour))
            } else if c == '2' {
                Some(Action::SelectDateRangePreset(DateRangePreset::Last6Hours))
            } else if c == '3' {
                Some(Action::SelectDateRangePreset(DateRangePreset::Last24Hours))
            } else if c == '4' {
                Some(Action::SelectDateRangePreset(DateRangePreset::Last3Days))
            } else if c == '5' {
                Some(Action::SelectDateRangePreset(DateRangePreset::Last7Days))
            } else if c == '6' {
                Some(Action::SelectDateRangePreset(DateRangePreset::Last30Days))
            } else if c == '0' {
                Some(Action::ClearDateRange)
            } else if c == 'c' {
                Some(Action::EnterCustomDateInput)
            } else {
                None
            },
            KeyCode::Esc => Some(Action::CloseDateRangeMode),
            _ => None,
        },
        InputMode::DateRangeCustom => match key.code {
            KeyCode::Enter => Some(Action::ApplyCustomDateRange),
            KeyCode::Esc => Some(Action::CancelCustomDateRange),
            KeyCode::Char(c) => Some(Action::AppendDateRangeChar(c)),
            KeyCode::Backspace => Some(Action::DeleteDateRangeChar),
            _ => None,
        },
        InputMode::PendingG => match key.code {
            KeyCode::Char(c) => if c == 'g' {
                Some(Action::NavigateTop)
            } else if c == 'x' && view == Screen::WorkflowDetail {
                Some(Action::OpenWorkflowUrl)
            } else {
                Some(Action::CancelPendingG)
            },
            _ => Some(Action::CancelPendingG),
        },
        InputMode::Normal => {
            if key.control && key.code == KeyCode::Char('c') {
                return Some(Action::Quit);
            }
            match key.code {
                KeyCode::Char(c) => normal_char(c, view),
                KeyCode::Down => Some(Action::NavigateDown),
                KeyCode::Up => Some(Action::NavigateUp),
                KeyCode::PageUp => Some(Action::PageUp),
                KeyCode::PageDown => Some(Action::PageDown),
                KeyCode::Home => Some(Action::NavigateTop),
                KeyCode::End => Some(Action::NavigateBottom),
                KeyCode::Enter => match view {
                    Screen::WorkflowList | Screen::TypeList => Some(Action::ViewDetail),
                    Screen::ActivityList => Some(Action::ToggleActivityDetail),
                    Screen::Insights => Some(Action::ViewInsightDetail),
                    Screen::EventLog => Some(Action::ViewEventDetail),
                    _ => None,
                },
                KeyCode::Esc => Some(Action::GoBack),
                KeyCode::F(n) => if n == 1 {
                    Some(Action::ToggleColumn(TableColumn::Status))
                } else if n == 2 {
                    Some(Action::ToggleColumn(TableColumn::Type))
                } else if n == 3 {
                    Some(Action::ToggleColumn(TableColumn::WorkflowId))
                } else if n == 4 {
                    Some(Action::ToggleColumn(TableColumn::Started))
                } else {
                    None
                },
                _ => None,
            }
        },
    }
}

/// Something that happened in the terminal.
#[derive(Debug, Clone, Copy)]
pub enum Event {
    Key(KeyEvent),
    Tick,
    Resize(u16, u16),
}

/// The action an event stands for, if any: a key press maps as
/// `key_to_action` says, a tick is a tick, and a resize needs no action.
pub fn event_to_action(event: Event, view: Screen, input_mode: InputMode) -> (r: Option<Action>)
    ensures
        match event {
            Event::Key(k) => key_action_ok(k, view, input_mode, r),
            Event::Tick => r == Some(Action::Tick),
            Event::Resize(_, _) => r is None,
        },
{
    match event {
        Event::Key(k) => key_to_action(k, view, input_mode),
        Event::Tick => Some(Action::Tick),
        Event::Resize(_, _) => None,
    }
}

} // verus!
