//! The application state machine: the state of the terminal viewer, the
//! actions that change it and the side effects that an action asks for.
//! Nothing here performs I/O; the caller performs the effects and feeds
//! their results back as actions.

use vstd::prelude::*;
use crate::activity::{activity_from_history, correlate_activities, events_time_ok, is_scheduled, ActivityExecution};
use crate::child::{child_from_history, correlate_child_workflows, is_initiated, ChildWorkflowExecution};
use crate::filter::{filter_has_date_range, filter_is_empty, parse_date_input_at, date_input_at, read_from_query, WorkflowFilter};
use crate::insights::InsightsResult;
use crate::mode::{InputMode, View as Screen};
use crate::model::{time_ok, HistoryEvent, WorkflowDetail, WorkflowSummary};
use crate::stats::{count_status, StatusCounts};
use crate::status::{
    all_columns, all_statuses, status_index, DateRangePreset, SortDirection, TableColumn, TypeListColumn,
    WorkflowStatus, preset_seconds, preset_short_text,
};
use crate::text::{chars_of, contains, contains_seq, idec, lower_chars, lower_of, push_chars, push_idec, push_str, string_of, trim, trimmed_text};
use crate::status::{activity_short_text, category_text, child_short_text, query_value_text, severity_text};
use crate::order::{count_before, permute, stable_order, stable_order_asc, text_ranks};
use crate::status::workflow_short_text;
use crate::detail_lines::{
    activity_lines, activity_lines_view, child_lines, child_lines_view, event_lines, event_lines_view, insight_lines_static,
    insight_lines_view, LineV,
};
use crate::json_lines::{highlight_search_matches, lines_view, matching_lines, Line};

verus! {

/// Loading state of data that arrives asynchronously.
#[derive(Debug)]
pub enum LoadState<T> {
    NotLoaded,
    Loading,
    Loaded(T),
    Error(String),
}

impl<T> LoadState<T> {
    /// Whether the data is being loaded.
    pub fn is_loading(&self) -> (r: bool)
        ensures
            r == (*self is Loading),
    {
        match self {
            LoadState::Loading => true,
            _ => false,
        }
    }

    /// Whether the data has been loaded.
    pub fn is_loaded(&self) -> (r: bool)
        ensures
            r == (*self is Loaded),
    {
        match self {
            LoadState::Loaded(_) => true,
            _ => false,
        }
    }

    /// The loaded data, if any.
    pub fn as_ref(&self) -> (r: Option<&T>)
        ensures
            match *self {
                LoadState::Loaded(t) => r == Some(&t),
                _ => r is None,
            },
    {
        match self {
            LoadState::Loaded(t) => Some(t),
            _ => None,
        }
    }
}

/// The selected row of a table, if any.
#[derive(Debug, Clone, Copy, PartialEq, Eq, Structural)]
pub struct TableState {
    pub selected: Option<usize>,
}

impl TableState {
    /// A table state with the given row selected.
    pub fn with_selected(row: usize) -> (r: TableState)
        ensures
            r.selected == Some(row),
    {
        TableState { selected: Some(row) }
    }

    /// The selected row.
    pub fn selected(&self) -> (r: Option<usize>)
        ensures
            r == self.selected,
    {
        self.selected
    }

    /// Selects a row, or none.
    pub fn select(&mut self, row: Option<usize>)
        ensures
            final(self).selected == row,
    {
        self.selected = row;
    }
}

/// Workflow counts of one workflow type.
#[derive(Debug, Clone)]
pub struct TypeStat {
    pub workflow_type: String,
    pub total: u64,
    pub counts: StatusCounts,
}

impl TypeStat {
    /// The count of workflows of this type with the given status.
    pub fn get_status_count(&self, status: WorkflowStatus) -> (r: u64)
        requires
            self.counts.wf(),
        ensures
            r == self.counts.count_of(status),
    {
        self.counts.get(status)
    }
}

/// Loaded data handed to the state machine.
#[derive(Debug)]
pub enum DataPayload {
    Counts(StatusCounts),
    Workflows(Vec<WorkflowSummary>),
    Detail(Box<WorkflowDetail>),
    TypeStats(Vec<TypeStat>),
    History(Vec<HistoryEvent>),
    Insights(InsightsResult),
}

/// Everything a user, a timer or a data source can ask of the application.
#[derive(Debug)]
pub enum Action {
    NavigateUp,
    NavigateDown,
    NavigateTop,
    NavigateBottom,
    PageUp,
    PageDown,
    ViewDetail,
    ViewTypeList,
    ViewActivities,
    GoBack,
    ToggleActivityDetail,
    ViewActivityDetail,
    ViewInsights,
    ViewInsightDetail,
    NextAffectedEntity,
    PrevAffectedEntity,
    ViewEventLog,
    ViewEventDetail,
    OpenSearchInput,
    CloseSearchInput,
    AppendSearchChar(char),
    DeleteSearchChar,
    NextSearchMatch,
    PrevSearchMatch,
    ClearSearch,
    SetStatusFilter(Option<WorkflowStatus>),
    SetTypeFilter(Option<String>),
    NextStatusFilter,
    PrevStatusFilter,
    ClearFilters,
    OpenFilterInput,
    CloseFilterInput,
    AppendFilterChar(char),
    DeleteFilterChar,
    ToggleColumn(TableColumn),
    EnterSortMode,
    CloseSort,
    SortBy(u8),
    EnterDateRangeMode,
    SelectDateRangePreset(DateRangePreset),
    ClearDateRange,
    EnterCustomDateInput,
    CloseDateRangeMode,
    AppendDateRangeChar(char),
    DeleteDateRangeChar,
    ApplyCustomDateRange,
    CancelCustomDateRange,
    CopyWorkflowUrl,
    OpenWorkflowUrl,
    EnterPendingG,
    CancelPendingG,
    Refresh,
    CancelWorkflow(String),
    TerminateWorkflow(String),
    Quit,
    ToggleHelp,
    Tick,
    DataLoaded(DataPayload),
    Error(String),
}

/// A side effect that the caller is to perform after an update.
#[derive(Debug, Clone, PartialEq, Eq)]
pub enum Effect {
    LoadCounts,
    LoadWorkflows,
    LoadWorkflowDetail(String, Option<String>),
    LoadTypeStats,
    LoadHistory(String, Option<String>),
    LoadInsights { filter: WorkflowFilter, limit: u32 },
    CancelWorkflow(String),
    TerminateWorkflow(String),
    CopyToClipboard(String),
    OpenInBrowser(String),
}

/// The whole state of the application. Times are milliseconds since the
/// epoch.
pub struct App {
    pub view: Screen,
    pub view_stack: Vec<Screen>,
    pub input_mode: InputMode,
    pub show_help: bool,
    pub status_counts: LoadState<StatusCounts>,
    pub workflows: LoadState<Vec<WorkflowSummary>>,
    pub selected_workflow: Option<LoadState<WorkflowDetail>>,
    pub filter: WorkflowFilter,
    pub filter_input: String,
    pub date_range_input: String,
    pub active_date_range_label: Option<String>,
    pub type_name_filter: Option<String>,
    pub table_state: TableState,
    pub visible_columns: Vec<TableColumn>,
    pub workflow_sort: Option<(TableColumn, SortDirection)>,
    pub type_sort: Option<(TypeListColumn, SortDirection)>,
    pub type_stats: LoadState<Vec<TypeStat>>,
    pub type_table_state: TableState,
    pub activity_events: LoadState<Vec<HistoryEvent>>,
    pub activities: Vec<ActivityExecution>,
    pub child_workflows: Vec<ChildWorkflowExecution>,
    pub activity_table_state: TableState,
    pub expanded_activity: Option<usize>,
    pub activity_detail_scroll: u16,
    pub event_log_table_state: TableState,
    pub event_detail_scroll: u16,
    pub search_input: String,
    pub search_query: Option<String>,
    pub search_match_lines: Vec<usize>,
    pub search_current_match: usize,
    pub search_filtered_indices: Vec<usize>,
    pub insights: LoadState<InsightsResult>,
    pub insights_table_state: TableState,
    pub insight_detail_scroll: u16,
    pub insight_entity_index: usize,
    pub temporal_namespace: String,
    pub should_quit: bool,
    pub last_error: Option<String>,
    pub last_refresh: Option<i64>,
    pub last_quit_attempt: Option<i64>,
    pub page_size: usize,
}

/// Whether a view is a scrollable detail view.
pub open spec fn is_detail(v: Screen) -> bool {
    v == Screen::ActivityDetail || v == Screen::EventDetail || v == Screen::WorkflowDetail || v == Screen::InsightDetail
}

/// The number of rows of a loaded list, zero when it is not loaded.
pub open spec fn loaded_len<T>(l: LoadState<Vec<T>>) -> int {
    match l {
        LoadState::Loaded(v) => v@.len() as int,
        _ => 0,
    }
}

/// The number of rows of the list the current view shows: the rows that
/// match the search while a list search is active.
pub open spec fn list_len(a: App) -> int {
    if a.search_query is Some && !is_detail(a.view) {
        a.search_filtered_indices@.len() as int
    } else {
        match a.view {
            Screen::TypeList => loaded_len(a.type_stats),
            Screen::ActivityList => timeline_len(a),
            Screen::EventLog => loaded_len(a.activity_events),
            Screen::ActivityDetail | Screen::InsightDetail | Screen::EventDetail => 0,
            Screen::Insights => match a.insights {
                LoadState::Loaded(r) => r.findings@.len() as int,
                _ => 0,
            },
            _ => loaded_len(a.workflows),
        }
    }
}

/// The number of rows of the activity timeline: activities and child
/// workflows (capped at the largest `usize`).
pub open spec fn timeline_len(a: App) -> int {
    let n: int = (a.activities@.len() + a.child_workflows@.len()) as int;
    if n > usize::MAX { usize::MAX as int } else { n }
}

/// The table state of the current view.
pub open spec fn current_table(a: App) -> TableState {
    match a.view {
        Screen::TypeList => a.type_table_state,
        Screen::ActivityList => a.activity_table_state,
        Screen::EventLog => a.event_log_table_state,
        Screen::Insights | Screen::InsightDetail => a.insights_table_state,
        _ => a.table_state,
    }
}

/// `b` is `a` with the table state of the current view replaced by `t`.
pub open spec fn with_current_table(a: App, t: TableState) -> App {
    match a.view {
        Screen::TypeList => App { type_table_state: t, ..a },
        Screen::ActivityList => App { activity_table_state: t, ..a },
        Screen::EventLog => App { event_log_table_state: t, ..a },
        Screen::Insights | Screen::InsightDetail => App { insights_table_state: t, ..a },
        _ => App { table_state: t, ..a },
    }
}

/// The scroll offset of the current view, if it scrolls.
pub open spec fn current_scroll(a: App) -> Option<u16> {
    match a.view {
        Screen::ActivityDetail => Some(a.activity_detail_scroll),
        Screen::InsightDetail => Some(a.insight_detail_scroll),
        Screen::EventDetail => Some(a.event_detail_scroll),
        _ => None,
    }
}

/// `a` with the scroll offset of the current view set to `s`.
pub open spec fn with_scroll(a: App, s: u16) -> App {
    match a.view {
        Screen::ActivityDetail => App { activity_detail_scroll: s, ..a },
        Screen::InsightDetail => App { insight_detail_scroll: s, ..a },
        Screen::EventDetail => App { event_detail_scroll: s, ..a },
        _ => a,
    }
}

/// The selected row of the current table, row 0 when none is selected.
pub open spec fn current_row(a: App) -> int {
    match current_table(a).selected {
        Some(i) => i as int,
        None => 0,
    }
}

/// A visible row translated to its data row through an active search.
pub open spec fn translate(a: App, row: int) -> int {
    if a.search_query is Some && a.search_filtered_indices@.len() > 0 {
        if 0 <= row < a.search_filtered_indices@.len() { a.search_filtered_indices@[row] as int } else { row }
    } else {
        row
    }
}

/// The search fields hold nothing.
pub open spec fn search_empty(a: App) -> bool {
    &&& a.search_input@.len() == 0
    &&& a.search_query is None
    &&& a.search_match_lines@.len() == 0
    &&& a.search_current_match == 0
    &&& a.search_filtered_indices@.len() == 0
}

impl App {
    /// The starting state: the workflow list, nothing loaded, no filter,
    /// every column visible, the first row of each table selected, pages
    /// of ten rows.
    pub fn new() -> (r: App)
        ensures
            r.view == Screen::WorkflowList,
            r.view_stack@.len() == 0,
            r.input_mode == InputMode::Normal,
            !r.show_help,
            r.status_counts is NotLoaded,
            r.workflows is NotLoaded,
            r.selected_workflow is None,
            filter_is_empty(r.filter),
            r.filter_input@.len() == 0,
            r.date_range_input@.len() == 0,
            r.active_date_range_label is None,
            r.type_name_filter is None,
            r.table_state.selected == Some(0usize),
            r.visible_columns@ == all_columns(),
            r.workflow_sort is None,
            r.type_sort is None,
            r.type_stats is NotLoaded,
            r.type_table_state.selected == Some(0usize),
            r.activity_events is NotLoaded,
            r.activities@.len() == 0,
            r.child_workflows@.len() == 0,
            r.activity_table_state.selected == Some(0usize),
            r.expanded_activity is None,
            r.activity_detail_scroll == 0,
            r.event_log_table_state.selected == Some(0usize),
            r.event_detail_scroll == 0,
            search_empty(r),
            r.insights is NotLoaded,
            r.insights_table_state.selected == Some(0usize),
            r.insight_detail_scroll == 0,
            r.insight_entity_index == 0,
            r.temporal_namespace@.len() == 0,
            !r.should_quit,
            r.last_error is None,
            r.last_refresh is None,
            r.last_quit_attempt is None,
            r.page_size == 10,
    {
        App {
            view: Screen::WorkflowList,
            view_stack: Vec::new(),
            input_mode: InputMode::Normal,
            show_help: false,
            status_counts: LoadState::NotLoaded,
            workflows: LoadState::NotLoaded,
            selected_workflow: None,
            filter: WorkflowFilter::new(),
            filter_input: String::new(),
            date_range_input: String::new(),
            active_date_range_label: None,
            type_name_filter: None,
            table_state: TableState::with_selected(0),
            visible_columns: TableColumn::all(),
            workflow_sort: None,
            type_sort: None,
            type_stats: LoadState::NotLoaded,
            type_table_state: TableState::with_selected(0),
            activity_events: LoadState::NotLoaded,
            activities: Vec::new(),
            child_workflows: Vec::new(),
            activity_table_state: TableState::with_selected(0),
            expanded_activity: None,
            activity_detail_scroll: 0,
            event_log_table_state: TableState::with_selected(0),
            event_detail_scroll: 0,
            search_input: String::new(),
            search_query: None,
            search_match_lines: Vec::new(),
            search_current_match: 0,
            search_filtered_indices: Vec::new(),
            insights: LoadState::NotLoaded,
            insights_table_state: TableState::with_selected(0),
            insight_detail_scroll: 0,
            insight_entity_index: 0,
            temporal_namespace: String::new(),
            should_quit: false,
            last_error: None,
            last_refresh: None,
            last_quit_attempt: None,
            page_size: 10,
        }
    }

    /// Whether the current view is a detail view.
    pub fn is_detail_view(&self) -> (r: bool)
        ensures
            r == is_detail(self.view),
    {
        match self.view {
            Screen::ActivityDetail | Screen::EventDetail | Screen::WorkflowDetail | Screen::InsightDetail => true,
            _ => false,
        }
    }

    /// The number of rows of the activity timeline.
    fn timeline_length(&self) -> (r: usize)
        ensures
            r == timeline_len(*self),
    {
        let a = self.activities.len();
        let c = self.child_workflows.len();
        if a > usize::MAX - c { usize::MAX } else { a + c }
    }

    /// The number of rows of the list the current view shows.
    fn current_list_len(&self) -> (r: usize)
        ensures
            r == list_len(*self),
    {
        if self.search_query.is_some() && !self.is_detail_view() {
            return self.search_filtered_indices.len();
        }
        match self.view {
            Screen::TypeList => match &self.type_stats {
                LoadState::Loaded(s) => s.len(),
                _ => 0,
            },
            Screen::ActivityList => self.timeline_length(),
            Screen::EventLog => match &self.activity_events {
                LoadState::Loaded(e) => e.len(),
                _ => 0,
            },
            Screen::ActivityDetail | Screen::InsightDetail | Screen::EventDetail => 0,
            Screen::Insights => match &self.insights {
                LoadState::Loaded(r) => r.findings.len(),
                _ => 0,
            },
            _ => match &self.workflows {
                LoadState::Loaded(w) => w.len(),
                _ => 0,
            },
        }
    }
}

/// Half a page of rows, at least one.
pub open spec fn half_page(a: App) -> u16 {
    let h = ((a.page_size as u16) / 2) as u16;
    if h >= 1 { h } else { 1 }
}

/// The row after the current one, staying on the last row.
pub open spec fn next_row(a: App) -> TableState {
    let len = list_len(a);
    let cur = current_row(a);
    if len == 0 {
        current_table(a)
    } else {
        TableState { selected: Some((if cur >= len - 1 { cur } else { cur + 1 }) as usize) }
    }
}

/// The row before the current one, staying on the first row.
pub open spec fn prev_row(a: App) -> TableState {
    let cur = current_row(a);
    TableState { selected: Some((if cur >= 1 { cur - 1 } else { 0 }) as usize) }
}

/// The row a page down, staying on the last row.
pub open spec fn page_down_row(a: App) -> TableState {
    let len = list_len(a);
    let cur = current_row(a);
    let ps = a.page_size as int;
    if len == 0 || ps == 0 {
        current_table(a)
    } else if cur >= len - 1 {
        TableState { selected: Some(cur as usize) }
    } else {
        TableState { selected: Some((if cur + ps <= len - 1 { cur + ps } else { len - 1 }) as usize) }
    }
}

/// The row a page up, staying on the first row.
pub open spec fn page_up_row(a: App) -> TableState {
    let cur = current_row(a);
    let ps = a.page_size as int;
    if ps == 0 {
        current_table(a)
    } else {
        TableState { selected: Some((if cur >= ps { cur - ps } else { 0 }) as usize) }
    }
}

/// The last row, when there is one.
pub open spec fn last_row(a: App) -> TableState {
    let len = list_len(a);
    if len == 0 { current_table(a) } else { TableState { selected: Some((len - 1) as usize) } }
}

/// The state after a navigation action.
pub open spec fn navigated(a: App, action: Action) -> App {
    match current_scroll(a) {
        Some(s) => match action {
            Action::NavigateUp => with_scroll(a, if s >= half_page(a) { (s - half_page(a)) as u16 } else { 0 }),
            Action::NavigateDown => with_scroll(a, if s + half_page(a) <= u16::MAX { (s + half_page(a)) as u16 } else { u16::MAX }),
            Action::NavigateTop => with_scroll(a, 0),
            Action::NavigateBottom => with_scroll(a, u16::MAX),
            Action::PageUp => with_scroll(a, if s >= (a.page_size as u16) { (s - (a.page_size as u16)) as u16 } else { 0 }),
            _ => with_scroll(a, if s + (a.page_size as u16) <= u16::MAX { (s + (a.page_size as u16)) as u16 } else { u16::MAX }),
        },
        None => match action {
            Action::NavigateUp => with_current_table(a, prev_row(a)),
            Action::NavigateDown => with_current_table(a, next_row(a)),
            Action::NavigateTop => with_current_table(a, TableState { selected: Some(0usize) }),
            Action::NavigateBottom => with_current_table(a, last_row(a)),
            Action::PageUp => with_current_table(a, page_up_row(a)),
            _ => with_current_table(a, page_down_row(a)),
        },
    }
}

impl App {
    /// The table state of the current view.
    fn current_table_state(&self) -> (r: TableState)
        ensures
            r == current_table(*self),
    {
        match self.view {
            Screen::TypeList => self.type_table_state,
            Screen::ActivityList => self.activity_table_state,
            Screen::EventLog => self.event_log_table_state,
            Screen::Insights | Screen::InsightDetail => self.insights_table_state,
            _ => self.table_state,
        }
    }

    /// Replaces the table state of the current view.
    fn set_current_table(&mut self, t: TableState)
        ensures
            *final(self) == with_current_table(*old(self), t),
    {
        match self.view {
            Screen::TypeList => self.type_table_state = t,
            Screen::ActivityList => self.activity_table_state = t,
            Screen::EventLog => self.event_log_table_state = t,
            Screen::Insights | Screen::InsightDetail => self.insights_table_state = t,
            _ => self.table_state = t,
        }
    }

    /// The scroll offset of the current view, if it scrolls.
    fn current_scroll_value(&self) -> (r: Option<u16>)
        ensures
            r == current_scroll(*self),
    {
        match self.view {
            Screen::ActivityDetail => Some(self.activity_detail_scroll),
            Screen::InsightDetail => Some(self.insight_detail_scroll),
            Screen::EventDetail => Some(self.event_detail_scroll),
            _ => None,
        }
    }

    /// Sets the scroll offset of the current view, if it scrolls.
    fn set_detail_scroll(&mut self, target: u16)
        ensures
            *final(self) == with_scroll(*old(self), target),
    {
        match self.view {
            Screen::ActivityDetail => self.activity_detail_scroll = target,
            Screen::EventDetail => self.event_detail_scroll = target,
            Screen::InsightDetail => self.insight_detail_scroll = target,
            _ => {},
        }
    }

    /// Moves the selection or the scroll offset of the current view.
    fn navigate(&mut self, action: &Action)
        requires
            action is NavigateUp || action is NavigateDown || action is NavigateTop
                || action is NavigateBottom || action is PageUp || action is PageDown,
        ensures
            *final(self) == navigated(*old(self), *action),
    {
        let ps = self.page_size as u16;
        let hp0 = ps / 2;
        let hp: u16 = if hp0 >= 1 { hp0 } else { 1 };
        match self.current_scroll_value() {
            Some(s) => {
                let t: u16 = match action {
                    Action::NavigateUp => if s >= hp { s - hp } else { 0 },
                    Action::NavigateDown => if s as u32 + hp as u32 <= 65535 { s + hp } else { u16::MAX },
                    Action::NavigateTop => 0,
                    Action::NavigateBottom => u16::MAX,
                    Action::PageUp => if s >= ps { s - ps } else { 0 },
                    _ => if s as u32 + ps as u32 <= 65535 { s + ps } else { u16::MAX },
                };
                self.set_detail_scroll(t);
            },
            None => {
                let len = self.current_list_len();
                let cur_t = self.current_table_state();
                let cur: usize = match cur_t.selected {
                    Some(i) => i,
                    None => 0,
                };
                let pg = self.page_size;
                let t: TableState = match action {
                    Action::NavigateUp => TableState { selected: Some(if cur >= 1 { cur - 1 } else { 0 }) },
                    Action::NavigateDown => if len == 0 {
                        cur_t
                    } else {
                        TableState { selected: Some(if cur >= len - 1 { cur } else { cur + 1 }) }
                    },
                    Action::NavigateTop => TableState { selected: Some(0) },
                    Action::NavigateBottom => if len == 0 { cur_t } else { TableState { selected: Some(len - 1) } },
                    Action::PageUp => if pg == 0 {
                        cur_t
                    } else {
                        TableState { selected: Some(if cur >= pg { cur - pg } else { 0 }) }
                    },
                    _ => if len == 0 || pg == 0 {
                        cur_t
                    } else if cur >= len - 1 {
                        TableState { selected: Some(cur) }
                    } else {
                        TableState { selected: Some(if cur as u128 + pg as u128 <= (len - 1) as u128 { cur + pg } else { len - 1 }) }
                    },
                };
                self.set_current_table(t);
            },
        }
    }
}

/// The selected row of a table, row 0 when none is.
pub open spec fn row_of(t: TableState) -> int {
    match t.selected {
        Some(i) => i as int,
        None => 0,
    }
}

/// The workflow at the selected row of the workflow list, if any.
pub open spec fn selected_wf(a: App) -> Option<WorkflowSummary> {
    match a.workflows {
        LoadState::Loaded(ws) => {
            let d = translate(a, row_of(a.table_state));
            if 0 <= d < ws@.len() { Some(ws@[d]) } else { None }
        },
        _ => None,
    }
}

/// The type name at the selected row of the type list, if any.
pub open spec fn selected_type(a: App) -> Option<Seq<char>> {
    match a.type_stats {
        LoadState::Loaded(ts) => {
            let d = translate(a, row_of(a.type_table_state));
            if 0 <= d < ts@.len() { Some(ts@[d].workflow_type@) } else { None }
        },
        _ => None,
    }
}

/// The affected entity shown in the insight detail view, if any.
pub open spec fn selected_entity(a: App) -> Option<Seq<char>> {
    match a.insights {
        LoadState::Loaded(r) => match a.insights_table_state.selected {
            Some(i) => if i < r.findings@.len() && a.insight_entity_index < r.findings@[i as int].affected_entities@.len() {
                Some(r.findings@[i as int].affected_entities@[a.insight_entity_index as int]@)
            } else {
                None
            },
            None => None,
        },
        _ => None,
    }
}

/// The detail of the loaded workflow, if one is loaded.
pub open spec fn loaded_detail(a: App) -> Option<WorkflowDetail> {
    match a.selected_workflow {
        Some(LoadState::Loaded(d)) => Some(d),
        _ => None,
    }
}

/// The state before an action is handled: an error message is cleared by
/// every action but an error, a tick or a quit; a pending `g` chord ends
/// with any action but another `g` or a tick.
pub open spec fn prelude(a: App, act: Action) -> App {
    App {
        last_error: if act is Error || act is Tick || act is Quit { a.last_error } else { None },
        input_mode: if a.input_mode == InputMode::PendingG && !(act is EnterPendingG || act is Tick) {
            InputMode::Normal
        } else {
            a.input_mode
        },
        ..a
    }
}

/// `b` has no search state and otherwise equals `a`.
pub open spec fn cleared_search(a: App, b: App) -> bool {
    &&& search_empty(b)
    &&& b == App {
        search_input: b.search_input,
        search_query: b.search_query,
        search_match_lines: b.search_match_lines,
        search_current_match: b.search_current_match,
        search_filtered_indices: b.search_filtered_indices,
        ..a
    }
}

impl App {
    /// The row of the table translated through an active search.
    fn translate_selection(&self, visual_index: usize) -> (r: usize)
        ensures
            r == translate(*self, visual_index as int),
    {
        if self.search_query.is_some() && self.search_filtered_indices.len() > 0 {
            if visual_index < self.search_filtered_indices.len() {
                self.search_filtered_indices[visual_index]
            } else {
                visual_index
            }
        } else {
            visual_index
        }
    }

    /// The id of the workflow at the selected row of the workflow list.
    pub fn selected_workflow_id(&self) -> (r: Option<&str>)
        ensures
            match selected_wf(*self) {
                Some(w) => r matches Some(id) && id@ == w.workflow_id@,
                None => r is None,
            },
    {
        match &self.workflows {
            LoadState::Loaded(ws) => {
                let row = match self.table_state.selected {
                    Some(i) => i,
                    None => 0,
                };
                let d = self.translate_selection(row);
                if d < ws.len() {
                    Some(ws[d].workflow_id.as_str())
                } else {
                    None
                }
            },
            _ => None,
        }
    }

    /// The run id of the workflow at the selected row of the workflow list.
    pub fn selected_workflow_run_id(&self) -> (r: Option<&str>)
        ensures
            match selected_wf(*self) {
                Some(w) => r matches Some(id) && id@ == w.run_id@,
                None => r is None,
            },
    {
        match &self.workflows {
            LoadState::Loaded(ws) => {
                let row = match self.table_state.selected {
                    Some(i) => i,
                    None => 0,
                };
                let d = self.translate_selection(row);
                if d < ws.len() {
                    Some(ws[d].run_id.as_str())
                } else {
                    None
                }
            },
            _ => None,
        }
    }

    /// The workflow type at the selected row of the type list.
    pub fn selected_type_name(&self) -> (r: Option<&str>)
        ensures
            match selected_type(*self) {
                Some(t) => r matches Some(n) && n@ == t,
                None => r is None,
            },
    {
        match &self.type_stats {
            LoadState::Loaded(ts) => {
                let row = match self.type_table_state.selected {
                    Some(i) => i,
                    None => 0,
                };
                let d = self.translate_selection(row);
                if d < ts.len() {
                    Some(ts[d].workflow_type.as_str())
                } else {
                    None
                }
            },
            _ => None,
        }
    }

    /// The event at the selected row of the event log.
    pub fn selected_event(&self) -> (r: Option<&HistoryEvent>)
        ensures
            match self.activity_events {
                LoadState::Loaded(es) => match self.event_log_table_state.selected {
                    Some(i) => if i < es@.len() { r == Some(&es@[i as int]) } else { r is None },
                    None => r is None,
                },
                _ => r is None,
            },
    {
        match &self.activity_events {
            LoadState::Loaded(es) => match self.event_log_table_state.selected {
                Some(i) => if i < es.len() { Some(&es[i]) } else { None },
                None => None,
            },
            _ => None,
        }
    }

    /// The affected entity shown in the insight detail view.
    fn selected_entity_id(&self) -> (r: Option<String>)
        ensures
            match selected_entity(*self) {
                Some(e) => r matches Some(id) && id@ == e,
                None => r is None,
            },
    {
        match &self.insights {
            LoadState::Loaded(res) => match self.insights_table_state.selected {
                Some(i) => {
                    if i < res.findings.len() && self.insight_entity_index < res.findings[i].affected_entities.len() {
                        Some(res.findings[i].affected_entities[self.insight_entity_index].clone())
                    } else {
                        None
                    }
                },
                None => None,
            },
            _ => None,
        }
    }

    /// Clears every search field.
    fn clear_search_state(&mut self)
        ensures
            cleared_search(*old(self), *final(self)),
    {
        self.search_input = String::new();
        self.search_query = None;
        self.search_match_lines = Vec::new();
        self.search_current_match = 0;
        self.search_filtered_indices = Vec::new();
    }
}

/// `b` shows the workflow detail view, entered from `a`'s view, with the
/// detail loading and no search, and otherwise equals `a`.
pub open spec fn entered_detail(a: App, b: App) -> bool {
    &&& b.view_stack@ == a.view_stack@.push(a.view)
    &&& search_empty(b)
    &&& b == App {
        view: Screen::WorkflowDetail,
        view_stack: b.view_stack,
        selected_workflow: Some(LoadState::Loading),
        search_input: b.search_input,
        search_query: b.search_query,
        search_match_lines: b.search_match_lines,
        search_current_match: b.search_current_match,
        search_filtered_indices: b.search_filtered_indices,
        ..a
    }
}

/// The view below the top of the stack, or `fallback` when the stack is empty.
pub open spec fn popped_view(a: App, fallback: Screen) -> Screen {
    if a.view_stack@.len() > 0 { a.view_stack@.last() } else { fallback }
}

/// The view stack after a pop.
pub open spec fn popped_stack(a: App) -> Seq<Screen> {
    if a.view_stack@.len() > 0 { a.view_stack@.drop_last() } else { a.view_stack@ }
}

/// What `ViewDetail` does: in the type list, show the workflows of the
/// selected type; in an insight's detail, open the selected affected
/// workflow; elsewhere, open the selected workflow.
pub open spec fn view_detail_spec(a: App, b: App, effects: Seq<Effect>) -> bool {
    if a.view == Screen::TypeList {
        match selected_type(a) {
            Some(name) => {
                &&& b.view_stack@ == popped_stack(a)
                &&& b.filter.workflow_type matches Some(t) && t@ == name
                &&& b == App {
                    view: popped_view(a, Screen::WorkflowList),
                    view_stack: b.view_stack,
                    filter: WorkflowFilter { workflow_type: b.filter.workflow_type, ..a.filter },
                    table_state: TableState { selected: Some(0usize) },
                    ..a
                }
                &&& effects == seq![Effect::LoadWorkflows]
            },
            None => b == a && effects.len() == 0,
        }
    } else if a.view == Screen::InsightDetail {
        match selected_entity(a) {
            Some(id) => {
                &&& entered_detail(a, b)
                &&& effects.len() == 1
                &&& effects[0] matches Effect::LoadWorkflowDetail(w, None) && w@ == id
            },
            None => b == a && effects.len() == 0,
        }
    } else {
        match selected_wf(a) {
            Some(w) => {
                &&& entered_detail(a, b)
                &&& effects.len() == 1
                &&& effects[0] matches Effect::LoadWorkflowDetail(i, Some(r)) && i@ == w.workflow_id@ && r@ == w.run_id@
            },
            None => b == a && effects.len() == 0,
        }
    }
}

impl App {
    /// Enters the workflow detail view, remembering the current view.
    fn enter_detail(&mut self)
        ensures
            entered_detail(*old(self), *final(self)),
    {
        let v = self.view;
        self.view_stack.push(v);
        self.view = Screen::WorkflowDetail;
        self.selected_workflow = Some(LoadState::Loading);
        self.clear_search_state();
    }

    /// Goes back to the view below the top of the stack, or to `fallback`.
    fn pop_view(&mut self, fallback: Screen)
        ensures
            final(self).view_stack@ == popped_stack(*old(self)),
            *final(self) == (App { view: popped_view(*old(self), fallback), view_stack: final(self).view_stack, ..*old(self) }),
    {
        match self.view_stack.pop() {
            Some(v) => self.view = v,
            None => self.view = fallback,
        }
    }

    /// Handles `ViewDetail`.
    fn view_detail(&mut self) -> (effects: Vec<Effect>)
        ensures
            view_detail_spec(*old(self), *final(self), effects@),
    {
        let mut effects: Vec<Effect> = Vec::new();
        if self.view == Screen::TypeList {
            match self.selected_type_name() {
                Some(n) => {
                    let name = n.to_owned();
                    self.pop_view(Screen::WorkflowList);
                    self.filter.workflow_type = Some(name);
                    self.table_state.select(Some(0));
                    effects.push(Effect::LoadWorkflows);
                },
                None => {},
            }
        } else if self.view == Screen::InsightDetail {
            match self.selected_entity_id() {
                Some(id) => {
                    self.enter_detail();
                    effects.push(Effect::LoadWorkflowDetail(id, None));
                },
                None => {},
            }
        } else {
            let id = match self.selected_workflow_id() {
                Some(i) => Some(i.to_owned()),
                None => None,
            };
            let run = match self.selected_workflow_run_id() {
                Some(r) => Some(r.to_owned()),
                None => None,
            };
            match (id, run) {
                (Some(i), Some(r)) => {
                    self.enter_detail();
                    effects.push(Effect::LoadWorkflowDetail(i, Some(r)));
                },
                _ => {},
            }
        }
        effects
    }
}

/// `a` with the scroll offset of its (detail) view reset.
pub open spec fn scroll_reset(a: App) -> App {
    match a.view {
        Screen::ActivityDetail => App { activity_detail_scroll: 0, ..a },
        Screen::EventDetail => App { event_detail_scroll: 0, ..a },
        Screen::InsightDetail => App { insight_detail_scroll: 0, ..a },
        _ => a,
    }
}

/// What `GoBack` does: leave an input mode (dropping what was typed where
/// the mode discards it); in a detail view, clear the search first and then
/// go back to the previous view; in a list view, clear the search first and
/// then go back, dropping the data that only that view used.
pub open spec fn go_back_spec(a: App, b: App) -> bool {
    let normal = App { input_mode: InputMode::Normal, ..a };
    if a.input_mode == InputMode::SearchInput {
        b.search_input@.len() == 0 && b == App { search_input: b.search_input, ..normal }
    } else if a.input_mode == InputMode::PendingG || a.input_mode == InputMode::DateRangeSelect
        || a.input_mode == InputMode::SortSelect {
        b == normal
    } else if a.input_mode == InputMode::DateRangeCustom {
        b.date_range_input@.len() == 0 && b == App { date_range_input: b.date_range_input, ..normal }
    } else if a.input_mode == InputMode::FilterInput {
        b.filter_input@.len() == 0 && b == App { filter_input: b.filter_input, ..normal }
    } else if is_detail(a.view) {
        if a.search_query is Some {
            b.search_match_lines@.len() == 0 && b == App {
                search_query: None,
                search_match_lines: b.search_match_lines,
                search_current_match: 0,
                ..a
            }
        } else if a.view_stack@.len() > 0 {
            &&& b.view_stack@ == a.view_stack@.drop_last()
            &&& cleared_search(App { view: a.view_stack@.last(), view_stack: b.view_stack, ..scroll_reset(a) }, b)
        } else {
            b == a
        }
    } else if a.search_query is Some {
        cleared_search(a, b)
    } else if a.view_stack@.len() > 0 {
        let popped = App { view: a.view_stack@.last(), view_stack: b.view_stack, ..a };
        &&& b.view_stack@ == a.view_stack@.drop_last()
        &&& if a.view == Screen::ActivityList {
            &&& b.activities@.len() == 0
            &&& b.child_workflows@.len() == 0
            &&& b == App {
                activity_events: LoadState::NotLoaded,
                activities: b.activities,
                child_workflows: b.child_workflows,
                expanded_activity: None,
                ..popped
            }
        } else if a.view == Screen::EventLog || a.view == Screen::Insights {
            b == popped
        } else {
            b == App { selected_workflow: None, ..popped }
        }
    } else {
        b == a
    }
}

impl App {
    /// Handles `GoBack`.
    fn go_back(&mut self)
        ensures
            go_back_spec(*old(self), *final(self)),
    {
        if self.input_mode == InputMode::SearchInput {
            self.input_mode = InputMode::Normal;
            self.search_input = String::new();
        } else if self.input_mode == InputMode::PendingG || self.input_mode == InputMode::DateRangeSelect
            || self.input_mode == InputMode::SortSelect {
            self.input_mode = InputMode::Normal;
        } else if self.input_mode == InputMode::DateRangeCustom {
            self.input_mode = InputMode::Normal;
            self.date_range_input = String::new();
        } else if self.input_mode == InputMode::FilterInput {
            self.input_mode = InputMode::Normal;
            self.filter_input = String::new();
        } else if self.is_detail_view() {
            if self.search_query.is_some() {
                self.search_query = None;
                self.search_match_lines = Vec::new();
                self.search_current_match = 0;
            } else if self.view_stack.len() > 0 {
                match self.view {
                    Screen::ActivityDetail => self.activity_detail_scroll = 0,
                    Screen::EventDetail => self.event_detail_scroll = 0,
                    Screen::InsightDetail => self.insight_detail_scroll = 0,
                    _ => {},
                }
                match self.view_stack.pop() {
                    Some(v) => self.view = v,
                    None => {},
                }
                self.clear_search_state();
            }
        } else if self.search_query.is_some() {
            self.clear_search_state();
        } else if self.view_stack.len() > 0 {
            if self.view == Screen::ActivityList {
                self.activity_events = LoadState::NotLoaded;
                self.activities = Vec::new();
                self.child_workflows = Vec::new();
                self.expanded_activity = None;
            } else if self.view == Screen::EventLog || self.view == Screen::Insights {
            } else {
                self.selected_workflow = None;
            }
            match self.view_stack.pop() {
                Some(v) => self.view = v,
                None => {},
            }
        }
    }
}

/// A copy of an optional string.
pub fn clone_opt_string(o: &Option<String>) -> (r: Option<String>)
    ensures
        r == *o,
{
    match o {
        Some(s) => Some(s.clone()),
        None => None,
    }
}

/// A copy of a filter.
pub fn clone_filter(f: &WorkflowFilter) -> (r: WorkflowFilter)
    ensures
        r == *f,
{
    WorkflowFilter {
        status: f.status,
        workflow_type: clone_opt_string(&f.workflow_type),
        workflow_id_prefix: clone_opt_string(&f.workflow_id_prefix),
        start_time_after: f.start_time_after,
        start_time_before: f.start_time_before,
        close_time_after: f.close_time_after,
        close_time_before: f.close_time_before,
    }
}

/// The status after `s` in the status cycle (the first one after none).
pub open spec fn next_status(s: Option<WorkflowStatus>) -> WorkflowStatus {
    match s {
        None => all_statuses()[0],
        Some(c) => all_statuses()[(status_index(c) + 1) % all_statuses().len() as int],
    }
}

/// The status before `s` in the status cycle (the last one before none).
pub open spec fn prev_status(s: Option<WorkflowStatus>) -> WorkflowStatus {
    match s {
        None => all_statuses()[all_statuses().len() - 1],
        Some(c) => if status_index(c) == 0 {
            all_statuses()[all_statuses().len() - 1]
        } else {
            all_statuses()[status_index(c) - 1]
        },
    }
}

/// The text with its last character dropped, if any.
pub open spec fn dropped_last(s: Seq<char>) -> Seq<char> {
    if s.len() > 0 { s.drop_last() } else { s }
}

/// The text with its last character dropped.
fn pop_char(s: &String) -> (r: String)
    ensures
        r@ == dropped_last(s@),
{
    let cs = chars_of(s.as_str());
    if cs.len() == 0 {
        return String::new();
    }
    let mut out: Vec<char> = Vec::new();
    let mut i: usize = 0;
    while i + 1 < cs.len()
        invariant
            cs@ == s@,
            cs@.len() > 0,
            i <= cs@.len() - 1,
            out@ == cs@.take(i as int),
        decreases cs.len() - i,
    {
        out.push(cs[i]);
        assert(out@ =~= cs@.take(i + 1));
        i = i + 1;
    }
    assert(out@ =~= cs@.drop_last());
    string_of(&out)
}

/// The text with one character added.
fn push_char(s: &String, c: char) -> (r: String)
    ensures
        r@ == s@.push(c),
{
    let mut cs = chars_of(s.as_str());
    cs.push(c);
    string_of(&cs)
}

/// The address of a workflow run in Temporal Cloud.
pub open spec fn workflow_url_text(a: App) -> Option<Seq<char>> {
    match loaded_detail(a) {
        Some(d) => Some("https://cloud.temporal.io/namespaces/"@ + a.temporal_namespace@ + "/workflows/"@
            + d.summary.workflow_id@ + "/"@ + d.summary.run_id@ + "/history"@),
        None => None,
    }
}

/// The message shown on a first quit request.
pub open spec fn quit_hint() -> Seq<char> {
    "Press Ctrl+C again to quit"@
}

/// Whole seconds from `then` to `now`, zero when `now` is earlier.
pub open spec fn seconds_since(now: i64, then: i64) -> int {
    if now >= then { (now - then) / 1000 } else { 0 }
}

impl App {
    /// The address of the loaded workflow run in Temporal Cloud.
    pub fn workflow_url(&self) -> (r: Option<String>)
        ensures
            match workflow_url_text(*self) {
                Some(u) => r matches Some(s) && s@ == u,
                None => r is None,
            },
    {
        match &self.selected_workflow {
            Some(LoadState::Loaded(d)) => {
                let mut out: Vec<char> = Vec::new();
                push_str(&mut out, "https://cloud.temporal.io/namespaces/");
                push_str(&mut out, self.temporal_namespace.as_str());
                push_str(&mut out, "/workflows/");
                push_str(&mut out, d.summary.workflow_id.as_str());
                push_str(&mut out, "/");
                push_str(&mut out, d.summary.run_id.as_str());
                push_str(&mut out, "/history");
                assert(out@ =~= workflow_url_text(*self)->0);
                Some(string_of(&out))
            },
            _ => None,
        }
    }

    /// The insights request for the current filter: up to 1000 workflows
    /// with a date range, 500 without.
    fn load_insights_effect(&self) -> (r: Effect)
        ensures
            r == (Effect::LoadInsights {
                filter: self.filter,
                limit: if filter_has_date_range(self.filter) { 1000u32 } else { 500u32 },
            }),
    {
        let limit: u32 = if self.filter.has_date_range() { 1000 } else { 500 };
        Effect::LoadInsights { filter: clone_filter(&self.filter), limit }
    }

    /// Handles a quit request at time `now`: a second request within two
    /// seconds quits; otherwise the request is remembered and a hint shown.
    fn quit(&mut self, now: i64)
        ensures
            quit_spec(*old(self), *final(self), now),
    {
        let recent = match self.last_quit_attempt {
            Some(t) => {
                let secs: i128 = if now >= t { (now as i128 - t as i128) / 1000 } else { 0 };
                secs < 2
            },
            None => false,
        };
        if recent {
            self.should_quit = true;
        } else {
            self.last_quit_attempt = Some(now);
            self.last_error = Some("Press Ctrl+C again to quit".to_owned());
        }
    }
}

/// The sort keys of the activity timeline: the activities' scheduling
/// event ids, then the child workflows' initiation event ids.
pub open spec fn timeline_keys(a: App) -> Seq<i128> {
    a.activities@.map_values(|x: ActivityExecution| x.scheduled_event_id as i128)
        + a.child_workflows@.map_values(|c: ChildWorkflowExecution| c.initiated_event_id as i128)
}

/// The searchable text of timeline item `k` (an activity when below the
/// number of activities, else a child workflow).
pub open spec fn timeline_text(a: App, k: int) -> Seq<char> {
    let n = a.activities@.len() as int;
    if k < n {
        let x = a.activities@[k];
        x.activity_type@ + " "@ + x.activity_id@ + " "@ + activity_short_text(x.status)
    } else {
        let c = a.child_workflows@[k - n];
        c.workflow_type@ + " "@ + c.workflow_id@ + " "@ + child_short_text(c.status)
    }
}

/// The searchable texts of the rows of the current list view, the
/// timeline's in the order `order`.
pub open spec fn row_texts(a: App, order: Seq<usize>) -> Seq<Seq<char>> {
    match a.view {
        Screen::WorkflowList => match a.workflows {
            LoadState::Loaded(ws) => ws@.map_values(|w: WorkflowSummary|
                w.workflow_id@ + " "@ + w.workflow_type@ + " "@ + query_value_text(w.status) + " "@ + w.task_queue@),
            _ => Seq::empty(),
        },
        Screen::TypeList => match a.type_stats {
            LoadState::Loaded(ts) => ts@.map_values(|t: TypeStat| t.workflow_type@),
            _ => Seq::empty(),
        },
        Screen::ActivityList => order.map_values(|k: usize| timeline_text(a, k as int)),
        Screen::EventLog => match a.activity_events {
            LoadState::Loaded(es) => es@.map_values(|e: HistoryEvent| idec(e.event_id as int) + " "@ + e.event_type@),
            _ => Seq::empty(),
        },
        Screen::Insights => match a.insights {
            LoadState::Loaded(r) => r.findings@.map_values(|f: crate::insights::InsightFinding|
                severity_text(f.severity) + " "@ + category_text(f.category) + " "@ + f.title@),
            _ => Seq::empty(),
        },
        _ => Seq::empty(),
    }
}

/// The rows whose text holds the query, ignoring case, in order.
pub open spec fn matching_rows(texts: Seq<Seq<char>>, q: Seq<char>) -> Seq<usize>
    decreases texts.len(),
{
    if texts.len() == 0 {
        Seq::empty()
    } else {
        let prev = matching_rows(texts.drop_last(), q);
        if contains_seq(lower_of(texts.last()), lower_of(q)) {
            prev.push((texts.len() - 1) as usize)
        } else {
            prev
        }
    }
}

/// The rows of the current list that match the search query, for the
/// timeline order `order`; none without a query.
pub open spec fn list_matches(a: App, order: Seq<usize>) -> Seq<usize> {
    match a.search_query {
        Some(q) => if q@.len() > 0 { matching_rows(row_texts(a, order), q@) } else { Seq::empty() },
        None => Seq::empty(),
    }
}

/// An activity or a child workflow of the timeline.
#[derive(Debug)]
pub enum TimelineItemRef<'a> {
    Activity(&'a ActivityExecution),
    ChildWorkflow(&'a ChildWorkflowExecution),
}

/// `r` is timeline item `k`: an activity when below the number of
/// activities, else a child workflow.
pub open spec fn timeline_item_is(a: App, k: int, r: TimelineItemRef) -> bool {
    let n = a.activities@.len() as int;
    if k < n {
        r matches TimelineItemRef::Activity(x) && *x == a.activities@[k]
    } else {
        r matches TimelineItemRef::ChildWorkflow(c) && *c == a.child_workflows@[k - n]
    }
}

impl App {
    /// The timeline order: item positions sorted by event id, activities
    /// before child workflows among equal ids.
    fn timeline_order(&self) -> (r: Vec<usize>)
        ensures
            stable_order(timeline_keys(*self), r@),
    {
        let mut keys: Vec<i128> = Vec::new();
        let mut i: usize = 0;
        while i < self.activities.len()
            invariant
                i <= self.activities@.len(),
                keys@ == self.activities@.take(i as int).map_values(|x: ActivityExecution| x.scheduled_event_id as i128),
            decreases self.activities.len() - i,
        {
            keys.push(self.activities[i].scheduled_event_id as i128);
            assert(keys@ =~= self.activities@.take(i + 1).map_values(|x: ActivityExecution| x.scheduled_event_id as i128));
            i = i + 1;
        }
        assert(self.activities@.take(self.activities@.len() as int) =~= self.activities@);
        let ghost first = keys@;
        let mut j: usize = 0;
        while j < self.child_workflows.len()
            invariant
                j <= self.child_workflows@.len(),
                keys@ == first + self.child_workflows@.take(j as int).map_values(|c: ChildWorkflowExecution| c.initiated_event_id as i128),
            decreases self.child_workflows.len() - j,
        {
            keys.push(self.child_workflows[j].initiated_event_id as i128);
            assert(keys@ =~= first + self.child_workflows@.take(j + 1).map_values(|c: ChildWorkflowExecution| c.initiated_event_id as i128));
            j = j + 1;
        }
        assert(self.child_workflows@.take(self.child_workflows@.len() as int) =~= self.child_workflows@);
        assert(keys@ =~= timeline_keys(*self));
        stable_order_asc(&keys)
    }

    /// The item at the selected row of the activity timeline, which lists
    /// activities and child workflows by event id.
    pub fn selected_timeline_item(&self) -> (r: Option<TimelineItemRef<'_>>)
        ensures
            exists|order: Seq<usize>| #[trigger] stable_order(timeline_keys(*self), order) && match self.activity_table_state.selected {
                Some(s) => if s < order.len() {
                    r matches Some(item) && timeline_item_is(*self, order[s as int] as int, item)
                } else {
                    r is None
                },
                None => r is None,
            },
    {
        let order = self.timeline_order();
        let s = match self.activity_table_state.selected {
            Some(s) => s,
            None => return None,
        };
        if s >= order.len() {
            return None;
        }
        let k = order[s];
        let n = self.activities.len();
        if k < n {
            Some(TimelineItemRef::Activity(&self.activities[k]))
        } else {
            Some(TimelineItemRef::ChildWorkflow(&self.child_workflows[k - n]))
        }
    }

    /// The searchable texts of the rows of the current list view.
    fn row_texts_exec(&self, order: &Vec<usize>) -> (r: Vec<Vec<char>>)
        requires
            stable_order(timeline_keys(*self), order@),
        ensures
            r@.map_values(|t: Vec<char>| t@) == row_texts(*self, order@),
    {
        let mut r: Vec<Vec<char>> = Vec::new();
        match self.view {
            Screen::WorkflowList => match &self.workflows {
                LoadState::Loaded(ws) => {
                    let mut i: usize = 0;
                    while i < ws.len()
                        invariant
                            i <= ws@.len(),
                            r@.map_values(|t: Vec<char>| t@) == ws@.take(i as int).map_values(|w: WorkflowSummary|
                                w.workflow_id@ + " "@ + w.workflow_type@ + " "@ + query_value_text(w.status) + " "@ + w.task_queue@),
                        decreases ws.len() - i,
                    {
                        let w = &ws[i];
                        let mut t: Vec<char> = Vec::new();
                        push_str(&mut t, w.workflow_id.as_str());
                        push_str(&mut t, " ");
                        push_str(&mut t, w.workflow_type.as_str());
                        push_str(&mut t, " ");
                        push_str(&mut t, w.status.as_query_value());
                        push_str(&mut t, " ");
                        push_str(&mut t, w.task_queue.as_str());
                        let ghost tv = t@;
                        let ghost before = r@;
                        assert(tv =~= w.workflow_id@ + " "@ + w.workflow_type@ + " "@ + query_value_text(w.status) + " "@ + w.task_queue@);
                        r.push(t);
                        assert(r@.map_values(|t: Vec<char>| t@) =~= before.map_values(|t: Vec<char>| t@).push(tv));
                        assert(ws@.take(i + 1).map_values(|w: WorkflowSummary|
                            w.workflow_id@ + " "@ + w.workflow_type@ + " "@ + query_value_text(w.status) + " "@ + w.task_queue@) =~= ws@.take(i as int).map_values(|w: WorkflowSummary|
                            w.workflow_id@ + " "@ + w.workflow_type@ + " "@ + query_value_text(w.status) + " "@ + w.task_queue@).push(tv));
                        i = i + 1;
                    }
                    assert(ws@.take(ws@.len() as int) =~= ws@);
                },
                _ => {},
            },
            Screen::TypeList => match &self.type_stats {
                LoadState::Loaded(ts) => {
                    let mut i: usize = 0;
                    while i < ts.len()
                        invariant
                            i <= ts@.len(),
                            r@.map_values(|t: Vec<char>| t@) == ts@.take(i as int).map_values(|t: TypeStat| t.workflow_type@),
                        decreases ts.len() - i,
                    {
                        let ghost before = r@;
                        let t = chars_of(ts[i].workflow_type.as_str());
                        let ghost tv = t@;
                        r.push(t);
                        assert(r@.map_values(|t: Vec<char>| t@) =~= before.map_values(|t: Vec<char>| t@).push(tv));
                        assert(ts@.take(i + 1).map_values(|t: TypeStat| t.workflow_type@) =~= ts@.take(i as int).map_values(|t: TypeStat| t.workflow_type@).push(tv));
                        i = i + 1;
                    }
                    assert(ts@.take(ts@.len() as int) =~= ts@);
                },
                _ => {},
            },
            Screen::ActivityList => {
                let n = self.activities.len();
                let mut i: usize = 0;
                while i < order.len()
                    invariant
                        stable_order(timeline_keys(*self), order@),
                        n == self.activities@.len(),
                        i <= order@.len(),
                        r@.map_values(|t: Vec<char>| t@) == order@.take(i as int).map_values(|k: usize| timeline_text(*self, k as int)),
                    decreases order.len() - i,
                {
                    let k = order[i];
                    let mut t: Vec<char> = Vec::new();
                    if k < n {
                        let x = &self.activities[k];
                        push_str(&mut t, x.activity_type.as_str());
                        push_str(&mut t, " ");
                        push_str(&mut t, x.activity_id.as_str());
                        push_str(&mut t, " ");
                        push_str(&mut t, x.status.short_name());
                    } else {
                        let c = &self.child_workflows[k - n];
                        push_str(&mut t, c.workflow_type.as_str());
                        push_str(&mut t, " ");
                        push_str(&mut t, c.workflow_id.as_str());
                        push_str(&mut t, " ");
                        push_str(&mut t, c.status.short_name());
                    }
                    assert(t@ =~= timeline_text(*self, k as int));
                    let ghost before = r@;
                    let ghost tv = t@;
                    r.push(t);
                    assert(r@.map_values(|t: Vec<char>| t@) =~= before.map_values(|t: Vec<char>| t@).push(tv));
                    assert(order@.take(i + 1).map_values(|k: usize| timeline_text(*self, k as int)) =~= order@.take(i as int).map_values(|k: usize| timeline_text(*self, k as int)).push(tv));
                    i = i + 1;
                }
                assert(order@.take(order@.len() as int) =~= order@);
            },
            Screen::EventLog => match &self.activity_events {
                LoadState::Loaded(es) => {
                    let mut i: usize = 0;
                    while i < es.len()
                        invariant
                            i <= es@.len(),
                            r@.map_values(|t: Vec<char>| t@) == es@.take(i as int).map_values(|e: HistoryEvent| idec(e.event_id as int) + " "@ + e.event_type@),
                        decreases es.len() - i,
                    {
                        let mut t: Vec<char> = Vec::new();
                        push_idec(&mut t, es[i].event_id);
                        push_str(&mut t, " ");
                        push_str(&mut t, es[i].event_type.as_str());
                        assert(t@ =~= idec(es@[i as int].event_id as int) + " "@ + es@[i as int].event_type@);
                        let ghost before = r@;
                        let ghost tv = t@;
                        r.push(t);
                        assert(r@.map_values(|t: Vec<char>| t@) =~= before.map_values(|t: Vec<char>| t@).push(tv));
                        assert(es@.take(i + 1).map_values(|e: HistoryEvent| idec(e.event_id as int) + " "@ + e.event_type@) =~= es@.take(i as int).map_values(|e: HistoryEvent| idec(e.event_id as int) + " "@ + e.event_type@).push(tv));
                        i = i + 1;
                    }
                    assert(es@.take(es@.len() as int) =~= es@);
                },
                _ => {},
            },
            Screen::Insights => match &self.insights {
                LoadState::Loaded(res) => {
                    let fs = &res.findings;
                    let mut i: usize = 0;
                    while i < fs.len()
                        invariant
                            i <= fs@.len(),
                            r@.map_values(|t: Vec<char>| t@) == fs@.take(i as int).map_values(|f: crate::insights::InsightFinding|
                                severity_text(f.severity) + " "@ + category_text(f.category) + " "@ + f.title@),
                        decreases fs.len() - i,
                    {
                        let mut t: Vec<char> = Vec::new();
                        push_str(&mut t, fs[i].severity.label());
                        push_str(&mut t, " ");
                        push_str(&mut t, fs[i].category.label());
                        push_str(&mut t, " ");
                        push_str(&mut t, fs[i].title.as_str());
                        let ghost before = r@;
                        let ghost tv = t@;
                        assert(tv =~= severity_text(fs@[i as int].severity) + " "@ + category_text(fs@[i as int].category) + " "@ + fs@[i as int].title@);
                        r.push(t);
                        assert(r@.map_values(|t: Vec<char>| t@) =~= before.map_values(|t: Vec<char>| t@).push(tv));
                        assert(fs@.take(i + 1).map_values(|f: crate::insights::InsightFinding|
                            severity_text(f.severity) + " "@ + category_text(f.category) + " "@ + f.title@) =~= fs@.take(i as int).map_values(|f: crate::insights::InsightFinding|
                            severity_text(f.severity) + " "@ + category_text(f.category) + " "@ + f.title@).push(tv));
                        i = i + 1;
                    }
                    assert(fs@.take(fs@.len() as int) =~= fs@);
                },
                _ => {},
            },
            _ => {},
        }
        assert(r@.map_values(|t: Vec<char>| t@) =~= row_texts(*self, order@));
        r
    }

    /// Recomputes the rows of the current list that match the search query.
    fn recompute_list_search(&mut self) -> (order: Ghost<Seq<usize>>)
        ensures
            stable_order(timeline_keys(*old(self)), order@),
            final(self).search_filtered_indices@ == list_matches(*old(self), order@),
            *final(self) == (App { search_filtered_indices: final(self).search_filtered_indices, ..*old(self) }),
    {
        let order = self.timeline_order();
        let mut found: Vec<usize> = Vec::new();
        let q: Vec<char> = match &self.search_query {
            Some(q) => chars_of(q.as_str()),
            None => Vec::new(),
        };
        if q.len() > 0 {
            let texts = self.row_texts_exec(&order);
            let ql = lower_chars(&q);
            let mut i: usize = 0;
            while i < texts.len()
                invariant
                    i <= texts@.len(),
                    found@ == matching_rows(texts@.map_values(|t: Vec<char>| t@).take(i as int), q@),
                    ql@ == lower_of(q@),
                decreases texts.len() - i,
            {
                assert(texts@.map_values(|t: Vec<char>| t@).take(i + 1).drop_last() =~= texts@.map_values(|t: Vec<char>| t@).take(i as int));
                let low = lower_chars(&texts[i]);
                if contains(&low, &ql) {
                    found.push(i);
                }
                i = i + 1;
            }
            assert(texts@.map_values(|t: Vec<char>| t@).take(texts@.len() as int) =~= texts@.map_values(|t: Vec<char>| t@));
        }
        self.search_filtered_indices = found;
        assert(list_matches(*old(self), order@) == self.search_filtered_indices@);
        Ghost(order@)
    }
}

/// The text a workflow is sorted by in a text column.
pub open spec fn wf_sort_text(w: WorkflowSummary, col: TableColumn) -> Seq<char> {
    match col {
        TableColumn::Status => workflow_short_text(w.status),
        TableColumn::Type => w.workflow_type@,
        _ => w.workflow_id@,
    }
}

/// Sort keys of the workflows for a column and direction: the start time,
/// or the rank of the column's text among all rows; negated for a
/// descending order.
pub open spec fn wf_sort_keys(ws: Seq<WorkflowSummary>, col: TableColumn, dir: SortDirection) -> Seq<i128> {
    let texts = ws.map_values(|w: WorkflowSummary| wf_sort_text(w, col));
    Seq::new(ws.len(), |i: int| {
        let k: int = if col == TableColumn::Started { ws[i].start_time as int } else { count_before(texts, texts[i]) as int };
        (if dir == SortDirection::Descending { -k } else { k }) as i128
    })
}

/// Sort keys of the type rows for a column and direction; descending
/// orders negate them.
pub open spec fn type_sort_keys(ts: Seq<TypeStat>, col: TypeListColumn, dir: SortDirection) -> Seq<i128> {
    let texts = ts.map_values(|t: TypeStat| t.workflow_type@);
    Seq::new(ts.len(), |i: int| {
        let k: int = match col {
            TypeListColumn::TypeName => count_before(texts, texts[i]) as int,
            TypeListColumn::Total => ts[i].total as int,
            TypeListColumn::StatusCount(s) => ts[i].counts.count_of(s) as int,
        };
        (if dir == SortDirection::Descending { -k } else { k }) as i128
    })
}

/// `b` holds the items of `a` in a stable order by `keys`.
pub open spec fn sorted_by<T>(a: Seq<T>, b: Seq<T>, keys: Seq<i128>) -> bool {
    exists|p: Seq<usize>| #[trigger] stable_order(keys, p) && b.len() == a.len()
        && forall|k: int| 0 <= k < b.len() ==> b[k] == a[p[k] as int]
}

/// Every row of the loaded type statistics has consistent counts.
pub open spec fn type_stats_ok(l: LoadState<Vec<TypeStat>>) -> bool {
    match l {
        LoadState::Loaded(ts) => forall|i: int| 0 <= i < ts@.len() ==> (#[trigger] ts@[i]).counts.wf(),
        _ => true,
    }
}

/// Sort keys of workflows.
fn wf_keys_exec(ws: &Vec<WorkflowSummary>, col: TableColumn, dir: SortDirection) -> (r: Vec<i128>)
    ensures
        r@ == wf_sort_keys(ws@, col, dir),
{
    let mut texts: Vec<Vec<char>> = Vec::new();
    let mut i: usize = 0;
    while i < ws.len()
        invariant
            i <= ws@.len(),
            texts@.map_values(|t: Vec<char>| t@) == ws@.take(i as int).map_values(|w: WorkflowSummary| wf_sort_text(w, col)),
        decreases ws.len() - i,
    {
        let t = match col {
            TableColumn::Status => chars_of(ws[i].status.short_name()),
            TableColumn::Type => chars_of(ws[i].workflow_type.as_str()),
            _ => chars_of(ws[i].workflow_id.as_str()),
        };
        let ghost before = texts@;
        let ghost tv = t@;
        texts.push(t);
        assert(texts@.map_values(|t: Vec<char>| t@) =~= before.map_values(|t: Vec<char>| t@).push(tv));
        assert(ws@.take(i + 1).map_values(|w: WorkflowSummary| wf_sort_text(w, col)) =~= ws@.take(i as int).map_values(|w: WorkflowSummary| wf_sort_text(w, col)).push(tv));
        i = i + 1;
    }
    assert(ws@.take(ws@.len() as int) =~= ws@);
    let ranks = if col == TableColumn::Started { Vec::new() } else { text_ranks(&texts) };
    let mut r: Vec<i128> = Vec::new();
    let mut j: usize = 0;
    while j < ws.len()
        invariant
            j <= ws@.len(),
            texts@.map_values(|t: Vec<char>| t@) == ws@.map_values(|w: WorkflowSummary| wf_sort_text(w, col)),
            col != TableColumn::Started ==> ranks@.len() == ws@.len(),
            col != TableColumn::Started ==> forall|i: int| 0 <= i < ranks@.len() ==> ranks@[i] == count_before(texts@.map_values(|t: Vec<char>| t@), texts@[i]@),
            r@ == wf_sort_keys(ws@, col, dir).take(j as int),
        decreases ws.len() - j,
    {
        let k: i128 = if col == TableColumn::Started { ws[j].start_time as i128 } else { ranks[j] };
        assert(texts@.map_values(|t: Vec<char>| t@)[j as int] == texts@[j as int]@);
        proof {
            if col != TableColumn::Started {
                assert(count_before(texts@.map_values(|t: Vec<char>| t@), texts@[j as int]@) <= texts@.len()) by {
                    lemma_count_before_len(texts@.map_values(|t: Vec<char>| t@), texts@[j as int]@);
                }
            }
        }
        let v: i128 = if dir == SortDirection::Descending { -k } else { k };
        r.push(v);
        assert(r@ =~= wf_sort_keys(ws@, col, dir).take(j + 1));
        j = j + 1;
    }
    r
}

/// A count of items is at most their number.
proof fn lemma_count_before_len(keys: Seq<Seq<char>>, x: Seq<char>)
    ensures
        count_before(keys, x) <= keys.len(),
    decreases keys.len(),
{
    if keys.len() > 0 {
        lemma_count_before_len(keys.drop_last(), x);
    }
}

/// Sort keys of type rows.
fn type_keys_exec(ts: &Vec<TypeStat>, col: TypeListColumn, dir: SortDirection) -> (r: Vec<i128>)
    requires
        forall|i: int| 0 <= i < ts@.len() ==> (#[trigger] ts@[i]).counts.wf(),
    ensures
        r@ == type_sort_keys(ts@, col, dir),
{
    let mut texts: Vec<Vec<char>> = Vec::new();
    let mut i: usize = 0;
    while i < ts.len()
        invariant
            i <= ts@.len(),
            texts@.map_values(|t: Vec<char>| t@) == ts@.take(i as int).map_values(|t: TypeStat| t.workflow_type@),
        decreases ts.len() - i,
    {
        let t = chars_of(ts[i].workflow_type.as_str());
        let ghost before = texts@;
        let ghost tv = t@;
        texts.push(t);
        assert(texts@.map_values(|t: Vec<char>| t@) =~= before.map_values(|t: Vec<char>| t@).push(tv));
        assert(ts@.take(i + 1).map_values(|t: TypeStat| t.workflow_type@) =~= ts@.take(i as int).map_values(|t: TypeStat| t.workflow_type@).push(tv));
        i = i + 1;
    }
    assert(ts@.take(ts@.len() as int) =~= ts@);
    let ranks = text_ranks(&texts);
    let mut r: Vec<i128> = Vec::new();
    let mut j: usize = 0;
    while j < ts.len()
        invariant
            forall|i: int| 0 <= i < ts@.len() ==> (#[trigger] ts@[i]).counts.wf(),
            j <= ts@.len(),
            texts@.map_values(|t: Vec<char>| t@) == ts@.map_values(|t: TypeStat| t.workflow_type@),
            ranks@.len() == ts@.len(),
            forall|i: int| 0 <= i < ranks@.len() ==> ranks@[i] == count_before(texts@.map_values(|t: Vec<char>| t@), texts@[i]@),
            r@ == type_sort_keys(ts@, col, dir).take(j as int),
        decreases ts.len() - j,
    {
        assert(texts@.map_values(|t: Vec<char>| t@)[j as int] == texts@[j as int]@);
        proof {
            lemma_count_before_len(texts@.map_values(|t: Vec<char>| t@), texts@[j as int]@);
        }
        let k: i128 = match col {
            TypeListColumn::TypeName => ranks[j],
            TypeListColumn::Total => ts[j].total as i128,
            TypeListColumn::StatusCount(s) => ts[j].get_status_count(s) as i128,
        };
        let v: i128 = if dir == SortDirection::Descending { -k } else { k };
        r.push(v);
        assert(r@ =~= type_sort_keys(ts@, col, dir).take(j + 1));
        j = j + 1;
    }
    r
}

impl App {
    /// Reorders the loaded workflows by the chosen column and direction.
    fn sort_workflows(&mut self)
        ensures
            match (old(self).workflow_sort, old(self).workflows) {
                (Some((col, dir)), LoadState::Loaded(ws)) => final(self).workflows matches LoadState::Loaded(ws2)
                    && sorted_by(ws@, ws2@, wf_sort_keys(ws@, col, dir))
                    && *final(self) == App { workflows: final(self).workflows, ..*old(self) },
                _ => *final(self) == *old(self),
            },
    {
        match self.workflow_sort {
            Some((col, dir)) => {
                let mut taken: LoadState<Vec<WorkflowSummary>> = LoadState::NotLoaded;
                std::mem::swap(&mut taken, &mut self.workflows);
                match taken {
                    LoadState::Loaded(ws) => {
                        let keys = wf_keys_exec(&ws, col, dir);
                        let p = stable_order_asc(&keys);
                        let ghost before = ws@;
                        let sorted = permute(ws, &keys, &p);
                        assert(stable_order(wf_sort_keys(before, col, dir), p@));
                        self.workflows = LoadState::Loaded(sorted);
                    },
                    other => {
                        self.workflows = other;
                    },
                }
            },
            None => {},
        }
    }

    /// Reorders the loaded type rows by the chosen column and direction.
    fn sort_type_stats(&mut self)
        requires
            type_stats_ok(old(self).type_stats),
        ensures
            type_stats_ok(final(self).type_stats),
            match (old(self).type_sort, old(self).type_stats) {
                (Some((col, dir)), LoadState::Loaded(ts)) => final(self).type_stats matches LoadState::Loaded(ts2)
                    && sorted_by(ts@, ts2@, type_sort_keys(ts@, col, dir))
                    && *final(self) == App { type_stats: final(self).type_stats, ..*old(self) },
                _ => *final(self) == *old(self),
            },
    {
        match self.type_sort {
            Some((col, dir)) => {
                let mut taken: LoadState<Vec<TypeStat>> = LoadState::NotLoaded;
                std::mem::swap(&mut taken, &mut self.type_stats);
                match taken {
                    LoadState::Loaded(ts) => {
                        let keys = type_keys_exec(&ts, col, dir);
                        let p = stable_order_asc(&keys);
                        let ghost before = ts@;
                        let sorted = permute(ts, &keys, &p);
                        assert(stable_order(type_sort_keys(before, col, dir), p@));
                        assert forall|i: int| 0 <= i < sorted@.len() implies (#[trigger] sorted@[i]).counts.wf() by {
                            assert(sorted@[i] == before[p@[i] as int]);
                        }
                        self.type_stats = LoadState::Loaded(sorted);
                    },
                    other => {
                        self.type_stats = other;
                    },
                }
            },
            None => {},
        }
    }
}

/// The message shown when an action needs a loaded workflow.
pub open spec fn no_workflow_text() -> Seq<char> {
    "No workflow loaded"@
}

/// `b` shows `v`, entered from `a`'s view, and otherwise equals `c`
/// (which equals `a` but for the fields the caller changes).
pub open spec fn pushed(a: App, b: App, v: Screen) -> bool {
    &&& b.view_stack@ == a.view_stack@.push(a.view)
    &&& b.view == v
}

/// What `ViewActivities` does: open the activity timeline of the loaded
/// workflow and ask for its history.
pub open spec fn view_activities_spec(a: App, b: App, eff: Seq<Effect>) -> bool {
    match loaded_detail(a) {
        Some(d) => {
            &&& pushed(a, b, Screen::ActivityList)
            &&& b.activities@.len() == 0 && b.child_workflows@.len() == 0
            &&& b == App {
                view: Screen::ActivityList,
                view_stack: b.view_stack,
                activity_events: LoadState::Loading,
                activities: b.activities,
                child_workflows: b.child_workflows,
                activity_table_state: TableState { selected: Some(0usize) },
                expanded_activity: None,
                ..a
            }
            &&& eff.len() == 1
            &&& eff[0] matches Effect::LoadHistory(w, Some(r)) && w@ == d.summary.workflow_id@ && r@ == d.summary.run_id@
        },
        None => {
            &&& b.last_error matches Some(m) && m@ == no_workflow_text()
            &&& b == App { last_error: b.last_error, ..a }
            &&& eff.len() == 0
        },
    }
}

/// What `ViewEventLog` does: open the event log, asking for the history
/// unless it is loaded.
pub open spec fn view_event_log_spec(a: App, b: App, eff: Seq<Effect>) -> bool {
    let c = App { view: Screen::EventLog, view_stack: b.view_stack, event_log_table_state: TableState { selected: Some(0usize) }, ..a };
    &&& pushed(a, b, Screen::EventLog)
    &&& if a.activity_events is Loaded {
        b == c && eff.len() == 0
    } else {
        match loaded_detail(a) {
            Some(d) => {
                &&& b == App { activity_events: LoadState::Loading, ..c }
                &&& eff.len() == 1
                &&& eff[0] matches Effect::LoadHistory(w, Some(r)) && w@ == d.summary.workflow_id@ && r@ == d.summary.run_id@
            },
            None => {
                &&& b.last_error matches Some(m) && m@ == no_workflow_text()
                &&& b == App { last_error: b.last_error, ..c }
                &&& eff.len() == 0
            },
        }
    }
}

/// What `ViewActivityDetail` does: select the data row of the visible row,
/// and open its detail when it exists.
pub open spec fn view_activity_detail_spec(a: App, b: App) -> bool {
    let d = translate(a, row_of(a.activity_table_state));
    let c = App { activity_table_state: TableState { selected: Some(d as usize) }, ..a };
    if 0 <= d < timeline_len(a) {
        &&& pushed(a, b, Screen::ActivityDetail)
        &&& cleared_search(App { view: Screen::ActivityDetail, view_stack: b.view_stack, activity_detail_scroll: 0, ..c }, b)
    } else {
        b == c
    }
}

/// What `ViewInsightDetail` does: open the detail of the selected finding.
pub open spec fn view_insight_detail_spec(a: App, b: App) -> bool {
    match (a.insights, a.insights_table_state.selected) {
        (LoadState::Loaded(r), Some(v)) => {
            let d = translate(a, v as int);
            if 0 <= d < r.findings@.len() {
                &&& pushed(a, b, Screen::InsightDetail)
                &&& cleared_search(App {
                    view: Screen::InsightDetail,
                    view_stack: b.view_stack,
                    insights_table_state: TableState { selected: Some(d as usize) },
                    insight_detail_scroll: 0,
                    insight_entity_index: 0,
                    ..a
                }, b)
            } else {
                b == a
            }
        },
        _ => b == a,
    }
}

/// What `ViewEventDetail` does: open the detail of the selected event.
pub open spec fn view_event_detail_spec(a: App, b: App) -> bool {
    match (a.activity_events, a.event_log_table_state.selected) {
        (LoadState::Loaded(es), Some(v)) => {
            let d = translate(a, v as int);
            if 0 <= d < es@.len() {
                &&& pushed(a, b, Screen::EventDetail)
                &&& cleared_search(App {
                    view: Screen::EventDetail,
                    view_stack: b.view_stack,
                    event_log_table_state: TableState { selected: Some(d as usize) },
                    event_detail_scroll: 0,
                    ..a
                }, b)
            } else {
                b == a
            }
        },
        _ => b == a,
    }
}

/// The number of affected entities of the selected finding, if one is.
pub open spec fn selected_entity_count(a: App) -> Option<nat> {
    match (a.insights, a.insights_table_state.selected) {
        (LoadState::Loaded(r), Some(i)) => if i < r.findings@.len() {
            Some(r.findings@[i as int].affected_entities@.len())
        } else {
            None
        },
        _ => None,
    }
}

impl App {
    /// Handles `ViewActivities`.
    fn view_activities(&mut self) -> (eff: Vec<Effect>)
        ensures
            view_activities_spec(*old(self), *final(self), eff@),
    {
        let mut eff: Vec<Effect> = Vec::new();
        let ids = match &self.selected_workflow {
            Some(LoadState::Loaded(d)) => Some((d.summary.workflow_id.clone(), d.summary.run_id.clone())),
            _ => None,
        };
        match ids {
            Some((w, r)) => {
                let v = self.view;
                self.view_stack.push(v);
                self.view = Screen::ActivityList;
                self.activity_events = LoadState::Loading;
                self.activities = Vec::new();
                self.child_workflows = Vec::new();
                self.activity_table_state.select(Some(0));
                self.expanded_activity = None;
                eff.push(Effect::LoadHistory(w, Some(r)));
            },
            None => {
                self.last_error = Some("No workflow loaded".to_owned());
            },
        }
        eff
    }

    /// Handles `ViewEventLog`.
    fn view_event_log(&mut self) -> (eff: Vec<Effect>)
        ensures
            view_event_log_spec(*old(self), *final(self), eff@),
    {
        let mut eff: Vec<Effect> = Vec::new();
        let v = self.view;
        self.view_stack.push(v);
        self.view = Screen::EventLog;
        self.event_log_table_state.select(Some(0));
        if self.activity_events.is_loaded() {
            return eff;
        }
        let ids = match &self.selected_workflow {
            Some(LoadState::Loaded(d)) => Some((d.summary.workflow_id.clone(), d.summary.run_id.clone())),
            _ => None,
        };
        match ids {
            Some((w, r)) => {
                self.activity_events = LoadState::Loading;
                eff.push(Effect::LoadHistory(w, Some(r)));
            },
            None => {
                self.last_error = Some("No workflow loaded".to_owned());
            },
        }
        eff
    }

    /// Handles `ToggleActivityDetail`: expands the selected timeline row,
    /// or collapses it when it is the expanded one.
    fn toggle_activity_detail(&mut self)
        ensures
            toggle_activity_spec(*old(self), *final(self)),
    {
        let combined = self.timeline_length();
        match self.activity_table_state.selected {
            Some(v) => {
                let d = self.translate_selection(v);
                if d < combined {
                    if self.expanded_activity == Some(d) {
                        self.expanded_activity = None;
                    } else {
                        self.expanded_activity = Some(d);
                    }
                }
            },
            None => {},
        }
    }

    /// Handles `ViewActivityDetail`.
    fn view_activity_detail(&mut self)
        ensures
            view_activity_detail_spec(*old(self), *final(self)),
    {
        let v = match self.activity_table_state.selected {
            Some(i) => i,
            None => 0,
        };
        let d = self.translate_selection(v);
        self.activity_table_state.select(Some(d));
        if d < self.timeline_length() {
            let cur = self.view;
            self.view_stack.push(cur);
            self.view = Screen::ActivityDetail;
            self.activity_detail_scroll = 0;
            self.clear_search_state();
        }
    }

    /// Handles `ViewInsightDetail`.
    fn view_insight_detail(&mut self)
        ensures
            view_insight_detail_spec(*old(self), *final(self)),
    {
        let n = match &self.insights {
            LoadState::Loaded(r) => Some(r.findings.len()),
            _ => None,
        };
        match (n, self.insights_table_state.selected) {
            (Some(n), Some(v)) => {
                let d = self.translate_selection(v);
                if d < n {
                    self.insights_table_state.select(Some(d));
                    let cur = self.view;
                    self.view_stack.push(cur);
                    self.view = Screen::InsightDetail;
                    self.insight_detail_scroll = 0;
                    self.insight_entity_index = 0;
                    self.clear_search_state();
                }
            },
            _ => {},
        }
    }

    /// Handles `ViewEventDetail`.
    fn view_event_detail(&mut self)
        ensures
            view_event_detail_spec(*old(self), *final(self)),
    {
        let n = match &self.activity_events {
            LoadState::Loaded(es) => Some(es.len()),
            _ => None,
        };
        match (n, self.event_log_table_state.selected) {
            (Some(n), Some(v)) => {
                let d = self.translate_selection(v);
                if d < n {
                    self.event_log_table_state.select(Some(d));
                    let cur = self.view;
                    self.view_stack.push(cur);
                    self.view = Screen::EventDetail;
                    self.event_detail_scroll = 0;
                    self.clear_search_state();
                }
            },
            _ => {},
        }
    }

    /// The number of affected entities of the selected finding.
    fn selected_entity_len(&self) -> (r: Option<usize>)
        ensures
            match selected_entity_count(*self) {
                Some(n) => r matches Some(x) && x == n,
                None => r is None,
            },
    {
        match (&self.insights, self.insights_table_state.selected) {
            (LoadState::Loaded(r), Some(i)) => if i < r.findings.len() {
                Some(r.findings[i].affected_entities.len())
            } else {
                None
            },
            _ => None,
        }
    }

    /// Handles `NextAffectedEntity` and `PrevAffectedEntity`: cycles
    /// through the affected entities of the selected finding.
    fn cycle_entity(&mut self, forward: bool)
        ensures
            cycle_entity_spec(*old(self), *final(self), forward),
    {
        match self.selected_entity_len() {
            Some(n) => {
                if n > 0 {
                    if forward {
                        let i = self.insight_entity_index;
                        let next: usize = if i < n - 1 {
                            assert((i + 1) % (n as int) == i + 1) by (nonlinear_arith)
                                requires 0 <= i + 1 < n;
                            i + 1
                        } else if i == n - 1 {
                            assert((i + 1) % (n as int) == 0) by (nonlinear_arith)
                                requires i + 1 == n, n > 0;
                            0
                        } else {
                            let m = i % n;
                            assert((m + 1) % (n as int) == (i + 1) % (n as int)) by (nonlinear_arith)
                                requires m == i % n, n > 0, i >= 0;
                            (m + 1) % n
                        };
                        assert(next as int == (i + 1) % (n as int));
                        self.insight_entity_index = next;
                    } else {
                        self.insight_entity_index = if self.insight_entity_index == 0 { n - 1 } else { self.insight_entity_index - 1 };
                    }
                }
            },
            None => {},
        }
    }
}

/// `b` equals `a` apart from the search fields, whose new values are constrained separately.
pub open spec fn same_but_search(a: App, b: App) -> bool {
    b == App {
        search_input: b.search_input,
        search_query: b.search_query,
        search_match_lines: b.search_match_lines,
        search_current_match: b.search_current_match,
        search_filtered_indices: b.search_filtered_indices,
        ..a
    }
}

/// What `ToggleActivityDetail` does: expand the selected timeline row, or
/// collapse it when it is the expanded one.
pub open spec fn toggle_activity_spec(a: App, b: App) -> bool {
    match a.activity_table_state.selected {
        Some(v) => {
            let d = translate(a, v as int);
            if 0 <= d < timeline_len(a) {
                b == App {
                    expanded_activity: if a.expanded_activity == Some(d as usize) { None } else { Some(d as usize) },
                    ..a
                }
            } else {
                b == a
            }
        },
        None => b == a,
    }
}

/// What `NextAffectedEntity` (forward) and `PrevAffectedEntity` do: move
/// to the next (previous) affected entity of the selected finding, cycling.
pub open spec fn cycle_entity_spec(a: App, b: App, forward: bool) -> bool {
    &&& b == (App { insight_entity_index: b.insight_entity_index, ..a })
    &&& match selected_entity_count(a) {
        Some(n) => if n > 0 {
            b.insight_entity_index == (if forward {
                (a.insight_entity_index + 1) % (n as int)
            } else if a.insight_entity_index == 0 {
                n - 1
            } else {
                a.insight_entity_index - 1
            })
        } else {
            b.insight_entity_index == a.insight_entity_index
        },
        None => b.insight_entity_index == a.insight_entity_index,
    }
}

/// What a quit request at time `now` does: a second request within two
/// seconds quits; otherwise the request is remembered and a hint shown.
pub open spec fn quit_spec(a: App, b: App, now: i64) -> bool {
    match a.last_quit_attempt {
        Some(t) => if seconds_since(now, t) < 2 {
            b == App { should_quit: true, ..a }
        } else {
            b.last_error matches Some(m) && m@ == quit_hint()
                && b == App { last_quit_attempt: Some(now), last_error: b.last_error, ..a }
        },
        None => b.last_error matches Some(m) && m@ == quit_hint()
            && b == App { last_quit_attempt: Some(now), last_error: b.last_error, ..a },
    }
}

/// What `CancelWorkflow` (cancel) and `TerminateWorkflow` do: ask to act
/// on the named workflow, or on the selected one when no id is given.
pub open spec fn command_spec(a: App, id: Seq<char>, cancel: bool, eff: Seq<Effect>) -> bool {
    ({
        let target: Option<Seq<char>> = if id.len() == 0 {
            match selected_wf(a) {
                Some(w) => Some(w.workflow_id@),
                None => None,
            }
        } else {
            Some(id)
        };
        match target {
            Some(t) => eff.len() == 1 && (if cancel {
                eff[0] matches Effect::CancelWorkflow(x) && x@ == t
            } else {
                eff[0] matches Effect::TerminateWorkflow(x) && x@ == t
            }),
            None => eff.len() == 0,
        }
    })
}

/// The lines that the current detail view shows, as its search sees them:
/// the selected activity or child workflow (by the timeline order), the
/// selected event, or the selected finding with its selected entity (no
/// trigger terms); none elsewhere.
pub open spec fn view_lines(a: App, order: Seq<usize>) -> Seq<LineV> {
    match a.view {
        Screen::ActivityDetail => match a.activity_table_state.selected {
            Some(s) => if s < order.len() {
                let k = order[s as int] as int;
                let n = a.activities@.len() as int;
                if k < n { activity_lines_view(a.activities@[k]) } else { child_lines_view(a.child_workflows@[k - n]) }
            } else {
                Seq::empty()
            },
            None => Seq::empty(),
        },
        Screen::EventDetail => match a.activity_events {
            LoadState::Loaded(es) => match a.event_log_table_state.selected {
                Some(i) => if i < es@.len() { event_lines_view(es@[i as int]) } else { Seq::empty() },
                None => Seq::empty(),
            },
            _ => Seq::empty(),
        },
        Screen::InsightDetail => match a.insights {
            LoadState::Loaded(r) => match a.insights_table_state.selected {
                Some(i) => if i < r.findings@.len() {
                    let f = r.findings@[i as int];
                    insight_lines_view(f, if f.affected_entities@.len() == 0 { None } else { Some(a.insight_entity_index) },
                        Seq::empty())
                } else {
                    Seq::empty()
                },
                None => Seq::empty(),
            },
            _ => Seq::empty(),
        },
        _ => Seq::empty(),
    }
}

/// The state after a search of a detail view found the lines `found`: the
/// first match becomes the current one and the view scrolls to it; with no
/// match the current position stays.
pub open spec fn found_spec(n: App, b: App, found: Seq<usize>) -> bool {
    let m = App { search_query: b.search_query, search_match_lines: b.search_match_lines, ..n };
    &&& b.search_match_lines@ == found
    &&& if found.len() > 0 {
        b == with_scroll(App { search_current_match: 0, ..m }, found[0] as u16)
    } else {
        b == m
    }
}

/// What `CloseSearchInput` does: leave the search input; in a detail view,
/// make the typed text the query, find the lines of the view that hold it
/// (ignoring case) and scroll to the first; an empty input clears the
/// search.
pub open spec fn close_search_spec(a: App, b: App) -> bool {
    let n = App { input_mode: InputMode::Normal, ..a };
    if a.search_input@.len() > 0 {
        if is_detail(a.view) {
            &&& b.search_query matches Some(q) && q@ == a.search_input@
            &&& exists|order: Seq<usize>| stable_order(timeline_keys(a), order) && #[trigger] found_spec(n, b,
                matching_lines(view_lines(a, order), lower_of(a.search_input@)))
        } else {
            b == n
        }
    } else {
        cleared_search(n, b)
    }
}

/// After the search text changed to `t`: in a list view the text becomes
/// the query (none when empty), the matching rows are found again and the
/// first row is selected.
pub open spec fn search_edited_spec(a: App, b: App, t: Seq<char>) -> bool {
    &&& b.search_input@ == t
    &&& if is_detail(a.view) {
        b == App { search_input: b.search_input, ..a }
    } else {
        let c = App {
            search_input: b.search_input,
            search_query: b.search_query,
            search_filtered_indices: b.search_filtered_indices,
            ..a
        };
        &&& if t.len() == 0 {
            b.search_query is None && b.search_filtered_indices@.len() == 0
        } else {
            &&& b.search_query matches Some(q) && q@ == t
            &&& exists|order: Seq<usize>| stable_order(timeline_keys(c), order)
                && b.search_filtered_indices@ == #[trigger] list_matches(c, order)
        }
        &&& b == with_current_table(c, TableState { selected: Some(0usize) })
    }
}

/// What `NextSearchMatch` and `PrevSearchMatch` do: in a detail view, move
/// to the next (previous) matching line, cycling, and scroll to it; in a
/// list view, move the selection down (up) one row, cycling.
pub open spec fn search_step_spec(a: App, b: App, forward: bool) -> bool {
    if is_detail(a.view) {
        let n = a.search_match_lines@.len() as int;
        if n > 0 {
            let cur = if forward {
                (a.search_current_match + 1) % n
            } else if a.search_current_match == 0 {
                n - 1
            } else {
                a.search_current_match - 1
            };
            b == with_scroll(App { search_current_match: cur as usize, ..a }, a.search_match_lines@[cur] as u16)
        } else {
            b == a
        }
    } else {
        let n = list_len(a);
        if n > 0 {
            let cur = current_row(a);
            let next = if forward { (cur + 1) % n } else if cur == 0 { n - 1 } else { cur - 1 };
            b == with_current_table(a, TableState { selected: Some(next as usize) })
        } else {
            b == a
        }
    }
}

/// `(i + 1) % n` for `n > 0`.
fn cycle_next(i: usize, n: usize) -> (r: usize)
    requires
        n > 0,
    ensures
        r == (i + 1) % (n as int),
        r < n,
{
    if i < n - 1 {
        assert((i + 1) % (n as int) == i + 1) by (nonlinear_arith)
            requires 0 <= i + 1 < n;
        i + 1
    } else if i == n - 1 {
        assert((i + 1) % (n as int) == 0) by (nonlinear_arith)
            requires i + 1 == n, n > 0;
        0
    } else {
        let m = i % n;
        assert((m + 1) % (n as int) == (i + 1) % (n as int)) by (nonlinear_arith)
            requires m == i % n, n > 0, i >= 0;
        assert((m + 1) % (n as int) < n) by (nonlinear_arith)
            requires n > 0, m >= 0;
        (m + 1) % n
    }
}

impl App {
    /// The lines of the current detail view, as its search sees them.
    fn detail_view_lines(&self, order: &Vec<usize>) -> (r: Vec<Line>)
        requires
            stable_order(timeline_keys(*self), order@),
        ensures
            lines_view(r@) == view_lines(*self, order@),
    {
        match self.view {
            Screen::ActivityDetail => match self.activity_table_state.selected {
                Some(s) => if s < order.len() {
                    let k = order[s];
                    let n = self.activities.len();
                    if k < n { activity_lines(&self.activities[k]) } else { child_lines(&self.child_workflows[k - n]) }
                } else {
                    Vec::new()
                },
                None => Vec::new(),
            },
            Screen::EventDetail => match &self.activity_events {
                LoadState::Loaded(es) => match self.event_log_table_state.selected {
                    Some(i) => if i < es.len() { event_lines(&es[i]) } else { Vec::new() },
                    None => Vec::new(),
                },
                _ => Vec::new(),
            },
            Screen::InsightDetail => match &self.insights {
                LoadState::Loaded(r) => match self.insights_table_state.selected {
                    Some(i) => if i < r.findings.len() {
                        let no_terms: Vec<String> = Vec::new();
                        let l = insight_lines_static(&r.findings[i], self.insight_entity_index, &no_terms);
                        assert(crate::detail_lines::term_texts(no_terms@) =~= Seq::<Seq<char>>::empty());
                        l
                    } else {
                        Vec::new()
                    },
                    None => Vec::new(),
                },
                _ => Vec::new(),
            },
            _ => Vec::new(),
        }
    }

    /// Handles `CloseSearchInput`.
    fn close_search_input(&mut self)
        ensures
            close_search_spec(*old(self), *final(self)),
    {
        self.input_mode = InputMode::Normal;
        if !self.search_input.as_str().is_empty() {
            if self.is_detail_view() {
                let ghost n = *self;
                self.search_query = Some(self.search_input.clone());
                let order = self.timeline_order();
                let lines = self.detail_view_lines(&order);
                let (_, found) = highlight_search_matches(&lines, self.search_input.as_str());
                assert(timeline_keys(*self) == timeline_keys(*old(self)));
                assert(view_lines(*self, order@) == view_lines(*old(self), order@));
                self.search_match_lines = found;
                if self.search_match_lines.len() > 0 {
                    self.search_current_match = 0;
                    let target = self.search_match_lines[0] as u16;
                    self.set_detail_scroll(target);
                }
                assert(found_spec(n, *self, matching_lines(view_lines(*old(self), order@), lower_of(old(self).search_input@))));
            }
        } else {
            self.clear_search_state();
        }
    }

    /// Sets the search text and, in a list view, searches the list again.
    fn search_edited(&mut self, t: String)
        ensures
            search_edited_spec(*old(self), *final(self), t@),
    {
        self.search_input = t;
        if !self.is_detail_view() {
            if self.search_input.as_str().is_empty() {
                self.search_query = None;
                self.search_filtered_indices = Vec::new();
            } else {
                self.search_query = Some(self.search_input.clone());
                let ghost pre = *self;
                let order = self.recompute_list_search();
                let ghost c = App {
                    search_input: self.search_input,
                    search_query: self.search_query,
                    search_filtered_indices: self.search_filtered_indices,
                    ..*old(self)
                };
                assert(timeline_keys(c) == timeline_keys(pre));
                assert(row_texts(c, order@) == row_texts(pre, order@));
                assert(list_matches(c, order@) == list_matches(pre, order@));
                assert(stable_order(timeline_keys(c), order@));
            }
            self.set_current_table(TableState { selected: Some(0) });
        }
    }

    /// Handles `NextSearchMatch` and `PrevSearchMatch`.
    fn search_step(&mut self, forward: bool)
        requires
            old(self).search_match_lines@.len() == 0 || old(self).search_current_match < old(self).search_match_lines@.len(),
        ensures
            search_step_spec(*old(self), *final(self), forward),
    {
        if self.is_detail_view() {
            let n = self.search_match_lines.len();
            if n > 0 {
                let i = self.search_current_match;
                let cur = if forward { cycle_next(i, n) } else if i == 0 { n - 1 } else { i - 1 };
                self.search_current_match = cur;
                let target = self.search_match_lines[cur] as u16;
                self.set_detail_scroll(target);
            }
        } else {
            let n = self.current_list_len();
            if n > 0 {
                let t = self.current_table_state();
                let cur: usize = match t.selected {
                    Some(i) => i,
                    None => 0,
                };
                let next = if forward { cycle_next(cur, n) } else if cur == 0 { n - 1 } else { cur - 1 };
                self.set_current_table(TableState { selected: Some(next) });
            }
        }
    }
}

/// What `CloseFilterInput` does: in the type list, the typed text becomes
/// the type-name filter; elsewhere a non-empty text is read as a query
/// and the workflows are loaded again.
pub open spec fn close_filter_spec(a: App, b: App, eff: Seq<Effect>) -> bool {
    let n = App { input_mode: InputMode::Normal, filter_input: b.filter_input, ..a };
    if a.view == Screen::TypeList {
        &&& b.filter_input@.len() == 0
        &&& if a.filter_input@.len() == 0 {
            b.type_name_filter is None
        } else {
            b.type_name_filter matches Some(t) && t@ == a.filter_input@
        }
        &&& b == App { type_name_filter: b.type_name_filter, type_table_state: TableState { selected: Some(0usize) }, ..n }
        &&& eff.len() == 0
    } else if a.filter_input@.len() > 0 {
        &&& b.filter_input@.len() == 0
        &&& read_from_query(a.filter_input@, b.filter)
        &&& b == App { filter: b.filter, ..n }
        &&& eff == seq![Effect::LoadWorkflows]
    } else {
        b == App { input_mode: InputMode::Normal, ..a } && eff.len() == 0
    }
}

/// What `ToggleColumn` does: show a hidden column, or hide a shown one
/// unless it is the only one shown.
pub open spec fn toggle_column_spec(a: App, b: App, c: TableColumn) -> bool {
    &&& b == App { visible_columns: b.visible_columns, ..a }
    &&& if a.visible_columns@.contains(c) {
        if a.visible_columns@.len() > 1 {
            b.visible_columns@ == without(a.visible_columns@, c)
        } else {
            b.visible_columns@ == a.visible_columns@
        }
    } else {
        b.visible_columns@ == a.visible_columns@.push(c)
    }
}

/// The workflow-list column a sort key names.
pub open spec fn wf_sort_column(key: u8) -> Option<TableColumn> {
    if key == 115 {
        Some(TableColumn::Status)
    } else if key == 116 {
        Some(TableColumn::Type)
    } else if key == 119 {
        Some(TableColumn::WorkflowId)
    } else if key == 100 {
        Some(TableColumn::Started)
    } else {
        None
    }
}

/// The type-list column a sort key names.
pub open spec fn type_sort_column(key: u8) -> Option<TypeListColumn> {
    if key == 116 {
        Some(TypeListColumn::TypeName)
    } else if key == 110 {
        Some(TypeListColumn::Total)
    } else if 49 <= key <= 55 {
        Some(TypeListColumn::StatusCount(all_statuses()[key - 49]))
    } else {
        None
    }
}

/// The sort order chosen by a sort key: the same column again reverses the
/// direction, another column starts with `initial`.
pub open spec fn chosen_sort<C>(current: Option<(C, SortDirection)>, col: C, initial: SortDirection) -> (C, SortDirection) {
    match current {
        Some((c, d)) => if c == col {
            (col, if d == SortDirection::Ascending { SortDirection::Descending } else { SortDirection::Ascending })
        } else {
            (col, initial)
        },
        None => (col, initial),
    }
}

/// What `SortBy` does: leave sort mode and, in the workflow list or the
/// type list, sort by the column the key names (the same column again
/// reverses the direction).
pub open spec fn sort_by_spec(a0: App, b: App, key: u8) -> bool {
    &&& a0.view == Screen::WorkflowList && wf_sort_column(key) is Some ==> {
        let s = chosen_sort(a0.workflow_sort, wf_sort_column(key)->0, SortDirection::Ascending);
        let a = App { input_mode: InputMode::Normal, workflow_sort: Some(s), ..a0 };
        &&& b == App { workflows: b.workflows, ..a }
        &&& match a.workflows {
            LoadState::Loaded(ws) => b.workflows matches LoadState::Loaded(ws2)
                && sorted_by(ws@, ws2@, wf_sort_keys(ws@, s.0, s.1)),
            _ => b.workflows == a.workflows,
        }
    }
    &&& a0.view == Screen::TypeList && type_sort_column(key) is Some ==> {
        let s = chosen_sort(a0.type_sort, type_sort_column(key)->0, SortDirection::Descending);
        let a = App { input_mode: InputMode::Normal, type_sort: Some(s), ..a0 };
        &&& b == App { type_stats: b.type_stats, ..a }
        &&& match a.type_stats {
            LoadState::Loaded(ts) => b.type_stats matches LoadState::Loaded(ts2)
                && sorted_by(ts@, ts2@, type_sort_keys(ts@, s.0, s.1)),
            _ => b.type_stats == a.type_stats,
        }
    }
    &&& !(a0.view == Screen::WorkflowList && wf_sort_column(key) is Some)
        && !(a0.view == Screen::TypeList && type_sort_column(key) is Some)
        ==> b == App { input_mode: InputMode::Normal, ..a0 }
}

/// The columns other than `c`, in order.
pub open spec fn without(cols: Seq<TableColumn>, c: TableColumn) -> Seq<TableColumn> {
    cols.filter(other_than(c))
}

/// The test for a column other than `c`.
pub open spec fn other_than(c: TableColumn) -> spec_fn(TableColumn) -> bool {
    |x: TableColumn| x != c
}

impl App {
    /// Handles `CloseFilterInput`.
    fn close_filter_input(&mut self) -> (eff: Vec<Effect>)
        ensures
            close_filter_spec(*old(self), *final(self), eff@),
    {
        let mut eff: Vec<Effect> = Vec::new();
        self.input_mode = InputMode::Normal;
        if self.view == Screen::TypeList {
            if self.filter_input.as_str().is_empty() {
                self.type_name_filter = None;
            } else {
                self.type_name_filter = Some(self.filter_input.clone());
            }
            self.type_table_state.select(Some(0));
            self.filter_input = String::new();
        } else if !self.filter_input.as_str().is_empty() {
            self.filter = WorkflowFilter::from_query(self.filter_input.as_str());
            self.filter_input = String::new();
            eff.push(Effect::LoadWorkflows);
        }
        eff
    }

    /// Handles `ToggleColumn`.
    fn toggle_column(&mut self, c: TableColumn)
        ensures
            toggle_column_spec(*old(self), *final(self), c),
    {
        let mut found = false;
        let mut i: usize = 0;
        while i < self.visible_columns.len()
            invariant
                i <= self.visible_columns@.len(),
                found == self.visible_columns@.take(i as int).contains(c),
            decreases self.visible_columns.len() - i,
        {
            let ghost pre = self.visible_columns@.take(i as int);
            let ghost nxt = self.visible_columns@.take(i + 1);
            assert(nxt =~= pre.push(self.visible_columns@[i as int]));
            if self.visible_columns[i] == c {
                found = true;
                assert(nxt[i as int] == c);
            }
            assert(found == nxt.contains(c)) by {
                if nxt.contains(c) {
                    let k = choose|k: int| 0 <= k < nxt.len() && nxt[k] == c;
                    if k < i {
                        assert(pre[k] == c);
                    }
                }
                if pre.contains(c) {
                    let k = choose|k: int| 0 <= k < pre.len() && pre[k] == c;
                    assert(nxt[k] == c);
                }
            }
            i = i + 1;
        }
        assert(self.visible_columns@.take(self.visible_columns@.len() as int) =~= self.visible_columns@);
        if found {
            if self.visible_columns.len() > 1 {
                let ghost old_cols = self.visible_columns@;
                let mut kept: Vec<TableColumn> = Vec::new();
                let mut j: usize = 0;
                while j < self.visible_columns.len()
                    invariant
                        old_cols == self.visible_columns@,
                        j <= old_cols.len(),
                        kept@ == without(old_cols.take(j as int), c),
                    decreases self.visible_columns.len() - j,
                {
                    let x = self.visible_columns[j];
                    assert(old_cols.take(j + 1) =~= old_cols.take(j as int).push(x));
                    proof {
                        old_cols.take(j as int).lemma_filter_push(x, other_than(c));
                    }
                    if x != c {
                        kept.push(x);
                    }
                    j = j + 1;
                }
                assert(old_cols.take(old_cols.len() as int) =~= old_cols);
                self.visible_columns = kept;
            }
        } else {
            self.visible_columns.push(c);
        }
    }

    /// Handles `SortBy`: sorts the workflow list or the type list by the
    /// column the key names.
    fn sort_by(&mut self, key: u8)
        requires
            type_stats_ok(old(self).type_stats),
        ensures
            type_stats_ok(final(self).type_stats),
            sort_by_spec(*old(self), *final(self), key),
    {
        self.input_mode = InputMode::Normal;
        if self.view == Screen::WorkflowList {
            let col = if key == 115 {
                Some(TableColumn::Status)
            } else if key == 116 {
                Some(TableColumn::Type)
            } else if key == 119 {
                Some(TableColumn::WorkflowId)
            } else if key == 100 {
                Some(TableColumn::Started)
            } else {
                None
            };
            match col {
                Some(c) => {
                    let dir = match self.workflow_sort {
                        Some((cur, d)) => if cur == c { d.toggle() } else { SortDirection::Ascending },
                        None => SortDirection::Ascending,
                    };
                    self.workflow_sort = Some((c, dir));
                    self.sort_workflows();
                },
                None => {},
            }
        } else if self.view == Screen::TypeList {
            let col = if key == 116 {
                Some(TypeListColumn::TypeName)
            } else if key == 110 {
                Some(TypeListColumn::Total)
            } else if 49 <= key && key <= 55 {
                let statuses = WorkflowStatus::all();
                Some(TypeListColumn::StatusCount(statuses[(key - 49) as usize]))
            } else {
                None
            };
            match col {
                Some(c) => {
                    let dir = match self.type_sort {
                        Some((cur, d)) => if cur == c { d.toggle() } else { SortDirection::Descending },
                        None => SortDirection::Descending,
                    };
                    self.type_sort = Some((c, dir));
                    self.sort_type_stats();
                },
                None => {},
            }
        }
    }
}

/// The effects that reload the current list after a date-range change.
pub open spec fn date_reload(a: App) -> Seq<Effect> {
    if a.view == Screen::TypeList { seq![Effect::LoadTypeStats] } else { seq![Effect::LoadWorkflows] }
}

/// The date-range label of a relative range: its text and ` ago`.
pub open spec fn ago_label(t: Seq<char>) -> Seq<char> {
    t + " ago"@
}

/// The message for date input that cannot be read.
pub open spec fn invalid_date_text(input: Seq<char>) -> Seq<char> {
    "Invalid date input: '"@ + input + "'. Use e.g. 2h, 3d, 1w, or 2024-01-15"@
}

/// What selecting a preset range at time `now` does: workflows started
/// since the preset's length before `now`, labelled, the list reloaded.
pub open spec fn preset_spec(a: App, b: App, p: DateRangePreset, now: i64, eff: Seq<Effect>) -> bool {
    &&& b.active_date_range_label matches Some(l) && l@ == ago_label(preset_short_text(p))
    &&& b == App {
        filter: WorkflowFilter {
            start_time_after: Some((now - preset_seconds(p) * 1000) as i64),
            start_time_before: None,
            ..a.filter
        },
        active_date_range_label: b.active_date_range_label,
        input_mode: InputMode::Normal,
        table_state: TableState { selected: Some(0usize) },
        ..a
    }
    &&& eff == date_reload(a)
}

/// What applying a typed date range at time `now` does.
pub open spec fn custom_range_spec(a: App, b: App, now: i64, eff: Seq<Effect>) -> bool {
    &&& b.date_range_input@.len() == 0
    &&& match date_input_at(a.date_range_input@, now) {
        Some(t) => {
            &&& b.active_date_range_label matches Some(l) && l@ == ago_label(trimmed_text(a.date_range_input@))
            &&& b == App {
                filter: WorkflowFilter { start_time_after: Some(t), start_time_before: None, ..a.filter },
                active_date_range_label: b.active_date_range_label,
                input_mode: InputMode::Normal,
                date_range_input: b.date_range_input,
                table_state: TableState { selected: Some(0usize) },
                ..a
            }
            &&& eff == date_reload(a)
        },
        None => {
            &&& b.last_error matches Some(m) && m@ == invalid_date_text(a.date_range_input@)
            &&& b == App { last_error: b.last_error, input_mode: InputMode::Normal, date_range_input: b.date_range_input, ..a }
            &&& eff.len() == 0
        },
    }
}

/// A history load of the loaded workflow's run.
pub open spec fn history_effect(d: WorkflowDetail, e: Effect) -> bool {
    e matches Effect::LoadHistory(w, Some(r)) && w@ == d.summary.workflow_id@ && r@ == d.summary.run_id@
}

/// `b` is `a` with the activity timeline emptied and its history loading.
pub open spec fn timeline_reloading(a: App, b: App) -> bool {
    &&& b.activities@.len() == 0 && b.child_workflows@.len() == 0
    &&& b == App {
        activity_events: LoadState::Loading,
        activities: b.activities,
        child_workflows: b.child_workflows,
        expanded_activity: None,
        ..a
    }
}

/// What `Refresh` at time `now` does: reload what the current view shows.
pub open spec fn refresh_spec(a0: App, b: App, now: i64, eff: Seq<Effect>) -> bool {
    let a = App { last_refresh: Some(now), ..a0 };
    if a.view == Screen::ActivityList {
        match loaded_detail(a) {
            Some(d) => timeline_reloading(a, b) && eff.len() == 1 && history_effect(d, eff[0]),
            None => b == a && eff.len() == 0,
        }
    } else if a.view == Screen::EventLog {
        match loaded_detail(a) {
            Some(d) => b == App { activity_events: LoadState::Loading, event_log_table_state: TableState { selected: Some(0usize) }, ..a }
                && eff.len() == 1 && history_effect(d, eff[0]),
            None => b == a && eff.len() == 0,
        }
    } else if a.view == Screen::ActivityDetail {
        let c = App {
            view: popped_view(a, Screen::ActivityList),
            view_stack: b.view_stack,
            activity_detail_scroll: 0,
            search_query: None,
            search_match_lines: b.search_match_lines,
            search_current_match: 0,
            ..a
        };
        &&& b.view_stack@ == popped_stack(a)
        &&& b.search_match_lines@.len() == 0
        &&& match loaded_detail(a) {
            Some(d) => timeline_reloading(c, b) && eff.len() == 1 && history_effect(d, eff[0]),
            None => b == c && eff.len() == 0,
        }
    } else if a.view == Screen::EventDetail {
        let c = App {
            view: popped_view(a, Screen::EventLog),
            view_stack: b.view_stack,
            event_detail_scroll: 0,
            search_query: None,
            search_match_lines: b.search_match_lines,
            search_current_match: 0,
            ..a
        };
        &&& b.view_stack@ == popped_stack(a)
        &&& b.search_match_lines@.len() == 0
        &&& match loaded_detail(a) {
            Some(d) => b == App { activity_events: LoadState::Loading, event_log_table_state: TableState { selected: Some(0usize) }, ..c }
                && eff.len() == 1 && history_effect(d, eff[0]),
            None => b == c && eff.len() == 0,
        }
    } else if a.view == Screen::Insights || a.view == Screen::InsightDetail {
        let c = App {
            insights: LoadState::Loading,
            insights_table_state: TableState { selected: Some(0usize) },
            insight_detail_scroll: 0,
            ..a
        };
        &&& if a.view == Screen::InsightDetail {
            b.view_stack@ == popped_stack(a) && b == App { view: popped_view(a, Screen::Insights), view_stack: b.view_stack, ..c }
        } else {
            b == c
        }
        &&& eff == seq![Effect::LoadInsights {
            filter: a.filter,
            limit: if filter_has_date_range(a.filter) { 1000u32 } else { 500u32 },
        }]
    } else {
        let c = App { status_counts: LoadState::Loading, workflows: LoadState::Loading, ..a };
        if a.view == Screen::TypeList {
            b == App { type_stats: LoadState::Loading, ..c } && eff == seq![Effect::LoadCounts, Effect::LoadWorkflows, Effect::LoadTypeStats]
        } else {
            b == c && eff == seq![Effect::LoadCounts, Effect::LoadWorkflows]
        }
    }
}

/// The table state with its selection moved onto the last of `len` rows
/// when it lies beyond them.
pub open spec fn clamped(t: TableState, len: int) -> TableState {
    if row_of(t) >= len && len > 0 { TableState { selected: Some((len - 1) as usize) } } else { t }
}

/// The activities are those the history describes, by scheduling event id.
pub open spec fn activities_of(r: Seq<ActivityExecution>, events: Seq<HistoryEvent>) -> bool {
    &&& forall|j: int, k: int| 0 <= j < k < r.len() ==> r[j].scheduled_event_id < r[k].scheduled_event_id
    &&& forall|k: int| 0 <= k < r.len() ==> activity_from_history(#[trigger] r[k], events)
    &&& forall|i: int| 0 <= i < events.len() && is_scheduled(#[trigger] events[i]) ==> exists|k: int|
        0 <= k < r.len() && r[k].scheduled_event_id == events[i].event_id
}

/// The child workflows are those the history describes, by initiating event id.
pub open spec fn children_of(r: Seq<ChildWorkflowExecution>, events: Seq<HistoryEvent>) -> bool {
    &&& forall|j: int, k: int| 0 <= j < k < r.len() ==> r[j].initiated_event_id < r[k].initiated_event_id
    &&& forall|k: int| 0 <= k < r.len() ==> child_from_history(#[trigger] r[k], events)
    &&& forall|i: int| 0 <= i < events.len() && is_initiated(#[trigger] events[i]) ==> exists|k: int|
        0 <= k < r.len() && r[k].initiated_event_id == events[i].event_id
}

/// What an error report does: show it, and mark what was loading as failed.
pub open spec fn error_spec(a: App, b: App, msg: Seq<char>) -> bool {
    &&& b.last_error matches Some(m) && m@ == msg
    &&& (if a.status_counts is Loading { b.status_counts matches LoadState::Error(m) && m@ == msg } else { b.status_counts == a.status_counts })
    &&& (if a.workflows is Loading { b.workflows matches LoadState::Error(m) && m@ == msg } else { b.workflows == a.workflows })
    &&& (if a.selected_workflow == Some(LoadState::<WorkflowDetail>::Loading) {
        b.selected_workflow matches Some(LoadState::Error(m)) && m@ == msg
    } else {
        b.selected_workflow == a.selected_workflow
    })
    &&& (if a.activity_events is Loading { b.activity_events matches LoadState::Error(m) && m@ == msg } else { b.activity_events == a.activity_events })
    &&& (if a.insights is Loading { b.insights matches LoadState::Error(m) && m@ == msg } else { b.insights == a.insights })
    &&& b == App {
        last_error: b.last_error,
        status_counts: b.status_counts,
        workflows: b.workflows,
        selected_workflow: b.selected_workflow,
        activity_events: b.activity_events,
        insights: b.insights,
        ..a
    }
}

impl App {
    /// Handles `SelectDateRangePreset` at time `now`.
    fn select_preset(&mut self, p: DateRangePreset, now: i64) -> (eff: Vec<Effect>)
        requires
            time_ok(now),
        ensures
            preset_spec(*old(self), *final(self), p, now, eff@),
    {
        let secs = p.duration_secs();
        self.filter.start_time_after = Some(now - secs * 1000);
        self.filter.start_time_before = None;
        let mut label: Vec<char> = chars_of(p.short_label());
        push_str(&mut label, " ago");
        self.active_date_range_label = Some(string_of(&label));
        self.input_mode = InputMode::Normal;
        self.table_state.select(Some(0));
        self.date_range_reload_effects()
    }

    /// The effects that reload the current list after a date-range change.
    fn date_range_reload_effects(&self) -> (eff: Vec<Effect>)
        ensures
            eff@ == date_reload(*self),
    {
        let mut eff: Vec<Effect> = Vec::new();
        if self.view == Screen::TypeList {
            eff.push(Effect::LoadTypeStats);
        } else {
            eff.push(Effect::LoadWorkflows);
        }
        assert(eff@ =~= date_reload(*self));
        eff
    }

    /// Handles `ApplyCustomDateRange` at time `now`.
    fn apply_custom_range(&mut self, now: i64) -> (eff: Vec<Effect>)
        requires
            time_ok(now),
        ensures
            custom_range_spec(*old(self), *final(self), now, eff@),
    {
        let input = self.date_range_input.clone();
        match parse_date_input_at(input.as_str(), now) {
            Some(t) => {
                self.filter.start_time_after = Some(t);
                self.filter.start_time_before = None;
                let trimmed = trim(input.as_str());
                let mut label: Vec<char> = chars_of(trimmed.as_str());
                push_str(&mut label, " ago");
                self.active_date_range_label = Some(string_of(&label));
                self.input_mode = InputMode::Normal;
                self.date_range_input = String::new();
                self.table_state.select(Some(0));
                self.date_range_reload_effects()
            },
            None => {
                let mut m: Vec<char> = Vec::new();
                push_str(&mut m, "Invalid date input: '");
                push_str(&mut m, input.as_str());
                push_str(&mut m, "'. Use e.g. 2h, 3d, 1w, or 2024-01-15");
                assert(m@ =~= invalid_date_text(input@));
                self.last_error = Some(string_of(&m));
                self.input_mode = InputMode::Normal;
                self.date_range_input = String::new();
                Vec::new()
            },
        }
    }

    /// The workflow id and run id of the loaded workflow.
    fn loaded_ids(&self) -> (r: Option<(String, String)>)
        ensures
            match loaded_detail(*self) {
                Some(d) => r matches Some(p) && p.0@ == d.summary.workflow_id@ && p.1@ == d.summary.run_id@,
                None => r is None,
            },
    {
        match &self.selected_workflow {
            Some(LoadState::Loaded(d)) => Some((d.summary.workflow_id.clone(), d.summary.run_id.clone())),
            _ => None,
        }
    }

    /// Empties the activity timeline and marks its history as loading.
    fn reload_timeline(&mut self)
        ensures
            timeline_reloading(*old(self), *final(self)),
    {
        self.activity_events = LoadState::Loading;
        self.activities = Vec::new();
        self.child_workflows = Vec::new();
        self.expanded_activity = None;
    }

    /// Handles `Refresh` at time `now`.
    fn refresh(&mut self, now: i64) -> (eff: Vec<Effect>)
        ensures
            refresh_spec(*old(self), *final(self), now, eff@),
    {
        self.last_refresh = Some(now);
        let mut eff: Vec<Effect> = Vec::new();
        if self.view == Screen::ActivityList {
            match self.loaded_ids() {
                Some((w, r)) => {
                    self.reload_timeline();
                    eff.push(Effect::LoadHistory(w, Some(r)));
                },
                None => {},
            }
            return eff;
        }
        if self.view == Screen::EventLog {
            match self.loaded_ids() {
                Some((w, r)) => {
                    self.activity_events = LoadState::Loading;
                    self.event_log_table_state.select(Some(0));
                    eff.push(Effect::LoadHistory(w, Some(r)));
                },
                None => {},
            }
            return eff;
        }
        if self.view == Screen::ActivityDetail {
            let ids = self.loaded_ids();
            self.pop_view(Screen::ActivityList);
            self.activity_detail_scroll = 0;
            self.search_query = None;
            self.search_match_lines = Vec::new();
            self.search_current_match = 0;
            match ids {
                Some((w, r)) => {
                    self.reload_timeline();
                    eff.push(Effect::LoadHistory(w, Some(r)));
                },
                None => {},
            }
            return eff;
        }
        if self.view == Screen::EventDetail {
            let ids = self.loaded_ids();
            self.pop_view(Screen::EventLog);
            self.event_detail_scroll = 0;
            self.search_query = None;
            self.search_match_lines = Vec::new();
            self.search_current_match = 0;
            match ids {
                Some((w, r)) => {
                    self.activity_events = LoadState::Loading;
                    self.event_log_table_state.select(Some(0));
                    eff.push(Effect::LoadHistory(w, Some(r)));
                },
                None => {},
            }
            return eff;
        }
        if self.view == Screen::Insights || self.view == Screen::InsightDetail {
            self.insights = LoadState::Loading;
            self.insights_table_state.select(Some(0));
            self.insight_detail_scroll = 0;
            if self.view == Screen::InsightDetail {
                self.pop_view(Screen::Insights);
            }
            let e = self.load_insights_effect();
            eff.push(e);
            assert(eff@ =~= seq![e]);
            return eff;
        }
        self.status_counts = LoadState::Loading;
        self.workflows = LoadState::Loading;
        eff.push(Effect::LoadCounts);
        eff.push(Effect::LoadWorkflows);
        if self.view == Screen::TypeList {
            self.type_stats = LoadState::Loading;
            eff.push(Effect::LoadTypeStats);
            assert(eff@ =~= seq![Effect::LoadCounts, Effect::LoadWorkflows, Effect::LoadTypeStats]);
        } else {
            assert(eff@ =~= seq![Effect::LoadCounts, Effect::LoadWorkflows]);
        }
        eff
    }

    /// Handles `CancelWorkflow` and `TerminateWorkflow`: the named workflow,
    /// or the selected one when no id is given.
    fn workflow_command(&self, id: String, cancel: bool) -> (eff: Vec<Effect>)
        ensures
            command_spec(*self, id@, cancel, eff@),
    {
        let mut eff: Vec<Effect> = Vec::new();
        let target = if id.as_str().is_empty() {
            match self.selected_workflow_id() {
                Some(s) => Some(s.to_owned()),
                None => None,
            }
        } else {
            Some(id)
        };
        match target {
            Some(t) => {
                if cancel {
                    eff.push(Effect::CancelWorkflow(t));
                } else {
                    eff.push(Effect::TerminateWorkflow(t));
                }
            },
            None => {},
        }
        eff
    }

    /// Handles an error report.
    fn report_error(&mut self, msg: String)
        ensures
            error_spec(*old(self), *final(self), msg@),
    {
        self.last_error = Some(msg.clone());
        if self.status_counts.is_loading() {
            self.status_counts = LoadState::Error(msg.clone());
        }
        if self.workflows.is_loading() {
            self.workflows = LoadState::Error(msg.clone());
        }
        let detail_loading = match &self.selected_workflow {
            Some(LoadState::Loading) => true,
            _ => false,
        };
        if detail_loading {
            self.selected_workflow = Some(LoadState::Error(msg.clone()));
        }
        if self.activity_events.is_loading() {
            self.activity_events = LoadState::Error(msg.clone());
        }
        if self.insights.is_loading() {
            self.insights = LoadState::Error(msg);
        }
    }
}

/// The loaded rows `b` hold `given` reordered by the sort order `sort`
/// (unchanged without one).
pub open spec fn wf_rows(sort: Option<(TableColumn, SortDirection)>, given: Seq<WorkflowSummary>, b: LoadState<Vec<WorkflowSummary>>) -> bool {
    b matches LoadState::Loaded(ws2) && match sort {
        Some((col, dir)) => sorted_by(given, ws2@, wf_sort_keys(given, col, dir)),
        None => ws2@ == given,
    }
}

/// The loaded type rows `b` hold `given` reordered by the sort order `sort`.
pub open spec fn type_rows(sort: Option<(TypeListColumn, SortDirection)>, given: Seq<TypeStat>, b: LoadState<Vec<TypeStat>>) -> bool {
    b matches LoadState::Loaded(ts2) && match sort {
        Some((col, dir)) => sorted_by(given, ts2@, type_sort_keys(given, col, dir)),
        None => ts2@ == given,
    }
}

/// What loaded data does to the state.
pub open spec fn data_loaded_spec(a: App, b: App, p: DataPayload) -> bool {
    match p {
        DataPayload::Counts(c) => b == App { status_counts: LoadState::Loaded(c), ..a },
        DataPayload::Workflows(wfs) => {
            &&& if a.status_counts is Loaded {
                b.status_counts == a.status_counts
            } else {
                b.status_counts matches LoadState::Loaded(sc) && sc.wf()
                    && forall|s: WorkflowStatus| #[trigger] sc.count_of(s) == count_status(wfs@, s)
            }
            &&& wf_rows(a.workflow_sort, wfs@, b.workflows)
            &&& b == App {
                status_counts: b.status_counts,
                workflows: b.workflows,
                table_state: clamped(a.table_state, wfs@.len() as int),
                ..a
            }
        },
        DataPayload::Detail(d) => b == App { selected_workflow: Some(LoadState::Loaded(*d)), ..a },
        DataPayload::TypeStats(ts) => {
            &&& type_rows(a.type_sort, ts@, b.type_stats)
            &&& b == App { type_stats: b.type_stats, type_table_state: clamped(a.type_table_state, ts@.len() as int), ..a }
        },
        DataPayload::History(evs) => {
            let n = b.activities@.len() + b.child_workflows@.len();
            &&& activities_of(b.activities@, evs@)
            &&& children_of(b.child_workflows@, evs@)
            &&& b == App {
                activities: b.activities,
                child_workflows: b.child_workflows,
                activity_events: LoadState::Loaded(evs),
                activity_table_state: clamped(a.activity_table_state, timeline_len(b)),
                event_log_table_state: clamped(a.event_log_table_state, evs@.len() as int),
                ..a
            }
        },
        DataPayload::Insights(r) => b == App {
            insights: LoadState::Loaded(r),
            insights_table_state: clamped(a.insights_table_state, r.findings@.len() as int),
            ..a
        },
    }
}

/// The selection moved onto the last of `len` rows when beyond them.
fn clamp(t: TableState, len: usize) -> (r: TableState)
    ensures
        r == clamped(t, len as int),
{
    let row = match t.selected {
        Some(i) => i,
        None => 0,
    };
    if row >= len && len > 0 { TableState { selected: Some(len - 1) } } else { t }
}

/// Payloads that the state can take: histories with times in range, and
/// type rows with consistent counts.
pub open spec fn payload_ok(p: DataPayload) -> bool {
    match p {
        DataPayload::History(evs) => events_time_ok(evs@),
        DataPayload::TypeStats(ts) => forall|i: int| 0 <= i < ts@.len() ==> (#[trigger] ts@[i]).counts.wf(),
        _ => true,
    }
}

impl App {
    /// Takes in loaded data.
    fn data_loaded(&mut self, p: DataPayload)
        requires
            payload_ok(p),
            type_stats_ok(old(self).type_stats),
        ensures
            data_loaded_spec(*old(self), *final(self), p),
            type_stats_ok(final(self).type_stats),
    {
        match p {
            DataPayload::Counts(c) => {
                self.status_counts = LoadState::Loaded(c);
            },
            DataPayload::Workflows(wfs) => {
                let n = wfs.len();
                if !self.status_counts.is_loaded() {
                    let counts = StatusCounts::from_workflows(wfs.as_slice());
                    self.status_counts = LoadState::Loaded(counts);
                }
                let ghost given = wfs@;
                self.workflows = LoadState::Loaded(wfs);
                self.sort_workflows();
                self.table_state = clamp(self.table_state, n);
            },
            DataPayload::Detail(d) => {
                self.selected_workflow = Some(LoadState::Loaded(*d));
            },
            DataPayload::TypeStats(ts) => {
                let n = ts.len();
                self.type_stats = LoadState::Loaded(ts);
                self.sort_type_stats();
                self.type_table_state = clamp(self.type_table_state, n);
            },
            DataPayload::History(evs) => {
                self.activities = correlate_activities(evs.as_slice());
                self.child_workflows = correlate_child_workflows(evs.as_slice());
                let n = evs.len();
                self.activity_events = LoadState::Loaded(evs);
                let combined = self.timeline_length();
                self.activity_table_state = clamp(self.activity_table_state, combined);
                self.event_log_table_state = clamp(self.event_log_table_state, n);
            },
            DataPayload::Insights(r) => {
                let n = r.findings.len();
                self.insights = LoadState::Loaded(r);
                self.insights_table_state = clamp(self.insights_table_state, n);
            },
        }
    }
}

/// The state is consistent: type rows have consistent counts, a current
/// search match lies among the matches, and at least one column is shown,
/// none twice.
pub open spec fn app_wf(a: App) -> bool {
    &&& type_stats_ok(a.type_stats)
    &&& a.search_match_lines@.len() == 0 || a.search_current_match < a.search_match_lines@.len()
    &&& a.visible_columns@.len() > 0
    &&& a.visible_columns@.no_duplicates()
}

/// What an action does to the state, and the effects it asks for, at time
/// `now`.
pub open spec fn transition(a0: App, b: App, act: Action, now: i64, eff: Seq<Effect>) -> bool {
    step_spec(prelude(a0, act), b, act, now, eff)
}

/// Which of four groups an action belongs to: moving between views (0),
/// searching and filtering (1), sorting, date ranges and commands (2), and
/// data and errors (3).
pub open spec fn group(act: Action) -> int {
    match act {
        Action::NavigateUp | Action::NavigateDown | Action::NavigateTop | Action::NavigateBottom
        | Action::PageUp | Action::PageDown | Action::ViewDetail | Action::ViewTypeList
        | Action::ViewActivities | Action::GoBack | Action::ToggleActivityDetail
        | Action::ViewActivityDetail | Action::ViewInsights | Action::ViewInsightDetail
        | Action::NextAffectedEntity | Action::PrevAffectedEntity | Action::ViewEventLog
        | Action::ViewEventDetail => 0,
        Action::OpenSearchInput | Action::CloseSearchInput | Action::AppendSearchChar(_)
        | Action::DeleteSearchChar | Action::NextSearchMatch | Action::PrevSearchMatch
        | Action::ClearSearch | Action::SetStatusFilter(_) | Action::SetTypeFilter(_)
        | Action::NextStatusFilter | Action::PrevStatusFilter | Action::ClearFilters
        | Action::OpenFilterInput | Action::CloseFilterInput | Action::AppendFilterChar(_)
        | Action::DeleteFilterChar | Action::ToggleColumn(_) => 1,
        Action::DataLoaded(_) | Action::Error(_) => 3,
        _ => 2,
    }
}

/// What an action does to a state whose error message and chord mode have
/// already been handled, and the effects it asks for.
pub open spec fn step_spec(a: App, b: App, act: Action, now: i64, eff: Seq<Effect>) -> bool {
    let none = eff.len() == 0;
    match act {
        Action::NavigateUp | Action::NavigateDown | Action::NavigateTop | Action::NavigateBottom
        | Action::PageUp | Action::PageDown => b == navigated(a, act) && none,
        Action::ViewDetail => view_detail_spec(a, b, eff),
        Action::ViewTypeList => {
            &&& pushed(a, b, Screen::TypeList)
            &&& b == App {
                view: Screen::TypeList,
                view_stack: b.view_stack,
                type_stats: LoadState::Loading,
                type_table_state: TableState { selected: Some(0usize) },
                ..a
            }
            &&& eff == seq![Effect::LoadTypeStats]
        },
        Action::ViewActivities => view_activities_spec(a, b, eff),
        Action::GoBack => go_back_spec(a, b) && none,
        Action::ToggleActivityDetail => toggle_activity_spec(a, b) && none,
        Action::ViewActivityDetail => view_activity_detail_spec(a, b) && none,
        Action::ViewInsights => {
            &&& pushed(a, b, Screen::Insights)
            &&& b == App {
                view: Screen::Insights,
                view_stack: b.view_stack,
                insights: LoadState::Loading,
                insights_table_state: TableState { selected: Some(0usize) },
                ..a
            }
            &&& eff == seq![Effect::LoadInsights {
                filter: a.filter,
                limit: if filter_has_date_range(a.filter) { 1000u32 } else { 500u32 },
            }]
        },
        Action::ViewInsightDetail => view_insight_detail_spec(a, b) && none,
        Action::NextAffectedEntity => cycle_entity_spec(a, b, true) && none,
        Action::PrevAffectedEntity => cycle_entity_spec(a, b, false) && none,
        Action::ViewEventLog => view_event_log_spec(a, b, eff),
        Action::ViewEventDetail => view_event_detail_spec(a, b) && none,
        Action::OpenSearchInput => b.search_input@.len() == 0
            && b == App { input_mode: InputMode::SearchInput, search_input: b.search_input, ..a } && none,
        Action::CloseSearchInput => close_search_spec(a, b) && none,
        Action::AppendSearchChar(c) => search_edited_spec(a, b, a.search_input@.push(c)) && none,
        Action::DeleteSearchChar => search_edited_spec(a, b, dropped_last(a.search_input@)) && none,
        Action::NextSearchMatch => search_step_spec(a, b, true) && none,
        Action::PrevSearchMatch => search_step_spec(a, b, false) && none,
        Action::ClearSearch => b.search_match_lines@.len() == 0
            && b == App { search_query: None, search_match_lines: b.search_match_lines, search_current_match: 0, ..a } && none,
        Action::SetStatusFilter(st) => b == App {
            filter: WorkflowFilter { status: st, ..a.filter },
            table_state: TableState { selected: Some(0usize) },
            ..a
        } && eff == seq![Effect::LoadWorkflows],
        Action::SetTypeFilter(t) => b == App {
            filter: WorkflowFilter { workflow_type: t, ..a.filter },
            table_state: TableState { selected: Some(0usize) },
            ..a
        } && eff == seq![Effect::LoadWorkflows],
        Action::NextStatusFilter => b == App {
            filter: WorkflowFilter { status: Some(next_status(a.filter.status)), ..a.filter },
            table_state: TableState { selected: Some(0usize) },
            ..a
        } && eff == seq![Effect::LoadWorkflows],
        Action::PrevStatusFilter => b == App {
            filter: WorkflowFilter { status: Some(prev_status(a.filter.status)), ..a.filter },
            table_state: TableState { selected: Some(0usize) },
            ..a
        } && eff == seq![Effect::LoadWorkflows],
        Action::ClearFilters => filter_is_empty(b.filter) && b == App {
            filter: b.filter,
            active_date_range_label: None,
            type_name_filter: None,
            table_state: TableState { selected: Some(0usize) },
            ..a
        } && eff == seq![Effect::LoadWorkflows],
        Action::OpenFilterInput => b.filter_input@.len() == 0
            && b == App { input_mode: InputMode::FilterInput, filter_input: b.filter_input, ..a } && none,
        Action::CloseFilterInput => close_filter_spec(a, b, eff),
        Action::AppendFilterChar(c) => b.filter_input@ == a.filter_input@.push(c)
            && b == App { filter_input: b.filter_input, ..a } && none,
        Action::DeleteFilterChar => b.filter_input@ == dropped_last(a.filter_input@)
            && b == App { filter_input: b.filter_input, ..a } && none,
        Action::ToggleColumn(c) => toggle_column_spec(a, b, c) && none,
        Action::EnterSortMode => b == App { input_mode: InputMode::SortSelect, ..a } && none,
        Action::CloseSort => b == App { input_mode: InputMode::Normal, ..a } && none,
        Action::SortBy(k) => sort_by_spec(a, b, k) && none,
        Action::EnterDateRangeMode => b == App { input_mode: InputMode::DateRangeSelect, ..a } && none,
        Action::SelectDateRangePreset(p) => preset_spec(a, b, p, now, eff),
        Action::ClearDateRange => b == App {
            filter: WorkflowFilter {
                start_time_after: None,
                start_time_before: None,
                close_time_after: None,
                close_time_before: None,
                ..a.filter
            },
            active_date_range_label: None,
            input_mode: InputMode::Normal,
            table_state: TableState { selected: Some(0usize) },
            ..a
        } && eff == date_reload(a),
        Action::EnterCustomDateInput => b.date_range_input@.len() == 0
            && b == App { input_mode: InputMode::DateRangeCustom, date_range_input: b.date_range_input, ..a } && none,
        Action::CloseDateRangeMode => b == App { input_mode: InputMode::Normal, ..a } && none,
        Action::AppendDateRangeChar(c) => b.date_range_input@ == a.date_range_input@.push(c)
            && b == App { date_range_input: b.date_range_input, ..a } && none,
        Action::DeleteDateRangeChar => b.date_range_input@ == dropped_last(a.date_range_input@)
            && b == App { date_range_input: b.date_range_input, ..a } && none,
        Action::ApplyCustomDateRange => custom_range_spec(a, b, now, eff),
        Action::CancelCustomDateRange => b.date_range_input@.len() == 0
            && b == App { input_mode: InputMode::Normal, date_range_input: b.date_range_input, ..a } && none,
        Action::CopyWorkflowUrl | Action::OpenWorkflowUrl => match workflow_url_text(a) {
            Some(u) => b == a && eff.len() == 1 && (if act is CopyWorkflowUrl {
                eff[0] matches Effect::CopyToClipboard(x) && x@ == u
            } else {
                eff[0] matches Effect::OpenInBrowser(x) && x@ == u
            }),
            None => b.last_error matches Some(m) && m@ == no_workflow_text()
                && b == App { last_error: b.last_error, ..a } && none,
        },
        Action::EnterPendingG => b == App { input_mode: InputMode::PendingG, ..a } && none,
        Action::CancelPendingG => b == App { input_mode: InputMode::Normal, ..a } && none,
        Action::Refresh => refresh_spec(a, b, now, eff),
        Action::CancelWorkflow(id) => b == a && command_spec(a, id@, true, eff),
        Action::TerminateWorkflow(id) => b == a && command_spec(a, id@, false, eff),
        Action::Quit => quit_spec(a, b, now) && none,
        Action::ToggleHelp => b == App { show_help: !a.show_help, ..a } && none,
        Action::Tick => b == a && none,
        Action::DataLoaded(p) => data_loaded_spec(a, b, p) && none,
        Action::Error(m) => error_spec(a, b, m@) && none,
    }
}

/// Actions the state can take: loaded data it can take in.
pub open spec fn action_ok(act: Action) -> bool {
    match act {
        Action::DataLoaded(p) => payload_ok(p),
        _ => true,
    }
}

/// Filtering keeps a sequence free of duplicates.
pub(crate) proof fn lemma_filter_no_duplicates(s: Seq<TableColumn>, p: spec_fn(TableColumn) -> bool)
    requires
        s.no_duplicates(),
    ensures
        s.filter(p).no_duplicates(),
    decreases s.len(),
{
    reveal(Seq::filter);
    if s.len() > 0 {
        let d = s.drop_last();
        assert(d.no_duplicates());
        lemma_filter_no_duplicates(d, p);
        if p(s.last()) {
            let f = d.filter(p);
            assert(!f.contains(s.last())) by {
                if f.contains(s.last()) {
                    d.lemma_filter_contains_rev(p, s.last());
                    let k = choose|k: int| 0 <= k < d.len() && d[k] == s.last();
                    assert(s[k] == s[s.len() - 1]);
                }
            }
            assert(s.filter(p) == f.push(s.last()));
        }
    }
}

impl App {
    /// Handles an action of group 0.
    #[verifier::rlimit(50)]
    #[verifier::spinoff_prover]
    fn step_group0(&mut self, action: Action, now: i64) -> (eff: Vec<Effect>)
        requires
            app_wf(*old(self)),
            time_ok(now),
            action_ok(action),
            group(action) == 0,
        ensures
            app_wf(*final(self)),
            step_spec(*old(self), *final(self), action, now, eff@),
    {
        let ghost old_cols = self.visible_columns@;
        let mut eff: Vec<Effect> = Vec::new();
        match action {
            Action::NavigateUp => self.navigate(&Action::NavigateUp),
            Action::NavigateDown => self.navigate(&Action::NavigateDown),
            Action::NavigateTop => self.navigate(&Action::NavigateTop),
            Action::NavigateBottom => self.navigate(&Action::NavigateBottom),
            Action::PageUp => self.navigate(&Action::PageUp),
            Action::PageDown => self.navigate(&Action::PageDown),
            Action::ViewDetail => eff = self.view_detail(),
            Action::ViewTypeList => {
                let v = self.view;
                self.view_stack.push(v);
                self.view = Screen::TypeList;
                self.type_stats = LoadState::Loading;
                self.type_table_state.select(Some(0));
                eff.push(Effect::LoadTypeStats);
            },
            Action::ViewActivities => eff = self.view_activities(),
            Action::GoBack => self.go_back(),
            Action::ToggleActivityDetail => self.toggle_activity_detail(),
            Action::ViewActivityDetail => self.view_activity_detail(),
            Action::ViewInsights => {
                let v = self.view;
                self.view_stack.push(v);
                self.view = Screen::Insights;
                self.insights = LoadState::Loading;
                self.insights_table_state.select(Some(0));
                let e = self.load_insights_effect();
                eff.push(e);
            },
            Action::ViewInsightDetail => self.view_insight_detail(),
            Action::NextAffectedEntity => self.cycle_entity(true),
            Action::PrevAffectedEntity => self.cycle_entity(false),
            Action::ViewEventLog => eff = self.view_event_log(),
            Action::ViewEventDetail => self.view_event_detail(),
            _ => {},
        }
        eff
    }

    /// Handles an action of group 1.
    #[verifier::rlimit(50)]
    #[verifier::spinoff_prover]
    fn step_group1(&mut self, action: Action, now: i64) -> (eff: Vec<Effect>)
        requires
            app_wf(*old(self)),
            time_ok(now),
            action_ok(action),
            group(action) == 1,
        ensures
            app_wf(*final(self)),
            step_spec(*old(self), *final(self), action, now, eff@),
    {
        let ghost old_cols = self.visible_columns@;
        let mut eff: Vec<Effect> = Vec::new();
        match action {
            Action::OpenSearchInput => {
                self.input_mode = InputMode::SearchInput;
                self.search_input = String::new();
            },
            Action::CloseSearchInput => self.close_search_input(),
            Action::AppendSearchChar(c) => {
                let t = push_char(&self.search_input, c);
                self.search_edited(t);
            },
            Action::DeleteSearchChar => {
                let t = pop_char(&self.search_input);
                self.search_edited(t);
            },
            Action::NextSearchMatch => self.search_step(true),
            Action::PrevSearchMatch => self.search_step(false),
            Action::ClearSearch => {
                self.search_query = None;
                self.search_match_lines = Vec::new();
                self.search_current_match = 0;
            },
            Action::SetStatusFilter(st) => {
                self.filter.status = st;
                self.table_state.select(Some(0));
                eff.push(Effect::LoadWorkflows);
            },
            Action::SetTypeFilter(t) => {
                self.filter.workflow_type = t;
                self.table_state.select(Some(0));
                eff.push(Effect::LoadWorkflows);
            },
            Action::NextStatusFilter => {
                let statuses = WorkflowStatus::all();
                let next = match self.filter.status {
                    None => statuses[0],
                    Some(cur) => statuses[cycle_next(cur.index(), statuses.len())],
                };
                self.filter.status = Some(next);
                self.table_state.select(Some(0));
                eff.push(Effect::LoadWorkflows);
            },
            Action::PrevStatusFilter => {
                let statuses = WorkflowStatus::all();
                let n = statuses.len();
                let prev = match self.filter.status {
                    None => statuses[n - 1],
                    Some(cur) => {
                        let i = cur.index();
                        if i == 0 { statuses[n - 1] } else { statuses[i - 1] }
                    },
                };
                self.filter.status = Some(prev);
                self.table_state.select(Some(0));
                eff.push(Effect::LoadWorkflows);
            },
            Action::ClearFilters => {
                self.filter = WorkflowFilter::new();
                self.active_date_range_label = None;
                self.type_name_filter = None;
                self.table_state.select(Some(0));
                eff.push(Effect::LoadWorkflows);
            },
            Action::OpenFilterInput => {
                self.input_mode = InputMode::FilterInput;
                self.filter_input = String::new();
            },
            Action::CloseFilterInput => eff = self.close_filter_input(),
            Action::AppendFilterChar(c) => {
                self.filter_input = push_char(&self.filter_input, c);
            },
            Action::DeleteFilterChar => {
                self.filter_input = pop_char(&self.filter_input);
            },
            Action::ToggleColumn(c) => {
                self.toggle_column(c);
                proof {
                    if old_cols.contains(c) && old_cols.len() > 1 {
                        lemma_filter_no_duplicates(old_cols, other_than(c));
                        let k = choose|k: int| 0 <= k < old_cols.len() && old_cols[k] == c;
                        let j: int = if k == 0 { 1 } else { 0 };
                        assert(old_cols[j] != c);
                        old_cols.lemma_filter_contains(other_than(c), j);
                    }
                    if !old_cols.contains(c) {
                        assert(old_cols.push(c).no_duplicates()) by {
                            assert forall|x: int, y: int| 0 <= x < y < old_cols.push(c).len()
                                implies old_cols.push(c)[x] != old_cols.push(c)[y] by {
                                if y == old_cols.len() {
                                    assert(old_cols[x] == old_cols.push(c)[x]);
                                }
                            }
                        }
                    }
                }
            },
            _ => {},
        }
        eff
    }

    /// Handles an action of group 2.
    #[verifier::rlimit(50)]
    #[verifier::spinoff_prover]
    fn step_group2(&mut self, action: Action, now: i64) -> (eff: Vec<Effect>)
        requires
            app_wf(*old(self)),
            time_ok(now),
            action_ok(action),
            group(action) == 2,
        ensures
            app_wf(*final(self)),
            step_spec(*old(self), *final(self), action, now, eff@),
    {
        let ghost old_cols = self.visible_columns@;
        let mut eff: Vec<Effect> = Vec::new();
        match action {
            Action::EnterSortMode => self.input_mode = InputMode::SortSelect,
            Action::CloseSort => self.input_mode = InputMode::Normal,
            Action::SortBy(k) => self.sort_by(k),
            Action::EnterDateRangeMode => self.input_mode = InputMode::DateRangeSelect,
            Action::SelectDateRangePreset(p) => eff = self.select_preset(p, now),
            Action::ClearDateRange => {
                self.filter.start_time_after = None;
                self.filter.start_time_before = None;
                self.filter.close_time_after = None;
                self.filter.close_time_before = None;
                self.active_date_range_label = None;
                self.input_mode = InputMode::Normal;
                self.table_state.select(Some(0));
                eff = self.date_range_reload_effects();
            },
            Action::EnterCustomDateInput => {
                self.input_mode = InputMode::DateRangeCustom;
                self.date_range_input = String::new();
            },
            Action::CloseDateRangeMode => self.input_mode = InputMode::Normal,
            Action::AppendDateRangeChar(c) => {
                self.date_range_input = push_char(&self.date_range_input, c);
            },
            Action::DeleteDateRangeChar => {
                self.date_range_input = pop_char(&self.date_range_input);
            },
            Action::ApplyCustomDateRange => eff = self.apply_custom_range(now),
            Action::CancelCustomDateRange => {
                self.input_mode = InputMode::Normal;
                self.date_range_input = String::new();
            },
            Action::CopyWorkflowUrl => match self.workflow_url() {
                Some(u) => eff.push(Effect::CopyToClipboard(u)),
                None => self.last_error = Some("No workflow loaded".to_owned()),
            },
            Action::OpenWorkflowUrl => match self.workflow_url() {
                Some(u) => eff.push(Effect::OpenInBrowser(u)),
                None => self.last_error = Some("No workflow loaded".to_owned()),
            },
            Action::EnterPendingG => self.input_mode = InputMode::PendingG,
            Action::CancelPendingG => self.input_mode = InputMode::Normal,
            Action::Refresh => eff = self.refresh(now),
            Action::CancelWorkflow(id) => eff = self.workflow_command(id, true),
            Action::TerminateWorkflow(id) => eff = self.workflow_command(id, false),
            Action::Quit => self.quit(now),
            Action::ToggleHelp => self.show_help = !self.show_help,
            Action::Tick => {},
            _ => {},
        }
        eff
    }

    /// Handles an action of group 3.
    #[verifier::rlimit(50)]
    #[verifier::spinoff_prover]
    fn step_group3(&mut self, action: Action, now: i64) -> (eff: Vec<Effect>)
        requires
            app_wf(*old(self)),
            time_ok(now),
            action_ok(action),
            group(action) == 3,
        ensures
            app_wf(*final(self)),
            step_spec(*old(self), *final(self), action, now, eff@),
    {
        let ghost old_cols = self.visible_columns@;
        let mut eff: Vec<Effect> = Vec::new();
        match action {
            Action::DataLoaded(p) => self.data_loaded(p),
            Action::Error(m) => self.report_error(m),

            _ => {},
        }
        eff
    }

    /// Applies an action at time `now` and returns the side effects to
    /// perform. Nothing here performs I/O.
    pub fn update_at(&mut self, action: Action, now: i64) -> (eff: Vec<Effect>)
        requires
            app_wf(*old(self)),
            time_ok(now),
            action_ok(action),
        ensures
            app_wf(*final(self)),
            transition(*old(self), *final(self), action, now, eff@),
    {
        let keeps_error = match action {
            Action::Error(_) | Action::Tick | Action::Quit => true,
            _ => false,
        };
        let keeps_chord = match action {
            Action::EnterPendingG | Action::Tick => true,
            _ => false,
        };
        if !keeps_error {
            self.last_error = None;
        }
        if self.input_mode == InputMode::PendingG && !keeps_chord {
            self.input_mode = InputMode::Normal;
        }
        assert(*self == prelude(*old(self), action));
        let g: u8 = match action {
            Action::NavigateUp | Action::NavigateDown | Action::NavigateTop | Action::NavigateBottom
            | Action::PageUp | Action::PageDown | Action::ViewDetail | Action::ViewTypeList
            | Action::ViewActivities | Action::GoBack | Action::ToggleActivityDetail
            | Action::ViewActivityDetail | Action::ViewInsights | Action::ViewInsightDetail
            | Action::NextAffectedEntity | Action::PrevAffectedEntity | Action::ViewEventLog
            | Action::ViewEventDetail => 0,
            Action::OpenSearchInput | Action::CloseSearchInput | Action::AppendSearchChar(_)
            | Action::DeleteSearchChar | Action::NextSearchMatch | Action::PrevSearchMatch
            | Action::ClearSearch | Action::SetStatusFilter(_) | Action::SetTypeFilter(_)
            | Action::NextStatusFilter | Action::PrevStatusFilter | Action::ClearFilters
            | Action::OpenFilterInput | Action::CloseFilterInput | Action::AppendFilterChar(_)
            | Action::DeleteFilterChar | Action::ToggleColumn(_) => 1,
            Action::DataLoaded(_) | Action::Error(_) => 3,
            _ => 2,
        };
        if g == 0 {
            self.step_group0(action, now)
        } else if g == 1 {
            self.step_group1(action, now)
        } else if g == 2 {
            self.step_group2(action, now)
        } else {
            self.step_group3(action, now)
        }
    }

    /// Applies an action now and returns the side effects to perform.
    pub fn update(&mut self, action: Action) -> (eff: Vec<Effect>)
        requires
            app_wf(*old(self)),
            action_ok(action),
        ensures
            app_wf(*final(self)),
            exists|now: i64| time_ok(now) && #[trigger] transition(*old(self), *final(self), action, now, eff@),
    {
        let now = crate::clock::now_ms();
        let eff = self.update_at(action, now);
        assert(transition(*old(self), *final(self), action, now, eff@));
        eff
    }
}

} // verus!
