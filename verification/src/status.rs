//! Status and label enums of the domain, with their display texts.

use vstd::prelude::*;
use crate::text::{all_ascii, ascii_lower, ascii_upper, chars_of, eq_str, lower_of, to_upper, upper_of};

verus! {

/// Display colour of a status or severity; the terminal front end maps it
/// to its own palette.
#[derive(Debug, Clone, Copy, PartialEq, Eq, Structural)]
pub enum Color {
    Blue,
    Green,
    Red,
    Yellow,
    Magenta,
    LightRed,
    Cyan,
    DarkGray,
    White,
}

/// Execution status of a workflow.
#[derive(Debug, Clone, Copy, PartialEq, Eq, Hash, Structural)]
pub enum WorkflowStatus {
    Running,
    Completed,
    Failed,
    Canceled,
    Terminated,
    TimedOut,
    ContinuedAsNew,
}

/// Error returned when a text names no workflow status; it holds the text.
#[derive(Debug, Clone, PartialEq, Eq)]
pub struct ParseWorkflowStatusError(pub String);

impl ParseWorkflowStatusError {
    /// The error's message: `invalid workflow status: ` and the text read.
    pub fn message(&self) -> (r: String)
        ensures
            r@ == "invalid workflow status: "@ + self.0@,
    {
        let mut t = chars_of("invalid workflow status: ");
        crate::text::push_str(&mut t, self.0.as_str());
        crate::text::string_of(&t)
    }
}

/// The query-language value of a status.
pub open spec fn query_value_text(s: WorkflowStatus) -> Seq<char> {
    match s {
        WorkflowStatus::Running => "Running"@,
        WorkflowStatus::Completed => "Completed"@,
        WorkflowStatus::Failed => "Failed"@,
        WorkflowStatus::Canceled => "Canceled"@,
        WorkflowStatus::Terminated => "Terminated"@,
        WorkflowStatus::TimedOut => "TimedOut"@,
        WorkflowStatus::ContinuedAsNew => "ContinuedAsNew"@,
    }
}

/// The short table label of a status.
pub open spec fn workflow_short_text(s: WorkflowStatus) -> Seq<char> {
    match s {
        WorkflowStatus::Running => "RUN"@,
        WorkflowStatus::Completed => "OK"@,
        WorkflowStatus::Failed => "FAIL"@,
        WorkflowStatus::Canceled => "CANC"@,
        WorkflowStatus::Terminated => "TERM"@,
        WorkflowStatus::TimedOut => "TIME"@,
        WorkflowStatus::ContinuedAsNew => "CONT"@,
    }
}

/// The status named by an upper-cased text, if any.
pub open spec fn status_of_upper(u: Seq<char>) -> Option<WorkflowStatus> {
    if u == "RUNNING"@ {
        Some(WorkflowStatus::Running)
    } else if u == "COMPLETED"@ {
        Some(WorkflowStatus::Completed)
    } else if u == "FAILED"@ {
        Some(WorkflowStatus::Failed)
    } else if u == "CANCELED"@ {
        Some(WorkflowStatus::Canceled)
    } else if u == "TERMINATED"@ {
        Some(WorkflowStatus::Terminated)
    } else if u == "TIMED_OUT"@ || u == "TIMEDOUT"@ {
        Some(WorkflowStatus::TimedOut)
    } else if u == "CONTINUED_AS_NEW"@ || u == "CONTINUEDASNEW"@ {
        Some(WorkflowStatus::ContinuedAsNew)
    } else {
        None
    }
}

/// The seven statuses in their display order.
pub open spec fn all_statuses() -> Seq<WorkflowStatus> {
    seq![
        WorkflowStatus::Running,
        WorkflowStatus::Completed,
        WorkflowStatus::Failed,
        WorkflowStatus::Canceled,
        WorkflowStatus::Terminated,
        WorkflowStatus::TimedOut,
        WorkflowStatus::ContinuedAsNew,
    ]
}

/// Position of a status in `all_statuses()`.
pub open spec fn status_index(s: WorkflowStatus) -> int {
    match s {
        WorkflowStatus::Running => 0,
        WorkflowStatus::Completed => 1,
        WorkflowStatus::Failed => 2,
        WorkflowStatus::Canceled => 3,
        WorkflowStatus::Terminated => 4,
        WorkflowStatus::TimedOut => 5,
        WorkflowStatus::ContinuedAsNew => 6,
    }
}

/// Whether a workflow status counts as a failure for insights.
pub open spec fn is_failed_status(s: WorkflowStatus) -> bool {
    s == WorkflowStatus::Failed || s == WorkflowStatus::Terminated || s == WorkflowStatus::TimedOut
}

impl WorkflowStatus {
    /// Parses a status name, ignoring case; `TIMED_OUT`/`TIMEDOUT` and
    /// `CONTINUED_AS_NEW`/`CONTINUEDASNEW` are both accepted.
    pub fn parse(s: &str) -> (r: Result<WorkflowStatus, ParseWorkflowStatusError>)
        ensures
            status_of_upper(upper_of(s@)) matches Some(st) ==> r == Ok::<
                WorkflowStatus,
                ParseWorkflowStatusError,
            >(st),
            status_of_upper(upper_of(s@)) is None ==> (r matches Err(e) && e.0@ == s@),
    {
        let up = to_upper(s);
        let u = chars_of(up.as_str());
        if eq_str(&u, "RUNNING") {
            Ok(WorkflowStatus::Running)
        } else if eq_str(&u, "COMPLETED") {
            Ok(WorkflowStatus::Completed)
        } else if eq_str(&u, "FAILED") {
            Ok(WorkflowStatus::Failed)
        } else if eq_str(&u, "CANCELED") {
            Ok(WorkflowStatus::Canceled)
        } else if eq_str(&u, "TERMINATED") {
            Ok(WorkflowStatus::Terminated)
        } else if eq_str(&u, "TIMED_OUT") || eq_str(&u, "TIMEDOUT") {
            Ok(WorkflowStatus::TimedOut)
        } else if eq_str(&u, "CONTINUED_AS_NEW") || eq_str(&u, "CONTINUEDASNEW") {
            Ok(WorkflowStatus::ContinuedAsNew)
        } else {
            Err(ParseWorkflowStatusError(s.to_owned()))
        }
    }

    /// The value used for this status in workflow queries.
    pub fn as_query_value(&self) -> (r: &'static str)
        ensures
            r@ == query_value_text(*self),
    {
        match self {
            WorkflowStatus::Running => "Running",
            WorkflowStatus::Completed => "Completed",
            WorkflowStatus::Failed => "Failed",
            WorkflowStatus::Canceled => "Canceled",
            WorkflowStatus::Terminated => "Terminated",
            WorkflowStatus::TimedOut => "TimedOut",
            WorkflowStatus::ContinuedAsNew => "ContinuedAsNew",
        }
    }

    /// All statuses, in display order.
    pub fn all() -> (r: Vec<WorkflowStatus>)
        ensures
            r@ == all_statuses(),
    {
        let r = vec![
            WorkflowStatus::Running,
            WorkflowStatus::Completed,
            WorkflowStatus::Failed,
            WorkflowStatus::Canceled,
            WorkflowStatus::Terminated,
            WorkflowStatus::TimedOut,
            WorkflowStatus::ContinuedAsNew,
        ];
        assert(r@ =~= all_statuses());
        r
    }

    /// Display colour of the status.
    pub fn color(&self) -> (c: Color)
        ensures
            c == (match *self {
                WorkflowStatus::Running => Color::Blue,
                WorkflowStatus::Completed => Color::Green,
                WorkflowStatus::Failed => Color::Red,
                WorkflowStatus::Canceled => Color::Yellow,
                WorkflowStatus::Terminated => Color::Magenta,
                WorkflowStatus::TimedOut => Color::LightRed,
                WorkflowStatus::ContinuedAsNew => Color::Cyan,
            }),
    {
        match self {
            WorkflowStatus::Running => Color::Blue,
            WorkflowStatus::Completed => Color::Green,
            WorkflowStatus::Failed => Color::Red,
            WorkflowStatus::Canceled => Color::Yellow,
            WorkflowStatus::Terminated => Color::Magenta,
            WorkflowStatus::TimedOut => Color::LightRed,
            WorkflowStatus::ContinuedAsNew => Color::Cyan,
        }
    }

    /// The short label shown in tables.
    pub fn short_name(&self) -> (r: &'static str)
        ensures
            r@ == workflow_short_text(*self),
    {
        match self {
            WorkflowStatus::Running => "RUN",
            WorkflowStatus::Completed => "OK",
            WorkflowStatus::Failed => "FAIL",
            WorkflowStatus::Canceled => "CANC",
            WorkflowStatus::Terminated => "TERM",
            WorkflowStatus::TimedOut => "TIME",
            WorkflowStatus::ContinuedAsNew => "CONT",
        }
    }

    /// Position of this status in `all()`.
    pub fn index(&self) -> (r: usize)
        ensures
            r == status_index(*self),
            all_statuses()[r as int] == *self,
    {
        match self {
            WorkflowStatus::Running => 0,
            WorkflowStatus::Completed => 1,
            WorkflowStatus::Failed => 2,
            WorkflowStatus::Canceled => 3,
            WorkflowStatus::Terminated => 4,
            WorkflowStatus::TimedOut => 5,
            WorkflowStatus::ContinuedAsNew => 6,
        }
    }

    /// Whether this status counts as a failure (failed, terminated, timed out).
    pub fn is_failure(&self) -> (r: bool)
        ensures
            r == is_failed_status(*self),
    {
        match self {
            WorkflowStatus::Failed | WorkflowStatus::Terminated | WorkflowStatus::TimedOut => true,
            _ => false,
        }
    }
}

/// Status of an activity execution.
#[derive(Debug, Clone, Copy, PartialEq, Eq, Structural)]
pub enum ActivityStatus {
    Scheduled,
    Running,
    Completed,
    Failed,
    TimedOut,
    Canceled,
}

/// Short label of an activity status.
pub open spec fn activity_short_text(s: ActivityStatus) -> Seq<char> {
    match s {
        ActivityStatus::Scheduled => "PEND"@,
        ActivityStatus::Running => "RUN"@,
        ActivityStatus::Completed => "OK"@,
        ActivityStatus::Failed => "FAIL"@,
        ActivityStatus::TimedOut => "TIME"@,
        ActivityStatus::Canceled => "CANC"@,
    }
}

impl ActivityStatus {
    /// The short label shown in tables.
    pub fn short_name(&self) -> (r: &'static str)
        ensures
            r@ == activity_short_text(*self),
    {
        match self {
            ActivityStatus::Scheduled => "PEND",
            ActivityStatus::Running => "RUN",
            ActivityStatus::Completed => "OK",
            ActivityStatus::Failed => "FAIL",
            ActivityStatus::TimedOut => "TIME",
            ActivityStatus::Canceled => "CANC",
        }
    }

    /// Display colour of the status.
    pub fn color(&self) -> (c: Color)
        ensures
            c == (match *self {
                ActivityStatus::Scheduled => Color::DarkGray,
                ActivityStatus::Running => Color::Blue,
                ActivityStatus::Completed => Color::Green,
                ActivityStatus::Failed => Color::Red,
                ActivityStatus::TimedOut => Color::LightRed,
                ActivityStatus::Canceled => Color::Yellow,
            }),
    {
        match self {
            ActivityStatus::Scheduled => Color::DarkGray,
            ActivityStatus::Running => Color::Blue,
            ActivityStatus::Completed => Color::Green,
            ActivityStatus::Failed => Color::Red,
            ActivityStatus::TimedOut => Color::LightRed,
            ActivityStatus::Canceled => Color::Yellow,
        }
    }
}

/// Status of a child workflow execution.
#[derive(Debug, Clone, Copy, PartialEq, Eq, Structural)]
pub enum ChildWorkflowStatus {
    Initiated,
    Started,
    Completed,
    Failed,
    TimedOut,
    Canceled,
    Terminated,
    StartFailed,
}

/// Short label of a child workflow status.
pub open spec fn child_short_text(s: ChildWorkflowStatus) -> Seq<char> {
    match s {
        ChildWorkflowStatus::Initiated => "INIT"@,
        ChildWorkflowStatus::Started => "RUN"@,
        ChildWorkflowStatus::Completed => "OK"@,
        ChildWorkflowStatus::Failed => "FAIL"@,
        ChildWorkflowStatus::TimedOut => "TIME"@,
        ChildWorkflowStatus::Canceled => "CANC"@,
        ChildWorkflowStatus::Terminated => "TERM"@,
        ChildWorkflowStatus::StartFailed => "SFAIL"@,
    }
}

/// Whether a child workflow status counts as a failure for insights.
pub open spec fn is_failed_child_status(s: ChildWorkflowStatus) -> bool {
    !(s == ChildWorkflowStatus::Initiated || s == ChildWorkflowStatus::Started
        || s == ChildWorkflowStatus::Completed)
}

impl ChildWorkflowStatus {
    /// The short label shown in tables.
    pub fn short_name(&self) -> (r: &'static str)
        ensures
            r@ == child_short_text(*self),
    {
        match self {
            ChildWorkflowStatus::Initiated => "INIT",
            ChildWorkflowStatus::Started => "RUN",
            ChildWorkflowStatus::Completed => "OK",
            ChildWorkflowStatus::Failed => "FAIL",
            ChildWorkflowStatus::TimedOut => "TIME",
            ChildWorkflowStatus::Canceled => "CANC",
            ChildWorkflowStatus::Terminated => "TERM",
            ChildWorkflowStatus::StartFailed => "SFAIL",
        }
    }

    /// Display colour of the status.
    pub fn color(&self) -> (c: Color)
        ensures
            c == (match *self {
                ChildWorkflowStatus::Initiated => Color::DarkGray,
                ChildWorkflowStatus::Started => Color::Blue,
                ChildWorkflowStatus::Completed => Color::Green,
                ChildWorkflowStatus::Failed => Color::Red,
                ChildWorkflowStatus::TimedOut => Color::LightRed,
                ChildWorkflowStatus::Canceled => Color::Yellow,
                ChildWorkflowStatus::Terminated => Color::Magenta,
                ChildWorkflowStatus::StartFailed => Color::Red,
            }),
    {
        match self {
            ChildWorkflowStatus::Initiated => Color::DarkGray,
            ChildWorkflowStatus::Started => Color::Blue,
            ChildWorkflowStatus::Completed => Color::Green,
            ChildWorkflowStatus::Failed => Color::Red,
            ChildWorkflowStatus::TimedOut => Color::LightRed,
            ChildWorkflowStatus::Canceled => Color::Yellow,
            ChildWorkflowStatus::Terminated => Color::Magenta,
            ChildWorkflowStatus::StartFailed => Color::Red,
        }
    }

    /// Whether this status counts as a failure (failed, timed out,
    /// canceled, terminated or failed to start).
    pub fn is_failure(&self) -> (r: bool)
        ensures
            r == is_failed_child_status(*self),
    {
        match self {
            ChildWorkflowStatus::Initiated | ChildWorkflowStatus::Started
            | ChildWorkflowStatus::Completed => false,
            _ => true,
        }
    }
}

/// Severity level of an insight finding, ordered Info < Warning < Critical.
#[derive(Debug, Clone, Copy, PartialEq, Eq, PartialOrd, Ord, Hash, Structural)]
pub enum InsightSeverity {
    Info,
    Warning,
    Critical,
}

/// Numeric rank of a severity: the order the enum derives.
pub open spec fn severity_rank(s: InsightSeverity) -> int {
    match s {
        InsightSeverity::Info => 0,
        InsightSeverity::Warning => 1,
        InsightSeverity::Critical => 2,
    }
}

/// Label of a severity.
pub open spec fn severity_text(s: InsightSeverity) -> Seq<char> {
    match s {
        InsightSeverity::Info => "INFO"@,
        InsightSeverity::Warning => "WARN"@,
        InsightSeverity::Critical => "CRIT"@,
    }
}

impl InsightSeverity {
    /// The label shown in tables.
    pub fn label(&self) -> (r: &'static str)
        ensures
            r@ == severity_text(*self),
    {
        match self {
            InsightSeverity::Info => "INFO",
            InsightSeverity::Warning => "WARN",
            InsightSeverity::Critical => "CRIT",
        }
    }

    /// Numeric rank (0 for Info, 1 for Warning, 2 for Critical).
    pub fn rank(&self) -> (r: u8)
        ensures
            r == severity_rank(*self),
    {
        match self {
            InsightSeverity::Info => 0,
            InsightSeverity::Warning => 1,
            InsightSeverity::Critical => 2,
        }
    }

    /// Display colour of the severity.
    pub fn color(&self) -> (c: Color)
        ensures
            c == (match *self {
                InsightSeverity::Info => Color::Cyan,
                InsightSeverity::Warning => Color::Yellow,
                InsightSeverity::Critical => Color::Red,
            }),
    {
        match self {
            InsightSeverity::Info => Color::Cyan,
            InsightSeverity::Warning => Color::Yellow,
            InsightSeverity::Critical => Color::Red,
        }
    }
}

/// Category of an insight finding.
#[derive(Debug, Clone, Copy, PartialEq, Eq, Hash, Structural)]
pub enum InsightCategory {
    FailureRate,
    RetryStorm,
    ActivityRetry,
    QueueLatency,
    StuckWorkflow,
    ActivityFailure,
    TypeAnomaly,
    LongRunningActivity,
    ErrorInOutput,
    ChildWorkflowFailure,
    ChildWorkflowLatency,
}

/// Label of a category.
pub open spec fn category_text(c: InsightCategory) -> Seq<char> {
    match c {
        InsightCategory::FailureRate => "Failure Rate"@,
        InsightCategory::RetryStorm => "Retry Storm"@,
        InsightCategory::ActivityRetry => "Activity Retry"@,
        InsightCategory::QueueLatency => "Queue Latency"@,
        InsightCategory::StuckWorkflow => "Stuck Workflow"@,
        InsightCategory::ActivityFailure => "Activity Failure"@,
        InsightCategory::TypeAnomaly => "Type Anomaly"@,
        InsightCategory::LongRunningActivity => "Long Activity"@,
        InsightCategory::ErrorInOutput => "Error in I/O"@,
        InsightCategory::ChildWorkflowFailure => "Child WF Failure"@,
        InsightCategory::ChildWorkflowLatency => "Child WF Latency"@,
    }
}

impl InsightCategory {
    /// The label shown in tables.
    pub fn label(&self) -> (r: &'static str)
        ensures
            r@ == category_text(*self),
    {
        match self {
            InsightCategory::FailureRate => "Failure Rate",
            InsightCategory::RetryStorm => "Retry Storm",
            InsightCategory::ActivityRetry => "Activity Retry",
            InsightCategory::QueueLatency => "Queue Latency",
            InsightCategory::StuckWorkflow => "Stuck Workflow",
            InsightCategory::ActivityFailure => "Activity Failure",
            InsightCategory::TypeAnomaly => "Type Anomaly",
            InsightCategory::LongRunningActivity => "Long Activity",
            InsightCategory::ErrorInOutput => "Error in I/O",
            InsightCategory::ChildWorkflowFailure => "Child WF Failure",
            InsightCategory::ChildWorkflowLatency => "Child WF Latency",
        }
    }
}

/// Table columns of the workflow list that can be shown or hidden.
#[derive(Debug, Clone, Copy, PartialEq, Eq, Hash, Structural)]
pub enum TableColumn {
    Status,
    Type,
    WorkflowId,
    Started,
}

/// The four columns in display order.
pub open spec fn all_columns() -> Seq<TableColumn> {
    seq![TableColumn::Status, TableColumn::Type, TableColumn::WorkflowId, TableColumn::Started]
}

/// Header text of a column.
pub open spec fn column_text(c: TableColumn) -> Seq<char> {
    match c {
        TableColumn::Status => "Status"@,
        TableColumn::Type => "Type"@,
        TableColumn::WorkflowId => "Workflow ID"@,
        TableColumn::Started => "Started"@,
    }
}

impl TableColumn {
    /// All columns, in display order.
    pub fn all() -> (r: Vec<TableColumn>)
        ensures
            r@ == all_columns(),
    {
        let r = vec![TableColumn::Status, TableColumn::Type, TableColumn::WorkflowId, TableColumn::Started];
        assert(r@ =~= all_columns());
        r
    }

    /// The header text of the column.
    pub fn name(&self) -> (r: &'static str)
        ensures
            r@ == column_text(*self),
    {
        match self {
            TableColumn::Status => "Status",
            TableColumn::Type => "Type",
            TableColumn::WorkflowId => "Workflow ID",
            TableColumn::Started => "Started",
        }
    }
}

/// Preset date ranges for quick selection.
#[derive(Debug, Clone, Copy, PartialEq, Eq, Structural)]
pub enum DateRangePreset {
    LastHour,
    Last6Hours,
    Last24Hours,
    Last3Days,
    Last7Days,
    Last30Days,
}

/// Length of a preset range in seconds.
pub open spec fn preset_seconds(p: DateRangePreset) -> int {
    match p {
        DateRangePreset::LastHour => (3600) as int,
        DateRangePreset::Last6Hours => (6 * 3600) as int,
        DateRangePreset::Last24Hours => (24 * 3600) as int,
        DateRangePreset::Last3Days => (3 * 86400) as int,
        DateRangePreset::Last7Days => (7 * 86400) as int,
        DateRangePreset::Last30Days => (30 * 86400) as int,
    }
}

/// Long label of a preset.
pub open spec fn preset_label_text(p: DateRangePreset) -> Seq<char> {
    match p {
        DateRangePreset::LastHour => "Last 1 hour"@,
        DateRangePreset::Last6Hours => "Last 6 hours"@,
        DateRangePreset::Last24Hours => "Last 24 hours"@,
        DateRangePreset::Last3Days => "Last 3 days"@,
        DateRangePreset::Last7Days => "Last 7 days"@,
        DateRangePreset::Last30Days => "Last 30 days"@,
    }
}

/// Short label of a preset.
pub open spec fn preset_short_text(p: DateRangePreset) -> Seq<char> {
    match p {
        DateRangePreset::LastHour => "1h"@,
        DateRangePreset::Last6Hours => "6h"@,
        DateRangePreset::Last24Hours => "24h"@,
        DateRangePreset::Last3Days => "3d"@,
        DateRangePreset::Last7Days => "7d"@,
        DateRangePreset::Last30Days => "30d"@,
    }
}

impl DateRangePreset {
    /// Length of the range in seconds.
    pub fn duration_secs(&self) -> (r: i64)
        ensures
            r == preset_seconds(*self),
    {
        match self {
            DateRangePreset::LastHour => 3600,
            DateRangePreset::Last6Hours => 6 * 3600,
            DateRangePreset::Last24Hours => 24 * 3600,
            DateRangePreset::Last3Days => 3 * 86400,
            DateRangePreset::Last7Days => 7 * 86400,
            DateRangePreset::Last30Days => 30 * 86400,
        }
    }

    /// The long label, e.g. `Last 24 hours`.
    pub fn label(&self) -> (r: &'static str)
        ensures
            r@ == preset_label_text(*self),
    {
        match self {
            DateRangePreset::LastHour => "Last 1 hour",
            DateRangePreset::Last6Hours => "Last 6 hours",
            DateRangePreset::Last24Hours => "Last 24 hours",
            DateRangePreset::Last3Days => "Last 3 days",
            DateRangePreset::Last7Days => "Last 7 days",
            DateRangePreset::Last30Days => "Last 30 days",
        }
    }

    /// The short label, e.g. `24h`.
    pub fn short_label(&self) -> (r: &'static str)
        ensures
            r@ == preset_short_text(*self),
    {
        match self {
            DateRangePreset::LastHour => "1h",
            DateRangePreset::Last6Hours => "6h",
            DateRangePreset::Last24Hours => "24h",
            DateRangePreset::Last3Days => "3d",
            DateRangePreset::Last7Days => "7d",
            DateRangePreset::Last30Days => "30d",
        }
    }
}

/// Sort direction of a table column.
#[derive(Debug, Clone, Copy, PartialEq, Eq, Structural)]
pub enum SortDirection {
    Ascending,
    Descending,
}

impl SortDirection {
    /// The opposite direction.
    pub fn toggle(&self) -> (r: SortDirection)
        ensures
            r != *self,
    {
        match self {
            SortDirection::Ascending => SortDirection::Descending,
            SortDirection::Descending => SortDirection::Ascending,
        }
    }
}

/// Columns of the workflow-type table that it can be sorted by.
#[derive(Debug, Clone, Copy, PartialEq, Eq, Structural)]
pub enum TypeListColumn {
    TypeName,
    Total,
    StatusCount(WorkflowStatus),
}

/// Output format of command results.
#[derive(Debug, Clone, Copy, PartialEq, Eq, Structural)]
pub enum OutputFormat {
    Json,
    Table,
}

impl std::str::FromStr for WorkflowStatus {
    type Err = ParseWorkflowStatusError;

    fn from_str(s: &str) -> (r: Result<Self, Self::Err>)
        ensures
            status_of_upper(upper_of(s@)) matches Some(st) ==> r == Ok::<WorkflowStatus, ParseWorkflowStatusError>(st),
            status_of_upper(upper_of(s@)) is None ==> (r matches Err(e) && e.0@ == s@),
    {
        WorkflowStatus::parse(s)
    }
}


/// The upper-cased form of an ASCII text, checked against its expected
/// value.
proof fn lemma_upper_is(s: Seq<char>, u: Seq<char>)
    requires
        s.len() == u.len(),
        forall|i: int| 0 <= i < s.len() ==> (#[trigger] s[i] as u32) < 128 && ascii_upper(s[i]) == u[i],
    ensures
        upper_of(s) == u,
{
    assert forall|i: int| 0 <= i < s.len() implies (s[i] as u32) < 128 by {}
    assert(all_ascii(s));
    assert(s.map_values(|c: char| ascii_upper(c)) =~= u);
}

/// Reading a status back from its query value, which is also its display
/// text, gives the same status.
#[verifier::spinoff_prover]
pub proof fn law_status_round_trip(s: WorkflowStatus)
    ensures
        status_of_upper(upper_of(query_value_text(s))) == Some(s),
{
    reveal_strlit("Running");
    reveal_strlit("Completed");
    reveal_strlit("Failed");
    reveal_strlit("Canceled");
    reveal_strlit("Terminated");
    reveal_strlit("TimedOut");
    reveal_strlit("ContinuedAsNew");
    reveal_strlit("RUNNING");
    reveal_strlit("COMPLETED");
    reveal_strlit("FAILED");
    reveal_strlit("CANCELED");
    reveal_strlit("TERMINATED");
    reveal_strlit("TIMEDOUT");
    reveal_strlit("CONTINUEDASNEW");
    reveal_strlit("TIMED_OUT");
    reveal_strlit("CONTINUED_AS_NEW");
    assert("RUNNING"@.len() == 7 && "COMPLETED"@.len() == 9 && "FAILED"@.len() == 6 && "CANCELED"@.len() == 8);
    assert("TERMINATED"@.len() == 10 && "TIMED_OUT"@.len() == 9 && "TIMEDOUT"@.len() == 8);
    assert("CONTINUED_AS_NEW"@.len() == 16 && "CONTINUEDASNEW"@.len() == 14);
    assert("TIMEDOUT"@[0] != "CANCELED"@[0]);
    match s {
        WorkflowStatus::Running => lemma_upper_is("Running"@, "RUNNING"@),
        WorkflowStatus::Completed => lemma_upper_is("Completed"@, "COMPLETED"@),
        WorkflowStatus::Failed => lemma_upper_is("Failed"@, "FAILED"@),
        WorkflowStatus::Canceled => lemma_upper_is("Canceled"@, "CANCELED"@),
        WorkflowStatus::Terminated => lemma_upper_is("Terminated"@, "TERMINATED"@),
        WorkflowStatus::TimedOut => lemma_upper_is("TimedOut"@, "TIMEDOUT"@),
        WorkflowStatus::ContinuedAsNew => lemma_upper_is("ContinuedAsNew"@, "CONTINUEDASNEW"@),
    }
}

/// Reading a status ignores the case of ASCII letters: an ASCII text names
/// the same status as its lower-cased form, or none as it does.
pub proof fn law_status_ignores_case(x: Seq<char>)
    requires
        all_ascii(x),
    ensures
        status_of_upper(upper_of(lower_of(x))) == status_of_upper(upper_of(x)),
{
    let l = x.map_values(|c: char| ascii_lower(c));
    assert forall|i: int| 0 <= i < l.len() implies (l[i] as u32) < 128 by {
        assert((x[i] as u32) < 128);
    }
    assert(lower_of(x) == l);
    assert(all_ascii(l));
    assert(l.map_values(|c: char| ascii_upper(c)) =~= x.map_values(|c: char| ascii_upper(c)));
}

} // verus!
