//! The workflow records the library works on. Times are milliseconds since
//! the Unix epoch (UTC); durations are milliseconds.

use vstd::prelude::*;
use crate::json::JsonValue;
use crate::status::WorkflowStatus;

verus! {

/// Largest magnitude of a time value, in milliseconds: beyond every instant
/// that a UTC date-time can hold (about 262,000 years either side of 1970),
/// and small enough that the difference of two times fits an `i64`.
pub const TIME_LIMIT_MS: i64 = 9_000_000_000_000_000;

/// A time value within the supported range.
pub open spec fn time_ok(t: i64) -> bool {
    -TIME_LIMIT_MS <= t <= TIME_LIMIT_MS
}

/// A workflow execution summary, as a list query returns it.
#[derive(Debug, Clone)]
pub struct WorkflowSummary {
    pub workflow_id: String,
    pub run_id: String,
    pub workflow_type: String,
    pub status: WorkflowStatus,
    pub start_time: i64,
    pub close_time: Option<i64>,
    pub task_queue: String,
}

/// Failure information of a failed workflow or activity.
#[derive(Debug)]
pub struct FailureInfo {
    pub message: String,
    pub failure_type: String,
    pub stack_trace: Option<String>,
    pub cause: Option<Box<FailureInfo>>,
}

/// Detailed information on one workflow execution.
#[derive(Debug)]
pub struct WorkflowDetail {
    pub summary: WorkflowSummary,
    pub input: Option<JsonValue>,
    pub output: Option<JsonValue>,
    pub failure: Option<FailureInfo>,
    pub history_length: u64,
    pub memo: Vec<(String, JsonValue)>,
    pub search_attributes: Vec<(String, JsonValue)>,
}

/// One event of a workflow's history.
#[derive(Debug)]
pub struct HistoryEvent {
    pub event_id: i64,
    pub event_type: String,
    pub timestamp: i64,
    pub details: JsonValue,
}

/// Every time of a summary is within the supported range.
pub open spec fn summary_times_ok(w: WorkflowSummary) -> bool {
    time_ok(w.start_time) && (w.close_time matches Some(c) ==> time_ok(c))
}

} // verus!
