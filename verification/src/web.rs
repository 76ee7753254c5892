//! The web API's request handling: the filters that query parameters ask
//! for, and the rejections of parameters that do not read. Serving the
//! requests is the caller's part.

use vstd::prelude::*;
use crate::clock::now_ms;
use crate::filter::{date_input_at, parse_date_input_at, WorkflowFilter};
use crate::model::time_ok;
use crate::status::{query_value_text, status_of_upper, WorkflowStatus};
use crate::text::{chars_of, push_str, string_of, upper_of};

verus! {

/// Query parameters of the workflow list request.
#[derive(Debug, Clone)]
pub struct WorkflowListParams {
    pub status: Option<String>,
    pub workflow_type: Option<String>,
    pub since: Option<String>,
    pub before: Option<String>,
    pub limit: Option<u32>,
}

/// Query parameter naming a run of a workflow.
#[derive(Debug, Clone)]
pub struct RunIdParam {
    pub run_id: Option<String>,
}

/// Query parameters of the insights request.
#[derive(Debug, Clone)]
pub struct InsightsParams {
    pub since: Option<String>,
    pub before: Option<String>,
    pub limit: Option<u32>,
}

/// The view of an optional string.
pub open spec fn opt_text(o: Option<String>) -> Option<Seq<char>> {
    match o {
        Some(s) => Some(s@),
        None => None,
    }
}

/// The start-time bounds that `since` and `before` ask for at time `now`,
/// or the message rejecting the first that does not read as a date.
pub open spec fn date_bounds(since: Option<String>, before: Option<String>, now: i64, since_msg: Seq<char>, before_msg: Seq<char>) -> Result<(Option<i64>, Option<i64>), Seq<char>> {
    let a: Result<Option<i64>, Seq<char>> = match since {
        Some(s) => match date_input_at(s@, now) {
            Some(t) => Ok(Some(t)),
            None => Err(since_msg + s@),
        },
        None => Ok(None),
    };
    match a {
        Err(m) => Err(m),
        Ok(after) => match before {
            Some(b) => match date_input_at(b@, now) {
                Some(t) => Ok((after, Some(t))),
                None => Err(before_msg + b@),
            },
            None => Ok((after, None)),
        },
    }
}

/// `r` is a filter with the given status, type and start-time bounds, and
/// no other condition.
pub open spec fn filter_is(r: WorkflowFilter, status: Option<WorkflowStatus>, ty: Option<Seq<char>>, bounds: (Option<i64>, Option<i64>)) -> bool {
    &&& r.status == status
    &&& opt_text(r.workflow_type) == ty
    &&& r.workflow_id_prefix is None
    &&& r.start_time_after == bounds.0
    &&& r.start_time_before == bounds.1
    &&& r.close_time_after is None
    &&& r.close_time_before is None
}

/// What a workflow list request asks for at time `now`: the filter, or the
/// message rejecting the status, the `since` or the `before` parameter, in
/// that order (the messages for dates start with the given texts).
pub open spec fn list_request_with(p: WorkflowListParams, now: i64, since_msg: Seq<char>, before_msg: Seq<char>, r: Result<WorkflowFilter, String>) -> bool {
    let st: Result<Option<WorkflowStatus>, Seq<char>> = match p.status {
        Some(s) => match status_of_upper(upper_of(s@)) {
            Some(x) => Ok(Some(x)),
            None => Err("Invalid status: "@ + s@),
        },
        None => Ok(None),
    };
    match st {
        Err(m) => r matches Err(e) && e@ == m,
        Ok(status) => match date_bounds(p.since, p.before, now, since_msg, before_msg) {
            Err(m) => r matches Err(e) && e@ == m,
            Ok(bounds) => r matches Ok(f) && filter_is(f, status, opt_text(p.workflow_type), bounds),
        },
    }
}

/// What a workflow list request of the web API asks for at time `now`.
pub open spec fn list_request_ok(p: WorkflowListParams, now: i64, r: Result<WorkflowFilter, String>) -> bool {
    list_request_with(p, now, "Invalid since value: "@, "Invalid before value: "@, r)
}

/// What a `workflow list` command asks for at time `now`.
pub open spec fn list_command_ok(p: WorkflowListParams, now: i64, r: Result<WorkflowFilter, String>) -> bool {
    list_request_with(p, now, "Invalid --since value: "@, "Invalid --before value: "@, r)
}

/// The message rejecting a parameter value.
fn rejection(prefix: &str, value: &String) -> (r: String)
    ensures
        r@ == prefix@ + value@,
{
    let mut m = chars_of(prefix);
    push_str(&mut m, value.as_str());
    string_of(&m)
}

/// The start-time bounds that `since` and `before` ask for.
fn bounds_at(since: &Option<String>, before: &Option<String>, now: i64, since_msg: &str, before_msg: &str) -> (r: Result<(Option<i64>, Option<i64>), String>)
    requires
        time_ok(now),
    ensures
        match date_bounds(*since, *before, now, since_msg@, before_msg@) {
            Ok(b) => r == Ok::<(Option<i64>, Option<i64>), String>(b),
            Err(m) => r matches Err(e) && e@ == m,
        },
{
    let after = match since {
        Some(s) => match parse_date_input_at(s.as_str(), now) {
            Some(t) => Some(t),
            None => return Err(rejection(since_msg, s)),
        },
        None => None,
    };
    let upto = match before {
        Some(b) => match parse_date_input_at(b.as_str(), now) {
            Some(t) => Some(t),
            None => return Err(rejection(before_msg, b)),
        },
        None => None,
    };
    Ok((after, upto))
}

/// The filter that a workflow list asks for, `now` being the time that
/// relative dates count back from; rejected dates are reported with the
/// given message texts.
fn list_filter_with(p: &WorkflowListParams, now: i64, since_msg: &str, before_msg: &str) -> (r: Result<WorkflowFilter, String>)
    requires
        time_ok(now),
    ensures
        list_request_with(*p, now, since_msg@, before_msg@, r),
{
    let mut filter = WorkflowFilter::new();
    match &p.status {
        Some(s) => match WorkflowStatus::parse(s.as_str()) {
            Ok(st) => filter = filter.with_status(st),
            Err(_) => return Err(rejection("Invalid status: ", s)),
        },
        None => {},
    }
    match &p.workflow_type {
        Some(t) => filter = filter.with_type(t.as_str()),
        None => {},
    }
    let (after, upto) = match bounds_at(&p.since, &p.before, now, since_msg, before_msg) {
        Ok(b) => b,
        Err(e) => return Err(e),
    };
    match after {
        Some(t) => filter = filter.with_start_time_after(t),
        None => {},
    }
    match upto {
        Some(t) => filter = filter.with_start_time_before(t),
        None => {},
    }
    Ok(filter)
}

/// The filter that a workflow list request of the web API asks for, `now`
/// being the time that relative dates count back from.
pub fn list_filter_at(p: &WorkflowListParams, now: i64) -> (r: Result<WorkflowFilter, String>)
    requires
        time_ok(now),
    ensures
        list_request_ok(*p, now, r),
{
    list_filter_with(p, now, "Invalid since value: ", "Invalid before value: ")
}

/// The filter that a `workflow list` command asks for, `now` being the
/// time that relative dates count back from.
pub fn command_list_filter_at(p: &WorkflowListParams, now: i64) -> (r: Result<WorkflowFilter, String>)
    requires
        time_ok(now),
    ensures
        list_command_ok(*p, now, r),
{
    list_filter_with(p, now, "Invalid --since value: ", "Invalid --before value: ")
}

/// The filter that a `workflow list` command asks for now.
pub fn command_list_filter(p: &WorkflowListParams) -> (r: Result<WorkflowFilter, String>)
    ensures
        exists|now: i64| time_ok(now) && #[trigger] list_command_ok(*p, now, r),
{
    let now = now_ms();
    command_list_filter_at(p, now)
}

/// The filter that a workflow list request asks for now.
pub fn list_filter(p: &WorkflowListParams) -> (r: Result<WorkflowFilter, String>)
    ensures
        exists|now: i64| time_ok(now) && #[trigger] list_request_ok(*p, now, r),
{
    let now = now_ms();
    list_filter_at(p, now)
}

/// What an insights request asks for at time `now`: a filter on start time
/// alone, or the message rejecting the `since` or the `before` parameter.
pub open spec fn insights_request_ok(p: InsightsParams, now: i64, r: Result<WorkflowFilter, String>) -> bool {
    insights_request_with(p, now, "Invalid since value: "@, "Invalid before value: "@, r)
}

/// What an insights scan asks for at time `now`, dates rejected with the
/// given message texts.
pub open spec fn insights_request_with(p: InsightsParams, now: i64, since_msg: Seq<char>, before_msg: Seq<char>, r: Result<WorkflowFilter, String>) -> bool {
    match date_bounds(p.since, p.before, now, since_msg, before_msg) {
        Err(m) => r matches Err(e) && e@ == m,
        Ok(bounds) => r matches Ok(f) && filter_is(f, None, None, bounds),
    }
}

/// The filter that an insights scan asks for, dates rejected with the
/// given message texts.
fn insights_filter_with(p: &InsightsParams, now: i64, since_msg: &str, before_msg: &str) -> (r: Result<WorkflowFilter, String>)
    requires
        time_ok(now),
    ensures
        insights_request_with(*p, now, since_msg@, before_msg@, r),
{
    let mut filter = WorkflowFilter::new();
    let (after, upto) = match bounds_at(&p.since, &p.before, now, since_msg, before_msg) {
        Ok(b) => b,
        Err(e) => return Err(e),
    };
    match after {
        Some(t) => filter = filter.with_start_time_after(t),
        None => {},
    }
    match upto {
        Some(t) => filter = filter.with_start_time_before(t),
        None => {},
    }
    Ok(filter)
}

/// The filter that an insights request asks for, `now` being the time that
/// relative dates count back from.
pub fn insights_filter_at(p: &InsightsParams, now: i64) -> (r: Result<WorkflowFilter, String>)
    requires
        time_ok(now),
    ensures
        insights_request_ok(*p, now, r),
{
    insights_filter_with(p, now, "Invalid since value: ", "Invalid before value: ")
}

/// The filter that an `insight scan` command asks for now.
pub fn command_insights_filter(p: &InsightsParams) -> (r: Result<WorkflowFilter, String>)
    ensures
        exists|now: i64| time_ok(now)
            && #[trigger] insights_request_with(*p, now, "Invalid --since value: "@, "Invalid --before value: "@, r),
{
    let now = now_ms();
    insights_filter_with(p, now, "Invalid --since value: ", "Invalid --before value: ")
}

/// What `workflow count` counts: the workflows of the named status, else
/// those the raw query matches (all when there is none); a status name that
/// reads as none is rejected.
pub open spec fn count_query_ok(status: Option<String>, query: Option<String>, r: Result<Option<String>, String>) -> bool {
    match status {
        Some(s) => match status_of_upper(upper_of(s@)) {
            Some(st) => r matches Ok(Some(q)) && q@ == "ExecutionStatus='"@ + query_value_text(st) + "'"@,
            None => r matches Err(e) && e@ == "Invalid status: "@ + s@,
        },
        None => r == Ok::<Option<String>, String>(query),
    }
}

/// The query that `workflow count` runs.
pub fn count_query(status: Option<String>, query: Option<String>) -> (r: Result<Option<String>, String>)
    ensures
        count_query_ok(status, query, r),
{
    match &status {
        Some(s) => match WorkflowStatus::parse(s.as_str()) {
            Ok(st) => {
                let mut q = chars_of("ExecutionStatus='");
                push_str(&mut q, st.as_query_value());
                push_str(&mut q, "'");
                Ok(Some(string_of(&q)))
            },
            Err(_) => Err(rejection("Invalid status: ", s)),
        },
        None => Ok(query),
    }
}

/// The filter that an insights request asks for now.
pub fn insights_filter(p: &InsightsParams) -> (r: Result<WorkflowFilter, String>)
    ensures
        exists|now: i64| time_ok(now) && #[trigger] insights_request_ok(*p, now, r),
{
    let now = now_ms();
    insights_filter_at(p, now)
}

/// The number of workflows a request asks for: its limit, else the
/// configured default.
pub fn request_limit(limit: Option<u32>, default_limit: u32) -> (r: u32)
    ensures
        r == match limit {
            Some(l) => l,
            None => default_limit,
        },
{
    match limit {
        Some(l) => l,
        None => default_limit,
    }
}

} // verus!
