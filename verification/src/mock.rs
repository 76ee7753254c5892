//! A client that serves made-up workflows and histories, for trying the
//! viewer without a server. The data follow patterns that the insight
//! detectors pick up (failure hot spots, stuck workflows, slow queues,
//! retry storms, signal storms). Random choices come from `rand`.

use vstd::prelude::*;
use crate::client::ClientError;
use crate::filter::WorkflowFilter;
use crate::json::{clone_json, json_get, json_i64, json_str, same_json, same_json_opt, JsonNumber, JsonValue};
use crate::model::{FailureInfo, HistoryEvent, WorkflowDetail, WorkflowSummary};
use crate::order::{stable_order, stable_order_asc, permute};
use crate::stats::count_status;
use crate::status::WorkflowStatus;
use crate::text::{
    chars_of, contains, contains_seq, dec, eq_str, occurs_at_exec, push_dec, push_str, starts_with_seq, string_of,
    to_upper, upper_of,
};
use crate::type_stats::copy_summary;
use rand::Rng;

verus! {

/// Calls `rand::thread_rng().gen_range(lo..hi)`: a number drawn uniformly
/// from `lo` up to but not including `hi`. Which number comes is not
/// stated, only that it lies in the range.
#[verifier::external_body]
fn random_in(lo: i64, hi: i64) -> (r: i64)
    requires
        lo < hi,
    ensures
        lo <= r < hi,
{
    rand::thread_rng().gen_range(lo..hi)
}

/// Calls `rand::thread_rng().gen_ratio(numerator, denominator)`: `true`
/// with a chance of `numerator` in `denominator`. The contract states what
/// rand's documentation guarantees: never `true` for a zero numerator,
/// always for a numerator equal to the denominator.
#[verifier::external_body]
fn random_ratio(numerator: u32, denominator: u32) -> (r: bool)
    requires
        0 < denominator,
        numerator <= denominator,
    ensures
        numerator == 0 ==> !r,
        numerator == denominator ==> r,
{
    rand::thread_rng().gen_ratio(numerator, denominator)
}

/// Calls `rand::thread_rng().gen::<u32>()`: any 32-bit number.
#[verifier::external_body]
fn random_u32() -> (r: u32) {
    rand::thread_rng().gen::<u32>()
}

/// A mock Temporal client: a list of workflows, details stored for some of
/// them, whether every call fails, and the latency a caller should wait
/// before each answer (in milliseconds).
pub struct MockTemporalClient {
    pub workflows: Vec<WorkflowSummary>,
    pub details: Vec<(String, WorkflowDetail)>,
    pub should_fail: bool,
    pub latency_ms: u64,
}

/// The workflow types that the mock data use.
pub open spec fn mock_types() -> Seq<Seq<char>> {
    seq![
        "EmailGenerationWorkflow"@,
        "DataProcessingWorkflow"@,
        "UserOnboardingWorkflow"@,
        "ReportGenerationWorkflow"@,
        "NotificationWorkflow"@,
        "PaymentProcessingWorkflow"@,
        "InventoryUpdateWorkflow"@,
    ]
}

/// The types lower-cased without the word `workflow`: the prefixes of the
/// mock workflow ids.
pub open spec fn mock_id_prefixes() -> Seq<Seq<char>> {
    seq![
        "emailgeneration"@,
        "dataprocessing"@,
        "useronboarding"@,
        "reportgeneration"@,
        "notification"@,
        "paymentprocessing"@,
        "inventoryupdate"@,
    ]
}

/// The task queues that the mock data use.
pub open spec fn mock_queues() -> Seq<Seq<char>> {
    seq!["default"@, "high-priority"@, "batch-processing"@, "background"@]
}

/// The status of a mock workflow from a roll below 100: payment workflows
/// fail about two times in three, the others follow a spread over all
/// statuses.
pub open spec fn status_for_roll(payment: bool, roll: int) -> WorkflowStatus {
    if payment {
        if roll <= 25 {
            WorkflowStatus::Completed
        } else if roll <= 35 {
            WorkflowStatus::Running
        } else {
            WorkflowStatus::Failed
        }
    } else if roll <= 40 {
        WorkflowStatus::Completed
    } else if roll <= 60 {
        WorkflowStatus::Running
    } else if roll <= 75 {
        WorkflowStatus::Failed
    } else if roll <= 85 {
        WorkflowStatus::Canceled
    } else if roll <= 92 {
        WorkflowStatus::Terminated
    } else if roll <= 97 {
        WorkflowStatus::TimedOut
    } else {
        WorkflowStatus::ContinuedAsNew
    }
}

/// The status of a mock workflow from a roll.
fn status_from_roll(payment: bool, roll: i64) -> (r: WorkflowStatus)
    ensures
        r == status_for_roll(payment, roll as int),
{
    if payment {
        if roll <= 25 {
            WorkflowStatus::Completed
        } else if roll <= 35 {
            WorkflowStatus::Running
        } else {
            WorkflowStatus::Failed
        }
    } else if roll <= 40 {
        WorkflowStatus::Completed
    } else if roll <= 60 {
        WorkflowStatus::Running
    } else if roll <= 75 {
        WorkflowStatus::Failed
    } else if roll <= 85 {
        WorkflowStatus::Canceled
    } else if roll <= 92 {
        WorkflowStatus::Terminated
    } else if roll <= 97 {
        WorkflowStatus::TimedOut
    } else {
        WorkflowStatus::ContinuedAsNew
    }
}

/// The type name at a position of `mock_types`.
fn mock_type(k: usize) -> (r: &'static str)
    requires
        k < 7,
    ensures
        r@ == mock_types()[k as int],
{
    if k == 0 { "EmailGenerationWorkflow" } else if k == 1 { "DataProcessingWorkflow" }
    else if k == 2 { "UserOnboardingWorkflow" } else if k == 3 { "ReportGenerationWorkflow" }
    else if k == 4 { "NotificationWorkflow" } else if k == 5 { "PaymentProcessingWorkflow" }
    else { "InventoryUpdateWorkflow" }
}

/// The id prefix at a position of `mock_id_prefixes`.
fn mock_id_prefix(k: usize) -> (r: &'static str)
    requires
        k < 7,
    ensures
        r@ == mock_id_prefixes()[k as int],
{
    if k == 0 { "emailgeneration" } else if k == 1 { "dataprocessing" } else if k == 2 { "useronboarding" }
    else if k == 3 { "reportgeneration" } else if k == 4 { "notification" } else if k == 5 { "paymentprocessing" }
    else { "inventoryupdate" }
}

/// The queue name at a position of `mock_queues`.
fn mock_queue(k: usize) -> (r: &'static str)
    requires
        k < 4,
    ensures
        r@ == mock_queues()[k as int],
{
    if k == 0 { "default" } else if k == 1 { "high-priority" } else if k == 2 { "batch-processing" } else { "background" }
}

/// Start times far enough from the ends of `i64` for the history offsets.
pub open spec fn mock_times_fit(ws: Seq<WorkflowSummary>) -> bool {
    forall|i: int| 0 <= i < ws.len() ==> -4_000_000_000_000_000_000 <= #[trigger] ws[i].start_time <= 4_000_000_000_000_000_000
}

/// Every mock workflow: of a mock type, in a mock queue, closed unless it
/// runs (closed between one and sixty minutes after it started), started
/// at most a week before `now`.
pub open spec fn mock_workflow_ok(w: WorkflowSummary, now: i64) -> bool {
    &&& mock_types().contains(w.workflow_type@)
    &&& mock_queues().contains(w.task_queue@)
    &&& (w.close_time is None <==> w.status == WorkflowStatus::Running)
    &&& (w.close_time matches Some(c) ==> w.start_time + 60_000 <= c < w.start_time + 3_600_000)
    &&& now - 604_800_000 < w.start_time <= now
}

impl MockTemporalClient {
    /// An empty client that answers after 50 ms.
    pub fn new() -> (r: MockTemporalClient)
        ensures
            r.workflows@.len() == 0,
            r.details@.len() == 0,
            !r.should_fail,
            r.latency_ms == 50,
    {
        MockTemporalClient { workflows: Vec::new(), details: Vec::new(), should_fail: false, latency_ms: 50 }
    }

    /// A client serving the given workflows.
    pub fn with_workflows(workflows: Vec<WorkflowSummary>) -> (r: MockTemporalClient)
        ensures
            r.workflows == workflows,
            r.details@.len() == 0,
            !r.should_fail,
            r.latency_ms == 50,
    {
        let mut client = MockTemporalClient::new();
        client.workflows = workflows;
        client
    }

    /// The same client answering after `latency_ms`.
    pub fn with_latency(self, latency_ms: u64) -> (r: MockTemporalClient)
        ensures
            r == (MockTemporalClient { latency_ms, ..self }),
    {
        MockTemporalClient { latency_ms, ..self }
    }

    /// The same client failing every call.
    pub fn with_failure(self) -> (r: MockTemporalClient)
        ensures
            r == (MockTemporalClient { should_fail: true, ..self }),
    {
        MockTemporalClient { should_fail: true, ..self }
    }

    /// The error every call gives when the client is set to fail.
    pub fn check_failure(&self) -> (r: Result<(), ClientError>)
        ensures
            self.should_fail ==> (r matches Err(ClientError::ConnectionError(m)) && m@ == "Mock failure"@),
            !self.should_fail ==> r is Ok,
    {
        if self.should_fail {
            Err(ClientError::ConnectionError("Mock failure".to_owned()))
        } else {
            Ok(())
        }
    }
}

/// The random values one mock workflow is made from: its kind (an index
/// into the workflow types), a roll below 100 for its status, a queue
/// index, how far back it started (hours for a running data-processing
/// workflow, else minutes), how many minutes it ran when closed, and the
/// number closing its run id.
#[derive(Debug, Clone, Copy)]
pub struct MockWorkflowDraws {
    pub kind: usize,
    pub roll: i64,
    pub queue: usize,
    pub offset: i64,
    pub minutes: i64,
    pub run_suffix: u32,
}

/// The draws fit the ranges they are drawn from.
pub open spec fn draws_ok(d: MockWorkflowDraws) -> bool {
    let running = status_for_roll(d.kind == 5, d.roll as int) == WorkflowStatus::Running;
    &&& d.kind < 7
    &&& 0 <= d.roll < 100
    &&& d.queue < 4
    &&& (if running && d.kind == 1 { 3 <= d.offset < 9 } else { 0 <= d.offset < 10080 })
    &&& 1 <= d.minutes < 60
}

/// `w` is mock workflow number `i` made at `now` from the draws `d`: the
/// kind's type and id prefix, the status the roll gives, the batch queue
/// for a running data-processing workflow and the drawn queue otherwise,
/// a start `offset` hours (running data processing) or minutes back, and,
/// unless running, a close `minutes` later.
pub open spec fn mock_workflow_made(w: WorkflowSummary, i: usize, now: i64, d: MockWorkflowDraws) -> bool {
    let status = status_for_roll(d.kind == 5, d.roll as int);
    let running = status == WorkflowStatus::Running;
    let long = running && d.kind == 1;
    &&& w.workflow_type@ == mock_types()[d.kind as int]
    &&& w.workflow_id@ == mock_id_prefixes()[d.kind as int] + "-"@ + dec(i as nat)
    &&& w.run_id@ == "run-"@ + dec(i as nat) + "-"@ + dec(d.run_suffix as nat)
    &&& w.status == status
    &&& w.task_queue@ == mock_queues()[if long { 2 } else { d.queue as int }]
    &&& w.start_time == now - (if long { d.offset * 3_600_000 } else { d.offset * 60_000 })
    &&& w.close_time == (if running { None } else { Some((w.start_time + d.minutes * 60_000) as i64) })
}

/// Mock workflow number `i` as of `now`, made from drawn values.
pub fn mock_workflow_from(i: usize, now: i64, d: MockWorkflowDraws) -> (r: WorkflowSummary)
    requires
        crate::model::time_ok(now),
        draws_ok(d),
    ensures
        mock_workflow_made(r, i, now, d),
        mock_workflow_ok(r, now),
{
    let t = d.kind;
    let wf_type = mock_type(t);
    let status = status_from_roll(t == 5, d.roll);
    let running = match status {
        WorkflowStatus::Running => true,
        _ => false,
    };
    let long = running && t == 1;
    let q: usize = if long { 2 } else { d.queue };
    let offset_ms: i64 = if long { d.offset * 3_600_000 } else { d.offset * 60_000 };
    let start_time = now - offset_ms;
    let close_time = if running { None } else { Some(start_time + d.minutes * 60_000) };
    let mut id: Vec<char> = Vec::new();
    push_str(&mut id, mock_id_prefix(t));
    push_str(&mut id, "-");
    push_dec(&mut id, i as u64);
    let mut run: Vec<char> = Vec::new();
    push_str(&mut run, "run-");
    push_dec(&mut run, i as u64);
    push_str(&mut run, "-");
    push_dec(&mut run, d.run_suffix as u64);
    let r = WorkflowSummary {
        workflow_id: string_of(&id),
        run_id: string_of(&run),
        workflow_type: wf_type.to_owned(),
        status,
        start_time,
        close_time,
        task_queue: mock_queue(q).to_owned(),
    };
    assert(r.workflow_id@ =~= mock_id_prefixes()[t as int] + "-"@ + dec(i as nat));
    assert(r.run_id@ =~= "run-"@ + dec(i as nat) + "-"@ + dec(d.run_suffix as nat));
    assert(mock_types()[t as int] == r.workflow_type@);
    assert(mock_queues()[q as int] == r.task_queue@);
    r
}

/// One mock workflow number `i`, from fresh random draws.
fn mock_workflow(i: usize, now: i64) -> (r: WorkflowSummary)
    requires
        crate::model::time_ok(now),
    ensures
        mock_workflow_ok(r, now),
{
    let kind = random_in(0, 7) as usize;
    let roll = random_in(0, 100);
    let running = match status_from_roll(kind == 5, roll) {
        WorkflowStatus::Running => true,
        _ => false,
    };
    let long = running && kind == 1;
    let queue: usize = if long { 0 } else { random_in(0, 4) as usize };
    let offset: i64 = if long { random_in(3, 9) } else { random_in(0, 10080) };
    let minutes: i64 = if running { 1 } else { random_in(1, 60) };
    let run_suffix = random_u32();
    mock_workflow_from(i, now, MockWorkflowDraws { kind, roll, queue, offset, minutes, run_suffix })
}

impl MockTemporalClient {
    /// A client serving `count` random workflows as of `now`, most recent
    /// first. Payment workflows fail often, running data-processing
    /// workflows sit in the batch queue for three to eight hours.
    pub fn with_random_data_at(count: usize, now: i64) -> (r: MockTemporalClient)
        requires
            crate::model::time_ok(now),
        ensures
            r.workflows@.len() == count,
            forall|i: int| 0 <= i < count ==> mock_workflow_ok(#[trigger] r.workflows@[i], now),
            forall|i: int, j: int| 0 <= i < j < count ==> r.workflows@[i].start_time >= r.workflows@[j].start_time,
            mock_times_fit(r.workflows@),
            r.details@.len() == 0,
            !r.should_fail,
            r.latency_ms == 50,
    {
        let mut ws: Vec<WorkflowSummary> = Vec::new();
        let mut i: usize = 0;
        while i < count
            invariant
                crate::model::time_ok(now),
                i <= count,
                ws@.len() == i,
                forall|k: int| 0 <= k < i ==> mock_workflow_ok(#[trigger] ws@[k], now),
            decreases count - i,
        {
            ws.push(mock_workflow(i, now));
            i = i + 1;
        }
        let mut keys: Vec<i128> = Vec::new();
        let mut k: usize = 0;
        while k < ws.len()
            invariant
                k <= ws@.len(),
                keys@.len() == k,
                forall|x: int| 0 <= x < k ==> keys@[x] == -(ws@[x].start_time as int),
            decreases ws.len() - k,
        {
            keys.push(-(ws[k].start_time as i128));
            k = k + 1;
        }
        let p = stable_order_asc(&keys);
        let ghost before = ws@;
        let sorted = permute(ws, &keys, &p);
        assert forall|i: int, j: int| 0 <= i < j < count implies sorted@[i].start_time >= sorted@[j].start_time by {
            assert(crate::order::key_before(keys@[p@[i] as int] as int, p@[i] as int, keys@[p@[j] as int] as int, p@[j] as int));
        }
        MockTemporalClient::with_workflows(sorted)
    }

    /// A client serving `count` random workflows as of now.
    pub fn with_random_data(count: usize) -> (r: MockTemporalClient)
        ensures
            r.workflows@.len() == count,
            mock_times_fit(r.workflows@),
            r.details@.len() == 0,
            !r.should_fail,
    {
        let now = crate::clock::now_ms();
        MockTemporalClient::with_random_data_at(count, now)
    }
}

/// The status whose upper-cased query value an upper-cased query holds,
/// trying the statuses in display order.
pub open spec fn status_in_upper(u: Seq<char>) -> Option<WorkflowStatus> {
    if contains_seq(u, "RUNNING"@) {
        Some(WorkflowStatus::Running)
    } else if contains_seq(u, "COMPLETED"@) {
        Some(WorkflowStatus::Completed)
    } else if contains_seq(u, "FAILED"@) {
        Some(WorkflowStatus::Failed)
    } else if contains_seq(u, "CANCELED"@) {
        Some(WorkflowStatus::Canceled)
    } else if contains_seq(u, "TERMINATED"@) {
        Some(WorkflowStatus::Terminated)
    } else if contains_seq(u, "TIMEDOUT"@) {
        Some(WorkflowStatus::TimedOut)
    } else if contains_seq(u, "CONTINUEDASNEW"@) {
        Some(WorkflowStatus::ContinuedAsNew)
    } else {
        None
    }
}

/// What the mock counts for a query: without one, or for a query that
/// names no `ExecutionStatus=`, every workflow; else the workflows of the
/// status the query names (upper case is ignored), none when it names none.
pub open spec fn mock_count_of(ws: Seq<WorkflowSummary>, query: Option<Seq<char>>) -> nat {
    match query {
        Some(q) => if contains_seq(upper_of(q), "EXECUTIONSTATUS="@) {
            match status_in_upper(upper_of(q)) {
                Some(s) => count_status(ws, s),
                None => 0,
            }
        } else {
            ws.len()
        },
        None => ws.len(),
    }
}

/// The workflow passes the filter as the mock applies it: status, type,
/// id prefix, and start time strictly inside the bounds.
pub open spec fn mock_keeps(f: WorkflowFilter, w: WorkflowSummary) -> bool {
    &&& (f.status matches Some(s) ==> w.status == s)
    &&& (f.workflow_type matches Some(t) ==> w.workflow_type@ == t@)
    &&& (f.workflow_id_prefix matches Some(p) ==> starts_with_seq(w.workflow_id@, p@))
    &&& (f.start_time_after matches Some(a) ==> w.start_time > a)
    &&& (f.start_time_before matches Some(b) ==> w.start_time < b)
}

/// The workflows the mock lists: those that pass the filter, in order, at
/// most `limit` of them.
pub open spec fn mock_listed(ws: Seq<WorkflowSummary>, f: WorkflowFilter, limit: u32) -> Seq<WorkflowSummary> {
    let kept = ws.filter(|w: WorkflowSummary| mock_keeps(f, w));
    kept.take(if limit < kept.len() { limit as int } else { kept.len() as int })
}

/// A workflow with the given id is among `ws`.
pub open spec fn has_workflow(ws: Seq<WorkflowSummary>, id: Seq<char>) -> bool {
    exists|i: int| 0 <= i < ws.len() && (#[trigger] ws[i]).workflow_id@ == id
}

/// `v` is an object of one member `key` holding the text `value`.
pub open spec fn one_text_member(v: Option<JsonValue>, key: Seq<char>, value: Seq<char>) -> bool {
    v matches Some(JsonValue::Object(ms)) && ms@.len() == 1 && ms@[0].0@ == key
        && (ms@[0].1 matches JsonValue::String(t) && t@ == value)
}

/// `r` is a copy of the stored detail `d`.
pub open spec fn same_detail(r: WorkflowDetail, d: WorkflowDetail) -> bool {
    &&& r.summary == d.summary
    &&& same_json_opt(r.input, d.input)
    &&& same_json_opt(r.output, d.output)
    &&& r.failure == d.failure
    &&& r.history_length == d.history_length
    &&& r.memo@.len() == d.memo@.len()
    &&& (forall|i: int| 0 <= i < r.memo@.len() ==> (#[trigger] r.memo@[i]).0@ == d.memo@[i].0@)
    &&& (forall|i: int| 0 <= i < r.memo@.len() ==> same_json(#[trigger] r.memo@[i].1, d.memo@[i].1))
    &&& r.search_attributes@.len() == d.search_attributes@.len()
    &&& (forall|i: int| 0 <= i < r.search_attributes@.len() ==> (#[trigger] r.search_attributes@[i]).0@
        == d.search_attributes@[i].0@)
    &&& (forall|i: int| 0 <= i < r.search_attributes@.len() ==> same_json(#[trigger] r.search_attributes@[i].1,
        d.search_attributes@[i].1))
}

/// The detail the mock makes up for a workflow: a mock input and output,
/// 42 events, and for a failed workflow a mock failure.
pub open spec fn made_up_detail(r: WorkflowDetail, w: WorkflowSummary) -> bool {
    &&& r.summary == w
    &&& one_text_member(r.input, "mockInput"@, "value"@)
    &&& one_text_member(r.output, "mockOutput"@, "result"@)
    &&& r.history_length == 42
    &&& r.memo@.len() == 0
    &&& r.search_attributes@.len() == 0
    &&& if w.status == WorkflowStatus::Failed {
        r.failure matches Some(f) && f.message@ == "Mock failure message for testing"@
            && f.failure_type@ == "ApplicationError"@
            && (f.stack_trace matches Some(t) && t@ == "at mock.stack.trace\n  at line 42"@)
            && f.cause is None
    } else {
        r.failure is None
    }
}

/// A copy of a failure and its causes.
fn copy_failure(f: &FailureInfo) -> (r: FailureInfo)
    ensures
        r == *f,
    decreases f,
{
    FailureInfo {
        message: f.message.clone(),
        failure_type: f.failure_type.clone(),
        stack_trace: match &f.stack_trace {
            Some(t) => Some(t.clone()),
            None => None,
        },
        cause: match &f.cause {
            Some(c) => Some(Box::new(copy_failure(c))),
            None => None,
        },
    }
}

/// A copy of named JSON values.
fn copy_members(ms: &Vec<(String, JsonValue)>) -> (r: Vec<(String, JsonValue)>)
    ensures
        r@.len() == ms@.len(),
        forall|k: int| 0 <= k < r@.len() ==> (#[trigger] r@[k]).0@ == ms@[k].0@,
        forall|k: int| 0 <= k < r@.len() ==> same_json(#[trigger] r@[k].1, ms@[k].1),
{
    let mut r: Vec<(String, JsonValue)> = Vec::new();
    let mut i: usize = 0;
    while i < ms.len()
        invariant
            i <= ms@.len(),
            r@.len() == i,
            forall|k: int| 0 <= k < i ==> (#[trigger] r@[k]).0@ == ms@[k].0@,
            forall|k: int| 0 <= k < i ==> same_json(#[trigger] r@[k].1, ms@[k].1),
        decreases ms.len() - i,
    {
        let value = clone_json(&ms[i].1);
        let key = ms[i].0.clone();
        let ghost before = r@;
        r.push((key, value));
        assert forall|k: int| 0 <= k < i + 1 implies same_json(#[trigger] r@[k].1, ms@[k].1) by {
            if k < i {
                assert(r@[k] == before[k]);
                assert(same_json(before[k].1, ms@[k].1));
            }
        }
        i = i + 1;
    }
    r
}

/// A copy of a JSON value that may be absent.
fn copy_opt_json(v: &Option<JsonValue>) -> (r: Option<JsonValue>)
    ensures
        same_json_opt(r, *v),
{
    match v {
        Some(j) => Some(clone_json(j)),
        None => None,
    }
}

/// A copy of a stored detail.
fn copy_detail(d: &WorkflowDetail) -> (r: WorkflowDetail)
    ensures
        same_detail(r, *d),
{
    WorkflowDetail {
        summary: copy_summary(&d.summary),
        input: copy_opt_json(&d.input),
        output: copy_opt_json(&d.output),
        failure: match &d.failure {
            Some(f) => Some(copy_failure(f)),
            None => None,
        },
        history_length: d.history_length,
        memo: copy_members(&d.memo),
        search_attributes: copy_members(&d.search_attributes),
    }
}

/// An object of one member holding a text.
fn text_object(key: &str, value: &str) -> (r: JsonValue)
    ensures
        one_text_member(Some(r), key@, value@),
{
    JsonValue::Object(vec![(key.to_owned(), JsonValue::String(value.to_owned()))])
}

/// The first position of a workflow with the given id.
fn find_workflow(ws: &Vec<WorkflowSummary>, id: &str) -> (r: Option<usize>)
    ensures
        match r {
            Some(i) => i < ws@.len() && ws@[i as int].workflow_id@ == id@
                && forall|k: int| 0 <= k < i ==> ws@[k].workflow_id@ != id@,
            None => !has_workflow(ws@, id@),
        },
{
    let mut i: usize = 0;
    while i < ws.len()
        invariant
            i <= ws@.len(),
            forall|k: int| 0 <= k < i ==> ws@[k].workflow_id@ != id@,
        decreases ws.len() - i,
    {
        if eq_str(&chars_of(ws[i].workflow_id.as_str()), id) {
            return Some(i);
        }
        i = i + 1;
    }
    None
}

/// The position of the first stored detail with the given key.
fn find_detail(ds: &Vec<(String, WorkflowDetail)>, id: &str) -> (r: Option<usize>)
    ensures
        match r {
            Some(i) => i < ds@.len() && ds@[i as int].0@ == id@ && forall|k: int| 0 <= k < i ==> ds@[k].0@ != id@,
            None => forall|k: int| 0 <= k < ds@.len() ==> ds@[k].0@ != id@,
        },
{
    let mut i: usize = 0;
    while i < ds.len()
        invariant
            i <= ds@.len(),
            forall|k: int| 0 <= k < i ==> ds@[k].0@ != id@,
        decreases ds.len() - i,
    {
        if eq_str(&chars_of(ds[i].0.as_str()), id) {
            return Some(i);
        }
        i = i + 1;
    }
    None
}

impl MockTemporalClient {
    /// Counts the workflows a query selects (see `mock_count_of`).
    pub fn count(&self, query: Option<&str>) -> (r: Result<u64, ClientError>)
        ensures
            self.should_fail ==> r is Err,
            !self.should_fail ==> r == Ok::<u64, ClientError>(mock_count_of(self.workflows@,
                match query { Some(q) => Some(q@), None => None }) as u64),
    {
        match self.check_failure() {
            Err(e) => return Err(e),
            Ok(()) => {},
        }
        let all = self.workflows.len() as u64;
        let q = match query {
            Some(q) => q,
            None => return Ok(all),
        };
        let upper = chars_of(to_upper(q).as_str());
        if !contains(&upper, &chars_of("EXECUTIONSTATUS=")) {
            return Ok(all);
        }
        let status = if contains(&upper, &chars_of("RUNNING")) {
            WorkflowStatus::Running
        } else if contains(&upper, &chars_of("COMPLETED")) {
            WorkflowStatus::Completed
        } else if contains(&upper, &chars_of("FAILED")) {
            WorkflowStatus::Failed
        } else if contains(&upper, &chars_of("CANCELED")) {
            WorkflowStatus::Canceled
        } else if contains(&upper, &chars_of("TERMINATED")) {
            WorkflowStatus::Terminated
        } else if contains(&upper, &chars_of("TIMEDOUT")) {
            WorkflowStatus::TimedOut
        } else if contains(&upper, &chars_of("CONTINUEDASNEW")) {
            WorkflowStatus::ContinuedAsNew
        } else {
            return Ok(0);
        };
        let ws = &self.workflows;
        let mut n: u64 = 0;
        let mut i: usize = 0;
        while i < ws.len()
            invariant
                i <= ws@.len(),
                n == count_status(ws@.take(i as int), status),
                n <= i,
            decreases ws.len() - i,
        {
            assert(ws@.take(i + 1).drop_last() =~= ws@.take(i as int));
            if ws[i].status == status {
                n = n + 1;
            }
            i = i + 1;
        }
        assert(ws@.take(ws@.len() as int) =~= ws@);
        Ok(n)
    }

    /// Lists the workflows that pass the filter, at most `limit`.
    pub fn list(&self, filter: &WorkflowFilter, limit: u32) -> (r: Result<Vec<WorkflowSummary>, ClientError>)
        ensures
            self.should_fail ==> r is Err,
            !self.should_fail ==> (r matches Ok(v) && v@ == mock_listed(self.workflows@, *filter, limit)),
    {
        match self.check_failure() {
            Err(e) => return Err(e),
            Ok(()) => {},
        }
        let ws = &self.workflows;
        let ghost keep = |w: WorkflowSummary| mock_keeps(*filter, w);
        let prefix: Option<Vec<char>> = match &filter.workflow_id_prefix {
            Some(p) => Some(chars_of(p.as_str())),
            None => None,
        };
        let mut out: Vec<WorkflowSummary> = Vec::new();
        let mut i: usize = 0;
        while i < ws.len()
            invariant
                i <= ws@.len(),
                keep == (|w: WorkflowSummary| mock_keeps(*filter, w)),
                match filter.workflow_id_prefix { Some(p) => prefix matches Some(v) && v@ == p@, None => prefix is None },
                out@ == { let k = ws@.take(i as int).filter(keep); k.take(if limit < k.len() { limit as int } else { k.len() as int }) },
            decreases ws.len() - i,
        {
            let w = &ws[i];
            let ghost prev = ws@.take(i as int).filter(keep);
            let ghost next = ws@.take(i + 1).filter(keep);
            proof {
                assert(ws@.take(i + 1).drop_last() =~= ws@.take(i as int));
                assert(ws@.take(i + 1).last() == *w);
                reveal(Seq::filter);
                assert(next == if keep(*w) { prev.push(*w) } else { prev });
            }
            let status_ok = match filter.status {
                Some(s) => w.status == s,
                None => true,
            };
            let type_ok = match &filter.workflow_type {
                Some(t) => eq_str(&chars_of(w.workflow_type.as_str()), t.as_str()),
                None => true,
            };
            let prefix_ok = match &prefix {
                Some(p) => occurs_at_exec(&chars_of(w.workflow_id.as_str()), p, 0),
                None => true,
            };
            let after_ok = match filter.start_time_after {
                Some(a) => w.start_time > a,
                None => true,
            };
            let before_ok = match filter.start_time_before {
                Some(b) => w.start_time < b,
                None => true,
            };
            let kept = status_ok && type_ok && prefix_ok && after_ok && before_ok;
            assert(kept == keep(*w));
            if kept && (out.len() as u64) < (limit as u64) {
                out.push(copy_summary(w));
                assert(next.take(if limit < next.len() { limit as int } else { next.len() as int })
                    =~= prev.take(if limit < prev.len() { limit as int } else { prev.len() as int }).push(*w));
            } else {
                assert(next.take(if limit < next.len() { limit as int } else { next.len() as int })
                    =~= prev.take(if limit < prev.len() { limit as int } else { prev.len() as int }));
            }
            i = i + 1;
        }
        assert(ws@.take(ws@.len() as int) =~= ws@);
        Ok(out)
    }

    /// The detail of a workflow: a stored one when there is one for the id,
    /// else one made up for the first workflow with the id; `NotFound`
    /// when there is neither.
    pub fn describe(&self, workflow_id: &str, run_id: Option<&str>) -> (r: Result<WorkflowDetail, ClientError>)
        ensures
            self.should_fail ==> r is Err,
            !self.should_fail ==> match r {
                Ok(d) => (exists|i: int| 0 <= i < self.details@.len() && self.details@[i].0@ == workflow_id@
                        && (forall|k: int| 0 <= k < i ==> self.details@[k].0@ != workflow_id@)
                        && #[trigger] same_detail(d, self.details@[i].1))
                    || ((forall|k: int| 0 <= k < self.details@.len() ==> self.details@[k].0@ != workflow_id@)
                        && exists|i: int| 0 <= i < self.workflows@.len() && self.workflows@[i].workflow_id@ == workflow_id@
                        && (forall|k: int| 0 <= k < i ==> self.workflows@[k].workflow_id@ != workflow_id@)
                        && #[trigger] made_up_detail(d, self.workflows@[i])),
                Err(e) => (forall|k: int| 0 <= k < self.details@.len() ==> self.details@[k].0@ != workflow_id@)
                    && !has_workflow(self.workflows@, workflow_id@)
                    && (e matches ClientError::NotFound(m) && m@ == workflow_id@),
            },
            (forall|k: int| 0 <= k < self.details@.len() ==> self.details@[k].0@ != workflow_id@)
                && has_workflow(self.workflows@, workflow_id@) && !self.should_fail ==> r is Ok,
            (exists|k: int| 0 <= k < self.details@.len() && self.details@[k].0@ == workflow_id@) && !self.should_fail
                ==> r is Ok,
    {
        match self.check_failure() {
            Err(e) => return Err(e),
            Ok(()) => {},
        }
        match find_detail(&self.details, workflow_id) {
            Some(i) => {
                let d = copy_detail(&self.details[i].1);
                assert(same_detail(d, self.details@[i as int].1));
                return Ok(d);
            },
            None => {},
        }
        let i = match find_workflow(&self.workflows, workflow_id) {
            Some(i) => i,
            None => return Err(ClientError::NotFound(workflow_id.to_owned())),
        };
        let summary = copy_summary(&self.workflows[i]);
        let failure = match summary.status {
            WorkflowStatus::Failed => Some(FailureInfo {
                message: "Mock failure message for testing".to_owned(),
                failure_type: "ApplicationError".to_owned(),
                stack_trace: Some("at mock.stack.trace\n  at line 42".to_owned()),
                cause: None,
            }),
            _ => None,
        };
        let d = WorkflowDetail {
            summary,
            input: Some(text_object("mockInput", "value")),
            output: Some(text_object("mockOutput", "result")),
            failure,
            history_length: 42,
            memo: Vec::new(),
            search_attributes: Vec::new(),
        };
        assert(made_up_detail(d, self.workflows@[i as int]));
        Ok(d)
    }

    /// Checks that a workflow can be cancelled: `NotFound` when no workflow
    /// has the id.
    pub fn cancel(&self, workflow_id: &str, run_id: Option<&str>) -> (r: Result<(), ClientError>)
        ensures
            self.should_fail ==> r is Err,
            !self.should_fail ==> (r is Ok <==> has_workflow(self.workflows@, workflow_id@)),
            !self.should_fail && r is Err ==> (r matches Err(ClientError::NotFound(m)) && m@ == workflow_id@),
    {
        match self.check_failure() {
            Err(e) => return Err(e),
            Ok(()) => {},
        }
        match find_workflow(&self.workflows, workflow_id) {
            Some(_) => Ok(()),
            None => Err(ClientError::NotFound(workflow_id.to_owned())),
        }
    }

    /// Checks that a workflow can be terminated: `NotFound` when no
    /// workflow has the id.
    pub fn terminate(&self, workflow_id: &str, run_id: Option<&str>, reason: &str) -> (r: Result<(), ClientError>)
        ensures
            self.should_fail ==> r is Err,
            !self.should_fail ==> (r is Ok <==> has_workflow(self.workflows@, workflow_id@)),
            !self.should_fail && r is Err ==> (r matches Err(ClientError::NotFound(m)) && m@ == workflow_id@),
    {
        self.cancel(workflow_id, run_id)
    }
}

/// The event types that mock histories hold.
pub open spec fn mock_event_type(t: Seq<char>) -> bool {
    ||| t == "WorkflowExecutionStarted"@
    ||| t == "WorkflowTaskScheduled"@
    ||| t == "WorkflowTaskStarted"@
    ||| t == "WorkflowTaskCompleted"@
    ||| t == "ActivityTaskScheduled"@
    ||| t == "ActivityTaskStarted"@
    ||| t == "ActivityTaskCompleted"@
    ||| t == "ActivityTaskFailed"@
    ||| t == "ActivityTaskTimedOut"@
    ||| t == "ActivityTaskCanceled"@
    ||| t == "WorkflowExecutionSignaled"@
}

/// Events numbered from 1 in order, of mock types, timed from `start` to
/// at most 400 seconds after it.
pub open spec fn events_shaped(es: Seq<HistoryEvent>, start: i64) -> bool {
    forall|i: int| #![trigger es[i]] 0 <= i < es.len() ==> es[i].event_id == i + 1 && mock_event_type(es[i].event_type@)
        && start <= es[i].timestamp <= start + 400_000
}

/// An activity event after the scheduling: started, completed, failed,
/// timed out or cancelled.
pub open spec fn is_linked_type(t: Seq<char>) -> bool {
    ||| t == "ActivityTaskStarted"@
    ||| t == "ActivityTaskCompleted"@
    ||| t == "ActivityTaskFailed"@
    ||| t == "ActivityTaskTimedOut"@
    ||| t == "ActivityTaskCanceled"@
}

/// An activity scheduling event.
pub open spec fn is_scheduled_ev(e: HistoryEvent) -> bool {
    e.event_type@ == "ActivityTaskScheduled"@
}

/// The activity scheduling events of a history, in order.
pub open spec fn scheduled_events(es: Seq<HistoryEvent>) -> Seq<HistoryEvent> {
    es.filter(|e: HistoryEvent| is_scheduled_ev(e))
}

/// The number in a detail's `scheduled_event_id`.
pub open spec fn sched_link(d: JsonValue) -> Option<i64> {
    json_i64(json_get(d, "scheduled_event_id"@))
}

/// The details name, as `scheduled_event_id`, an activity scheduling event
/// among `before` (events numbered from 1).
pub open spec fn link_ok(before: Seq<HistoryEvent>, d: JsonValue) -> bool {
    sched_link(d) matches Some(x) && 1 <= x <= before.len() && is_scheduled_ev(before[x - 1])
}

/// Every started or closed activity event names an earlier scheduling.
pub open spec fn links_ok(es: Seq<HistoryEvent>) -> bool {
    forall|i: int| 0 <= i < es.len() && is_linked_type(#[trigger] es[i].event_type@) ==> link_ok(es.take(i), es[i].details)
}

/// The activity types of the mock activities, in the order they cycle.
pub open spec fn mock_kinds() -> Seq<Seq<char>> {
    seq!["SendEmail"@, "ProcessPayment"@, "UpdateInventory"@, "GenerateReport"@, "ValidateInput"@]
}

/// Three to five activities are scheduled, the k-th of the k-th mock
/// activity type.
pub open spec fn activities_ok(es: Seq<HistoryEvent>) -> bool {
    let sched = scheduled_events(es);
    &&& 3 <= sched.len() <= 5
    &&& forall|k: int| 0 <= k < sched.len() ==> json_str(json_get(#[trigger] sched[k].details, "activity_type"@))
        == Some(mock_kinds()[k])
}

/// A decision latency the mock picks: 600 to 1499 ms for report
/// generation, 5 to 99 ms otherwise.
pub open spec fn decision_latency_ok(report: bool, lat: int) -> bool {
    if report { 600 <= lat < 1500 } else { 5 <= lat < 100 }
}

/// A mock history of workflow `w`: numbered events of mock types within
/// 400 seconds of its start; it opens with the execution start and the
/// first workflow task (scheduled at the start, started after half the
/// decision latency, completed after all of it, the latency being 600 to
/// 1499 ms for report generation and 5 to 99 ms otherwise); three to five
/// activities are scheduled, of the mock activity types in turn, and every
/// started or closed activity event names an earlier scheduling; a
/// notification workflow is signalled at least fifty times.
pub open spec fn mock_history_ok(es: Seq<HistoryEvent>, w: WorkflowSummary) -> bool {
    let report = w.workflow_type@ == "ReportGenerationWorkflow"@;
    &&& events_shaped(es, w.start_time)
    &&& activities_ok(es)
    &&& links_ok(es)
    &&& es.len() >= 10
    &&& es[0].event_type@ == "WorkflowExecutionStarted"@ && es[0].timestamp == w.start_time
    &&& es[1].event_type@ == "WorkflowTaskScheduled"@ && es[1].timestamp == w.start_time
    &&& es[2].event_type@ == "WorkflowTaskStarted"@
    &&& es[3].event_type@ == "WorkflowTaskCompleted"@
    &&& exists|lat: int| #[trigger] decision_latency_ok(report, lat)
        && es[2].timestamp == w.start_time + lat / 2 && es[3].timestamp == w.start_time + lat
    &&& w.workflow_type@ == "NotificationWorkflow"@ ==> es.len() >= 60
}

/// The parts of `mock_history_ok` give the whole.
proof fn lemma_history_ok(es: Seq<HistoryEvent>, w: WorkflowSummary, lat: int)
    requires
        events_shaped(es, w.start_time),
        activities_ok(es),
        links_ok(es),
        es.len() >= 10,
        es[0].event_type@ == "WorkflowExecutionStarted"@ && es[0].timestamp == w.start_time,
        es[1].event_type@ == "WorkflowTaskScheduled"@ && es[1].timestamp == w.start_time,
        es[2].event_type@ == "WorkflowTaskStarted"@,
        es[3].event_type@ == "WorkflowTaskCompleted"@,
        decision_latency_ok(w.workflow_type@ == "ReportGenerationWorkflow"@, lat),
        es[2].timestamp == w.start_time + lat / 2,
        es[3].timestamp == w.start_time + lat,
        w.workflow_type@ == "NotificationWorkflow"@ ==> es.len() >= 60,
    ensures
        mock_history_ok(es, w),
{
}

/// A JSON number.
fn jnum(n: i64) -> (r: JsonValue)
    ensures
        n >= 0 ==> r == JsonValue::Number(JsonNumber::PosInt(n as u64)),
        n < 0 ==> r == JsonValue::Number(JsonNumber::NegInt(n)),
{
    if n >= 0 {
        JsonValue::Number(JsonNumber::PosInt(n as u64))
    } else {
        JsonValue::Number(JsonNumber::NegInt(n))
    }
}

/// A JSON text.
fn jtext(t: &str) -> (r: JsonValue)
    ensures
        r matches JsonValue::String(x) && x@ == t@,
{
    JsonValue::String(t.to_owned())
}

/// A named JSON value.
fn member(k: &str, v: JsonValue) -> (r: (String, JsonValue))
    ensures
        r.0@ == k@,
        r.1 == v,
{
    (k.to_owned(), v)
}

/// `a` followed by `b`.
fn cat(a: &str, b: &str) -> (r: String)
    ensures
        r@ == a@ + b@,
{
    let mut t: Vec<char> = Vec::new();
    push_str(&mut t, a);
    push_str(&mut t, b);
    string_of(&t)
}

/// `a` followed by the decimal text of `n`.
fn cat_num(a: &str, n: u64) -> (r: String)
    ensures
        r@ == a@ + dec(n as nat),
{
    let mut t: Vec<char> = Vec::new();
    push_str(&mut t, a);
    push_dec(&mut t, n);
    string_of(&t)
}

/// The kinds of events that mock histories hold.
#[derive(Clone, Copy, PartialEq, Eq, Structural)]
pub enum EvKind {
    WfStarted,
    WtScheduled,
    WtStarted,
    WtCompleted,
    ActScheduled,
    ActStarted,
    ActCompleted,
    ActFailed,
    ActTimedOut,
    ActCanceled,
    Signaled,
}

/// The event type of a kind.
pub open spec fn kind_text(k: EvKind) -> Seq<char> {
    match k {
        EvKind::WfStarted => "WorkflowExecutionStarted"@,
        EvKind::WtScheduled => "WorkflowTaskScheduled"@,
        EvKind::WtStarted => "WorkflowTaskStarted"@,
        EvKind::WtCompleted => "WorkflowTaskCompleted"@,
        EvKind::ActScheduled => "ActivityTaskScheduled"@,
        EvKind::ActStarted => "ActivityTaskStarted"@,
        EvKind::ActCompleted => "ActivityTaskCompleted"@,
        EvKind::ActFailed => "ActivityTaskFailed"@,
        EvKind::ActTimedOut => "ActivityTaskTimedOut"@,
        EvKind::ActCanceled => "ActivityTaskCanceled"@,
        EvKind::Signaled => "WorkflowExecutionSignaled"@,
    }
}

/// The event type of a kind.
fn kind_str(k: EvKind) -> (r: &'static str)
    ensures
        r@ == kind_text(k),
{
    match k {
        EvKind::WfStarted => "WorkflowExecutionStarted",
        EvKind::WtScheduled => "WorkflowTaskScheduled",
        EvKind::WtStarted => "WorkflowTaskStarted",
        EvKind::WtCompleted => "WorkflowTaskCompleted",
        EvKind::ActScheduled => "ActivityTaskScheduled",
        EvKind::ActStarted => "ActivityTaskStarted",
        EvKind::ActCompleted => "ActivityTaskCompleted",
        EvKind::ActFailed => "ActivityTaskFailed",
        EvKind::ActTimedOut => "ActivityTaskTimedOut",
        EvKind::ActCanceled => "ActivityTaskCanceled",
        EvKind::Signaled => "WorkflowExecutionSignaled",
    }
}

/// An activity event after the scheduling: started or closed.
spec fn linked_kind(k: EvKind) -> bool {
    k == EvKind::ActStarted || k == EvKind::ActCompleted || k == EvKind::ActFailed || k == EvKind::ActTimedOut
        || k == EvKind::ActCanceled
}

/// Different kinds have different event types, and what the history
/// predicates say of a kind's type.
proof fn lemma_kind_text(k: EvKind)
    ensures
        mock_event_type(kind_text(k)),
        kind_text(k) == "ActivityTaskScheduled"@ <==> k == EvKind::ActScheduled,
        is_linked_type(kind_text(k)) <==> linked_kind(k),
{
    reveal_strlit("WorkflowExecutionStarted");
    reveal_strlit("WorkflowTaskScheduled");
    reveal_strlit("WorkflowTaskStarted");
    reveal_strlit("WorkflowTaskCompleted");
    reveal_strlit("ActivityTaskScheduled");
    reveal_strlit("ActivityTaskStarted");
    reveal_strlit("ActivityTaskCompleted");
    reveal_strlit("ActivityTaskFailed");
    reveal_strlit("ActivityTaskTimedOut");
    reveal_strlit("ActivityTaskCanceled");
    reveal_strlit("WorkflowExecutionSignaled");
    assert("WorkflowExecutionStarted"@.len() == 24 && "WorkflowExecutionStarted"@[0] == 'W');
    assert("WorkflowTaskScheduled"@.len() == 21 && "WorkflowTaskScheduled"@[0] == 'W' && "WorkflowTaskScheduled"@[12] == 'S');
    assert("WorkflowTaskStarted"@.len() == 19 && "WorkflowTaskStarted"@[0] == 'W');
    assert("WorkflowTaskCompleted"@.len() == 21 && "WorkflowTaskCompleted"@[0] == 'W' && "WorkflowTaskCompleted"@[12] == 'C');
    assert("ActivityTaskScheduled"@.len() == 21 && "ActivityTaskScheduled"@[0] == 'A' && "ActivityTaskScheduled"@[12] == 'S');
    assert("ActivityTaskStarted"@.len() == 19 && "ActivityTaskStarted"@[0] == 'A');
    assert("ActivityTaskCompleted"@.len() == 21 && "ActivityTaskCompleted"@[0] == 'A' && "ActivityTaskCompleted"@[12] == 'C');
    assert("ActivityTaskFailed"@.len() == 18);
    assert("ActivityTaskTimedOut"@.len() == 20 && "ActivityTaskTimedOut"@[12] == 'T');
    assert("ActivityTaskCanceled"@.len() == 20 && "ActivityTaskCanceled"@[12] == 'C');
    assert("WorkflowExecutionSignaled"@.len() == 25);
}

/// A push keeps the scheduled events, adding the new one when it is one,
/// and keeps the links when the new event's link is good.
#[verifier::spinoff_prover]
proof fn lemma_history_push(es: Seq<HistoryEvent>, e: HistoryEvent)
    ensures
        scheduled_events(es.push(e)) == if is_scheduled_ev(e) { scheduled_events(es).push(e) } else { scheduled_events(es) },
        links_ok(es) && (is_linked_type(e.event_type@) ==> link_ok(es, e.details)) ==> links_ok(es.push(e)),
{
    reveal(Seq::filter);
    assert(es.push(e).drop_last() =~= es);
    let t = es.push(e);
    if links_ok(es) && (is_linked_type(e.event_type@) ==> link_ok(es, e.details)) {
        assert forall|i: int| 0 <= i < t.len() && is_linked_type(#[trigger] t[i].event_type@) implies link_ok(t.take(i), t[i].details) by {
            if i < es.len() {
                assert(t.take(i) =~= es.take(i));
                assert(t[i] == es[i]);
            } else {
                assert(t.take(i) =~= es);
            }
        }
    }
}

/// Appends the next event.
fn push_event(events: &mut Vec<HistoryEvent>, start: i64, k: EvKind, ts: i64, details: JsonValue)
    requires
        events_shaped(old(events)@, start),
        old(events)@.len() < 100_000,
        start <= ts <= start + 400_000,
    ensures
        events_shaped(final(events)@, start),
        final(events)@.len() == old(events)@.len() + 1,
        final(events)@.take(old(events)@.len() as int) == old(events)@,
        final(events)@ == old(events)@.push(final(events)@.last()),
        final(events)@.last().event_type@ == kind_text(k),
        final(events)@.last().timestamp == ts,
        final(events)@.last().details == details,
        scheduled_events(final(events)@) == if k == EvKind::ActScheduled {
            scheduled_events(old(events)@).push(final(events)@.last())
        } else {
            scheduled_events(old(events)@)
        },
        links_ok(old(events)@) && (linked_kind(k) ==> link_ok(old(events)@, details)) ==> links_ok(final(events)@),
{
    proof {
        lemma_kind_text(k);
    }
    let id = (events.len() + 1) as i64;
    let ghost before = events@;
    events.push(HistoryEvent { event_id: id, event_type: kind_str(k).to_owned(), timestamp: ts, details });
    assert(events@.take(before.len() as int) =~= before);
    proof {
        lemma_history_push(before, events@.last());
    }
}

/// The details of activity `i`'s scheduling.
fn scheduled_details(i: usize, kind: &str) -> (r: JsonValue)
    requires
        i < 5,
    ensures
        json_str(json_get(r, "activity_type"@)) == Some(kind@),
{
    let input = JsonValue::Object(vec![member("data", JsonValue::String(cat("input-for-", kind)))]);
    let ms = vec![
        member("activity_id", JsonValue::String(cat_num("", (i + 1) as u64))),
        member("activity_type", jtext(kind)),
        member("input", input),
        member("task_queue", jtext("default")),
    ];
    proof {
        reveal_strlit("activity_id");
        reveal_strlit("activity_type");
        assert("activity_id"@[9] != "activity_type"@[9]);
        reveal_with_fuel(crate::json::member_value, 3);
        assert(ms@.drop_first()[0] == ms@[1]);
    }
    JsonValue::Object(ms)
}

/// Makes `scheduled_event_id` the link of details whose members before it
/// have other names.
proof fn lemma_link_member(ms: Seq<(String, JsonValue)>, k: int, sid: i64)
    requires
        0 <= k < ms.len(),
        ms[k].0@ == "scheduled_event_id"@,
        ms[k].1 == JsonValue::Number(JsonNumber::PosInt(sid as u64)),
        sid >= 1,
        forall|j: int| 0 <= j < k ==> ms[j].0@[0] != 's',
    ensures
        crate::json::member_value(ms, "scheduled_event_id"@) == Some(ms[k].1),
        json_i64(Some(ms[k].1)) == Some(sid),
    decreases k,
{
    reveal_strlit("scheduled_event_id");
    if k > 0 {
        assert(ms[0].0@ != "scheduled_event_id"@) by {
            assert(ms[0].0@[0] != "scheduled_event_id"@[0]);
        }
        let rest = ms.drop_first();
        assert forall|j: int| 0 <= j < k - 1 implies rest[j].0@[0] != 's' by {
            assert(rest[j] == ms[j + 1]);
        }
        lemma_link_member(rest, k - 1, sid);
    }
}

/// The details of a started activity.
fn started_details(attempt: i64, sid: i64) -> (r: JsonValue)
    requires
        sid >= 1,
        attempt >= 1,
    ensures
        sched_link(r) == Some(sid),
        json_i64(json_get(r, "attempt"@)) == Some(attempt),
{
    let ms = vec![
        member("attempt", jnum(attempt)),
        member("identity", jtext("mock-worker@host")),
        member("scheduled_event_id", jnum(sid)),
    ];
    proof {
        reveal_strlit("attempt");
        reveal_strlit("identity");
        lemma_link_member(ms@, 2, sid);
    }
    JsonValue::Object(ms)
}

/// The details of a closed activity: what comes before the link, the link,
/// and the started event.
fn closed_details(mut head: Vec<(String, JsonValue)>, sid: i64, started: i64) -> (r: JsonValue)
    requires
        sid >= 1,
        forall|j: int| 0 <= j < head@.len() ==> head@[j].0@[0] != 's',
    ensures
        sched_link(r) == Some(sid),
{
    let k = head.len();
    let ghost h = head@;
    head.push(member("scheduled_event_id", jnum(sid)));
    head.push(member("started_event_id", jnum(started)));
    proof {
        assert forall|j: int| 0 <= j < k implies head@[j].0@[0] != 's' by {
            assert(head@[j] == h[j]);
        }
        lemma_link_member(head@, k as int, sid);
    }
    JsonValue::Object(head)
}

/// Fresh random draws for mock activity `i` of `n`: pending or running only
/// as the last of a running workflow; batch-queue workflows wait longer in
/// the queue, and e-mail and payment activities retry more.
fn draw_activity(w: &WorkflowSummary, i: usize, n: usize) -> (d: ActivityDraws)
    requires
        i < n,
    ensures
        activity_draws_ok(d, w.status == WorkflowStatus::Running && i == n - 1),
{
    let chatty = i <= 1;
    let delay = random_in(1, 30);
    let running = match w.status {
        WorkflowStatus::Running => true,
        _ => false,
    };
    let outcome: i64 = if running && i == n - 1 {
        if random_ratio(1, 2) { 1 } else { 0 }
    } else {
        random_in(2, 6)
    };
    let mut queue_wait: i64 = 5;
    let mut attempt: i64 = 1;
    let mut run_ms: i64 = 100;
    let mut special = false;
    if outcome != 0 {
        let batch = eq_str(&chars_of(w.task_queue.as_str()), "batch-processing");
        queue_wait = if batch { random_in(800, 2500) } else { random_in(5, 200) };
        attempt = if outcome == 3 {
            if chatty { random_in(2, 6) } else { random_in(1, 4) }
        } else if chatty && random_ratio(3, 10) {
            random_in(2, 5)
        } else {
            1
        };
        if outcome != 1 {
            run_ms = random_in(100, 5000);
            if outcome == 2 {
                special = if i == 1 {
                    random_ratio(2, 5)
                } else if i == 0 {
                    random_ratio(3, 10)
                } else if i == 4 {
                    random_ratio(1, 4)
                } else {
                    false
                };
            }
        }
    }
    ActivityDraws { delay, outcome, queue_wait, attempt, run_ms, special }
}

/// The random values one mock activity is made from: the scheduling delay
/// in seconds, the outcome (0 pending, 1 running, 2 completed, 3 failed,
/// 4 timed out, 5 canceled), the queue wait and the run time in
/// milliseconds, the attempt number, and whether a completed activity
/// returns its kind's error-bearing result.
#[derive(Debug, Clone, Copy)]
pub struct ActivityDraws {
    pub delay: i64,
    pub outcome: i64,
    pub queue_wait: i64,
    pub attempt: i64,
    pub run_ms: i64,
    pub special: bool,
}

/// The draws fit the ranges they are drawn from: an activity still open
/// (pending or running) only as the last of a running workflow.
pub open spec fn activity_draws_ok(d: ActivityDraws, running_last: bool) -> bool {
    &&& 1 <= d.delay < 30
    &&& (if running_last { 0 <= d.outcome < 2 } else { 2 <= d.outcome < 6 })
    &&& 5 <= d.queue_wait < 2500
    &&& 1 <= d.attempt < 6
    &&& 100 <= d.run_ms < 5000
}

/// The kind of event that closes an activity with the given outcome.
pub open spec fn closing_kind(outcome: i64) -> EvKind {
    if outcome == 2 {
        EvKind::ActCompleted
    } else if outcome == 3 {
        EvKind::ActFailed
    } else if outcome == 4 {
        EvKind::ActTimedOut
    } else {
        EvKind::ActCanceled
    }
}

/// The events of mock activity `i` (of `n`) of a workflow, made from drawn
/// values: scheduled `delay + 10 i` seconds after the start; unless
/// pending, started `queue_wait` milliseconds later with the drawn attempt;
/// unless still running, closed `run_ms` milliseconds after that by the
/// event the outcome names.
pub fn push_activity_drawn(events: &mut Vec<HistoryEvent>, w: &WorkflowSummary, i: usize, n: usize, d: ActivityDraws)
    requires
        events_shaped(old(events)@, w.start_time),
        old(events)@.len() < 99_000,
        -4_000_000_000_000_000_000 <= w.start_time <= 4_000_000_000_000_000_000,
        i < n <= 5,
        activity_draws_ok(d, w.status == WorkflowStatus::Running && i == n - 1),
    ensures
        ({
            let e0 = old(events)@;
            let e = final(events)@;
            let k = e0.len() as int;
            let sched = w.start_time + (d.delay + 10 * i) * 1000;
            &&& events_shaped(e, w.start_time)
            &&& e.len() == k + if d.outcome == 0 { 1int } else if d.outcome == 1 { 2int } else { 3int }
            &&& e.take(k) == e0
            &&& e[k].event_type@ == "ActivityTaskScheduled"@
            &&& e[k].timestamp == sched
            &&& scheduled_events(e) == scheduled_events(e0).push(e[k])
            &&& json_str(json_get(e[k].details, "activity_type"@)) == Some(mock_kinds()[i as int])
            &&& (links_ok(e0) ==> links_ok(e))
            &&& d.outcome >= 1 ==> {
                &&& e[k + 1].event_type@ == "ActivityTaskStarted"@
                &&& e[k + 1].timestamp == sched + d.queue_wait
                &&& json_i64(json_get(e[k + 1].details, "attempt"@)) == Some(d.attempt)
                &&& sched_link(e[k + 1].details) == Some((k + 1) as i64)
            }
            &&& d.outcome >= 2 ==> {
                &&& e[k + 2].event_type@ == kind_text(closing_kind(d.outcome))
                &&& e[k + 2].timestamp == sched + d.queue_wait + d.run_ms
                &&& sched_link(e[k + 2].details) == Some((k + 1) as i64)
            }
        }),
{
    let ghost e0 = events@;
    let start = w.start_time;
    let kind: &str = if i == 0 { "SendEmail" } else if i == 1 { "ProcessPayment" } else if i == 2 { "UpdateInventory" }
        else if i == 3 { "GenerateReport" } else { "ValidateInput" };
    let chatty = i <= 1;
    let scheduled_id = (events.len() + 1) as i64;
    let sched_time = start + (d.delay + (i as i64) * 10) * 1000;
    assert(kind@ == mock_kinds()[i as int]);
    let details = scheduled_details(i, kind);
    push_event(events, start, EvKind::ActScheduled, sched_time, details);
    let ghost e1 = events@;
    assert(e1[e0.len() as int] == e1.last());
    proof {
        lemma_kind_text(EvKind::ActScheduled);
    }
    let running = match w.status {
        WorkflowStatus::Running => true,
        _ => false,
    };
    let outcome: i64 = d.outcome;
    if outcome == 0 {
        return;
    }
    let queue_wait = d.queue_wait;
    let start_time = sched_time + queue_wait;
    let attempt: i64 = d.attempt;
    let started = started_details(attempt, scheduled_id);
    assert(link_ok(e1, started));
    push_event(events, start, EvKind::ActStarted, start_time, started);
    let ghost e2 = events@;
    assert(e2.take(e0.len() as int) =~= e1.take(e0.len() as int));
    assert(e2[e0.len() as int] == e1[e0.len() as int]);
    assert(e2[e0.len() as int + 1] == e2.last());
    assert(scheduled_id == e0.len() + 1);
    let started_id = (events.len()) as i64;
    if outcome == 1 {
        return;
    }
    assert(e2[scheduled_id - 1] == e1[scheduled_id - 1]);
    let close_time = start_time + d.run_ms;
    if outcome == 2 {
        let result = if i == 1 && d.special {
            JsonValue::Object(vec![
                member("data", JsonValue::String(cat("result-", kind))),
                member("error", jtext("Payment gateway error: connection timeout after 30s")),
                member("retryable", JsonValue::Bool(true)),
                member("success", JsonValue::Bool(false)),
            ])
        } else if i == 0 && d.special {
            JsonValue::Object(vec![
                member("data", JsonValue::String(cat("result-", kind))),
                member("exception", jtext("SmtpException: relay access denied")),
                member("fallback", jtext("queued for retry")),
                member("sent", JsonValue::Bool(false)),
            ])
        } else if i == 4 && d.special {
            JsonValue::Object(vec![
                member("data", JsonValue::String(cat("result-", kind))),
                member("errors", JsonValue::Array(vec![
                    jtext("field 'email' failed validation"),
                    jtext("timeout checking external service"),
                ])),
                member("valid", JsonValue::Bool(false)),
            ])
        } else {
            JsonValue::Object(vec![
                member("data", JsonValue::String(cat("result-", kind))),
                member("success", JsonValue::Bool(true)),
            ])
        };
        let head = vec![member("identity", jtext("mock-worker@host")), member("result", result)];
        proof {
            reveal_strlit("identity");
            reveal_strlit("result");
        }
        let details = closed_details(head, scheduled_id, started_id);
        push_event(events, start, EvKind::ActCompleted, close_time, details);
    } else if outcome == 3 {
        let failure = JsonValue::Object(vec![
            member("failure_type", jtext("ApplicationFailure")),
            member("message", JsonValue::String(cat(kind, " failed: mock error"))),
            member("stack_trace", jtext("at mock.Worker.execute()\n  at line 42")),
        ]);
        let head = vec![member("failure", failure), member("identity", jtext("mock-worker@host"))];
        proof {
            reveal_strlit("identity");
            reveal_strlit("failure");
        }
        let details = closed_details(head, scheduled_id, started_id);
        push_event(events, start, EvKind::ActFailed, close_time, details);
    } else if outcome == 4 {
        let details = closed_details(Vec::new(), scheduled_id, started_id);
        push_event(events, start, EvKind::ActTimedOut, close_time, details);
    } else {
        let head = vec![member("identity", jtext("mock-worker@host"))];
        proof {
            reveal_strlit("identity");
        }
        let details = closed_details(head, scheduled_id, started_id);
        push_event(events, start, EvKind::ActCanceled, close_time, details);
    }
    let ghost e3 = events@;
    assert(e3.take(e0.len() as int) =~= e2.take(e0.len() as int));
    assert(e3[e0.len() as int] == e2[e0.len() as int]);
    assert(e3[e0.len() as int + 1] == e2[e0.len() as int + 1]);
    assert(e3[e0.len() as int + 2] == e3.last());
}

/// A later workflow task, made from drawn values: scheduled `delay`
/// seconds after the start, started and completed after half and all of
/// the decision latency.
pub fn push_workflow_task_drawn(events: &mut Vec<HistoryEvent>, w: &WorkflowSummary, report: bool, delay: i64, latency: i64)
    requires
        events_shaped(old(events)@, w.start_time),
        old(events)@.len() < 99_000,
        -4_000_000_000_000_000_000 <= w.start_time <= 4_000_000_000_000_000_000,
        30 <= delay < 120,
        decision_latency_ok(report, latency as int),
    ensures
        events_shaped(final(events)@, w.start_time),
        final(events)@.len() == old(events)@.len() + 3,
        final(events)@.take(old(events)@.len() as int) == old(events)@,
        scheduled_events(final(events)@) == scheduled_events(old(events)@),
        links_ok(old(events)@) ==> links_ok(final(events)@),
        final(events)@[old(events)@.len() as int].event_type@ == "WorkflowTaskScheduled"@,
        final(events)@[old(events)@.len() as int].timestamp == w.start_time + delay * 1000,
        final(events)@[old(events)@.len() as int + 1].timestamp == w.start_time + delay * 1000 + latency / 2,
        final(events)@[old(events)@.len() as int + 2].timestamp == w.start_time + delay * 1000 + latency,
{
    let ghost e0 = events@;
    let start = w.start_time;
    let scheduled = start + delay * 1000;
    let scheduled_id = (events.len() + 1) as i64;
    push_event(events, start, EvKind::WtScheduled, scheduled, JsonValue::Object(Vec::new()));
    let ghost e1 = events@;
    push_event(events, start, EvKind::WtStarted, scheduled + latency / 2,
        JsonValue::Object(vec![member("scheduled_event_id", jnum(scheduled_id))]));
    let ghost e2 = events@;
    assert(e2.take(e0.len() as int) =~= e1.take(e0.len() as int));
    push_event(events, start, EvKind::WtCompleted, scheduled + latency,
        JsonValue::Object(vec![member("scheduled_event_id", jnum(scheduled_id))]));
    assert(events@.take(e0.len() as int) =~= e2.take(e0.len() as int));
    assert(events@[e0.len() as int] == e1[e0.len() as int]);
    assert(events@[e0.len() as int + 1] == e2[e0.len() as int + 1]);
}

impl MockTemporalClient {
    /// A made-up history of the first workflow with the id (see
    /// `mock_history_ok`); `NotFound` when no workflow has it. The values
    /// are drawn at random; what each drawn value makes of the history is
    /// stated by `mock_history_drawn`. Of the event details the contract
    /// states activity types, attempts and links between events; inputs,
    /// results and failure texts are left unstated.
    pub fn get_history(&self, workflow_id: &str, run_id: Option<&str>) -> (r: Result<Vec<HistoryEvent>, ClientError>)
        requires
            mock_times_fit(self.workflows@),
        ensures
            self.should_fail ==> r is Err,
            !self.should_fail ==> (r is Ok <==> has_workflow(self.workflows@, workflow_id@)),
            !self.should_fail && r is Err ==> (r matches Err(ClientError::NotFound(m)) && m@ == workflow_id@),
            r matches Ok(es) ==> exists|i: int| 0 <= i < self.workflows@.len()
                && self.workflows@[i].workflow_id@ == workflow_id@
                && (forall|k: int| 0 <= k < i ==> self.workflows@[k].workflow_id@ != workflow_id@)
                && #[trigger] mock_history_ok(es@, self.workflows@[i]),
    {
        match self.check_failure() {
            Err(e) => return Err(e),
            Ok(()) => {},
        }
        let idx = match find_workflow(&self.workflows, workflow_id) {
            Some(i) => i,
            None => return Err(ClientError::NotFound(workflow_id.to_owned())),
        };
        let events = mock_history(&self.workflows[idx]);
        let ghost i = idx as int;
        assert(mock_history_ok(events@, self.workflows@[i]));
        assert(0 <= i < self.workflows@.len() && self.workflows@[i].workflow_id@ == workflow_id@);
        assert(forall|k: int| 0 <= k < i ==> self.workflows@[k].workflow_id@ != workflow_id@);
        let r: Result<Vec<HistoryEvent>, ClientError> = Ok(events);
        assert(r matches Ok(es) && mock_history_ok(es@, self.workflows@[i]));
        r
    }
}

/// The random values a mock history is made from: the first decision
/// latency, the draws of each activity, the delay and decision latency of
/// each later workflow task, and (for notification workflows) the number of
/// signals.
pub struct HistoryDraws {
    pub latency: i64,
    pub activities: Vec<ActivityDraws>,
    pub tasks: Vec<(i64, i64)>,
    pub signals: i64,
}

/// The number of events an activity with these draws adds.
pub open spec fn activity_events(d: ActivityDraws) -> int {
    if d.outcome == 0 { 1 } else if d.outcome == 1 { 2 } else { 3 }
}

/// The number of events activities with these draws add.
pub open spec fn activities_events(ds: Seq<ActivityDraws>) -> int
    decreases ds.len(),
{
    if ds.len() == 0 { 0 } else { activities_events(ds.drop_last()) + activity_events(ds.last()) }
}

/// The draws fit the ranges they are drawn from.
pub open spec fn history_draws_ok(w: WorkflowSummary, d: HistoryDraws) -> bool {
    let report = w.workflow_type@ == "ReportGenerationWorkflow"@;
    let n = d.activities@.len();
    &&& decision_latency_ok(report, d.latency as int)
    &&& 3 <= n <= 5
    &&& forall|k: int| 0 <= k < n ==> activity_draws_ok(#[trigger] d.activities@[k],
        w.status == WorkflowStatus::Running && k == n - 1)
    &&& 1 <= d.tasks@.len() <= 3
    &&& forall|t: int| 0 <= t < d.tasks@.len() ==> 30 <= (#[trigger] d.tasks@[t]).0 < 120
        && decision_latency_ok(report, d.tasks@[t].1 as int)
    &&& 50 <= d.signals <= 300
}

/// The number of events a history with these draws holds: the first four,
/// the activities', three per later workflow task, and the signals of a
/// notification workflow.
pub open spec fn history_len(w: WorkflowSummary, d: HistoryDraws) -> int {
    4 + activities_events(d.activities@) + 3 * d.tasks@.len()
        + if w.workflow_type@ == "NotificationWorkflow"@ { d.signals as int } else { 0 }
}

proof fn lemma_activities_events(ds: Seq<ActivityDraws>, k: int)
    requires
        0 <= k <= ds.len(),
    ensures
        k <= activities_events(ds.take(k)) <= 3 * k,
        k < ds.len() ==> activities_events(ds.take(k + 1)) == activities_events(ds.take(k)) + activity_events(ds[k]),
    decreases k,
{
    if k > 0 {
        lemma_activities_events(ds, k - 1);
        assert(ds.take(k).drop_last() =~= ds.take(k - 1));
    }
    if k < ds.len() {
        assert(ds.take(k + 1).drop_last() =~= ds.take(k));
    }
}

/// A made-up history of workflow `w` from drawn values (see
/// `mock_history_ok`): its first decision takes `latency`; activity `k`
/// is scheduled `delay + 10 k` seconds after the start and unfolds as
/// `push_activity_drawn` says; then come the later workflow tasks and, for
/// a notification workflow, the signals.
pub fn mock_history_drawn(w: &WorkflowSummary, d: &HistoryDraws) -> (r: Vec<HistoryEvent>)
    requires
        -4_000_000_000_000_000_000 <= w.start_time <= 4_000_000_000_000_000_000,
        history_draws_ok(*w, *d),
    ensures
        mock_history_ok(r@, *w),
        r@[2].timestamp == w.start_time + d.latency / 2,
        r@[3].timestamp == w.start_time + d.latency,
        r@.len() == history_len(*w, *d),
        scheduled_events(r@).len() == d.activities@.len(),
        forall|k: int| 0 <= k < d.activities@.len() ==> (#[trigger] scheduled_events(r@)[k]).timestamp
            == w.start_time + (d.activities@[k].delay + 10 * k) * 1000,
{
        let start = w.start_time;
        let report = eq_str(&chars_of(w.workflow_type.as_str()), "ReportGenerationWorkflow");
        let latency = d.latency;
        let mut events: Vec<HistoryEvent> = Vec::new();
        proof {
            reveal(Seq::filter);
            assert(scheduled_events(events@) =~= Seq::<HistoryEvent>::empty());
        }
        push_event(&mut events, start, EvKind::WfStarted, start,
            JsonValue::Object(vec![member("workflowType", JsonValue::String(w.workflow_type.clone()))]));
        push_event(&mut events, start, EvKind::WtScheduled, start, JsonValue::Object(Vec::new()));
        push_event(&mut events, start, EvKind::WtStarted, start + latency / 2,
            JsonValue::Object(vec![member("scheduled_event_id", jnum(2))]));
        push_event(&mut events, start, EvKind::WtCompleted, start + latency,
            JsonValue::Object(vec![member("scheduled_event_id", jnum(2))]));
        let ghost head = events@;
        assert(head.len() == 4);
        let n = d.activities.len();
        let ghost ds = d.activities@;
        let mut i: usize = 0;
        while i < n
            invariant
                events_shaped(events@, start),
                start == w.start_time,
                -4_000_000_000_000_000_000 <= start <= 4_000_000_000_000_000_000,
                n == ds.len(),
                ds == d.activities@,
                history_draws_ok(*w, *d),
                3 <= n <= 5,
                i <= n,
                events@.len() == 4 + activities_events(ds.take(i as int)),
                events@.take(4) == head,
                links_ok(events@),
                scheduled_events(events@).len() == i,
                forall|k: int| 0 <= k < i ==> json_str(json_get(#[trigger] scheduled_events(events@)[k].details,
                    "activity_type"@)) == Some(mock_kinds()[k]),
                forall|k: int| 0 <= k < i ==> (#[trigger] scheduled_events(events@)[k]).timestamp
                    == start + (ds[k].delay + 10 * k) * 1000,
            decreases n - i,
        {
            let ghost before = events@;
            proof {
                lemma_activities_events(ds, i as int);
            }
            let di = d.activities[i];
            assert(activity_draws_ok(ds[i as int], w.status == WorkflowStatus::Running && i == n - 1));
            push_activity_drawn(&mut events, w, i, n, di);
            assert(events@.take(4) =~= before.take(before.len() as int).take(4));
            assert forall|k: int| 0 <= k < i + 1 implies json_str(json_get(#[trigger] scheduled_events(events@)[k].details,
                "activity_type"@)) == Some(mock_kinds()[k]) by {
                if k < i {
                    assert(scheduled_events(events@)[k] == scheduled_events(before)[k]);
                }
            }
            assert forall|k: int| 0 <= k < i + 1 implies (#[trigger] scheduled_events(events@)[k]).timestamp
                == start + (ds[k].delay + 10 * k) * 1000 by {
                if k < i {
                    assert(scheduled_events(events@)[k] == scheduled_events(before)[k]);
                }
            }
            i = i + 1;
        }
        assert(ds.take(n as int) =~= ds);
        proof {
            lemma_activities_events(ds, n as int);
        }
        let ghost sched = scheduled_events(events@);
        let ghost after_acts = events@.len();
        let tasks = d.tasks.len();
        let mut t: usize = 0;
        while t < tasks
            invariant
                events_shaped(events@, start),
                start == w.start_time,
                -4_000_000_000_000_000_000 <= start <= 4_000_000_000_000_000_000,
                tasks == d.tasks@.len(),
                history_draws_ok(*w, *d),
                report == (w.workflow_type@ == "ReportGenerationWorkflow"@),
                t <= tasks <= 3,
                7 <= after_acts <= 19,
                events@.len() == after_acts + 3 * t,
                events@.take(4) == head,
                links_ok(events@),
                scheduled_events(events@) == sched,
            decreases tasks - t,
        {
            let ghost before = events@;
            assert(before.take(before.len() as int) =~= before);
            let (delay, lat) = d.tasks[t];
            assert(30 <= d.tasks@[t as int].0 < 120);
            push_workflow_task_drawn(&mut events, w, report, delay, lat);
            assert(events@.take(4) =~= before.take(before.len() as int).take(4));
            t = t + 1;
        }
        let notification = eq_str(&chars_of(w.workflow_type.as_str()), "NotificationWorkflow");
        if notification {
            let signals = d.signals;
            let mut k: i64 = 0;
            while k < signals
                invariant
                    events_shaped(events@, start),
                    start == w.start_time,
                    -4_000_000_000_000_000_000 <= start <= 4_000_000_000_000_000_000,
                    0 <= k <= signals <= 300,
                    events@.len() == after_acts + 3 * tasks + k,
                    7 <= after_acts <= 19,
                    1 <= tasks <= 3,
                    events@.take(4) == head,
                    links_ok(events@),
                    scheduled_events(events@) == sched,
                decreases signals - k,
            {
                let ghost before = events@;
                let details = JsonValue::Object(vec![
                    member("input", JsonValue::Object(vec![member("target", JsonValue::String(cat_num("user-", k as u64)))])),
                    member("signalName", jtext("notify")),
                ]);
                push_event(&mut events, start, EvKind::Signaled, start + k * 1000, details);
                assert(events@.take(4) =~= before.take(before.len() as int).take(4));
                k = k + 1;
            }
        }
        proof {
            let es = events@;
            lemma_activities_events(ds, n as int);
            assert(es[0] == head[0]);
            assert(es[1] == head[1]);
            assert(es[2] == head[2]);
            assert(es[3] == head[3]);
            assert(es[3].timestamp == w.start_time + latency as int);
            assert(decision_latency_ok(report, latency as int));
            let wi = *w;
            assert(report == (wi.workflow_type@ == "ReportGenerationWorkflow"@));
            assert(es.len() >= 10);
            assert(es[0].event_type@ == "WorkflowExecutionStarted"@);
            assert(es[0].timestamp == wi.start_time);
            assert(wi.workflow_type@ == "NotificationWorkflow"@ ==> es.len() >= 60);
            assert(events_shaped(es, wi.start_time));
            assert(es[1].event_type@ == "WorkflowTaskScheduled"@ && es[1].timestamp == wi.start_time);
            assert(es[2].event_type@ == "WorkflowTaskStarted"@);
            assert(es[3].event_type@ == "WorkflowTaskCompleted"@);
            assert(es[2].timestamp == wi.start_time + (latency as int) / 2);
            lemma_history_ok(es, *w, latency as int);
        }
        events
}

/// A made-up history of a workflow, from fresh random draws.
fn mock_history(w: &WorkflowSummary) -> (r: Vec<HistoryEvent>)
    requires
        -4_000_000_000_000_000_000 <= w.start_time <= 4_000_000_000_000_000_000,
    ensures
        mock_history_ok(r@, *w),
{
    let report = eq_str(&chars_of(w.workflow_type.as_str()), "ReportGenerationWorkflow");
    let latency = if report { random_in(600, 1500) } else { random_in(5, 100) };
    let n = random_in(3, 6) as usize;
    let mut activities: Vec<ActivityDraws> = Vec::new();
    let mut i: usize = 0;
    while i < n
        invariant
            3 <= n <= 5,
            i <= n,
            activities@.len() == i,
            forall|k: int| 0 <= k < i ==> activity_draws_ok(#[trigger] activities@[k],
                w.status == WorkflowStatus::Running && k == n - 1),
        decreases n - i,
    {
        let a = draw_activity(w, i, n);
        activities.push(a);
        i = i + 1;
    }
    let count = random_in(1, 4);
    let mut tasks: Vec<(i64, i64)> = Vec::new();
    let mut t: i64 = 0;
    while t < count
        invariant
            1 <= count <= 3,
            0 <= t <= count,
            tasks@.len() == t,
            forall|j: int| 0 <= j < t ==> 30 <= (#[trigger] tasks@[j]).0 < 120
                && decision_latency_ok(report, tasks@[j].1 as int),
        decreases count - t,
    {
        let delay = random_in(30, 120);
        let lat = if report { random_in(600, 1500) } else { random_in(5, 100) };
        tasks.push((delay, lat));
        t = t + 1;
    }
    let notification = eq_str(&chars_of(w.workflow_type.as_str()), "NotificationWorkflow");
    let signals = if notification { random_in(50, 301) } else { 50 };
    let d = HistoryDraws { latency, activities, tasks, signals };
    mock_history_drawn(w, &d)
}

} // verus!
