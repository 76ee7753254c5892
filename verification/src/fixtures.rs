//! Ready-made workflows, details, counts and application states for tests
//! and demonstrations.

use vstd::prelude::*;
use crate::app::{App, LoadState, app_wf};
use crate::json::{JsonValue};
use crate::model::{time_ok, FailureInfo, WorkflowDetail, WorkflowSummary};
use crate::stats::StatusCounts;
use crate::status::WorkflowStatus;
use crate::text::{chars_of, dec, push_dec, string_of};

verus! {

/// Workflow `id` of type `workflow_type` with status `status`, started `id`
/// minutes before `now` and, unless running, closed at `now`.
pub open spec fn fixture_ok(w: WorkflowSummary, status: WorkflowStatus, workflow_type: Seq<char>, id: u64, now: i64) -> bool {
    &&& w.workflow_id@ == "test-workflow-"@ + dec(id as nat)
    &&& w.run_id@ == "run-"@ + dec(id as nat)
    &&& w.workflow_type@ == workflow_type
    &&& w.status == status
    &&& w.start_time == now - (id as int) * 60_000
    &&& w.close_time == if status == WorkflowStatus::Running { None } else { Some(now) }
    &&& w.task_queue@ == "test-queue"@
}

/// A test workflow with number `id`, at time `now`.
pub fn make_workflow_at(status: WorkflowStatus, workflow_type: &str, id: u64, now: i64) -> (r: WorkflowSummary)
    requires
        time_ok(now),
        id <= 100_000_000_000_000,
    ensures
        fixture_ok(r, status, workflow_type@, id, now),
{
    let mut wid: Vec<char> = chars_of("test-workflow-");
    push_dec(&mut wid, id);
    let mut rid: Vec<char> = chars_of("run-");
    push_dec(&mut rid, id);
    WorkflowSummary {
        workflow_id: string_of(&wid),
        run_id: string_of(&rid),
        workflow_type: workflow_type.to_owned(),
        status,
        start_time: now - (id as i64) * 60_000,
        close_time: if status == WorkflowStatus::Running { None } else { Some(now) },
        task_queue: "test-queue".to_owned(),
    }
}

/// A test workflow of type `TestWorkflow` with the given status, started now.
pub fn make_workflow(status: WorkflowStatus) -> (r: WorkflowSummary)
    ensures
        exists|now: i64| time_ok(now) && #[trigger] fixture_ok(r, status, "TestWorkflow"@, 0, now),
{
    let now = crate::clock::now_ms();
    let r = make_workflow_at(status, "TestWorkflow", 0, now);
    assert(fixture_ok(r, status, "TestWorkflow"@, 0, now));
    r
}

/// A test workflow with the given status and type, started now.
pub fn make_workflow_with_type(status: WorkflowStatus, workflow_type: &str) -> (r: WorkflowSummary)
    ensures
        exists|now: i64| time_ok(now) && #[trigger] fixture_ok(r, status, workflow_type@, 0, now),
{
    let now = crate::clock::now_ms();
    let r = make_workflow_at(status, workflow_type, 0, now);
    assert(fixture_ok(r, status, workflow_type@, 0, now));
    r
}

/// Test workflows with the given statuses, numbered from 0 in order, of
/// type `TestWorkflow`.
pub fn make_workflows(statuses: &[WorkflowStatus]) -> (r: Vec<WorkflowSummary>)
    requires
        statuses@.len() <= 100_000_000_000_000,
    ensures
        r@.len() == statuses@.len(),
        exists|now: i64| time_ok(now) && forall|i: int| 0 <= i < r@.len() ==> #[trigger] fixture_ok(r@[i], statuses@[i], "TestWorkflow"@, i as u64, now),
{
    let now = crate::clock::now_ms();
    let mut r: Vec<WorkflowSummary> = Vec::new();
    let mut i: usize = 0;
    while i < statuses.len()
        invariant
            time_ok(now),
            statuses@.len() <= 100_000_000_000_000,
            i <= statuses@.len(),
            r@.len() == i,
            forall|k: int| 0 <= k < i ==> #[trigger] fixture_ok(r@[k], statuses@[k], "TestWorkflow"@, k as u64, now),
        decreases statuses.len() - i,
    {
        let w = make_workflow_at(statuses[i], "TestWorkflow", i as u64, now);
        r.push(w);
        i = i + 1;
    }
    r
}

/// A test workflow detail: a failure for a failed workflow, an input, an
/// output for a completed one, ten history events.
pub fn make_workflow_detail(status: WorkflowStatus) -> (r: WorkflowDetail)
    ensures
        r.summary.status == status,
        r.failure is Some <==> status == WorkflowStatus::Failed,
        r.output is Some <==> status == WorkflowStatus::Completed,
        r.input is Some,
        r.history_length == 10,
{
    let summary = make_workflow(status);
    let failure = if status == WorkflowStatus::Failed {
        Some(FailureInfo {
            message: "Test failure message".to_owned(),
            failure_type: "TestError".to_owned(),
            stack_trace: Some("at test.rs:42\n  at main.rs:10".to_owned()),
            cause: None,
        })
    } else {
        None
    };
    let mut input_members: Vec<(String, JsonValue)> = Vec::new();
    input_members.push(("test_input".to_owned(), JsonValue::String("value".to_owned())));
    let output = if status == WorkflowStatus::Completed {
        let mut m: Vec<(String, JsonValue)> = Vec::new();
        m.push(("test_output".to_owned(), JsonValue::String("result".to_owned())));
        Some(JsonValue::Object(m))
    } else {
        None
    };
    WorkflowDetail {
        summary,
        input: Some(JsonValue::Object(input_members)),
        output,
        failure,
        history_length: 10,
        memo: Vec::new(),
        search_attributes: Vec::new(),
    }
}

/// Status counts with the given running, completed and failed counts.
pub fn make_status_counts(running: u64, completed: u64, failed: u64) -> (r: StatusCounts)
    ensures
        r.wf(),
        r.count_of(WorkflowStatus::Running) == running,
        r.count_of(WorkflowStatus::Completed) == completed,
        r.count_of(WorkflowStatus::Failed) == failed,
{
    let mut counts = StatusCounts::new();
    counts.set(WorkflowStatus::Running, running);
    counts.set(WorkflowStatus::Completed, completed);
    counts.set(WorkflowStatus::Failed, failed);
    counts
}

/// A fresh application with the given workflows loaded.
pub fn make_app_with_workflows(workflows: Vec<WorkflowSummary>) -> (r: App)
    ensures
        app_wf(r),
        r.workflows matches LoadState::Loaded(ws) && ws@ == workflows@,
{
    let mut app = App::new();
    app.workflows = LoadState::Loaded(workflows);
    app
}

/// A fresh application with the given status counts loaded.
pub fn make_app_with_counts(counts: StatusCounts) -> (r: App)
    ensures
        app_wf(r),
        r.status_counts == LoadState::Loaded(counts),
{
    let mut app = App::new();
    app.status_counts = LoadState::Loaded(counts);
    app
}

/// Builds a test application step by step.
pub struct AppBuilder {
    pub app: App,
}

impl AppBuilder {
    /// A builder of a fresh application.
    pub fn new() -> (r: AppBuilder)
        ensures
            app_wf(r.app),
    {
        AppBuilder { app: App::new() }
    }

    /// With the given workflows loaded.
    pub fn with_workflows(self, workflows: Vec<WorkflowSummary>) -> (r: AppBuilder)
        ensures
            r.app == (App { workflows: LoadState::Loaded(workflows), ..self.app }),
    {
        let mut b = self;
        b.app.workflows = LoadState::Loaded(workflows);
        b
    }

    /// With the given status counts loaded.
    pub fn with_counts(self, counts: StatusCounts) -> (r: AppBuilder)
        ensures
            r.app == (App { status_counts: LoadState::Loaded(counts), ..self.app }),
    {
        let mut b = self;
        b.app.status_counts = LoadState::Loaded(counts);
        b
    }

    /// With a status filter.
    pub fn with_status_filter(self, status: WorkflowStatus) -> (r: AppBuilder)
        ensures
            r.app == (App { filter: crate::filter::WorkflowFilter { status: Some(status), ..self.app.filter }, ..self.app }),
    {
        let mut b = self;
        b.app.filter.status = Some(status);
        b
    }

    /// The application built.
    pub fn build(self) -> (r: App)
        ensures
            r == self.app,
    {
        self.app
    }
}

} // verus!
