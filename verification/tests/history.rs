use tempurview::activity::correlate_activities;
use tempurview::child::correlate_child_workflows;
use tempurview::json::{JsonNumber, JsonValue};
use tempurview::model::HistoryEvent;
use tempurview::status::{ActivityStatus, ChildWorkflowStatus};

fn s(t: &str) -> JsonValue {
    JsonValue::String(t.to_string())
}

fn n(v: u64) -> JsonValue {
    JsonValue::Number(JsonNumber::PosInt(v))
}

fn obj(members: Vec<(&str, JsonValue)>) -> JsonValue {
    JsonValue::Object(members.into_iter().map(|(k, v)| (k.to_string(), v)).collect())
}

fn make_event(event_id: i64, event_type: &str, timestamp: i64, details: JsonValue) -> HistoryEvent {
    HistoryEvent { event_id, event_type: event_type.to_string(), timestamp, details }
}

fn base() -> i64 {
    chrono::Utc::now().timestamp_millis()
}

#[test]
fn test_correlate_empty_events() {
    let activities = correlate_activities(&[]);
    assert!(activities.is_empty());
}

#[test]
fn test_correlate_single_completed_activity() {
    let base = base();
    let events = vec![
        make_event(5, "ActivityTaskScheduled", base, obj(vec![
            ("activity_id", s("1")),
            ("activity_type", s("SendEmail")),
            ("task_queue", s("default")),
            ("input", obj(vec![("to", s("user@example.com"))])),
        ])),
        make_event(6, "ActivityTaskStarted", base + 50, obj(vec![
            ("scheduled_event_id", n(5)),
            ("attempt", n(1)),
        ])),
        make_event(7, "ActivityTaskCompleted", base + 2000, obj(vec![
            ("scheduled_event_id", n(5)),
            ("started_event_id", n(6)),
            ("result", obj(vec![("sent", JsonValue::Bool(true))])),
        ])),
    ];

    let activities = correlate_activities(&events);
    assert_eq!(activities.len(), 1);

    let a = &activities[0];
    assert_eq!(a.activity_id, "1");
    assert_eq!(a.activity_type, "SendEmail");
    assert_eq!(a.status, ActivityStatus::Completed);
    assert_eq!(a.attempt, 1);
    assert!(a.queue_wait.is_some());
    assert!(a.execution_time.is_some());
    assert!(a.total_time.is_some());
    assert!(a.output.is_some());
    assert!(a.failure.is_none());
    assert_eq!(a.queue_wait, Some(50));
    assert_eq!(a.execution_time, Some(1950));
    assert_eq!(a.total_time, Some(2000));
}

#[test]
fn test_correlate_failed_activity() {
    let base = base();
    let events = vec![
        make_event(5, "ActivityTaskScheduled", base, obj(vec![
            ("activity_id", s("2")),
            ("activity_type", s("ProcessPayment")),
        ])),
        make_event(6, "ActivityTaskStarted", base + 10, obj(vec![
            ("scheduled_event_id", n(5)),
            ("attempt", n(3)),
        ])),
        make_event(7, "ActivityTaskFailed", base + 3000, obj(vec![
            ("scheduled_event_id", n(5)),
            ("started_event_id", n(6)),
            ("failure", obj(vec![
                ("message", s("Payment declined")),
                ("failure_type", s("ApplicationFailure")),
            ])),
        ])),
    ];

    let activities = correlate_activities(&events);
    assert_eq!(activities.len(), 1);
    let a = &activities[0];
    assert_eq!(a.status, ActivityStatus::Failed);
    assert_eq!(a.attempt, 3);
    assert!(a.failure.is_some());
    assert_eq!(a.failure.as_ref().unwrap().message, "Payment declined");
}

#[test]
fn test_correlate_pending_and_running_activities() {
    let base = base();
    let events = vec![
        make_event(5, "ActivityTaskScheduled", base, obj(vec![
            ("activity_id", s("1")),
            ("activity_type", s("GenerateReport")),
        ])),
        make_event(8, "ActivityTaskScheduled", base + 1000, obj(vec![
            ("activity_id", s("2")),
            ("activity_type", s("UpdateInventory")),
        ])),
        make_event(9, "ActivityTaskStarted", base + 2000, obj(vec![
            ("scheduled_event_id", n(8)),
            ("attempt", n(1)),
        ])),
    ];

    let activities = correlate_activities(&events);
    assert_eq!(activities.len(), 2);
    assert_eq!(activities[0].status, ActivityStatus::Scheduled);
    assert_eq!(activities[1].status, ActivityStatus::Running);
}

#[test]
fn test_correlate_multiple_activities() {
    let base = base();
    let events = vec![
        make_event(5, "ActivityTaskScheduled", base, obj(vec![("activity_id", s("1")), ("activity_type", s("A"))])),
        make_event(6, "ActivityTaskStarted", base + 5, obj(vec![("scheduled_event_id", n(5)), ("attempt", n(1))])),
        make_event(7, "ActivityTaskCompleted", base + 1000, obj(vec![("scheduled_event_id", n(5)), ("started_event_id", n(6))])),
        make_event(10, "ActivityTaskScheduled", base + 2000, obj(vec![("activity_id", s("2")), ("activity_type", s("B"))])),
        make_event(11, "ActivityTaskStarted", base + 3000, obj(vec![("scheduled_event_id", n(10)), ("attempt", n(1))])),
        make_event(12, "ActivityTaskTimedOut", base + 60_000, obj(vec![("scheduled_event_id", n(10)), ("started_event_id", n(11))])),
    ];

    let activities = correlate_activities(&events);
    assert_eq!(activities.len(), 2);
    assert_eq!(activities[0].activity_type, "A");
    assert_eq!(activities[0].status, ActivityStatus::Completed);
    assert_eq!(activities[1].activity_type, "B");
    assert_eq!(activities[1].status, ActivityStatus::TimedOut);
}

#[test]
fn test_correlate_empty() {
    let child_workflows = correlate_child_workflows(&[]);
    assert!(child_workflows.is_empty());
}

#[test]
fn test_correlate_single_completed_child() {
    let base = base();
    let events = vec![
        make_event(10, "StartChildWorkflowExecutionInitiated", base, obj(vec![
            ("workflow_id", s("child-wf-1")),
            ("workflow_type", s("ProcessOrder")),
            ("namespace", s("default")),
        ])),
        make_event(11, "ChildWorkflowExecutionStarted", base + 100, obj(vec![
            ("initiated_event_id", n(10)),
            ("run_id", s("run-abc")),
        ])),
        make_event(15, "ChildWorkflowExecutionCompleted", base + 5000, obj(vec![
            ("initiated_event_id", n(10)),
            ("started_event_id", n(11)),
            ("result", obj(vec![("order_id", n(123))])),
        ])),
    ];

    let child_workflows = correlate_child_workflows(&events);
    assert_eq!(child_workflows.len(), 1);

    let cw = &child_workflows[0];
    assert_eq!(cw.workflow_id, "child-wf-1");
    assert_eq!(cw.workflow_type, "ProcessOrder");
    assert_eq!(cw.status, ChildWorkflowStatus::Completed);
    assert_eq!(cw.namespace.as_deref(), Some("default"));
    assert_eq!(cw.run_id.as_deref(), Some("run-abc"));
    assert!(cw.start_latency.is_some());
    assert!(cw.execution_time.is_some());
    assert!(cw.total_time.is_some());
    assert!(cw.failure.is_none());
    assert_eq!(cw.initiated_event_id, 10);
    assert_eq!(cw.started_event_id, Some(11));
    assert_eq!(cw.closed_event_id, Some(15));
    assert_eq!(cw.start_latency, Some(100));
}

#[test]
fn test_correlate_failed_child() {
    let base = base();
    let events = vec![
        make_event(10, "StartChildWorkflowExecutionInitiated", base, obj(vec![
            ("workflow_id", s("child-wf-2")),
            ("workflow_type", s("ChargePayment")),
        ])),
        make_event(11, "ChildWorkflowExecutionStarted", base + 50, obj(vec![
            ("initiated_event_id", n(10)),
            ("run_id", s("run-def")),
        ])),
        make_event(14, "ChildWorkflowExecutionFailed", base + 3000, obj(vec![
            ("initiated_event_id", n(10)),
            ("started_event_id", n(11)),
            ("failure", obj(vec![
                ("message", s("Payment declined")),
                ("failure_type", s("ApplicationFailure")),
            ])),
        ])),
    ];

    let child_workflows = correlate_child_workflows(&events);
    assert_eq!(child_workflows.len(), 1);

    let cw = &child_workflows[0];
    assert_eq!(cw.status, ChildWorkflowStatus::Failed);
    assert!(cw.failure.is_some());
    assert_eq!(cw.failure.as_ref().unwrap().message, "Payment declined");
    assert_eq!(cw.failure.as_ref().unwrap().failure_type, "ApplicationFailure");
}

#[test]
fn test_correlate_pending_and_running() {
    let base = base();
    let events = vec![
        make_event(10, "StartChildWorkflowExecutionInitiated", base, obj(vec![
            ("workflow_id", s("child-wf-pending")),
            ("workflow_type", s("SlowStart")),
        ])),
        make_event(20, "StartChildWorkflowExecutionInitiated", base + 1000, obj(vec![
            ("workflow_id", s("child-wf-running")),
            ("workflow_type", s("LongProcess")),
        ])),
        make_event(21, "ChildWorkflowExecutionStarted", base + 2000, obj(vec![
            ("initiated_event_id", n(20)),
            ("run_id", s("run-ghi")),
        ])),
    ];

    let child_workflows = correlate_child_workflows(&events);
    assert_eq!(child_workflows.len(), 2);

    assert_eq!(child_workflows[0].workflow_id, "child-wf-pending");
    assert_eq!(child_workflows[0].status, ChildWorkflowStatus::Initiated);
    assert!(child_workflows[0].started_time.is_none());

    assert_eq!(child_workflows[1].workflow_id, "child-wf-running");
    assert_eq!(child_workflows[1].status, ChildWorkflowStatus::Started);
    assert!(child_workflows[1].started_time.is_some());
}

#[test]
fn test_correlate_start_failed() {
    let base = base();
    let events = vec![
        make_event(10, "StartChildWorkflowExecutionInitiated", base, obj(vec![
            ("workflow_id", s("child-wf-bad")),
            ("workflow_type", s("InvalidWorkflow")),
        ])),
        make_event(11, "StartChildWorkflowExecutionFailed", base + 20, obj(vec![
            ("initiated_event_id", n(10)),
            ("workflow_id", s("child-wf-bad")),
            ("cause", n(1)),
        ])),
    ];

    let child_workflows = correlate_child_workflows(&events);
    assert_eq!(child_workflows.len(), 1);

    let cw = &child_workflows[0];
    assert_eq!(cw.status, ChildWorkflowStatus::StartFailed);
    assert!(cw.failure.is_some());
    assert_eq!(cw.failure.as_ref().unwrap().message, "Child workflow failed to start");
    assert!(cw.started_time.is_none());
    assert!(cw.closed_time.is_some());
}

#[test]
fn activities_come_out_ordered_by_scheduled_id() {
    let base = base();
    let events = vec![
        make_event(30, "ActivityTaskScheduled", base, obj(vec![("activity_id", s("x")), ("activity_type", s("Late"))])),
        make_event(8, "ActivityTaskScheduled", base, obj(vec![("activity_id", s("y")), ("activity_type", s("Early"))])),
        make_event(40, "SomethingElse", base, obj(vec![])),
    ];
    let activities = correlate_activities(&events);
    assert_eq!(activities.len(), 2);
    assert_eq!(activities[0].scheduled_event_id, 8);
    assert_eq!(activities[1].scheduled_event_id, 30);
}
