use tempurview::activity::correlate_activities;
use tempurview::client::ClientError;
use tempurview::filter::WorkflowFilter;
use tempurview::json::JsonValue;
use tempurview::mock::{
    mock_history_drawn, mock_workflow_from, push_activity_drawn, ActivityDraws, HistoryDraws, MockTemporalClient,
    MockWorkflowDraws,
};
use tempurview::model::WorkflowSummary;
use tempurview::status::WorkflowStatus;

fn now_ms() -> i64 {
    chrono::Utc::now().timestamp_millis()
}

fn two_workflows() -> Vec<WorkflowSummary> {
    let now = now_ms();
    vec![
        WorkflowSummary {
            workflow_id: "wf-1".to_string(),
            run_id: "run-1".to_string(),
            workflow_type: "Test".to_string(),
            status: WorkflowStatus::Running,
            start_time: now,
            close_time: None,
            task_queue: "default".to_string(),
        },
        WorkflowSummary {
            workflow_id: "wf-2".to_string(),
            run_id: "run-2".to_string(),
            workflow_type: "Test".to_string(),
            status: WorkflowStatus::Failed,
            start_time: now,
            close_time: Some(now),
            task_queue: "default".to_string(),
        },
    ]
}

#[test]
fn test_mock_count() {
    let client = MockTemporalClient::with_random_data(100).with_latency(0);
    let count = client.count(None).unwrap();
    assert_eq!(count, 100);
}

#[test]
fn test_mock_count_with_filter() {
    let client = MockTemporalClient::with_workflows(two_workflows()).with_latency(0);
    let running = client.count(Some("ExecutionStatus='Running'")).unwrap();
    assert_eq!(running, 1);
    let failed = client.count(Some("ExecutionStatus='Failed'")).unwrap();
    assert_eq!(failed, 1);
}

#[test]
fn test_mock_list_with_filter() {
    let client = MockTemporalClient::with_workflows(two_workflows()).with_latency(0);
    let filter = WorkflowFilter::new().with_status(WorkflowStatus::Running);
    let result = client.list(&filter, 100).unwrap();
    assert_eq!(result.len(), 1);
    assert_eq!(result[0].workflow_id, "wf-1");
}

#[test]
fn test_mock_failure() {
    let client = MockTemporalClient::new().with_failure().with_latency(0);
    let result = client.count(None);
    assert!(result.is_err());
}

#[test]
fn test_mock_count_query_forms() {
    let client = MockTemporalClient::with_workflows(two_workflows());
    assert_eq!(client.count(Some("executionstatus='failed'")).unwrap(), 1);
    assert_eq!(client.count(Some("ExecutionStatus='Canceled'")).unwrap(), 0);
    assert_eq!(client.count(Some("WorkflowType='Test'")).unwrap(), 2);
    assert_eq!(client.count(Some("ExecutionStatus='Bogus'")).unwrap(), 0);
}

#[test]
fn test_mock_list_limit_and_prefix() {
    let client = MockTemporalClient::with_workflows(two_workflows());
    assert_eq!(client.list(&WorkflowFilter::new(), 1).unwrap().len(), 1);
    let mut f = WorkflowFilter::new();
    f.workflow_id_prefix = Some("wf-2".to_string());
    let r = client.list(&f, 10).unwrap();
    assert_eq!(r.len(), 1);
    assert_eq!(r[0].workflow_id, "wf-2");
}

#[test]
fn test_mock_random_data_shape() {
    let client = MockTemporalClient::with_random_data(50);
    assert_eq!(client.workflows.len(), 50);
    for pair in client.workflows.windows(2) {
        assert!(pair[0].start_time >= pair[1].start_time);
    }
    for w in &client.workflows {
        assert_eq!(w.close_time.is_none(), w.status == WorkflowStatus::Running);
        assert!(w.workflow_type.ends_with("Workflow"));
    }
}

#[test]
fn test_mock_describe_and_missing() {
    let client = MockTemporalClient::with_workflows(two_workflows());
    let d = client.describe("wf-2", None).unwrap();
    assert_eq!(d.history_length, 42);
    assert_eq!(d.summary.workflow_id, "wf-2");
    let f = d.failure.unwrap();
    assert_eq!(f.failure_type, "ApplicationError");
    match d.input {
        Some(JsonValue::Object(ms)) => assert_eq!(ms[0].0, "mockInput"),
        _ => panic!("expected an object input"),
    }
    assert!(client.describe("wf-1", None).unwrap().failure.is_none());
    match client.describe("nope", None) {
        Err(ClientError::NotFound(id)) => assert_eq!(id, "nope"),
        _ => panic!("expected NotFound"),
    }
    assert!(client.cancel("wf-1", None).is_ok());
    assert!(matches!(client.terminate("nope", None, "r"), Err(ClientError::NotFound(_))));
}

#[test]
fn test_mock_history_shape() {
    let mut ws = two_workflows();
    ws[0].workflow_type = "NotificationWorkflow".to_string();
    let client = MockTemporalClient::with_workflows(ws);
    let events = client.get_history("wf-1", None).unwrap();
    assert!(events.len() >= 60);
    for (i, e) in events.iter().enumerate() {
        assert_eq!(e.event_id, i as i64 + 1);
    }
    assert_eq!(events[0].event_type, "WorkflowExecutionStarted");
    assert_eq!(events[3].event_type, "WorkflowTaskCompleted");
    let kinds = ["SendEmail", "ProcessPayment", "UpdateInventory", "GenerateReport", "ValidateInput"];
    let scheduled: Vec<_> = events.iter().filter(|e| e.event_type == "ActivityTaskScheduled").collect();
    assert!(scheduled.len() >= 3 && scheduled.len() <= 5);
    for (k, e) in scheduled.iter().enumerate() {
        match &e.details {
            JsonValue::Object(ms) => {
                let t = ms.iter().find(|(n, _)| n == "activity_type").map(|(_, v)| v);
                assert!(matches!(t, Some(JsonValue::String(s)) if s == kinds[k]));
            }
            _ => panic!("scheduling details are an object"),
        }
    }
    let acts = correlate_activities(&events);
    assert!(acts.len() >= 3 && acts.len() <= 5);
    assert!(client.get_history("nope", None).is_err());
}


#[test]
fn mock_workflow_from_draws() {
    let now = 1_700_000_000_000;
    let d = MockWorkflowDraws { kind: 1, roll: 0, queue: 3, offset: 4, minutes: 10, run_suffix: 77 };
    let w = mock_workflow_from(12, now, d);
    assert_eq!(w.workflow_type, "DataProcessingWorkflow");
    assert_eq!(w.workflow_id, "dataprocessing-12");
    assert_eq!(w.run_id, "run-12-77");
    if w.status == WorkflowStatus::Running {
        assert_eq!(w.task_queue, "batch-processing");
        assert_eq!(w.start_time, now - 4 * 3_600_000);
        assert_eq!(w.close_time, None);
    } else {
        assert_eq!(w.task_queue, "background");
        assert_eq!(w.start_time, now - 4 * 60_000);
        assert_eq!(w.close_time, Some(w.start_time + 10 * 60_000));
    }
}

#[test]
fn activity_events_from_draws() {
    let w = WorkflowSummary {
        workflow_id: "wf".to_string(),
        run_id: "r".to_string(),
        workflow_type: "T".to_string(),
        status: WorkflowStatus::Completed,
        start_time: 1_000_000,
        close_time: Some(2_000_000),
        task_queue: "default".to_string(),
    };
    let mut events = Vec::new();
    let d = ActivityDraws { delay: 3, outcome: 3, queue_wait: 50, attempt: 2, run_ms: 400, special: false };
    push_activity_drawn(&mut events, &w, 1, 3, d);
    assert_eq!(events.len(), 3);
    assert_eq!(events[0].event_type, "ActivityTaskScheduled");
    assert_eq!(events[0].timestamp, 1_000_000 + 13_000);
    assert_eq!(events[1].event_type, "ActivityTaskStarted");
    assert_eq!(events[1].timestamp, 1_013_050);
    assert_eq!(events[2].event_type, "ActivityTaskFailed");
    assert_eq!(events[2].timestamp, 1_013_450);
    let acts = correlate_activities(&events);
    assert_eq!(acts.len(), 1);
    assert_eq!(acts[0].attempt, 2);
}


#[test]
fn history_from_draws() {
    let w = WorkflowSummary {
        workflow_id: "wf".to_string(),
        run_id: "r".to_string(),
        workflow_type: "OrderWorkflow".to_string(),
        status: WorkflowStatus::Completed,
        start_time: 5_000_000,
        close_time: Some(6_000_000),
        task_queue: "default".to_string(),
    };
    let act = |delay: i64, outcome: i64| ActivityDraws { delay, outcome, queue_wait: 10, attempt: 1, run_ms: 200, special: false };
    let d = HistoryDraws {
        latency: 40,
        activities: vec![act(1, 2), act(2, 3), act(3, 4)],
        tasks: vec![(30, 20)],
        signals: 50,
    };
    let es = mock_history_drawn(&w, &d);
    assert_eq!(es.len(), 4 + 9 + 3);
    assert_eq!(es[2].timestamp, 5_000_020);
    assert_eq!(es[3].timestamp, 5_000_040);
    let scheduled: Vec<i64> =
        es.iter().filter(|e| e.event_type == "ActivityTaskScheduled").map(|e| e.timestamp).collect();
    assert_eq!(scheduled, vec![5_001_000, 5_012_000, 5_023_000]);
    assert_eq!(correlate_activities(&es).len(), 3);
}
