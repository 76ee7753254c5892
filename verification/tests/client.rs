use tempurview::client::{
    count_of_json, history_events_of, workflow_detail_of, workflow_list_of, parse_count_output, parse_failure_info, parse_history_events_at, parse_workflow_detail_at, parse_workflow_execution_at,
    parse_workflow_list, parse_workflow_list_at, CliTemporalClient, ClientError,
};
use tempurview::config::EnvVars;
use tempurview::filter::WorkflowFilter;
use tempurview::json::{JsonNumber, JsonValue};
use tempurview::status::WorkflowStatus;

const NOW: i64 = 1_700_000_000_000;

fn env(address: Option<&str>, namespace: Option<&str>, key: Option<&str>) -> EnvVars {
    EnvVars {
        temporal_address: address.map(|s| s.to_string()),
        temporal_namespace: namespace.map(|s| s.to_string()),
        temporal_api_key: key.map(|s| s.to_string()),
        refresh_interval: None,
        default_limit: None,
        tick_rate: None,
        insights_concurrency: None,
        profile: None,
    }
}

#[test]
fn test_parse_count_output_number() {
    assert_eq!(parse_count_output("42").unwrap(), 42);
    assert_eq!(parse_count_output("  42  ").unwrap(), 42);
}

#[test]
fn test_parse_count_output_with_label() {
    assert_eq!(parse_count_output("Count: 42").unwrap(), 42);
    assert_eq!(parse_count_output("Total: 100").unwrap(), 100);
}

#[test]
fn test_parse_count_output_json() {
    assert_eq!(parse_count_output(r#"{"count": 42}"#).unwrap(), 42);
}

#[test]
fn count_output_edge_cases() {
    assert_eq!(parse_count_output("Workflows\nTotal executions: 7 found\n").unwrap(), 7);
    assert_eq!(parse_count_output("count=(12)").unwrap(), 12);
    assert_eq!(parse_count_output("\r\n  5\r\n").unwrap(), 5);
    match parse_count_output("nothing here") {
        Err(ClientError::ParseError(m)) => assert_eq!(m, "Could not parse count from output: nothing here"),
        other => panic!("unexpected {:?}", other),
    }
    assert!(parse_count_output("").is_err());
}

#[test]
fn test_parse_workflow_list() {
    let json = r#"[
        {
            "execution": {"workflowId": "wf-1", "runId": "run-1"},
            "type": {"name": "TestWorkflow"},
            "status": "RUNNING",
            "startTime": "2024-01-01T00:00:00Z",
            "taskQueue": "default"
        }
    ]"#;

    let workflows = parse_workflow_list(json).unwrap();
    assert_eq!(workflows.len(), 1);
    assert_eq!(workflows[0].workflow_id, "wf-1");
    assert_eq!(workflows[0].workflow_type, "TestWorkflow");
    assert_eq!(workflows[0].status, WorkflowStatus::Running);
}

#[test]
fn test_parse_workflow_list_with_wrapper() {
    let json = r#"{
        "executions": [
            {
                "execution": {"workflowId": "wf-2", "runId": "run-2"},
                "type": {"name": "OtherWorkflow"},
                "status": "COMPLETED",
                "startTime": "2024-01-01T00:00:00Z",
                "closeTime": "2024-01-01T01:00:00Z",
                "taskQueue": "other-queue"
            }
        ]
    }"#;

    let workflows = parse_workflow_list(json).unwrap();
    assert_eq!(workflows.len(), 1);
    assert_eq!(workflows[0].workflow_id, "wf-2");
    assert_eq!(workflows[0].status, WorkflowStatus::Completed);
    assert!(workflows[0].close_time.is_some());
}

#[test]
fn workflow_list_defaults_and_errors() {
    let ws = parse_workflow_list_at(r#"[{"workflowId": "a", "workflowType": "T", "status": "weird"}]"#, NOW).unwrap();
    assert_eq!(ws[0].workflow_id, "a");
    assert_eq!(ws[0].run_id, "");
    assert_eq!(ws[0].workflow_type, "T");
    assert_eq!(ws[0].status, WorkflowStatus::Running);
    assert_eq!(ws[0].start_time, NOW);
    assert_eq!(ws[0].close_time, None);
    assert_eq!(ws[0].task_queue, "default");

    let ws = parse_workflow_list_at(r#"[{"execution": {"workflowId": "b"}, "startTime": "2024-01-01T00:00:00Z"}]"#, NOW).unwrap();
    assert_eq!(ws[0].workflow_type, "Unknown");
    assert_eq!(ws[0].start_time, 1_704_067_200_000);

    match parse_workflow_list_at(r#"[{"execution": {}}]"#, NOW) {
        Err(ClientError::ParseError(m)) => assert_eq!(m, "Missing workflowId"),
        other => panic!("unexpected {:?}", other),
    }
    match parse_workflow_list_at(r#"{"items": []}"#, NOW) {
        Err(ClientError::ParseError(m)) => assert_eq!(m, "Expected array or object with executions field"),
        other => panic!("unexpected {:?}", other),
    }
    match parse_workflow_list_at("not json", NOW) {
        Err(ClientError::ParseError(m)) => assert!(m.starts_with("Invalid JSON: ")),
        other => panic!("unexpected {:?}", other),
    }
}

#[test]
fn workflow_detail_reads_failure_chain() {
    let json = r#"{
        "execution": {"workflowId": "wf-9", "runId": "r9"},
        "type": {"name": "Pay"},
        "status": "FAILED",
        "result": {"ok": false},
        "workflowExecutionInfo": {"input": [1, 2]},
        "historyLength": 12,
        "memo": {"owner": "team-a"},
        "failure": {"message": "outer", "type": "Boom", "cause": {"message": "inner", "stackTrace": "at x"}}
    }"#;
    let d = parse_workflow_detail_at(json, NOW).unwrap();
    assert_eq!(d.summary.workflow_id, "wf-9");
    assert_eq!(d.summary.status, WorkflowStatus::Failed);
    assert_eq!(d.history_length, 12);
    assert!(matches!(d.output, Some(JsonValue::Object(_))));
    assert!(matches!(d.input, Some(JsonValue::Array(_))));
    assert_eq!(d.memo.len(), 1);
    assert_eq!(d.memo[0].0, "owner");
    assert!(d.search_attributes.is_empty());
    let f = d.failure.unwrap();
    assert_eq!(f.message, "outer");
    assert_eq!(f.failure_type, "Boom");
    let c = f.cause.unwrap();
    assert_eq!(c.message, "inner");
    assert_eq!(c.failure_type, "Unknown");
    assert_eq!(c.stack_trace, Some("at x".to_string()));
    assert!(c.cause.is_none());
}

#[test]
fn failure_without_message_is_none() {
    let v = JsonValue::Object(vec![("failureType".to_string(), JsonValue::String("X".to_string()))]);
    assert!(parse_failure_info(&v).is_none());
    let item = JsonValue::Object(vec![("execution".to_string(), JsonValue::Null)]);
    assert!(parse_workflow_execution_at(&item, NOW).is_err());
}

#[test]
fn history_events_read_ids_types_and_times() {
    let json = r#"{"events": [
        {"eventId": 1, "eventType": "WorkflowExecutionStarted", "eventTime": "2024-01-01T00:00:00Z"},
        {"eventType": "Odd"}
    ]}"#;
    let es = parse_history_events_at(json, NOW).unwrap();
    assert_eq!(es.len(), 2);
    assert_eq!(es[0].event_id, 1);
    assert_eq!(es[0].event_type, "WorkflowExecutionStarted");
    assert_eq!(es[0].timestamp, 1_704_067_200_000);
    assert_eq!(es[1].event_id, 0);
    assert_eq!(es[1].timestamp, NOW);
    let es = parse_history_events_at(r#"[{"eventId": 3}]"#, NOW).unwrap();
    assert_eq!(es[0].event_type, "Unknown");
    match parse_history_events_at(r#"{"x": 1}"#, NOW) {
        Err(ClientError::ParseError(m)) => assert_eq!(m, "Expected events array"),
        other => panic!("unexpected {:?}", other),
    }
}

#[test]
fn client_arguments() {
    let c = CliTemporalClient::new("host:7233".to_string(), "ns".to_string(), Some("k".to_string()));
    assert_eq!(c.base_args(), vec!["--address", "host:7233", "--namespace", "ns", "--api-key", "k"]);
    let c = CliTemporalClient::new("host:7233".to_string(), "ns".to_string(), None);
    assert_eq!(c.count_args(Some("Q")), vec!["--address", "host:7233", "--namespace", "ns", "workflow", "count", "--query", "Q"]);
    let f = WorkflowFilter::new().with_status(WorkflowStatus::Failed);
    assert_eq!(
        c.list_args(&f, 50),
        vec![
            "--address", "host:7233", "--namespace", "ns", "workflow", "list", "--output", "json", "--limit", "50",
            "--query", "ExecutionStatus='Failed'"
        ]
    );
    assert_eq!(
        c.describe_args("w", Some("r")),
        vec!["--address", "host:7233", "--namespace", "ns", "workflow", "describe", "--workflow-id", "w", "--output", "json", "--run-id", "r"]
    );
    assert_eq!(
        c.history_args("w", None),
        vec!["--address", "host:7233", "--namespace", "ns", "workflow", "show", "--workflow-id", "w", "--output", "json"]
    );
    assert_eq!(
        c.cancel_args("w", None),
        vec!["--address", "host:7233", "--namespace", "ns", "workflow", "cancel", "--workflow-id", "w"]
    );
    assert_eq!(
        c.terminate_args("w", Some("r"), "why"),
        vec!["--address", "host:7233", "--namespace", "ns", "workflow", "terminate", "--workflow-id", "w", "--reason", "why", "--run-id", "r"]
    );
}

#[test]
fn client_from_env() {
    let c = CliTemporalClient::from_env(&env(Some("a:1"), Some("n"), None)).unwrap();
    assert_eq!(c.address, "a:1");
    assert_eq!(c.namespace, "n");
    assert!(c.api_key.is_none());
    assert_eq!(
        CliTemporalClient::from_env(&env(None, Some("n"), None)).unwrap_err(),
        ClientError::ConfigError("TEMPORAL_ADDRESS not set".to_string())
    );
    assert_eq!(
        CliTemporalClient::from_env(&env(Some("a"), None, None)).unwrap_err(),
        ClientError::ConfigError("TEMPORAL_NAMESPACE not set".to_string())
    );
}


fn obj(ms: Vec<(&str, JsonValue)>) -> JsonValue {
    JsonValue::Object(ms.into_iter().map(|(k, v)| (k.to_string(), v)).collect())
}

fn text(s: &str) -> JsonValue {
    JsonValue::String(s.to_string())
}

#[test]
fn parsed_count_reads_count_member() {
    assert_eq!(count_of_json(&obj(vec![("count", JsonValue::Number(JsonNumber::PosInt(42)))])), Some(42));
    assert_eq!(count_of_json(&obj(vec![("count", text("42"))])), None);
    assert_eq!(count_of_json(&JsonValue::Null), None);
}

#[test]
fn parsed_history_reads_each_event() {
    let v = obj(vec![(
        "events",
        JsonValue::Array(vec![
            obj(vec![("eventId", JsonValue::Number(JsonNumber::PosInt(1))), ("eventType", text("WorkflowExecutionStarted"))]),
            obj(vec![("eventId", JsonValue::Number(JsonNumber::PosInt(2)))]),
        ]),
    )]);
    let es = history_events_of(&v, 1_000).unwrap();
    assert_eq!(es.len(), 2);
    assert_eq!(es[0].event_id, 1);
    assert_eq!(es[0].event_type, "WorkflowExecutionStarted");
    assert_eq!(es[0].timestamp, 1_000);
    assert_eq!(es[1].event_type, "Unknown");
    assert!(matches!(history_events_of(&text("x"), 1_000), Err(ClientError::ParseError(m)) if m == "Expected events array"));
}

#[test]
fn parsed_list_and_detail_need_a_workflow_id() {
    assert_eq!(workflow_list_of(&JsonValue::Array(vec![]), 1_000).unwrap().len(), 0);
    assert!(matches!(workflow_list_of(&text("x"), 1_000),
        Err(ClientError::ParseError(m)) if m == "Expected array or object with executions field"));
    assert!(matches!(workflow_detail_of(&obj(vec![]), 1_000), Err(ClientError::ParseError(m)) if m == "Missing workflowId"));
}
