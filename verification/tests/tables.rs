use tempurview::activity::ActivityExecution;
use tempurview::config::Config;
use tempurview::fixtures::make_status_counts;
use tempurview::insights::{InsightFinding, InsightsResult};
use tempurview::json::{JsonNumber, JsonValue};
use tempurview::model::{FailureInfo, HistoryEvent, WorkflowDetail, WorkflowSummary};
use tempurview::status::{ActivityStatus, InsightCategory, InsightSeverity, WorkflowStatus};
use tempurview::tables::{
    activity_rows, config_rows, count_rows, detail_rows, event_rows, finding_rows, workflow_header, workflow_rows,
};

/// 2024-01-15T10:00:00Z in milliseconds.
const JAN_15: i64 = 1_705_312_800_000;

fn strs(row: &[String]) -> Vec<&str> {
    row.iter().map(|s| s.as_str()).collect()
}

fn summary(status: WorkflowStatus, close_time: Option<i64>) -> WorkflowSummary {
    WorkflowSummary {
        workflow_id: "order-42".to_string(),
        run_id: "run-7".to_string(),
        workflow_type: "OrderWorkflow".to_string(),
        status,
        start_time: JAN_15,
        close_time,
        task_queue: "orders".to_string(),
    }
}

#[test]
fn test_workflow_rows_cells() {
    let rows = workflow_rows(&[summary(WorkflowStatus::Running, None)]);
    assert_eq!(rows.len(), 1);
    assert_eq!(strs(&rows[0]), vec!["Running", "OrderWorkflow", "order-42", "2024-01-15 10:00:00", "orders"]);
    assert_eq!(workflow_header(), vec!["STATUS", "TYPE", "WORKFLOW ID", "STARTED", "TASK QUEUE"]);
}

#[test]
fn test_workflow_rows_empty() {
    assert!(workflow_rows(&[]).is_empty());
}

#[test]
fn test_detail_rows_completed_with_input() {
    let d = WorkflowDetail {
        summary: summary(WorkflowStatus::Completed, Some(JAN_15 + 90_000)),
        input: Some(JsonValue::Array(vec![JsonValue::Number(JsonNumber::PosInt(1)), JsonValue::Bool(true)])),
        output: None,
        failure: None,
        history_length: 12,
        memo: vec![],
        search_attributes: vec![],
    };
    let rows = detail_rows(&d);
    let got: Vec<Vec<&str>> = rows.iter().map(|r| strs(r)).collect();
    assert_eq!(
        got,
        vec![
            vec!["Workflow ID", "order-42"],
            vec!["Run ID", "run-7"],
            vec!["Type", "OrderWorkflow"],
            vec!["Status", "Completed"],
            vec!["Started", "2024-01-15 10:00:00 UTC"],
            vec!["Closed", "2024-01-15 10:01:30 UTC"],
            vec!["Task Queue", "orders"],
            vec!["History Length", "12"],
            vec!["Input", "[1,true]"],
        ]
    );
}

#[test]
fn test_detail_rows_failure() {
    let d = WorkflowDetail {
        summary: summary(WorkflowStatus::Failed, None),
        input: None,
        output: None,
        failure: Some(FailureInfo {
            message: "boom".to_string(),
            failure_type: "ApplicationFailure".to_string(),
            stack_trace: None,
            cause: None,
        }),
        history_length: 3,
        memo: vec![],
        search_attributes: vec![],
    };
    let rows = detail_rows(&d);
    assert_eq!(rows.len(), 9);
    assert_eq!(strs(&rows[7]), vec!["Failure", "boom"]);
    assert_eq!(strs(&rows[8]), vec!["Failure Type", "ApplicationFailure"]);
}

fn activity(queue_wait: Option<i64>, execution_time: Option<i64>) -> ActivityExecution {
    ActivityExecution {
        activity_id: "5".to_string(),
        activity_type: "Charge".to_string(),
        status: ActivityStatus::Completed,
        task_queue: None,
        scheduled_time: JAN_15,
        started_time: None,
        closed_time: None,
        queue_wait,
        execution_time,
        total_time: None,
        attempt: 2,
        input: None,
        output: None,
        failure: None,
        scheduled_event_id: 5,
        started_event_id: None,
        closed_event_id: None,
    }
}

#[test]
fn test_activity_rows_durations() {
    let rows = activity_rows(&[activity(Some(1200), Some(125_000)), activity(None, None)]);
    assert_eq!(strs(&rows[0]), vec!["5", "Charge", "OK", "2", "1.2s", "2m 5s"]);
    assert_eq!(strs(&rows[1]), vec!["5", "Charge", "OK", "2", "-", "-"]);
}

#[test]
fn test_event_rows_cells() {
    let e = HistoryEvent {
        event_id: 17,
        event_type: "WorkflowExecutionStarted".to_string(),
        timestamp: JAN_15 + 5_000,
        details: JsonValue::Null,
    };
    let rows = event_rows(&[e]);
    assert_eq!(strs(&rows[0]), vec!["17", "WorkflowExecutionStarted", "2024-01-15 10:00:05"]);
}

#[test]
fn test_finding_rows_cells() {
    let result = InsightsResult {
        findings: vec![InsightFinding {
            severity: InsightSeverity::Critical,
            category: InsightCategory::FailureRate,
            title: "High failure rate".to_string(),
            detail: String::new(),
            affected_entities: vec!["a".to_string(), "b".to_string()],
            computed_at: JAN_15,
        }],
        workflows_scanned: 10,
        histories_fetched: 2,
        computed_at: JAN_15,
        scan_duration: 500,
    };
    let rows = finding_rows(&result);
    assert_eq!(strs(&rows[0]), vec!["CRIT", "Failure Rate", "High failure rate", "2"]);
}

#[test]
fn test_count_rows_skip_zero_and_total() {
    let counts = make_status_counts(3, 0, 2);
    let rows = count_rows(&counts);
    let got: Vec<Vec<&str>> = rows.iter().map(|r| strs(r)).collect();
    assert_eq!(got, vec![vec!["Running", "3"], vec!["Failed", "2"], vec!["Total", "5"]]);
}

#[test]
fn test_config_rows_hide_key() {
    let mut c = Config::default();
    c.temporal_api_key = Some("secret".to_string());
    c.insights.allowlist = vec!["expected".to_string(), "benign".to_string()];
    let rows = config_rows(&c);
    let got: Vec<Vec<&str>> = rows.iter().map(|r| strs(r)).collect();
    assert_eq!(got[0], vec!["Active Profile", "(none)"]);
    assert_eq!(got[1], vec!["Temporal Address", "localhost:7233"]);
    assert_eq!(got[3], vec!["API Key", "(set, hidden)"]);
    assert_eq!(got[5], vec!["Mock Mode", "false"]);
    assert_eq!(got[7], vec!["Insights Allowlist", "expected, benign"]);
    assert!(!rows.iter().any(|r| r.iter().any(|cell| cell.contains("secret"))));
}

#[test]
fn test_config_rows_no_allowlist() {
    let rows = config_rows(&Config::default());
    assert_eq!(rows.len(), 7);
}
