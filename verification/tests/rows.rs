use tempurview::activity::ActivityExecution;
use tempurview::app::TypeStat;
use tempurview::fixtures::make_status_counts;
use tempurview::insights::InsightFinding;
use tempurview::json::{JsonNumber, JsonValue};
use tempurview::json_lines::{Line, SpanStyle};
use tempurview::model::{FailureInfo, HistoryEvent, WorkflowSummary};
use tempurview::rows::{
    activity_list_title, activity_row, event_row, event_summary, expanded_height, expanded_lines, finding_row,
    format_elapsed_since_at, stat_row, workflow_row,
};
use tempurview::status::{ActivityStatus, InsightCategory, InsightSeverity, TableColumn, WorkflowStatus};

/// 2024-01-15T10:00:00Z in milliseconds.
const JAN_15: i64 = 1_705_312_800_000;

fn text(l: &Line) -> String {
    l.spans.iter().map(|s| s.text.as_str()).collect()
}

#[test]
fn test_workflow_row_cells() {
    let w = WorkflowSummary {
        workflow_id: "order-42".to_string(),
        run_id: "r".to_string(),
        workflow_type: "OrderWorkflow".to_string(),
        status: WorkflowStatus::Running,
        start_time: JAN_15,
        close_time: None,
        task_queue: "q".to_string(),
    };
    let all = vec![TableColumn::Status, TableColumn::Type, TableColumn::WorkflowId, TableColumn::Started];
    assert_eq!(workflow_row(0, &w, &all, JAN_15 + 125_000), vec!["1", "   RUN", "OrderWorkflow", "order-42", "2m ago"]);
    assert_eq!(workflow_row(9, &w, &vec![TableColumn::Type], JAN_15), vec!["10", "OrderWorkflow"]);
}

#[test]
fn test_stat_row_cells() {
    let t = TypeStat { workflow_type: "OrderWorkflow".to_string(), total: 5, counts: make_status_counts(3, 0, 2) };
    assert_eq!(
        stat_row(&t),
        vec!["OrderWorkflow", "     5", "   3", "   -", "   2", "   -", "   -", "   -", "   -"]
    );
}

#[test]
fn test_finding_row_cells() {
    let f = InsightFinding {
        severity: InsightSeverity::Info,
        category: InsightCategory::QueueLatency,
        title: "Slow queue".to_string(),
        detail: String::new(),
        affected_entities: vec![],
        computed_at: 0,
    };
    assert_eq!(finding_row(&f), vec!["INFO", "Queue Latency", "Slow queue"]);
}

#[test]
fn test_event_row_summary() {
    let e = HistoryEvent {
        event_id: 7,
        event_type: "ActivityTaskStarted".to_string(),
        timestamp: JAN_15 + 5_123,
        details: JsonValue::Object(vec![
            ("scheduled_event_id".to_string(), JsonValue::Number(JsonNumber::PosInt(5))),
            ("activity_type".to_string(), JsonValue::String("Charge".to_string())),
            ("input".to_string(), JsonValue::Null),
            ("attempt".to_string(), JsonValue::Number(JsonNumber::PosInt(2))),
            ("note".to_string(), JsonValue::String("x".to_string())),
            ("more".to_string(), JsonValue::Bool(true)),
        ]),
    };
    assert_eq!(event_row(&e), vec!["#7", "10:00:05.123", "ActivityTaskStarted", "activity_type=Charge  attempt=2  note=x"]);
    let plain = HistoryEvent { event_id: 1, event_type: "X".to_string(), timestamp: JAN_15, details: JsonValue::Null };
    assert_eq!(event_summary(&plain), "");
}

fn activity(status: ActivityStatus) -> ActivityExecution {
    ActivityExecution {
        activity_id: "5".to_string(),
        activity_type: "Charge".to_string(),
        status,
        task_queue: None,
        scheduled_time: JAN_15,
        started_time: Some(JAN_15 + 50),
        closed_time: None,
        queue_wait: Some(50),
        execution_time: Some(1200),
        total_time: None,
        attempt: 2,
        input: None,
        output: None,
        failure: None,
        scheduled_event_id: 5,
        started_event_id: None,
        closed_event_id: None,
    }
}

#[test]
fn test_activity_row_by_status() {
    assert_eq!(activity_row(&activity(ActivityStatus::Completed), JAN_15), vec!["Charge", "5", "OK", "1.2s", "2", "50ms"]);
    assert_eq!(activity_row(&activity(ActivityStatus::Scheduled), JAN_15 + 3_000), vec!["Charge", "5", "PEND", "-", "2", "(3s)"]);
    assert_eq!(activity_row(&activity(ActivityStatus::Running), JAN_15 + 2_050), vec!["Charge", "5", "RUN", "(2s)", "2", "50ms"]);
    assert_eq!(format_elapsed_since_at(0, 125_000), "(2m 5s)");
}

#[test]
fn test_activity_list_title_counts_failures() {
    let acts = vec![activity(ActivityStatus::Completed), activity(ActivityStatus::Failed), activity(ActivityStatus::TimedOut)];
    assert_eq!(activity_list_title(&acts), "Activities (3 total, 2 failed)");
    assert_eq!(activity_list_title(&vec![activity(ActivityStatus::Completed)]), "Activities (1 total)");
}

#[test]
fn test_expanded_detail_lines() {
    let mut a = activity(ActivityStatus::Failed);
    a.input = Some(JsonValue::Object(vec![("a".to_string(), JsonValue::Number(JsonNumber::PosInt(1)))]));
    a.failure = Some(FailureInfo {
        message: "boom".to_string(),
        failure_type: "AppError".to_string(),
        stack_trace: Some("l1\nl2\nl3\nl4".to_string()),
        cause: None,
    });
    let lines = expanded_lines(&a);
    let texts: Vec<String> = lines.iter().map(text).collect();
    assert_eq!(texts, vec!["  Input: {   \"a\": 1 }", "  Failure: [AppError] boom", "    l1", "    l2", "    l3"]);
    assert_eq!(expanded_height(&a), 6);
    let empty = expanded_lines(&activity(ActivityStatus::Completed));
    assert_eq!(text(&empty[0]), "  (no additional details)");
    assert_eq!(empty[0].spans[0].style, SpanStyle::Dim);
}
