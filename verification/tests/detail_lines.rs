use tempurview::activity::ActivityExecution;
use tempurview::detail_lines::{
    activity_lines, activity_title, event_color, event_lines, event_title, highlight_trigger_terms, insight_lines,
    insight_lines_static, insight_title, search_status, search_suffix,
};
use tempurview::insights::InsightFinding;
use tempurview::json::{JsonNumber, JsonValue};
use tempurview::json_lines::{Line, SpanStyle};
use tempurview::model::{FailureInfo, HistoryEvent};
use tempurview::status::{ActivityStatus, Color, InsightCategory, InsightSeverity};

/// 2024-01-15T10:00:00Z in milliseconds.
const JAN_15: i64 = 1_705_312_800_000;

fn text(l: &Line) -> String {
    l.spans.iter().map(|s| s.text.as_str()).collect()
}

fn terms(ts: &[&str]) -> Vec<String> {
    ts.iter().map(|t| t.to_string()).collect()
}

#[test]
fn test_highlight_no_terms() {
    let spans = highlight_trigger_terms("hello world", &vec![], SpanStyle::Plain, SpanStyle::Emph);
    assert_eq!(spans.len(), 1);
    assert_eq!(spans[0].text, "hello world");
}

#[test]
fn test_highlight_single_match() {
    let spans = highlight_trigger_terms(
        "Payment has 75% failure rate",
        &terms(&["Payment", "75%"]),
        SpanStyle::Plain,
        SpanStyle::Emph,
    );
    assert!(spans.len() >= 4);
    assert_eq!(spans[0].text, "Payment");
    assert_eq!(spans[2].text, "75%");
}

#[test]
fn test_highlight_case_insensitive() {
    let spans = highlight_trigger_terms("The PAYMENT type failed", &terms(&["payment"]), SpanStyle::Plain, SpanStyle::Emph);
    assert_eq!(spans.len(), 3);
    assert_eq!(spans[0].text, "The ");
    assert_eq!(spans[1].text, "PAYMENT");
    assert_eq!(spans[2].text, " type failed");
}

#[test]
fn test_highlight_short_terms_filtered() {
    let spans = highlight_trigger_terms("a b c hello", &terms(&["a"]), SpanStyle::Plain, SpanStyle::Emph);
    assert_eq!(spans.len(), 1);
    assert_eq!(spans[0].text, "a b c hello");
}

#[test]
fn test_highlight_styles_and_merging() {
    // "pay" and "payment" overlap, "ment" touches nothing else: one piece.
    let spans = highlight_trigger_terms("payment due", &terms(&["pay", "payment"]), SpanStyle::Bright, SpanStyle::Badge(Color::Red));
    assert_eq!(spans.len(), 2);
    assert_eq!(spans[0].text, "payment");
    assert_eq!(spans[0].style, SpanStyle::Badge(Color::Red));
    assert_eq!(spans[1].text, " due");
    assert_eq!(spans[1].style, SpanStyle::Bright);
}

#[test]
fn test_highlight_empty_text() {
    let spans = highlight_trigger_terms("", &terms(&["abc"]), SpanStyle::Plain, SpanStyle::Emph);
    assert_eq!(spans.len(), 1);
    assert_eq!(spans[0].text, "");
}

fn activity() -> ActivityExecution {
    ActivityExecution {
        activity_id: "5".to_string(),
        activity_type: "Charge".to_string(),
        status: ActivityStatus::Failed,
        task_queue: Some("payments".to_string()),
        scheduled_time: JAN_15,
        started_time: Some(JAN_15 + 1200),
        closed_time: None,
        queue_wait: Some(1200),
        execution_time: None,
        total_time: None,
        attempt: 3,
        input: Some(JsonValue::Number(JsonNumber::PosInt(7))),
        output: None,
        failure: Some(FailureInfo {
            message: "card declined".to_string(),
            failure_type: "ApplicationFailure".to_string(),
            stack_trace: Some("at charge\nat main".to_string()),
            cause: None,
        }),
        scheduled_event_id: 5,
        started_event_id: Some(6),
        closed_event_id: None,
    }
}

#[test]
fn test_activity_lines_sections() {
    let lines = activity_lines(&activity());
    let texts: Vec<String> = lines.iter().map(text).collect();
    assert_eq!(
        texts,
        vec![
            "Type:   Charge",
            "ID:     5",
            "Status: FAIL",
            "Attempt: 3",
            "Queue:  payments",
            "",
            "Timestamps:",
            "  Scheduled: 2024-01-15T10:00:00+00:00",
            "  Started:   2024-01-15T10:00:01.200+00:00",
            "",
            "Durations:",
            "  Queue Wait: 1.2s",
            "",
            "Input:",
            "7",
            "",
            "Failure:",
            "  Type:    ApplicationFailure",
            "  Message: card declined",
            "",
            "Stack Trace:",
            "  at charge",
            "  at main",
        ]
    );
    assert_eq!(lines[2].spans[1].style, SpanStyle::Bold(Color::Red));
    assert_eq!(activity_title(&activity()), " Charge [5] FAIL ");
}

#[test]
fn test_event_lines_and_color() {
    let e = HistoryEvent {
        event_id: 12,
        event_type: "ActivityTaskScheduled".to_string(),
        timestamp: JAN_15,
        details: JsonValue::Object(vec![("attempt".to_string(), JsonValue::Number(JsonNumber::PosInt(1)))]),
    };
    let lines = event_lines(&e);
    let texts: Vec<String> = lines.iter().map(text).collect();
    assert_eq!(texts[0], "Event: #12  ActivityTaskScheduled");
    assert_eq!(texts[1], "Time:  2024-01-15T10:00:00+00:00");
    assert_eq!(texts[3], "Details:");
    assert_eq!(texts[4], "{");
    assert_eq!(lines[0].spans[3].style, SpanStyle::Bold(Color::Cyan));
    assert_eq!(event_title(&e), " #12 ActivityTaskScheduled ");
    assert_eq!(event_color("TimerFired"), Color::Yellow);
    assert_eq!(event_color("WorkflowTaskCompleted"), Color::DarkGray);
    assert_eq!(event_color("WorkflowExecutionStarted"), Color::Green);
    assert_eq!(event_color("StartChildWorkflowExecutionInitiated"), Color::Magenta);
    assert_eq!(event_color("MarkerRecorded"), Color::White);
}

fn finding() -> InsightFinding {
    InsightFinding {
        severity: InsightSeverity::Warning,
        category: InsightCategory::RetryStorm,
        title: "Payment retries".to_string(),
        detail: "Payment retried 9 times\nsee logs".to_string(),
        affected_entities: vec!["wf-1".to_string(), "wf-2".to_string()],
        computed_at: JAN_15,
    }
}

#[test]
fn test_insight_lines_entities() {
    let lines = insight_lines(&finding(), Some(1), &terms(&["payment"]));
    let texts: Vec<String> = lines.iter().map(text).collect();
    assert_eq!(
        texts,
        vec![
            "Severity:  WARN     Category: Retry Storm",
            "",
            "Finding: Payment retries",
            "",
            "Detail:",
            "Payment retried 9 times",
            "see logs",
            "",
            "Affected Entities (2): (n/p to navigate, Enter to view)",
            " \u{25CF} 1. wf-1",
            " \u{25B6} 2. wf-2",
        ]
    );
    assert_eq!(lines[2].spans[1].text, "Payment");
    assert_eq!(lines[2].spans[1].style, SpanStyle::Badge(Color::Yellow));
    assert_eq!(lines[10].spans[1].style, SpanStyle::Reversed);
}

#[test]
fn test_insight_lines_static_without_entities() {
    let mut f = finding();
    f.affected_entities.clear();
    f.detail.clear();
    let lines = insight_lines_static(&f, 3, &vec![]);
    assert_eq!(lines.len(), 4);
    assert_eq!(insight_title(&f, 40), " WARN | Retry Storm | Payment... ");
}

#[test]
fn test_search_suffix_texts() {
    assert_eq!(search_suffix("pay", 0, 3), " [1/3 \"pay\"] ");
    assert_eq!(search_suffix("pay", 0, 0), " [no matches for \"pay\"] ");
}


#[test]
fn highlight_keeps_a_highlight_normal_style_apart() {
    let spans = highlight_trigger_terms("pay now", &terms(&["pay"]), SpanStyle::Highlight, SpanStyle::Emph);
    assert_eq!(spans.len(), 2);
    assert_eq!(spans[0].text, "pay");
    assert_eq!(spans[0].style, SpanStyle::Emph);
    assert_eq!(spans[1].text, " now");
    assert_eq!(spans[1].style, SpanStyle::Highlight);
}

#[test]
fn search_status_texts() {
    assert_eq!(search_status("err", true, 1, 4), "Search: \"err\" (2/4) — n/N navigate, Esc clear");
    assert_eq!(search_status("err", false, 0, 3), "Search: \"err\" (3 matches) — n/N navigate, Esc clear");
    assert_eq!(search_status("err", true, 0, 0), "Search: \"err\" (no matches) — Esc clear");
}
