use tempurview::widgets::{
    format_count, format_duration, format_duration_since, format_duration_since_at, truncate_string, truncate_title,
    format_metadata, viewport_offset, HelpBar,
};
use tempurview::json::{JsonNumber, JsonValue};
use tempurview::mode::{InputMode, View};
use tempurview::model::{WorkflowDetail, WorkflowSummary};
use tempurview::picker::{PickerItem, PickerState};
use tempurview::status::WorkflowStatus;
use tempurview::insights::InsightsResult;
use tempurview::scan::{insights_title, loading_text, ScanPhase};

fn now_ms() -> i64 {
    chrono::Utc::now().timestamp_millis()
}

#[test]
fn test_format_count() {
    assert_eq!(format_count(0), "0");
    assert_eq!(format_count(42), "42");
    assert_eq!(format_count(999), "999");
    assert_eq!(format_count(1000), "1.0K");
    assert_eq!(format_count(1500), "1.5K");
    assert_eq!(format_count(10000), "10.0K");
    assert_eq!(format_count(1_000_000), "1.0M");
    assert_eq!(format_count(2_500_000), "2.5M");
}

#[test]
fn test_truncate_string() {
    assert_eq!(truncate_string("short", 10), "short");
    assert_eq!(truncate_string("this is a long string", 10), "this is...");
    assert_eq!(truncate_string("exactly10!", 10), "exactly10!");
}

#[test]
fn test_format_duration_since() {
    let now = now_ms();
    assert_eq!(format_duration_since(now), "just now");
    assert_eq!(format_duration_since(now - 5 * 60_000), "5m ago");
    assert_eq!(format_duration_since(now - 2 * 3_600_000), "2h ago");
    assert_eq!(format_duration_since(now - 3 * 86_400_000), "3d ago");
}

#[test]
fn duration_since_at_fixed_time() {
    let now: i64 = 1_700_000_000_000;
    assert_eq!(format_duration_since_at(now + 1, now), "future");
    assert_eq!(format_duration_since_at(now - 59_999, now), "just now");
    assert_eq!(format_duration_since_at(now - 60_000, now), "1m ago");
    assert_eq!(format_duration_since_at(now - 86_400_000, now), "1d ago");
}

#[test]
fn test_format_duration_millis() {
    assert_eq!(format_duration(42), "42ms");
}

#[test]
fn test_format_duration_seconds() {
    assert_eq!(format_duration(1200), "1.2s");
}

#[test]
fn test_format_duration_minutes() {
    assert_eq!(format_duration(125_000), "2m 5s");
}

#[test]
fn test_format_duration_hours() {
    assert_eq!(format_duration(3_661_000), "1h 1m");
}

#[test]
fn format_duration_whole_units() {
    assert_eq!(format_duration(0), "0ms");
    assert_eq!(format_duration(5000), "5s");
    assert_eq!(format_duration(120_000), "2m");
    assert_eq!(format_duration(7_200_000), "2h");
}

#[test]
fn truncation_edges() {
    assert_eq!(truncate_string("abcdef", 3), "...");
    assert_eq!(truncate_string("", 5), "");
    assert_eq!(format_count(999_999), "1000.0K");
    let t = truncate_title("a rather long workflow title", 10);
    assert!(t.chars().count() <= 10);
}

#[test]
fn test_format_count_rounds_like_float_formatting() {
    assert_eq!(format_count(1050), "1.1K");
    assert_eq!(format_count(1150), "1.1K");
    assert_eq!(format_count(1250), "1.2K");
    assert_eq!(format_count(1350), "1.4K");
    for n in 1_000u64..60_000 {
        assert_eq!(format_count(n), format!("{:.1}K", n as f64 / 1000.0), "count {}", n);
    }
    for n in (1_000_000u64..5_000_000).step_by(50_000) {
        assert_eq!(format_count(n), format!("{:.1}M", n as f64 / 1_000_000.0), "count {}", n);
    }
}

#[test]
fn viewport_scrolls_selection_into_view() {
    assert_eq!(viewport_offset(3, 0, 10), 0);
    assert_eq!(viewport_offset(12, 0, 10), 3);
    assert_eq!(viewport_offset(2, 5, 10), 2);
    assert_eq!(viewport_offset(7, 5, 0), 5);
}


fn make_detail() -> WorkflowDetail {
    let now = now_ms();
    WorkflowDetail {
        summary: WorkflowSummary {
            workflow_id: "wf-123".to_string(),
            run_id: "run-456".to_string(),
            workflow_type: "TestWorkflow".to_string(),
            status: WorkflowStatus::Completed,
            start_time: now,
            close_time: Some(now),
            task_queue: "default".to_string(),
        },
        input: Some(JsonValue::Object(vec![("key".to_string(), JsonValue::String("value".to_string()))])),
        output: Some(JsonValue::Object(vec![("result".to_string(), JsonValue::Number(JsonNumber::PosInt(42)))])),
        failure: None,
        history_length: 10,
        memo: Vec::new(),
        search_attributes: Vec::new(),
    }
}

#[test]
fn test_format_metadata() {
    let detail = make_detail();
    let metadata = format_metadata(&detail);
    assert!(metadata.iter().any(|(k, v)| k == "Workflow ID" && v == "wf-123"));
    assert!(metadata.iter().any(|(k, v)| k == "Run ID" && v == "run-456"));
    assert!(metadata.iter().any(|(k, v)| k == "Type" && v == "TestWorkflow"));
    assert!(metadata.iter().any(|(k, v)| k == "Status" && v == "Completed"));
}

#[test]
fn search_input_keeps_list_hints() {
    let normal = HelpBar::for_view(View::WorkflowList, InputMode::Normal).shortcuts;
    let search = HelpBar::for_view(View::WorkflowList, InputMode::SearchInput).shortcuts;
    assert_eq!(normal, search);
    assert_eq!(HelpBar::for_view(View::TypeList, InputMode::SearchInput).shortcuts[0], ("j/k", "Navigate"));
}

#[test]
fn picker_key_exists_iff_items() {
    let items = vec![
        PickerItem { key: 'a', label: "A".to_string() },
        PickerItem { key: 'b', label: "B".to_string() },
    ];
    let mut p = PickerState::new("Pick".to_string(), items);
    p.move_down();
    p.move_down();
    assert_eq!(p.selected_key(), Some('b'));
    p.move_up();
    p.move_up();
    assert_eq!(p.selected_key(), Some('a'));
    let mut empty = PickerState::new("Pick".to_string(), Vec::new());
    empty.move_down();
    empty.move_up();
    assert_eq!(empty.selected_key(), None);
}

#[test]
fn insights_titles() {
    let r = InsightsResult { findings: Vec::new(), workflows_scanned: 12, histories_fetched: 7, computed_at: 0, scan_duration: 1250 };
    assert_eq!(insights_title(&r, false, None, None), "Insights (0 findings | 12 scanned | 7 histories | 1.2s)");
    let r2 = InsightsResult { scan_duration: 800, ..r };
    assert_eq!(insights_title(&r2, false, None, Some("24h ago")), "Insights (0 findings | 12 scanned | 7 histories | 800ms | 24h ago)");
    assert_eq!(
        insights_title(&r2, true, Some(ScanPhase::SamplingHistories(3, 9)), None),
        "Insights (0 findings | sampling 3/9 histories)"
    );
    assert_eq!(insights_title(&r2, true, None, None), "Insights (0 findings | scanning...)");
    assert_eq!(loading_text(Some(ScanPhase::SamplingHistories(2, 5)), false), "Sampling histories... 2/5");
    assert_eq!(loading_text(Some(ScanPhase::FetchingWorkflows(40)), true), "Fetching workflows... 40");
    assert!(loading_text(None, false).ends_with("speed up the scan"));
}
