use tempurview::scan::{fetch_concurrency, finish_scan, progress_due, scan_filter};
use tempurview::insights::{InsightFinding, InsightsConfig};
use tempurview::filter::WorkflowFilter;
use tempurview::status::{InsightCategory, InsightSeverity, OutputFormat, WorkflowStatus};
use tempurview::watch::{PipeDiff, WatchAction, WatchConfig};
use tempurview::web::{
    command_list_filter_at, count_query, insights_filter_at, list_filter_at, request_limit, InsightsParams,
    WorkflowListParams,
};

const NOW: i64 = 1_700_000_000_000;

fn params(status: Option<&str>, ty: Option<&str>, since: Option<&str>, before: Option<&str>) -> WorkflowListParams {
    WorkflowListParams {
        status: status.map(|s| s.to_string()),
        workflow_type: ty.map(|s| s.to_string()),
        since: since.map(|s| s.to_string()),
        before: before.map(|s| s.to_string()),
        limit: None,
    }
}

#[test]
fn list_request_builds_filter() {
    let f = list_filter_at(&params(Some("failed"), Some("Pay"), Some("2h"), None), NOW).unwrap();
    assert_eq!(f.status, Some(WorkflowStatus::Failed));
    assert_eq!(f.workflow_type, Some("Pay".to_string()));
    assert_eq!(f.start_time_after, Some(NOW - 2 * 3_600_000));
    assert_eq!(f.start_time_before, None);
}

#[test]
fn list_request_rejections() {
    assert_eq!(list_filter_at(&params(Some("nope"), None, None, None), NOW).unwrap_err(), "Invalid status: nope");
    assert_eq!(list_filter_at(&params(None, None, Some("soon"), None), NOW).unwrap_err(), "Invalid since value: soon");
    assert_eq!(list_filter_at(&params(None, None, None, Some("x")), NOW).unwrap_err(), "Invalid before value: x");
    assert_eq!(
        command_list_filter_at(&params(None, None, Some("soon"), None), NOW).unwrap_err(),
        "Invalid --since value: soon"
    );
}

#[test]
fn insights_request_and_limits() {
    let p = InsightsParams { since: None, before: Some("1d".to_string()), limit: Some(7) };
    let f = insights_filter_at(&p, NOW).unwrap();
    assert_eq!(f.start_time_before, Some(NOW - 86_400_000));
    assert_eq!(f.status, None);
    assert_eq!(request_limit(p.limit, 50), 7);
    assert_eq!(request_limit(None, 50), 50);
}

#[test]
fn count_queries() {
    assert_eq!(count_query(Some("running".to_string()), None), Ok(Some("ExecutionStatus='Running'".to_string())));
    assert_eq!(count_query(None, Some("WorkflowType='X'".to_string())), Ok(Some("WorkflowType='X'".to_string())));
    assert_eq!(count_query(None, None), Ok(None));
    assert_eq!(count_query(Some("bad".to_string()), None), Err("Invalid status: bad".to_string()));
}

#[test]
fn test_pipe_mode_first_cycle_always_emits() {
    let mut p = PipeDiff::new();
    assert_eq!(p.step(Ok(b"a\n".to_vec())), WatchAction::Emit(b"a\n".to_vec()));
}

#[test]
fn test_pipe_mode_suppresses_identical_output() {
    let mut p = PipeDiff::new();
    p.step(Ok(b"same".to_vec()));
    assert_eq!(p.step(Ok(b"same".to_vec())), WatchAction::Skip);
    assert_eq!(p.step(Ok(b"same".to_vec())), WatchAction::Skip);
}

#[test]
fn test_pipe_mode_emits_on_change() {
    let mut p = PipeDiff::new();
    p.step(Ok(b"one".to_vec()));
    assert_eq!(p.step(Ok(b"two".to_vec())), WatchAction::Emit(b"two".to_vec()));
    assert_eq!(p.step(Ok(b"one".to_vec())), WatchAction::Emit(b"one".to_vec()));
}

#[test]
fn test_watch_loop_continues_on_error() {
    let mut p = PipeDiff::new();
    p.step(Ok(b"x".to_vec()));
    assert_eq!(p.step(Err("boom".to_string())), WatchAction::ReportError("boom".to_string()));
    assert_eq!(p.step(Ok(b"x".to_vec())), WatchAction::Skip);
    let c = WatchConfig { interval_secs: 5, format: OutputFormat::Json, is_tty: false };
    assert_eq!(c.interval_secs, 5);
}

#[test]
fn scan_steps() {
    let f = WorkflowFilter::new().with_status(WorkflowStatus::Failed).with_start_time_after(5);
    let d = scan_filter(&f);
    assert_eq!(d.status, None);
    assert_eq!(d.start_time_after, Some(5));
    let mut c = InsightsConfig::new();
    assert_eq!(fetch_concurrency(&c), 10);
    c.concurrency = 0;
    assert_eq!(fetch_concurrency(&c), 1);
    assert!(progress_due(5, 12));
    assert!(progress_due(12, 12));
    assert!(!progress_due(7, 12));
}

#[test]
fn finish_scan_ranks_all_findings() {
    let mk = |sev: InsightSeverity, title: &str| InsightFinding {
        severity: sev,
        category: InsightCategory::FailureRate,
        title: title.to_string(),
        detail: String::new(),
        affected_entities: vec!["a".to_string()],
        computed_at: NOW,
    };
    let r = finish_scan(
        vec![mk(InsightSeverity::Info, "list")],
        vec![mk(InsightSeverity::Critical, "activity")],
        vec![mk(InsightSeverity::Warning, "child")],
        12,
        4,
        NOW - 1500,
        NOW,
    );
    let titles: Vec<&str> = r.findings.iter().map(|f| f.title.as_str()).collect();
    assert_eq!(titles, vec!["activity", "child", "list"]);
    assert_eq!(r.workflows_scanned, 12);
    assert_eq!(r.histories_fetched, 4);
    assert_eq!(r.scan_duration, 1500);
    assert_eq!(r.computed_at, NOW);
}
