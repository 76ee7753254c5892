use chrono::Datelike;
use tempurview::filter::{parse_date_input, parse_date_input_at, WorkflowFilter};
use tempurview::fixtures::make_workflow_with_type;
use tempurview::stats::{StatusCounts, TypeDistribution};
use tempurview::status::{DateRangePreset, InsightCategory, InsightSeverity, WorkflowStatus};

fn now_ms() -> i64 {
    chrono::Utc::now().timestamp_millis()
}

#[test]
fn test_severity_ordering() {
    assert!(InsightSeverity::Info < InsightSeverity::Warning);
    assert!(InsightSeverity::Warning < InsightSeverity::Critical);
}

#[test]
fn test_severity_labels() {
    assert_eq!(InsightSeverity::Info.label(), "INFO");
    assert_eq!(InsightSeverity::Warning.label(), "WARN");
    assert_eq!(InsightSeverity::Critical.label(), "CRIT");
}

#[test]
fn test_category_labels() {
    assert_eq!(InsightCategory::FailureRate.label(), "Failure Rate");
    assert_eq!(InsightCategory::RetryStorm.label(), "Retry Storm");
    assert_eq!(InsightCategory::ActivityRetry.label(), "Activity Retry");
    assert_eq!(InsightCategory::StuckWorkflow.label(), "Stuck Workflow");
    assert_eq!(InsightCategory::ErrorInOutput.label(), "Error in I/O");
    assert_eq!(InsightCategory::ChildWorkflowFailure.label(), "Child WF Failure");
    assert_eq!(InsightCategory::ChildWorkflowLatency.label(), "Child WF Latency");
}

#[test]
fn test_status_counts_basic() {
    let mut counts = StatusCounts::new();
    assert_eq!(counts.get(WorkflowStatus::Running), 0);

    counts.set(WorkflowStatus::Running, 42);
    assert_eq!(counts.get(WorkflowStatus::Running), 42);

    counts.set(WorkflowStatus::Failed, 5);
    assert_eq!(counts.total(), 47);
}

#[test]
fn test_sorted_by_count() {
    let mut counts = StatusCounts::new();
    counts.set(WorkflowStatus::Running, 10);
    counts.set(WorkflowStatus::Failed, 50);
    counts.set(WorkflowStatus::Completed, 30);

    let sorted = counts.sorted_by_count();
    assert_eq!(sorted[0], (WorkflowStatus::Failed, 50));
    assert_eq!(sorted[1], (WorkflowStatus::Completed, 30));
    assert_eq!(sorted[2], (WorkflowStatus::Running, 10));
}

#[test]
fn test_non_zero() {
    let mut counts = StatusCounts::new();
    counts.set(WorkflowStatus::Running, 10);
    counts.set(WorkflowStatus::Failed, 0);
    counts.set(WorkflowStatus::Completed, 5);

    let non_zero = counts.non_zero();
    assert_eq!(non_zero.len(), 2);
    assert!(non_zero.iter().any(|(s, _)| *s == WorkflowStatus::Running));
    assert!(non_zero.iter().any(|(s, _)| *s == WorkflowStatus::Completed));
}

#[test]
fn test_from_workflows() {
    let workflows = vec![
        make_workflow_with_type(WorkflowStatus::Running, "Type1"),
        make_workflow_with_type(WorkflowStatus::Running, "Type2"),
        make_workflow_with_type(WorkflowStatus::Failed, "Type1"),
    ];

    let counts = StatusCounts::from_workflows(&workflows);
    assert_eq!(counts.get(WorkflowStatus::Running), 2);
    assert_eq!(counts.get(WorkflowStatus::Failed), 1);
    assert_eq!(counts.get(WorkflowStatus::Completed), 0);
}

#[test]
fn test_type_distribution() {
    let workflows = vec![
        make_workflow_with_type(WorkflowStatus::Running, "TypeA"),
        make_workflow_with_type(WorkflowStatus::Running, "TypeA"),
        make_workflow_with_type(WorkflowStatus::Running, "TypeB"),
        make_workflow_with_type(WorkflowStatus::Running, "TypeC"),
        make_workflow_with_type(WorkflowStatus::Running, "TypeC"),
        make_workflow_with_type(WorkflowStatus::Running, "TypeC"),
    ];

    let dist = TypeDistribution::from_workflows(&workflows);
    let top2 = dist.top_n(2);

    assert_eq!(top2.len(), 2);
    assert_eq!(top2[0], ("TypeC", 3));
    assert_eq!(top2[1], ("TypeA", 2));
}

#[test]
fn test_status_from_str() {
    assert_eq!("RUNNING".parse::<WorkflowStatus>(), Ok(WorkflowStatus::Running));
    assert_eq!("running".parse::<WorkflowStatus>(), Ok(WorkflowStatus::Running));
    assert_eq!("COMPLETED".parse::<WorkflowStatus>(), Ok(WorkflowStatus::Completed));
    assert_eq!("FAILED".parse::<WorkflowStatus>(), Ok(WorkflowStatus::Failed));
    assert_eq!("TIMED_OUT".parse::<WorkflowStatus>(), Ok(WorkflowStatus::TimedOut));
    assert_eq!(
        "CONTINUED_AS_NEW".parse::<WorkflowStatus>(),
        Ok(WorkflowStatus::ContinuedAsNew)
    );
    assert!("INVALID".parse::<WorkflowStatus>().is_err());
}

#[test]
fn test_status_query_value() {
    assert_eq!(WorkflowStatus::Running.as_query_value(), "Running");
    assert_eq!(WorkflowStatus::Failed.as_query_value(), "Failed");
    assert_eq!(WorkflowStatus::TimedOut.as_query_value(), "TimedOut");
}

#[test]
fn test_all_statuses() {
    let all = WorkflowStatus::all();
    assert_eq!(all.len(), 7);
    assert!(all.contains(&WorkflowStatus::Running));
    assert!(all.contains(&WorkflowStatus::Failed));
}

#[test]
fn test_empty_filter_produces_no_query() {
    let filter = WorkflowFilter::new();
    assert_eq!(filter.to_query(), None);
    assert!(filter.is_empty());
}

#[test]
fn test_status_filter() {
    let filter = WorkflowFilter::new().with_status(WorkflowStatus::Failed);
    assert_eq!(filter.to_query(), Some("ExecutionStatus='Failed'".to_string()));
    assert!(!filter.is_empty());
}

#[test]
fn test_type_filter() {
    let filter = WorkflowFilter::new().with_type("TestWorkflow");
    assert_eq!(filter.to_query(), Some("WorkflowType='TestWorkflow'".to_string()));
}

#[test]
fn test_combined_filter() {
    let filter = WorkflowFilter::new()
        .with_status(WorkflowStatus::Failed)
        .with_type("EmailGenerationWorkflow");
    assert_eq!(
        filter.to_query(),
        Some("ExecutionStatus='Failed' AND WorkflowType='EmailGenerationWorkflow'".to_string())
    );
}

#[test]
fn test_workflow_id_prefix_filter() {
    let filter = WorkflowFilter::new().with_workflow_id_prefix("user-123");
    assert_eq!(filter.to_query(), Some("WorkflowId STARTS_WITH 'user-123'".to_string()));
}

#[test]
fn test_filter_description() {
    let filter = WorkflowFilter::new();
    assert_eq!(filter.description(), "All workflows");

    let filter = WorkflowFilter::new().with_status(WorkflowStatus::Running);
    assert_eq!(filter.description(), "Running");

    let filter = WorkflowFilter::new()
        .with_status(WorkflowStatus::Failed)
        .with_type("TestWorkflow");
    assert_eq!(filter.description(), "Failed, type:TestWorkflow");
}

#[test]
fn test_from_query_parses_status() {
    let filter = WorkflowFilter::from_query("ExecutionStatus='Failed'");
    assert_eq!(filter.status, Some(WorkflowStatus::Failed));
}

#[test]
fn test_date_range_preset_duration() {
    assert_eq!(DateRangePreset::LastHour.duration_secs(), 3600);
    assert_eq!(DateRangePreset::Last7Days.duration_secs(), 7 * 86400);
}

#[test]
fn test_date_range_preset_labels() {
    assert_eq!(DateRangePreset::Last24Hours.label(), "Last 24 hours");
    assert_eq!(DateRangePreset::Last24Hours.short_label(), "24h");
    assert_eq!(DateRangePreset::Last3Days.short_label(), "3d");
}

#[test]
fn test_parse_date_input_relative() {
    let now = now_ms();

    let result = parse_date_input("2h").unwrap();
    let diff = (now - result) / 60_000;
    assert!((118..=122).contains(&diff), "Expected ~120min, got {}", diff);

    let result = parse_date_input("3d").unwrap();
    let diff = (now - result) / 3_600_000;
    assert!((71..=73).contains(&diff), "Expected ~72h, got {}", diff);

    let result = parse_date_input("30m").unwrap();
    let diff = (now - result) / 60_000;
    assert!((29..=31).contains(&diff), "Expected ~30min, got {}", diff);

    let result = parse_date_input("1w").unwrap();
    let diff = (now - result) / 86_400_000;
    assert!((6..=8).contains(&diff), "Expected ~7d, got {}", diff);
}

fn ymd(ms: i64) -> (i32, u32, u32) {
    let d = chrono::DateTime::from_timestamp_millis(ms).unwrap();
    (d.year(), d.month(), d.day())
}

#[test]
fn test_parse_date_input_rfc3339() {
    let result = parse_date_input("2024-01-15T10:00:00Z").unwrap();
    assert_eq!(ymd(result), (2024, 1, 15));
}

#[test]
fn test_parse_date_input_date_only() {
    let result = parse_date_input("2024-01-15").unwrap();
    assert_eq!(ymd(result), (2024, 1, 15));
}

#[test]
fn test_parse_date_input_invalid() {
    assert!(parse_date_input("").is_none());
    assert!(parse_date_input("garbage").is_none());
    assert!(parse_date_input("abc123").is_none());
}

#[test]
fn test_has_date_range() {
    let filter = WorkflowFilter::new();
    assert!(!filter.has_date_range());

    let filter = WorkflowFilter::new().with_start_time_after(now_ms());
    assert!(filter.has_date_range());
}

#[test]
fn test_description_with_date_label() {
    let filter = WorkflowFilter::new();
    assert_eq!(filter.description_with_date_label(Some("24h ago")), "since:24h ago");

    let filter = WorkflowFilter::new().with_status(WorkflowStatus::Failed);
    assert_eq!(
        filter.description_with_date_label(Some("3d ago")),
        "Failed, since:3d ago"
    );

    let filter = WorkflowFilter::new();
    assert_eq!(filter.description_with_date_label(None), "All workflows");
}

#[test]
fn relative_dates_are_exact_at_a_fixed_instant() {
    let now: i64 = 1_700_000_000_000;
    assert_eq!(parse_date_input_at("2h", now), Some(now - 2 * 3_600_000));
    assert_eq!(parse_date_input_at("45m", now), Some(now - 45 * 60_000));
    assert_eq!(parse_date_input_at("3d", now), Some(now - 3 * 86_400_000));
    assert_eq!(parse_date_input_at("1w", now), Some(now - 7 * 86_400_000));
    assert_eq!(parse_date_input_at("  2h  ", now), Some(now - 2 * 3_600_000));
    assert_eq!(parse_date_input_at("2x", now), None);
}

#[test]
fn query_round_trips_through_from_query() {
    let filter = WorkflowFilter::new()
        .with_status(WorkflowStatus::TimedOut)
        .with_type("Billing")
        .with_workflow_id_prefix("order-");
    let q = filter.to_query().unwrap();
    let back = WorkflowFilter::from_query(&q);
    assert_eq!(back.status, Some(WorkflowStatus::TimedOut));
    assert_eq!(back.workflow_type, Some("Billing".to_string()));
    assert_eq!(back.workflow_id_prefix, None);
}

#[test]
fn status_counts_total_of_empty_is_zero() {
    let counts = StatusCounts::new();
    assert_eq!(counts.total(), 0);
    assert!(counts.non_zero().is_empty());
    assert!(counts.sorted_by_count().is_empty());
}

#[test]
fn status_reads_back_from_its_query_value() {
    for s in [
        WorkflowStatus::Running,
        WorkflowStatus::Completed,
        WorkflowStatus::Failed,
        WorkflowStatus::Canceled,
        WorkflowStatus::Terminated,
        WorkflowStatus::TimedOut,
        WorkflowStatus::ContinuedAsNew,
    ] {
        assert_eq!(s.as_query_value().parse::<WorkflowStatus>(), Ok(s));
        assert_eq!(s.as_query_value().to_lowercase().parse::<WorkflowStatus>(), Ok(s));
    }
    assert_eq!("tImEd_oUt".parse::<WorkflowStatus>(), Ok(WorkflowStatus::TimedOut));
    assert!("runnin".parse::<WorkflowStatus>().is_err());
}

#[test]
fn query_reads_back_status_and_type() {
    let f = WorkflowFilter::new().with_status(WorkflowStatus::TimedOut).with_type("OrderFlow");
    let q = f.to_query().unwrap();
    let r = WorkflowFilter::from_query(&q);
    assert_eq!(r.status, Some(WorkflowStatus::TimedOut));
    assert_eq!(r.workflow_type.as_deref(), Some("OrderFlow"));
    let only_type = WorkflowFilter::from_query(&WorkflowFilter::new().with_type("Billing").to_query().unwrap());
    assert_eq!(only_type.status, None);
    assert_eq!(only_type.workflow_type.as_deref(), Some("Billing"));
}

#[test]
fn status_counts_hold_each_status_once() {
    let mut c = StatusCounts::new();
    c.set(WorkflowStatus::Running, 3);
    c.set(WorkflowStatus::Failed, 1);
    c.set(WorkflowStatus::Running, 5);
    assert!(c.is_wf());
    assert_eq!(c.get(WorkflowStatus::Running), 5);
}
