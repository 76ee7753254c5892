use tempurview::activity::ActivityExecution;
use tempurview::activity_findings::{compute_activity_findings, compute_activity_findings_at};
use tempurview::child::ChildWorkflowExecution;
use tempurview::findings::{compute_list_findings, compute_list_findings_at, select_workflows_for_sampling};
use tempurview::insights::{rank_findings, InsightFinding, InsightsConfig};
use tempurview::json::{JsonNumber, JsonValue};
use tempurview::model::{FailureInfo, WorkflowSummary};
use tempurview::sampled::{compute_child_workflow_findings, compute_child_workflow_findings_at};
use tempurview::status::{ActivityStatus, ChildWorkflowStatus, InsightCategory, InsightSeverity, WorkflowStatus};

const MIN: i64 = 60_000;
const HOUR: i64 = 3_600_000;

fn now_ms() -> i64 {
    chrono::Utc::now().timestamp_millis()
}

fn s(t: &str) -> JsonValue {
    JsonValue::String(t.to_string())
}

fn obj(members: Vec<(&str, JsonValue)>) -> JsonValue {
    JsonValue::Object(members.into_iter().map(|(k, v)| (k.to_string(), v)).collect())
}

fn make_wf(id: &str, wf_type: &str, status: WorkflowStatus, hours_ago: i64) -> WorkflowSummary {
    let start_time = now_ms() - hours_ago * HOUR;
    let close_time = if status != WorkflowStatus::Running { Some(start_time + 5 * MIN) } else { None };
    WorkflowSummary {
        workflow_id: id.to_string(),
        run_id: format!("run-{}", id),
        workflow_type: wf_type.to_string(),
        status,
        start_time,
        close_time,
        task_queue: "default".to_string(),
    }
}

fn make_activity(
    activity_type: &str,
    status: ActivityStatus,
    attempt: i32,
    queue_wait_ms: Option<i64>,
    started_mins_ago: Option<i64>,
) -> ActivityExecution {
    let now = now_ms();
    let scheduled_time = now - 60 * MIN;
    let started_time = started_mins_ago.map(|m| now - m * MIN);
    let closed_time = if matches!(
        status,
        ActivityStatus::Completed | ActivityStatus::Failed | ActivityStatus::TimedOut | ActivityStatus::Canceled
    ) {
        Some(now - MIN)
    } else {
        None
    };
    ActivityExecution {
        activity_id: "1".to_string(),
        activity_type: activity_type.to_string(),
        status,
        task_queue: Some("default".to_string()),
        scheduled_time,
        started_time,
        closed_time,
        queue_wait: queue_wait_ms,
        execution_time: Some(1000),
        total_time: Some(2000),
        attempt,
        input: None,
        output: None,
        failure: if status == ActivityStatus::Failed {
            Some(FailureInfo {
                message: format!("{} failed: test error", activity_type),
                failure_type: "ApplicationFailure".to_string(),
                stack_trace: None,
                cause: None,
            })
        } else {
            None
        },
        scheduled_event_id: 5,
        started_event_id: started_time.map(|_| 6),
        closed_event_id: closed_time.map(|_| 7),
    }
}

fn make_child_wf(workflow_type: &str, status: ChildWorkflowStatus, start_latency_ms: Option<i64>) -> ChildWorkflowExecution {
    let now = now_ms();
    let initiated_time = now - 10 * MIN;
    let started_time = start_latency_ms.map(|ms| initiated_time + ms);
    let closed_time = if matches!(
        status,
        ChildWorkflowStatus::Completed
            | ChildWorkflowStatus::Failed
            | ChildWorkflowStatus::TimedOut
            | ChildWorkflowStatus::Canceled
            | ChildWorkflowStatus::Terminated
            | ChildWorkflowStatus::StartFailed
    ) {
        Some(now - MIN)
    } else {
        None
    };
    ChildWorkflowExecution {
        workflow_id: format!("child-{}", workflow_type),
        workflow_type: workflow_type.to_string(),
        status,
        namespace: Some("default".to_string()),
        run_id: Some("run-123".to_string()),
        initiated_time,
        started_time,
        closed_time,
        start_latency: start_latency_ms,
        execution_time: Some(5000),
        total_time: Some(10_000),
        failure: if matches!(status, ChildWorkflowStatus::Failed | ChildWorkflowStatus::StartFailed) {
            Some(FailureInfo {
                message: format!("{} child workflow failed", workflow_type),
                failure_type: "ApplicationFailure".to_string(),
                stack_trace: None,
                cause: None,
            })
        } else {
            None
        },
        initiated_event_id: 10,
        started_event_id: started_time.map(|_| 11),
        closed_event_id: closed_time.map(|_| 15),
    }
}

fn of(findings: &[InsightFinding], category: InsightCategory) -> Vec<&InsightFinding> {
    findings.iter().filter(|f| f.category == category).collect()
}

fn finding(severity: InsightSeverity, category: InsightCategory, title: &str, affected: &[&str]) -> InsightFinding {
    InsightFinding {
        severity,
        category,
        title: title.to_string(),
        detail: String::new(),
        affected_entities: affected.iter().map(|a| a.to_string()).collect(),
        computed_at: now_ms(),
    }
}

fn one(id: &str, a: ActivityExecution) -> (String, Vec<ActivityExecution>) {
    (id.to_string(), vec![a])
}

#[test]
fn test_list_findings_empty() {
    let findings = compute_list_findings(&[]);
    assert!(findings.is_empty());
}

#[test]
fn test_high_failure_rate_critical() {
    let workflows = vec![
        make_wf("wf-1", "Payment", WorkflowStatus::Failed, 1),
        make_wf("wf-2", "Payment", WorkflowStatus::Failed, 2),
        make_wf("wf-3", "Payment", WorkflowStatus::Failed, 3),
        make_wf("wf-4", "Payment", WorkflowStatus::Completed, 4),
    ];
    let findings = compute_list_findings(&workflows);
    let failure_findings = of(&findings, InsightCategory::FailureRate);
    assert_eq!(failure_findings.len(), 1);
    assert_eq!(failure_findings[0].severity, InsightSeverity::Critical);
    assert!(failure_findings[0].title.contains("Payment"));
    assert!(failure_findings[0].title.contains("75%"));
}

#[test]
fn test_high_failure_rate_warning() {
    let workflows = vec![
        make_wf("wf-1", "Email", WorkflowStatus::Failed, 1),
        make_wf("wf-2", "Email", WorkflowStatus::Completed, 2),
        make_wf("wf-3", "Email", WorkflowStatus::Completed, 3),
        make_wf("wf-4", "Email", WorkflowStatus::Completed, 4),
    ];
    let findings = compute_list_findings(&workflows);
    let failure_findings = of(&findings, InsightCategory::FailureRate);
    assert_eq!(failure_findings.len(), 1);
    assert_eq!(failure_findings[0].severity, InsightSeverity::Warning);
}

#[test]
fn test_no_failure_rate_below_threshold() {
    let workflows = vec![
        make_wf("wf-1", "Email", WorkflowStatus::Completed, 1),
        make_wf("wf-2", "Email", WorkflowStatus::Completed, 2),
        make_wf("wf-3", "Email", WorkflowStatus::Completed, 3),
    ];
    let findings = compute_list_findings(&workflows);
    assert!(of(&findings, InsightCategory::FailureRate).is_empty());
}

#[test]
fn test_all_failed_type() {
    let workflows = vec![
        make_wf("wf-1", "BrokenType", WorkflowStatus::Failed, 1),
        make_wf("wf-2", "BrokenType", WorkflowStatus::Terminated, 2),
        make_wf("wf-3", "BrokenType", WorkflowStatus::TimedOut, 3),
    ];
    let findings = compute_list_findings(&workflows);
    let anomaly_findings = of(&findings, InsightCategory::TypeAnomaly);
    assert_eq!(anomaly_findings.len(), 1);
    assert_eq!(anomaly_findings[0].severity, InsightSeverity::Critical);
    assert!(anomaly_findings[0].title.contains("BrokenType"));
    let failure_findings: Vec<_> = findings
        .iter()
        .filter(|f| f.category == InsightCategory::FailureRate && f.title.contains("BrokenType"))
        .collect();
    assert!(failure_findings.is_empty());
}

#[test]
fn test_stuck_workflows_warning() {
    let workflows = vec![
        make_wf("wf-1", "DataProc", WorkflowStatus::Running, 3),
        make_wf("wf-2", "DataProc", WorkflowStatus::Completed, 1),
    ];
    let findings = compute_list_findings(&workflows);
    let stuck = of(&findings, InsightCategory::StuckWorkflow);
    assert_eq!(stuck.len(), 1);
    assert_eq!(stuck[0].severity, InsightSeverity::Warning);
}

#[test]
fn test_stuck_workflows_critical() {
    let workflows = vec![make_wf("wf-1", "DataProc", WorkflowStatus::Running, 7)];
    let findings = compute_list_findings(&workflows);
    let stuck = of(&findings, InsightCategory::StuckWorkflow);
    assert_eq!(stuck.len(), 1);
    assert_eq!(stuck[0].severity, InsightSeverity::Critical);
}

#[test]
fn test_no_stuck_workflows_under_threshold() {
    let workflows = vec![make_wf("wf-1", "DataProc", WorkflowStatus::Running, 1)];
    let findings = compute_list_findings(&workflows);
    assert!(of(&findings, InsightCategory::StuckWorkflow).is_empty());
}

#[test]
fn test_activity_findings_empty() {
    let findings = compute_activity_findings(&[], &InsightsConfig::default());
    assert!(findings.is_empty());
}

#[test]
fn test_retry_storm_warning() {
    let samples = vec![
        one("wf-1", make_activity("SendEmail", ActivityStatus::Failed, 2, Some(50), Some(5))),
        one("wf-2", make_activity("SendEmail", ActivityStatus::Failed, 3, Some(50), Some(5))),
        one("wf-3", make_activity("SendEmail", ActivityStatus::Failed, 2, Some(50), Some(5))),
    ];
    let findings = compute_activity_findings(&samples, &InsightsConfig::default());
    let retry = of(&findings, InsightCategory::RetryStorm);
    assert_eq!(retry.len(), 1);
    assert_eq!(retry[0].severity, InsightSeverity::Warning);
    assert!(retry[0].title.contains("SendEmail"));
}

#[test]
fn test_retry_storm_critical() {
    let samples = vec![
        one("wf-1", make_activity("SendEmail", ActivityStatus::Failed, 3, Some(50), Some(5))),
        one("wf-2", make_activity("SendEmail", ActivityStatus::Failed, 4, Some(50), Some(5))),
        one("wf-3", make_activity("SendEmail", ActivityStatus::Failed, 5, Some(50), Some(5))),
    ];
    let findings = compute_activity_findings(&samples, &InsightsConfig::default());
    let retry = of(&findings, InsightCategory::RetryStorm);
    assert_eq!(retry.len(), 1);
    assert_eq!(retry[0].severity, InsightSeverity::Critical);
}

#[test]
fn test_no_retry_storm_below_threshold() {
    let samples = vec![
        one("wf-1", make_activity("SendEmail", ActivityStatus::Completed, 1, Some(50), Some(5))),
        one("wf-2", make_activity("SendEmail", ActivityStatus::Completed, 1, Some(50), Some(5))),
        one("wf-3", make_activity("SendEmail", ActivityStatus::Completed, 1, Some(50), Some(5))),
    ];
    let findings = compute_activity_findings(&samples, &InsightsConfig::default());
    assert!(of(&findings, InsightCategory::RetryStorm).is_empty());
}

#[test]
fn test_queue_latency_warning() {
    let samples = vec![
        one("wf-1", make_activity("A", ActivityStatus::Completed, 1, Some(1500), Some(5))),
        one("wf-2", make_activity("A", ActivityStatus::Completed, 1, Some(1200), Some(5))),
        one("wf-3", make_activity("A", ActivityStatus::Completed, 1, Some(1800), Some(5))),
    ];
    let findings = compute_activity_findings(&samples, &InsightsConfig::default());
    let lat = of(&findings, InsightCategory::QueueLatency);
    assert_eq!(lat.len(), 1);
    assert_eq!(lat[0].severity, InsightSeverity::Warning);
}

#[test]
fn test_queue_latency_critical() {
    let samples = vec![
        one("wf-1", make_activity("A", ActivityStatus::Completed, 1, Some(6000), Some(5))),
        one("wf-2", make_activity("A", ActivityStatus::Completed, 1, Some(7000), Some(5))),
        one("wf-3", make_activity("A", ActivityStatus::Completed, 1, Some(5500), Some(5))),
    ];
    let findings = compute_activity_findings(&samples, &InsightsConfig::default());
    let lat = of(&findings, InsightCategory::QueueLatency);
    assert_eq!(lat.len(), 1);
    assert_eq!(lat[0].severity, InsightSeverity::Critical);
}

#[test]
fn test_activity_failure_hotspot() {
    let samples = vec![
        one("wf-1", make_activity("ValidateInput", ActivityStatus::Failed, 1, Some(50), Some(5))),
        one("wf-2", make_activity("ValidateInput", ActivityStatus::Failed, 1, Some(50), Some(5))),
        one("wf-3", make_activity("ValidateInput", ActivityStatus::Failed, 1, Some(50), Some(5))),
    ];
    let findings = compute_activity_findings(&samples, &InsightsConfig::default());
    let fails = of(&findings, InsightCategory::ActivityFailure);
    assert_eq!(fails.len(), 1);
    assert_eq!(fails[0].severity, InsightSeverity::Warning);
    assert!(fails[0].title.contains("ValidateInput"));
}

#[test]
fn test_activity_failure_hotspot_critical() {
    let samples: Vec<(String, Vec<ActivityExecution>)> = (0..5)
        .map(|i| one(&format!("wf-{}", i), make_activity("ValidateInput", ActivityStatus::Failed, 1, Some(50), Some(5))))
        .collect();
    let findings = compute_activity_findings(&samples, &InsightsConfig::default());
    let fails = of(&findings, InsightCategory::ActivityFailure);
    assert_eq!(fails.len(), 1);
    assert_eq!(fails[0].severity, InsightSeverity::Critical);
}

#[test]
fn test_long_running_activity() {
    let samples = vec![one("wf-1", make_activity("ProcessPayment", ActivityStatus::Running, 1, Some(50), Some(45)))];
    let findings = compute_activity_findings(&samples, &InsightsConfig::default());
    let long = of(&findings, InsightCategory::LongRunningActivity);
    assert_eq!(long.len(), 1);
    assert_eq!(long[0].severity, InsightSeverity::Warning);
}

#[test]
fn test_long_running_activity_critical() {
    let samples = vec![one("wf-1", make_activity("ProcessPayment", ActivityStatus::Running, 1, Some(50), Some(150)))];
    let findings = compute_activity_findings(&samples, &InsightsConfig::default());
    let long = of(&findings, InsightCategory::LongRunningActivity);
    assert_eq!(long.len(), 1);
    assert_eq!(long[0].severity, InsightSeverity::Critical);
}

#[test]
fn test_sampling_prioritizes_failed() {
    let workflows = vec![
        make_wf("wf-ok-1", "A", WorkflowStatus::Completed, 1),
        make_wf("wf-fail-1", "A", WorkflowStatus::Failed, 2),
        make_wf("wf-ok-2", "A", WorkflowStatus::Completed, 3),
        make_wf("wf-fail-2", "A", WorkflowStatus::Terminated, 4),
    ];
    let selected = select_workflows_for_sampling(&workflows, 2);
    assert_eq!(selected.len(), 2);
    assert!(selected
        .iter()
        .all(|w| w.status == WorkflowStatus::Failed || w.status == WorkflowStatus::Terminated));
}

#[test]
fn test_sampling_then_running() {
    let workflows = vec![
        make_wf("wf-fail-1", "A", WorkflowStatus::Failed, 1),
        make_wf("wf-run-1", "A", WorkflowStatus::Running, 5),
        make_wf("wf-ok-1", "A", WorkflowStatus::Completed, 2),
    ];
    let selected = select_workflows_for_sampling(&workflows, 3);
    assert_eq!(selected.len(), 3);
    assert_eq!(selected[0].workflow_id, "wf-fail-1");
    assert_eq!(selected[1].workflow_id, "wf-run-1");
    assert_eq!(selected[2].workflow_id, "wf-ok-1");
}

#[test]
fn test_sampling_caps_at_max() {
    let workflows: Vec<_> = (0..50).map(|i| make_wf(&format!("wf-{}", i), "A", WorkflowStatus::Failed, 1)).collect();
    let selected = select_workflows_for_sampling(&workflows, 5);
    assert_eq!(selected.len(), 5);
}

#[test]
fn test_sampling_empty() {
    let selected = select_workflows_for_sampling(&[], 20);
    assert!(selected.is_empty());
}

#[test]
fn test_rank_by_severity() {
    let findings = vec![
        finding(InsightSeverity::Info, InsightCategory::FailureRate, "info", &["a"]),
        finding(InsightSeverity::Critical, InsightCategory::FailureRate, "critical", &["a"]),
        finding(InsightSeverity::Warning, InsightCategory::FailureRate, "warning", &["a"]),
    ];
    let ranked = rank_findings(findings);
    assert_eq!(ranked[0].severity, InsightSeverity::Critical);
    assert_eq!(ranked[1].severity, InsightSeverity::Warning);
    assert_eq!(ranked[2].severity, InsightSeverity::Info);
}

#[test]
fn test_activity_retry_detected() {
    let samples = vec![
        one("wf-1", make_activity("SendEmail", ActivityStatus::Completed, 3, Some(50), Some(5))),
        one("wf-2", make_activity("SendEmail", ActivityStatus::Completed, 2, Some(50), Some(5))),
    ];
    let findings = compute_activity_findings(&samples, &InsightsConfig::default());
    let retry = of(&findings, InsightCategory::ActivityRetry);
    assert_eq!(retry.len(), 1);
    assert!(retry[0].title.contains("SendEmail"));
    assert!(retry[0].title.contains("2 retried"));
}

#[test]
fn test_activity_retry_not_triggered_for_attempt_1() {
    let samples = vec![
        one("wf-1", make_activity("SendEmail", ActivityStatus::Completed, 1, Some(50), Some(5))),
        one("wf-2", make_activity("SendEmail", ActivityStatus::Completed, 1, Some(50), Some(5))),
    ];
    let findings = compute_activity_findings(&samples, &InsightsConfig::default());
    assert!(of(&findings, InsightCategory::ActivityRetry).is_empty());
}

#[test]
fn test_error_in_output_detected() {
    let mut a1 = make_activity("ProcessPayment", ActivityStatus::Completed, 1, Some(50), Some(5));
    a1.output = Some(obj(vec![
        ("status", s("ok")),
        ("message", s("Handled gracefully but encountered an Error during processing")),
    ]));
    let mut a2 = make_activity("ProcessPayment", ActivityStatus::Completed, 1, Some(50), Some(5));
    a2.output = Some(obj(vec![
        ("result", s("partial")),
        ("exception_count", JsonValue::Number(JsonNumber::PosInt(3))),
        ("details", s("caught Exception in handler")),
    ]));
    let samples = vec![one("wf-1", a1), one("wf-2", a2)];
    let findings = compute_activity_findings(&samples, &InsightsConfig::default());
    let errs = of(&findings, InsightCategory::ErrorInOutput);
    assert_eq!(errs.len(), 1);
    assert!(errs[0].title.contains("ProcessPayment"));
    assert!(errs[0].detail.contains("Error patterns detected"));
}

#[test]
fn test_error_in_output_not_triggered_for_clean_output() {
    let mut a1 = make_activity("ProcessPayment", ActivityStatus::Completed, 1, Some(50), Some(5));
    a1.output = Some(obj(vec![
        ("status", s("success")),
        ("amount", JsonValue::Number(JsonNumber::Float("42.0".to_string()))),
    ]));
    let samples = vec![one("wf-1", a1)];
    let findings = compute_activity_findings(&samples, &InsightsConfig::default());
    assert!(of(&findings, InsightCategory::ErrorInOutput).is_empty());
}

#[test]
fn test_error_in_input_detected() {
    let mut a1 = make_activity("ValidateInput", ActivityStatus::Completed, 1, Some(50), Some(5));
    a1.input = Some(obj(vec![("data", s("retry after timeout error from upstream"))]));
    let mut a2 = make_activity("ValidateInput", ActivityStatus::Completed, 1, Some(50), Some(5));
    a2.input = Some(obj(vec![("data", s("propagated TIMEOUT from service X"))]));
    let samples = vec![one("wf-1", a1), one("wf-2", a2)];
    let findings = compute_activity_findings(&samples, &InsightsConfig::default());
    let errs = of(&findings, InsightCategory::ErrorInOutput);
    assert_eq!(errs.len(), 1);
    assert!(errs[0].title.contains("ValidateInput"));
}

fn claim_samples() -> Vec<(String, Vec<ActivityExecution>)> {
    let mut a1 = make_activity("ProcessClaim", ActivityStatus::Completed, 1, Some(50), Some(5));
    a1.output = Some(obj(vec![("policy_type", s("errors and omissions policy"))]));
    let mut a2 = make_activity("ProcessClaim", ActivityStatus::Completed, 1, Some(50), Some(5));
    a2.output = Some(obj(vec![("policy_type", s("errors and omissions coverage"))]));
    vec![one("wf-1", a1), one("wf-2", a2)]
}

#[test]
fn test_error_in_output_suppressed_by_allowlist() {
    let samples = claim_samples();
    let config = InsightsConfig { allowlist: vec!["errors and omissions".to_string()], ..InsightsConfig::default() };
    let findings = compute_activity_findings(&samples, &config);
    assert!(
        of(&findings, InsightCategory::ErrorInOutput).is_empty(),
        "Allowlisted phrase should suppress ErrorInOutput finding"
    );
}

#[test]
fn test_error_in_output_not_suppressed_without_allowlist() {
    let samples = claim_samples();
    let findings = compute_activity_findings(&samples, &InsightsConfig::default());
    assert_eq!(
        of(&findings, InsightCategory::ErrorInOutput).len(),
        1,
        "Without allowlist, ErrorInOutput should be produced"
    );
}

#[test]
fn test_rank_tiebreak_by_affected_count() {
    let findings = vec![
        finding(InsightSeverity::Warning, InsightCategory::FailureRate, "fewer", &["a"]),
        finding(InsightSeverity::Warning, InsightCategory::RetryStorm, "more", &["a", "b", "c"]),
    ];
    let ranked = rank_findings(findings);
    assert_eq!(ranked[0].title, "more");
    assert_eq!(ranked[1].title, "fewer");
}

#[test]
fn test_child_wf_findings_empty() {
    let findings = compute_child_workflow_findings(&[]);
    assert!(findings.is_empty());
}

#[test]
fn test_child_wf_failure_hotspot_warning() {
    let samples = vec![
        ("parent-1".to_string(), vec![make_child_wf("ProcessOrder", ChildWorkflowStatus::Failed, Some(50))]),
        ("parent-2".to_string(), vec![make_child_wf("ProcessOrder", ChildWorkflowStatus::Failed, Some(50))]),
    ];
    let findings = compute_child_workflow_findings(&samples);
    let fails = of(&findings, InsightCategory::ChildWorkflowFailure);
    assert_eq!(fails.len(), 1);
    assert_eq!(fails[0].severity, InsightSeverity::Warning);
    assert!(fails[0].title.contains("ProcessOrder"));
    assert!(fails[0].title.contains("2 failures"));
}

#[test]
fn test_child_wf_failure_hotspot_critical() {
    let samples: Vec<(String, Vec<ChildWorkflowExecution>)> = (0..5)
        .map(|i| (format!("parent-{}", i), vec![make_child_wf("ProcessOrder", ChildWorkflowStatus::Failed, Some(50))]))
        .collect();
    let findings = compute_child_workflow_findings(&samples);
    let fails = of(&findings, InsightCategory::ChildWorkflowFailure);
    assert_eq!(fails.len(), 1);
    assert_eq!(fails[0].severity, InsightSeverity::Critical);
}

#[test]
fn test_child_wf_latency_warning() {
    let samples = vec![
        ("parent-1".to_string(), vec![make_child_wf("ProcessOrder", ChildWorkflowStatus::Completed, Some(2500))]),
        ("parent-2".to_string(), vec![make_child_wf("ProcessOrder", ChildWorkflowStatus::Completed, Some(3000))]),
        ("parent-3".to_string(), vec![make_child_wf("ProcessOrder", ChildWorkflowStatus::Completed, Some(2800))]),
    ];
    let findings = compute_child_workflow_findings(&samples);
    let lat = of(&findings, InsightCategory::ChildWorkflowLatency);
    assert_eq!(lat.len(), 1);
    assert_eq!(lat[0].severity, InsightSeverity::Warning);
    assert!(lat[0].title.contains("ProcessOrder"));
}

#[test]
fn test_child_wf_latency_critical() {
    let samples = vec![
        ("parent-1".to_string(), vec![make_child_wf("ProcessOrder", ChildWorkflowStatus::Completed, Some(11000))]),
        ("parent-2".to_string(), vec![make_child_wf("ProcessOrder", ChildWorkflowStatus::Completed, Some(12000))]),
        ("parent-3".to_string(), vec![make_child_wf("ProcessOrder", ChildWorkflowStatus::Completed, Some(15000))]),
    ];
    let findings = compute_child_workflow_findings(&samples);
    let lat = of(&findings, InsightCategory::ChildWorkflowLatency);
    assert_eq!(lat.len(), 1);
    assert_eq!(lat[0].severity, InsightSeverity::Critical);
}

#[test]
fn test_child_wf_no_findings_all_healthy() {
    let samples = vec![
        ("parent-1".to_string(), vec![make_child_wf("ProcessOrder", ChildWorkflowStatus::Completed, Some(100))]),
        ("parent-2".to_string(), vec![make_child_wf("ProcessOrder", ChildWorkflowStatus::Completed, Some(200))]),
    ];
    let findings = compute_child_workflow_findings(&samples);
    assert!(findings.is_empty());
}

#[test]
fn failure_rate_title_is_exact_at_fixed_time() {
    let now: i64 = 1_700_000_000_000;
    let mk = |id: &str, st: WorkflowStatus| WorkflowSummary {
        workflow_id: id.to_string(),
        run_id: "r".to_string(),
        workflow_type: "Payment".to_string(),
        status: st,
        start_time: now - HOUR,
        close_time: Some(now),
        task_queue: "q".to_string(),
    };
    let workflows = vec![
        mk("a", WorkflowStatus::Failed),
        mk("b", WorkflowStatus::Failed),
        mk("c", WorkflowStatus::Completed),
    ];
    let findings = compute_list_findings_at(&workflows, now);
    let rate = of(&findings, InsightCategory::FailureRate);
    assert_eq!(rate.len(), 1);
    assert_eq!(rate[0].severity, InsightSeverity::Critical);
    assert!(rate[0].title.contains("67%"));
    assert_eq!(rate[0].affected_entities, vec!["a".to_string(), "b".to_string()]);
    assert!(findings.iter().all(|f| f.computed_at == now));
}

#[test]
fn sampling_never_repeats_and_respects_max() {
    let workflows = vec![
        make_wf("r1", "A", WorkflowStatus::Running, 1),
        make_wf("f1", "A", WorkflowStatus::Failed, 1),
        make_wf("c1", "A", WorkflowStatus::Completed, 1),
        make_wf("f2", "A", WorkflowStatus::TimedOut, 1),
    ];
    let selected = select_workflows_for_sampling(&workflows, 10);
    assert_eq!(selected.len(), 4);
    let ids: Vec<&str> = selected.iter().map(|w| w.workflow_id.as_str()).collect();
    assert_eq!(ids, vec!["f1", "f2", "r1", "c1"]);
    assert!(select_workflows_for_sampling(&workflows, 0).is_empty());
}

#[test]
fn findings_at_fixed_instant_for_activities_and_children() {
    let now: i64 = 1_700_000_000_000;
    let mut a = make_activity("Slow", ActivityStatus::Running, 1, Some(10), None);
    a.scheduled_time = now - 200 * MIN;
    a.started_time = Some(now - 40 * MIN);
    let findings = compute_activity_findings_at(&[one("wf", a)], &InsightsConfig::new(), now);
    let long = of(&findings, InsightCategory::LongRunningActivity);
    assert_eq!(long.len(), 1);
    assert_eq!(long[0].severity, InsightSeverity::Warning);
    assert_eq!(long[0].affected_entities, vec!["wf".to_string()]);

    let mut c = make_child_wf("Kid", ChildWorkflowStatus::Failed, Some(10));
    c.initiated_time = now - MIN;
    c.started_time = Some(now - MIN + 10);
    c.closed_time = Some(now);
    let mut c2 = make_child_wf("Kid", ChildWorkflowStatus::Failed, Some(10));
    c2.initiated_time = now - MIN;
    c2.started_time = Some(now - MIN + 10);
    c2.closed_time = Some(now);
    let samples = vec![("p1".to_string(), vec![c]), ("p2".to_string(), vec![c2])];
    let findings = compute_child_workflow_findings_at(&samples, now);
    let fails = of(&findings, InsightCategory::ChildWorkflowFailure);
    assert_eq!(fails.len(), 1);
    assert_eq!(fails[0].affected_entities, vec!["p1".to_string(), "p2".to_string()]);
}

#[test]
fn test_percent_rounding_matches_float_formatting() {
    for total in 1u128..=600 {
        for nf in 0..=total {
            let ours = tempurview::findings::percent_exec(nf, total);
            let rate = nf as f64 / total as f64;
            assert_eq!(ours.to_string(), format!("{:.0}", rate * 100.0), "{}/{}", nf, total);
        }
    }
}

#[test]
fn test_one_decimal_matches_float_formatting() {
    let text = |v: i128, d: i128| {
        let mut out: Vec<char> = Vec::new();
        tempurview::sampled::push_one_decimal(&mut out, v, d);
        out.into_iter().collect::<String>()
    };
    for v in 0..30_000i128 {
        assert_eq!(text(v, 1000), format!("{:.1}", v as f64 / 1000.0), "{}/1000", v);
    }
    for d in 1..60i128 {
        for v in 0..(8 * d) {
            assert_eq!(text(v, d), format!("{:.1}", v as f64 / d as f64), "{}/{}", v, d);
        }
    }
}

#[test]
fn sampling_short_of_max_takes_every_candidate() {
    let workflows = vec![
        make_wf("wf-ok-1", "A", WorkflowStatus::Completed, 2),
        make_wf("wf-run-1", "A", WorkflowStatus::Running, 5),
        make_wf("wf-can-1", "A", WorkflowStatus::Canceled, 1),
        make_wf("wf-fail-1", "A", WorkflowStatus::Failed, 1),
        make_wf("wf-fail-1", "A", WorkflowStatus::TimedOut, 1),
    ];
    let selected = select_workflows_for_sampling(&workflows, 10);
    let ids: Vec<&str> = selected.iter().map(|w| w.workflow_id.as_str()).collect();
    assert_eq!(ids, vec!["wf-fail-1", "wf-run-1", "wf-ok-1"]);
}
