use tempurview::app::{App, LoadState, TimelineItemRef, TypeStat};
use tempurview::fixtures::{
    make_app_with_counts, make_app_with_workflows, make_status_counts, make_workflow, make_workflow_at,
    make_workflow_detail, make_workflows, AppBuilder,
};
use tempurview::status::WorkflowStatus;

#[test]
fn test_make_workflow() {
    let wf = make_workflow(WorkflowStatus::Running);
    assert_eq!(wf.status, WorkflowStatus::Running);
    assert!(wf.workflow_id.starts_with("test-workflow-"));
    assert!(wf.close_time.is_none());
}

#[test]
fn test_make_workflow_completed_has_close_time() {
    let wf = make_workflow(WorkflowStatus::Completed);
    assert!(wf.close_time.is_some());
}

#[test]
fn test_make_workflows() {
    let wfs = make_workflows(&[WorkflowStatus::Running, WorkflowStatus::Failed, WorkflowStatus::Completed]);
    assert_eq!(wfs.len(), 3);
    assert_eq!(wfs[0].status, WorkflowStatus::Running);
    assert_eq!(wfs[1].status, WorkflowStatus::Failed);
    assert_eq!(wfs[2].status, WorkflowStatus::Completed);
}

#[test]
fn test_make_workflow_detail_failed_has_failure() {
    let detail = make_workflow_detail(WorkflowStatus::Failed);
    assert!(detail.failure.is_some());
}

#[test]
fn test_app_builder() {
    let app = AppBuilder::new()
        .with_workflows(make_workflows(&[WorkflowStatus::Running]))
        .with_counts(make_status_counts(1, 0, 0))
        .with_status_filter(WorkflowStatus::Running)
        .build();

    assert!(matches!(app.workflows, LoadState::Loaded(_)));
    assert!(matches!(app.status_counts, LoadState::Loaded(_)));
    assert_eq!(app.filter.status, Some(WorkflowStatus::Running));
}

#[test]
fn fixture_workflow_at_fixed_time() {
    let wf = make_workflow_at(WorkflowStatus::Failed, "Billing", 7, 1_700_000_000_000);
    assert_eq!(wf.workflow_id, "test-workflow-7");
    assert_eq!(wf.run_id, "run-7");
    assert_eq!(wf.workflow_type, "Billing");
    assert_eq!(wf.start_time, 1_700_000_000_000 - 7 * 60_000);
    assert_eq!(wf.close_time, Some(1_700_000_000_000));
}

#[test]
fn fixture_apps_hold_their_data() {
    let app = make_app_with_workflows(make_workflows(&[WorkflowStatus::Running, WorkflowStatus::Failed]));
    match &app.workflows {
        LoadState::Loaded(ws) => assert_eq!(ws.len(), 2),
        _ => panic!("workflows not loaded"),
    }
    let app = make_app_with_counts(make_status_counts(3, 2, 1));
    match &app.status_counts {
        LoadState::Loaded(c) => {
            assert_eq!(c.get(WorkflowStatus::Running), 3);
            assert_eq!(c.get(WorkflowStatus::Completed), 2);
            assert_eq!(c.get(WorkflowStatus::Failed), 1);
            assert_eq!(c.total(), 6);
        }
        _ => panic!("counts not loaded"),
    }
    let detail = make_workflow_detail(WorkflowStatus::Completed);
    assert!(detail.output.is_some());
    assert!(detail.failure.is_none());
    assert_eq!(detail.history_length, 10);
}

#[test]
fn type_stats_count_each_type() {
    let ws = vec![
        tempurview::fixtures::make_workflow_with_type(WorkflowStatus::Running, "A"),
        tempurview::fixtures::make_workflow_with_type(WorkflowStatus::Failed, "B"),
        tempurview::fixtures::make_workflow_with_type(WorkflowStatus::Failed, "A"),
    ];
    let stats = TypeStat::from_workflows(&ws);
    assert_eq!(stats.len(), 2);
    assert_eq!(stats[0].workflow_type, "A");
    assert_eq!(stats[0].total, 2);
    assert_eq!(stats[0].get_status_count(WorkflowStatus::Failed), 1);
    assert_eq!(stats[0].get_status_count(WorkflowStatus::Running), 1);
    assert_eq!(stats[1].workflow_type, "B");
    assert_eq!(stats[1].total, 1);
}

#[test]
fn metadata_rows_of_a_detail() {
    let d = make_workflow_detail(WorkflowStatus::Running);
    let rows = tempurview::widgets::format_metadata(&d);
    assert_eq!(rows.len(), 8);
    assert_eq!(rows[0].0, "Workflow ID");
    assert_eq!(rows[3].1, "Running");
    assert_eq!(rows[6].1, "(running)");
    assert_eq!(rows[7].1, "10");
}

#[test]
fn selected_timeline_item_follows_event_ids() {
    let mut app = App::new();
    let act = |id: i64| tempurview::activity::ActivityExecution {
        activity_id: id.to_string(),
        activity_type: "T".to_string(),
        status: tempurview::status::ActivityStatus::Completed,
        task_queue: None,
        scheduled_time: 0,
        started_time: None,
        closed_time: None,
        queue_wait: None,
        execution_time: None,
        total_time: None,
        attempt: 1,
        input: None,
        output: None,
        failure: None,
        scheduled_event_id: id,
        started_event_id: None,
        closed_event_id: None,
    };
    app.activities = vec![act(9), act(3)];
    app.activity_table_state.select(Some(0));
    match app.selected_timeline_item() {
        Some(TimelineItemRef::Activity(a)) => assert_eq!(a.scheduled_event_id, 3),
        other => panic!("unexpected {:?}", other),
    }
    app.activity_table_state.select(Some(5));
    assert!(app.selected_timeline_item().is_none());
}
