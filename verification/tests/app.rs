use tempurview::app::{Action, App, DataPayload, Effect, LoadState, TableState};
use tempurview::json::{JsonNumber, JsonValue};
use tempurview::model::HistoryEvent;
use tempurview::mode::{InputMode, View};
use tempurview::model::WorkflowSummary;
use tempurview::stats::StatusCounts;
use tempurview::status::{TableColumn, WorkflowStatus};

fn now_ms() -> i64 {
    chrono::Utc::now().timestamp_millis()
}

fn workflow(n: u32, status: WorkflowStatus) -> WorkflowSummary {
    let now = now_ms();
    WorkflowSummary {
        workflow_id: format!("wf-{}", n),
        run_id: format!("run-{}", n),
        workflow_type: "Test".to_string(),
        status,
        start_time: now,
        close_time: if status == WorkflowStatus::Running { None } else { Some(now) },
        task_queue: "default".to_string(),
    }
}

fn make_test_workflows() -> Vec<WorkflowSummary> {
    vec![
        workflow(1, WorkflowStatus::Running),
        workflow(2, WorkflowStatus::Completed),
        workflow(3, WorkflowStatus::Failed),
    ]
}

#[test]
fn test_navigation() {
    let mut app = App::new();
    app.view = View::WorkflowList;
    app.workflows = LoadState::Loaded(make_test_workflows());

    assert_eq!(app.table_state.selected(), Some(0));

    app.update(Action::NavigateDown);
    assert_eq!(app.table_state.selected(), Some(1));

    app.update(Action::NavigateDown);
    assert_eq!(app.table_state.selected(), Some(2));

    app.update(Action::NavigateDown);
    assert_eq!(app.table_state.selected(), Some(2));

    app.update(Action::NavigateUp);
    assert_eq!(app.table_state.selected(), Some(1));

    app.update(Action::NavigateTop);
    assert_eq!(app.table_state.selected(), Some(0));

    app.update(Action::NavigateBottom);
    assert_eq!(app.table_state.selected(), Some(2));
}

#[test]
fn test_refresh_triggers_load_effects() {
    let mut app = App::new();
    let effects = app.update(Action::Refresh);

    assert!(matches!(app.status_counts, LoadState::Loading));
    assert!(matches!(app.workflows, LoadState::Loading));
    assert!(effects.contains(&Effect::LoadCounts));
    assert!(effects.contains(&Effect::LoadWorkflows));
}

#[test]
fn test_quit() {
    let mut app = App::new();
    assert!(!app.should_quit);

    app.update(Action::Quit);
    assert!(!app.should_quit);
    assert_eq!(app.last_error, Some("Press Ctrl+C again to quit".to_string()));

    app.update(Action::Quit);
    assert!(app.should_quit);
}

#[test]
fn test_view_switching() {
    let mut app = App::new();
    app.workflows = LoadState::Loaded(make_test_workflows());

    assert_eq!(app.view, View::WorkflowList);

    app.update(Action::ViewDetail);
    assert_eq!(app.view, View::WorkflowDetail);
    assert_eq!(app.view_stack, vec![View::WorkflowList]);

    app.update(Action::GoBack);
    assert_eq!(app.view, View::WorkflowList);
}

#[test]
fn app_test_filter_input_mode() {
    let mut app = App::new();

    app.update(Action::OpenFilterInput);
    assert_eq!(app.input_mode, InputMode::FilterInput);

    app.update(Action::AppendFilterChar('t'));
    app.update(Action::AppendFilterChar('e'));
    app.update(Action::AppendFilterChar('s'));
    app.update(Action::AppendFilterChar('t'));
    assert_eq!(app.filter_input, "test");

    app.update(Action::DeleteFilterChar);
    assert_eq!(app.filter_input, "tes");

    app.update(Action::CloseFilterInput);
    assert_eq!(app.input_mode, InputMode::Normal);
}

#[test]
fn test_set_status_filter() {
    let mut app = App::new();
    let effects = app.update(Action::SetStatusFilter(Some(WorkflowStatus::Failed)));

    assert_eq!(app.filter.status, Some(WorkflowStatus::Failed));
    assert!(effects.contains(&Effect::LoadWorkflows));
}

#[test]
fn test_clear_filters() {
    let mut app = App::new();
    app.filter.status = Some(WorkflowStatus::Failed);
    app.filter.workflow_type = Some("Test".to_string());

    let effects = app.update(Action::ClearFilters);

    assert!(app.filter.is_empty());
    assert!(effects.contains(&Effect::LoadWorkflows));
}

#[test]
fn test_data_loaded() {
    let mut app = App::new();

    let mut counts = StatusCounts::new();
    counts.set(WorkflowStatus::Running, 10);
    app.update(Action::DataLoaded(DataPayload::Counts(counts.clone())));

    assert!(matches!(app.status_counts, LoadState::Loaded(_)));
    if let LoadState::Loaded(c) = &app.status_counts {
        assert_eq!(c.get(WorkflowStatus::Running), 10);
    }
}

#[test]
fn test_error_handling() {
    let mut app = App::new();
    app.status_counts = LoadState::Loading;
    app.workflows = LoadState::Loading;

    app.update(Action::Error("Test error".to_string()));

    assert_eq!(app.last_error, Some("Test error".to_string()));
    assert!(matches!(app.status_counts, LoadState::Error(_)));
    assert!(matches!(app.workflows, LoadState::Error(_)));
}

#[test]
fn test_selected_workflow_id() {
    let mut app = App::new();
    app.workflows = LoadState::Loaded(make_test_workflows());
    app.table_state.select(Some(1));

    assert_eq!(app.selected_workflow_id(), Some("wf-2"));
}

#[test]
fn test_app_initial_state() {
    let app = App::new();

    assert_eq!(app.view, View::WorkflowList);
    assert!(matches!(app.status_counts, LoadState::NotLoaded));
    assert!(matches!(app.workflows, LoadState::NotLoaded));
    assert!(!app.should_quit);
}

#[test]
fn test_app_refresh_triggers_loading() {
    let mut app = App::new();
    let effects = app.update(Action::Refresh);

    assert!(matches!(app.status_counts, LoadState::Loading));
    assert!(matches!(app.workflows, LoadState::Loading));
    assert!(effects.iter().any(|e| matches!(e, Effect::LoadCounts)));
    assert!(effects.iter().any(|e| matches!(e, Effect::LoadWorkflows)));
}

#[test]
fn test_app_data_loaded_updates_state() {
    let mut app = App::new();
    app.status_counts = LoadState::Loading;

    let mut counts = StatusCounts::new();
    counts.set(WorkflowStatus::Running, 42);

    app.update(Action::DataLoaded(DataPayload::Counts(counts)));

    match &app.status_counts {
        LoadState::Loaded(c) => assert_eq!(c.get(WorkflowStatus::Running), 42),
        _ => panic!("Expected Loaded state"),
    }
}

#[test]
fn test_app_navigation_with_workflows() {
    let mut app = App::new();
    app.view = View::WorkflowList;
    app.workflows = LoadState::Loaded(make_test_workflows());

    assert_eq!(app.table_state.selected(), Some(0));
    app.update(Action::NavigateDown);
    assert_eq!(app.table_state.selected(), Some(1));
    app.update(Action::NavigateDown);
    assert_eq!(app.table_state.selected(), Some(2));
    app.update(Action::NavigateDown);
    assert_eq!(app.table_state.selected(), Some(2));
    app.update(Action::NavigateUp);
    assert_eq!(app.table_state.selected(), Some(1));
    app.update(Action::NavigateBottom);
    assert_eq!(app.table_state.selected(), Some(2));
    app.update(Action::NavigateTop);
    assert_eq!(app.table_state.selected(), Some(0));
}

#[test]
fn test_app_view_navigation() {
    let mut app = App::new();
    app.workflows = LoadState::Loaded(vec![workflow(1, WorkflowStatus::Running)]);

    assert_eq!(app.view, View::WorkflowList);
    app.update(Action::ViewDetail);
    assert_eq!(app.view, View::WorkflowDetail);
    app.update(Action::GoBack);
    assert_eq!(app.view, View::WorkflowList);
}

#[test]
fn test_app_status_filter_triggers_reload() {
    let mut app = App::new();
    let effects = app.update(Action::SetStatusFilter(Some(WorkflowStatus::Failed)));
    assert_eq!(app.filter.status, Some(WorkflowStatus::Failed));
    assert!(effects.iter().any(|e| matches!(e, Effect::LoadWorkflows)));
}

#[test]
fn test_app_clear_filters() {
    let mut app = App::new();
    app.filter.status = Some(WorkflowStatus::Failed);
    app.filter.workflow_type = Some("TestWorkflow".to_string());

    let effects = app.update(Action::ClearFilters);

    assert!(app.filter.is_empty());
    assert!(effects.iter().any(|e| matches!(e, Effect::LoadWorkflows)));
}

#[test]
fn test_app_error_handling() {
    let mut app = App::new();
    app.status_counts = LoadState::Loading;
    app.workflows = LoadState::Loading;

    app.update(Action::Error("Connection failed".to_string()));

    assert_eq!(app.last_error, Some("Connection failed".to_string()));
    assert!(matches!(app.status_counts, LoadState::Error(_)));
    assert!(matches!(app.workflows, LoadState::Error(_)));
}

#[test]
fn test_app_quit() {
    let mut app = App::new();
    assert!(!app.should_quit);
    app.update(Action::Quit);
    assert!(!app.should_quit);
    app.update(Action::Quit);
    assert!(app.should_quit);
}

#[test]
fn quit_attempts_far_apart_do_not_quit() {
    let mut app = App::new();
    let t: i64 = 1_700_000_000_000;
    app.update_at(Action::Quit, t);
    assert!(!app.should_quit);
    app.update_at(Action::Quit, t + 3_000);
    assert!(!app.should_quit);
    app.update_at(Action::Quit, t + 4_000);
    assert!(app.should_quit);
}

#[test]
fn detail_then_back_restores_list_and_stack() {
    let mut app = App::new();
    app.workflows = LoadState::Loaded(make_test_workflows());
    app.table_state.select(Some(2));
    let effects = app.update(Action::ViewDetail);
    assert!(effects.contains(&Effect::LoadWorkflowDetail("wf-3".to_string(), Some("run-3".to_string()))));
    app.update(Action::GoBack);
    assert_eq!(app.view, View::WorkflowList);
    assert!(app.view_stack.is_empty());
}

#[test]
fn last_visible_column_cannot_be_hidden() {
    let mut app = App::new();
    app.update(Action::ToggleColumn(TableColumn::Status));
    app.update(Action::ToggleColumn(TableColumn::Type));
    app.update(Action::ToggleColumn(TableColumn::WorkflowId));
    let before = app.visible_columns.len();
    assert!(before >= 1);
    for c in app.visible_columns.clone() {
        app.update(Action::ToggleColumn(c));
    }
    assert!(!app.visible_columns.is_empty());
}

#[test]
fn navigation_on_empty_list_stays_put() {
    let mut app = App::new();
    app.workflows = LoadState::Loaded(Vec::new());
    app.update(Action::NavigateDown);
    app.update(Action::NavigateBottom);
    app.update(Action::NavigateUp);
    assert!(app.table_state.selected().unwrap_or(0) == 0);
}

#[test]
fn test_event_detail_search_finds_lines() {
    let mut app = App::new();
    app.view = View::EventDetail;
    app.activity_events = LoadState::Loaded(vec![HistoryEvent {
        event_id: 12,
        event_type: "ActivityTaskScheduled".to_string(),
        timestamp: 1_705_312_800_000,
        details: JsonValue::Object(vec![("attempt".to_string(), JsonValue::Number(JsonNumber::PosInt(1)))]),
    }]);
    app.event_log_table_state = TableState { selected: Some(0) };
    app.update(Action::OpenSearchInput);
    for c in "ATTEMPT".chars() {
        app.update(Action::AppendSearchChar(c));
    }
    app.update(Action::CloseSearchInput);
    assert_eq!(app.search_query.as_deref(), Some("ATTEMPT"));
    assert_eq!(app.search_match_lines, vec![5]);
    assert_eq!(app.search_current_match, 0);
    assert_eq!(app.event_detail_scroll, 5);
}

#[test]
fn test_event_detail_search_without_match() {
    let mut app = App::new();
    app.view = View::EventDetail;
    app.activity_events = LoadState::Loaded(vec![]);
    app.update(Action::OpenSearchInput);
    app.update(Action::AppendSearchChar('z'));
    app.update(Action::CloseSearchInput);
    assert!(app.search_match_lines.is_empty());
    assert_eq!(app.event_detail_scroll, 0);
}
