use tempurview::app::Action;
use tempurview::keys::{event_to_action, key_to_action, Event, KeyCode, KeyEvent};
use tempurview::mode::{InputMode, View};
use tempurview::status::{DateRangePreset, TableColumn, WorkflowStatus};

fn make_key(code: KeyCode) -> KeyEvent {
    KeyEvent::new(code, false)
}

#[test]
fn test_quit_mapping() {
    let key = make_key(KeyCode::Char('q'));
    let action = key_to_action(key, View::WorkflowList, InputMode::Normal);
    assert!(matches!(action, Some(Action::Quit)));
}

#[test]
fn test_navigation_mapping() {
    let key = make_key(KeyCode::Char('j'));
    let action = key_to_action(key, View::WorkflowList, InputMode::Normal);
    assert!(matches!(action, Some(Action::NavigateDown)));

    let key = make_key(KeyCode::Char('k'));
    let action = key_to_action(key, View::WorkflowList, InputMode::Normal);
    assert!(matches!(action, Some(Action::NavigateUp)));
}

#[test]
fn test_arrow_keys() {
    let key = make_key(KeyCode::Down);
    let action = key_to_action(key, View::WorkflowList, InputMode::Normal);
    assert!(matches!(action, Some(Action::NavigateDown)));

    let key = make_key(KeyCode::Up);
    let action = key_to_action(key, View::WorkflowList, InputMode::Normal);
    assert!(matches!(action, Some(Action::NavigateUp)));
}

#[test]
fn event_test_filter_input_mode() {
    let key = make_key(KeyCode::Char('q'));
    let action = key_to_action(key, View::WorkflowList, InputMode::FilterInput);
    assert!(matches!(action, Some(Action::AppendFilterChar('q'))));
}

#[test]
fn test_enter_view_specific() {
    let key = make_key(KeyCode::Enter);

    let action = key_to_action(key, View::WorkflowList, InputMode::Normal);
    assert!(matches!(action, Some(Action::ViewDetail)));

    let action = key_to_action(key, View::WorkflowDetail, InputMode::Normal);
    assert!(action.is_none());
}

#[test]
fn test_escape_in_filter_mode() {
    let key = make_key(KeyCode::Esc);
    let action = key_to_action(key, View::WorkflowList, InputMode::FilterInput);
    assert!(matches!(action, Some(Action::CloseFilterInput)));
}

#[test]
fn test_status_filter_shortcuts() {
    let key = make_key(KeyCode::Char('1'));
    let action = key_to_action(key, View::WorkflowList, InputMode::Normal);
    assert!(matches!(action, Some(Action::SetStatusFilter(Some(WorkflowStatus::Running)))));

    let key = make_key(KeyCode::Char('3'));
    let action = key_to_action(key, View::WorkflowList, InputMode::Normal);
    assert!(matches!(action, Some(Action::SetStatusFilter(Some(WorkflowStatus::Failed)))));

    let key = make_key(KeyCode::Char('0'));
    let action = key_to_action(key, View::WorkflowList, InputMode::Normal);
    assert!(matches!(action, Some(Action::ClearFilters)));
}

#[test]
fn test_ctrl_c_quits() {
    let key = KeyEvent::new(KeyCode::Char('c'), true);
    let action = key_to_action(key, View::WorkflowList, InputMode::Normal);
    assert!(matches!(action, Some(Action::Quit)));
}

#[test]
fn date_range_mode_keys() {
    let a = key_to_action(make_key(KeyCode::Char('3')), View::WorkflowList, InputMode::DateRangeSelect);
    assert!(matches!(a, Some(Action::SelectDateRangePreset(DateRangePreset::Last24Hours))));
    let a = key_to_action(make_key(KeyCode::Char('0')), View::WorkflowList, InputMode::DateRangeSelect);
    assert!(matches!(a, Some(Action::ClearDateRange)));
    let a = key_to_action(make_key(KeyCode::Esc), View::WorkflowList, InputMode::DateRangeSelect);
    assert!(matches!(a, Some(Action::CloseDateRangeMode)));
}

#[test]
fn function_keys_toggle_columns() {
    let a = key_to_action(make_key(KeyCode::F(2)), View::WorkflowList, InputMode::Normal);
    assert!(matches!(a, Some(Action::ToggleColumn(TableColumn::Type))));
    let a = key_to_action(make_key(KeyCode::F(9)), View::WorkflowList, InputMode::Normal);
    assert!(a.is_none());
}

#[test]
fn events_map_to_actions() {
    assert!(matches!(event_to_action(Event::Tick, View::WorkflowList, InputMode::Normal), Some(Action::Tick)));
    assert!(event_to_action(Event::Resize(80, 24), View::WorkflowList, InputMode::Normal).is_none());
    assert!(matches!(
        event_to_action(Event::Key(make_key(KeyCode::Char('q'))), View::WorkflowList, InputMode::Normal),
        Some(Action::Quit)
    ));
    let a = key_to_action(make_key(KeyCode::Char('g')), View::WorkflowList, InputMode::PendingG);
    assert!(matches!(a, Some(Action::NavigateTop)));
}
