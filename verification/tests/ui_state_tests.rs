use fast_bind::config::SshConnectionConfig;
use fast_bind::ids::Uid;
use fast_bind::logging::{LogLevel, OperationContext};
use fast_bind::state::{LoadMode, UiState};
use fast_bind::theme::{AppTheme, ThemeMode};

#[test]
fn ui_state_starts_with_everything_closed() {
    let ui = UiState::new();
    assert_eq!(ui.selected_note, None);
    assert_eq!(ui.editing_title, None);
    assert_eq!(ui.editing_content, None);
    assert_eq!(ui.theme_mode, ThemeMode::Auto);
    assert_eq!(ui.preferred_load_mode, LoadMode::Auto);
    assert!(!ui.show_performance_stats);
    assert!(!ui.show_settings);
    assert!(!ui.show_group_creation);
    assert!(!ui.show_group_editor);
    assert!(ui.new_note_title.is_empty());
    assert!(ui.new_group_name.is_empty());
}

#[test]
fn clearing_the_note_form_keeps_the_group_form() {
    let mut ui = UiState::new();
    ui.new_note_title = "draft".to_string();
    ui.new_note_content = "body".to_string();
    ui.selected_note = Some(3);
    ui.new_group_name = "kept".to_string();

    ui.clear_note_form();

    assert!(ui.new_note_title.is_empty());
    assert!(ui.new_note_content.is_empty());
    assert_eq!(ui.new_note_group_id, None);
    assert_eq!(ui.selected_note, None);
    assert_eq!(ui.new_group_name, "kept");
}

#[test]
fn clearing_the_group_form_keeps_the_note_form() {
    let mut ui = UiState::new();
    ui.show_group_creation = true;
    ui.new_group_name = "draft group".to_string();
    ui.group_creation_selected_notes = vec![Uid::new(1), Uid::new(2)];
    ui.creating_subgroup_for = Some(Uid::new(3));
    ui.new_note_title = "kept".to_string();

    ui.clear_group_form();

    assert!(!ui.show_group_creation);
    assert!(ui.new_group_name.is_empty());
    assert!(ui.group_creation_selected_notes.is_empty());
    assert_eq!(ui.creating_subgroup_for, None);
    assert_eq!(ui.new_note_parent_group_id, None);
    assert_eq!(ui.new_note_title, "kept");
}

#[test]
fn stopping_an_edit_keeps_the_selection() {
    let mut ui = UiState::new();
    ui.selected_note = Some(1);
    ui.editing_title = Some(1);
    ui.editing_content = Some(1);

    ui.stop_editing();

    assert_eq!(ui.editing_title, None);
    assert_eq!(ui.editing_content, None);
    assert_eq!(ui.selected_note, Some(1));
}

#[test]
fn theme_starts_on_auto() {
    let theme = AppTheme::new();
    assert_eq!(theme.mode, ThemeMode::Auto);
}

#[test]
fn operation_context_carries_its_parts() {
    let context = OperationContext::new("create", "note");
    assert_eq!(context.operation, "create");
    assert_eq!(context.entity_type, "note");
    assert_eq!(context.entity_id, None);

    let with_id = context.with_id("42");
    assert_eq!(with_id.operation, "create");
    assert_eq!(with_id.entity_id, Some("42".to_string()));
}

#[test]
fn log_levels_are_copyable() {
    let level = LogLevel::Info;
    let copy = level;
    assert!(matches!(copy, LogLevel::Info));
    assert!(matches!(level, LogLevel::Info));
}

#[test]
fn ssh_connection_config_holds_its_fields() {
    let c = SshConnectionConfig::new(
        "home".to_string(),
        "example.invalid".to_string(),
        22,
        "alice".to_string(),
    );
    assert_eq!(c.name, "home");
    assert_eq!(c.host, "example.invalid");
    assert_eq!(c.port, 22);
    assert_eq!(c.username, "alice");
}
