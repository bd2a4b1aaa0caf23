use roe_core::command_mode::{CommandMode, CommandModeResult};
use roe_core::command_registry::create_default_registry;
use roe_core::keys::{CursorDirection, KeyAction};

#[test]
fn test_command_mode_basic() {
    let registry = create_default_registry();
    let mut cmd_mode = CommandMode::new();

    // Initially no matches
    assert_eq!(cmd_mode.matches.len(), 0);

    // Update with empty input should show all commands
    cmd_mode.update_matches(&registry);
    assert!(!cmd_mode.matches.is_empty());

    // Type 'q' should filter to quit commands
    cmd_mode.input = "q".to_string();
    cmd_mode.update_matches(&registry);
    assert!(cmd_mode.matches.iter().any(|m| m.contains("quit")));
}

#[test]
fn command_mode_test_navigation() {
    let registry = create_default_registry();
    let mut cmd_mode = CommandMode::new();
    cmd_mode.update_matches(&registry);

    let initial_selection = cmd_mode.selected_index;

    // Move down
    let result = cmd_mode.handle_key(
        KeyAction::Cursor(CursorDirection::Down),
        &registry,
    );
    assert_eq!(result, CommandModeResult::Continue);
    assert_eq!(cmd_mode.selected_index, initial_selection + 1);

    // Move up
    let result = cmd_mode.handle_key(
        KeyAction::Cursor(CursorDirection::Up),
        &registry,
    );
    assert_eq!(result, CommandModeResult::Continue);
    assert_eq!(cmd_mode.selected_index, initial_selection);
}

#[test]
fn test_execution() {
    let registry = create_default_registry();
    let mut cmd_mode = CommandMode::new();
    cmd_mode.input = "quit".to_string();
    cmd_mode.update_matches(&registry);

    let result = cmd_mode.handle_key(KeyAction::Enter, &registry);
    if let CommandModeResult::Execute(command_name) = result {
        assert_eq!(command_name, "quit");
    } else {
        panic!("Expected Execute result");
    }
}
