use roe_core::buffer::Buffer;
use roe_core::buffer_switch_mode::{BufferSwitchMode, BufferSwitchPurpose};
use roe_core::command_mode::CommandMode;
use roe_core::command_registry::{
    create_default_registry, Command, CommandCategory, CommandOutcome,
};
use roe_core::editor::ChromeAction;
use roe_core::ids::{BufferId, WindowId};
use roe_core::isearch_mode::{byte_to_char_pos, IsearchMode, SearchDirection};
use roe_core::keys::{CursorDirection, KeyAction, KeyModifier, LogicalKey, Side};
use roe_core::mica_host::key_names::normalized_key_sequence;
use roe_core::mode::{Mode, ModeAction, ModeResult};
use roe_core::scripted_mode::{JuliaModeAction, JuliaModeResult, ScriptedMode};
use roe_core::text_dict::TextDict;

fn handle(slot: u64) -> u64 {
    0x1_0000_0000 + slot
}

fn buffer_id(slot: u64) -> BufferId {
    BufferId::from_bits(handle(slot)).unwrap()
}

fn window_id(slot: u64) -> WindowId {
    WindowId::from_bits(handle(slot)).unwrap()
}

#[test]
fn handles_have_an_odd_version() {
    assert!(BufferId::from_bits(5).is_none());
    assert_eq!(buffer_id(5).bits(), handle(5));
}

#[test]
fn menus_are_filtered_whatever_the_case() {
    let mut mode = BufferSwitchMode::new();
    let list = vec![
        (buffer_id(1), "Notes".to_string()),
        (buffer_id(2), "README".to_string()),
        (buffer_id(3), "notes-old".to_string()),
    ];
    mode.init_with_buffer(buffer_id(9), list);
    for c in ['N', 'O', 'T', 'E', 'S', '-'] {
        mode.perform(&KeyAction::AlphaNumeric(c));
    }
    assert_eq!(mode.get_selected_buffer(), Some(buffer_id(3)));
    let ModeResult::Consumed(actions) = mode.perform(&KeyAction::Enter) else {
        panic!("the key is taken");
    };
    assert!(actions
        .iter()
        .any(|action| matches!(action, ModeAction::SwitchToBuffer(id) if *id == buffer_id(3))));
}

#[test]
fn a_menu_for_killing_kills() {
    let mut mode = BufferSwitchMode::new_with_purpose(BufferSwitchPurpose::Kill);
    mode.init_with_buffer(buffer_id(9), vec![(buffer_id(1), "one".to_string())]);
    let ModeResult::Consumed(actions) = mode.perform(&KeyAction::Enter) else {
        panic!("the key is taken");
    };
    assert!(actions
        .iter()
        .any(|action| matches!(action, ModeAction::KillBuffer(id) if *id == buffer_id(1))));
}

#[test]
fn an_unknown_command_is_refused() {
    let registry = create_default_registry();
    assert!(CommandMode::execute_command("no-such-command", &registry).is_err());
}

#[test]
fn a_command_can_fail() {
    let mut registry = create_default_registry();
    registry.register(Command::new(
        "launch",
        "Never works",
        CommandCategory::Global,
        CommandOutcome::Failure("no fuel".to_string()),
    ));
    assert_eq!(CommandMode::execute_command("launch", &registry), Err("no fuel".to_string()));
    assert_eq!(
        CommandMode::execute_command("quit", &registry),
        Ok(vec![ChromeAction::Echo("Quit".to_string())])
    );
}

#[test]
fn letters_are_sought_whatever_the_case() {
    let mut buffer = Buffer::new(&[]);
    buffer.load_str("Été abc ÉTÉ");
    let mut search = IsearchMode::new(
        SearchDirection::Forward,
        buffer_id(1),
        window_id(1),
        0,
        &buffer,
        None,
    );
    for c in ['é', 't'] {
        search.perform(&KeyAction::AlphaNumeric(c));
    }
    assert_eq!(search.search_term(), "ét");
    assert_eq!(search.matches(), &[(0, 3), (10, 13)]);
    assert_eq!(search.current_match_index(), Some(0));
    assert_eq!(search.generate_buffer_content(), "I-search: ét [1/2]");
    search.perform(&KeyAction::Cursor(CursorDirection::Down));
    assert_eq!(search.current_match_index(), Some(1));
    search.perform(&KeyAction::Backspace);
    search.perform(&KeyAction::AlphaNumeric('x'));
    assert_eq!(search.matches().len(), 0);
    assert_eq!(search.generate_buffer_content(), "I-search: éx [no match]");
}

#[test]
fn a_search_goes_through_the_text_as_it_is() {
    let mut buffer = Buffer::new(&[]);
    buffer.load_str("ab");
    let mut search = IsearchMode::new(
        SearchDirection::Forward,
        buffer_id(1),
        window_id(1),
        0,
        &buffer,
        None,
    );
    search.perform_in(&buffer, &KeyAction::AlphaNumeric('a'));
    assert_eq!(search.matches(), &[(0, 1)]);
    buffer.load_str("xx ab ab");
    search.perform_in(&buffer, &KeyAction::AlphaNumeric('b'));
    assert_eq!(search.matches(), &[(3, 5), (6, 8)]);
    assert_eq!(search.current_match_index(), Some(0));
}

#[test]
fn places_are_counted_in_the_searched_text() {
    let mut buffer = Buffer::new(&[]);
    buffer.load_str("\u{130}x \u{130}X");
    let mut search = IsearchMode::new(
        SearchDirection::Forward,
        buffer_id(1),
        window_id(1),
        0,
        &buffer,
        None,
    );
    search.perform(&KeyAction::AlphaNumeric('x'));
    assert_eq!(search.matches(), &[(2, 3), (6, 7)]);
    search.perform(&KeyAction::Backspace);
    search.perform(&KeyAction::AlphaNumeric('i'));
    assert_eq!(search.matches(), &[(0, 2), (4, 6)]);
}

#[test]
fn a_search_ends_with_its_term_or_where_it_began() {
    let mut buffer = Buffer::new(&[]);
    buffer.load_str("one two");
    let mut search = IsearchMode::new(
        SearchDirection::Backward,
        buffer_id(1),
        window_id(2),
        3,
        &buffer,
        None,
    );
    search.perform(&KeyAction::AlphaNumeric('o'));
    let ModeResult::Consumed(accepted) = search.perform(&KeyAction::Enter) else {
        panic!("the key is taken");
    };
    assert!(matches!(
        &accepted[0],
        ModeAction::AcceptIsearch { search_term, .. } if search_term == "o"
    ));
    let ModeResult::Consumed(cancelled) = search.perform(&KeyAction::Escape) else {
        panic!("the key is taken");
    };
    assert!(matches!(&cancelled[0], ModeAction::CancelIsearch { original_cursor: 3, .. }));
}

#[test]
fn byte_positions_become_character_positions() {
    assert_eq!(byte_to_char_pos("aéz", 0), 0);
    assert_eq!(byte_to_char_pos("aéz", 3), 2);
    assert_eq!(byte_to_char_pos("aéz", 4), 3);
}

#[test]
fn upper_case_may_be_more_than_one_letter() {
    assert_eq!(
        normalized_key_sequence(&[
            LogicalKey::Modifier(KeyModifier::Shift(Side::Left)),
            LogicalKey::AlphaNumeric('ß'),
        ]),
        "SS"
    );
}

#[test]
fn a_dictionary_keeps_the_latest_value() {
    let mut dict = TextDict::new();
    dict.set("a", "1");
    dict.set("b", "2");
    dict.set("a", "3");
    assert_eq!(dict.get("a"), Some("3".to_string()));
    assert_eq!(dict.get("c"), None);
}

#[test]
fn a_scripted_mode_hands_over_its_parameters_once() {
    let mut mode = ScriptedMode::new("files".to_string());
    mode.set_init_param("root", "/tmp");
    let first = mode.ask(&KeyAction::AlphaNumeric('x'));
    assert_eq!(first.get("root"), Some("/tmp".to_string()));
    let second = mode.ask(&KeyAction::Enter);
    assert_eq!(second.get("root"), None);
}

#[test]
fn a_scripted_answer_becomes_actions() {
    let mut mode = ScriptedMode::new("files".to_string());
    mode.set_buffer_id_map(vec![buffer_id(4)]);
    let answer = JuliaModeResult {
        result_type: "consumed".to_string(),
        actions: vec![JuliaModeAction {
            action_type: "execute_command".to_string(),
            text: None,
            position: None,
            path: None,
            open_type: None,
            command: Some("quit".to_string()),
            buffer_index: None,
        }],
    };
    let ModeResult::Consumed(actions) = mode.convert_result(answer) else {
        panic!("the key is taken");
    };
    assert!(matches!(&actions[0], ModeAction::ExecuteCommand(name) if name == "quit"));
    assert!(matches!(mode.answered(None), ModeResult::Ignored));
}
