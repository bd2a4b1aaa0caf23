use roe_core::mica_host::key_names::normalized_key_sequence;
use roe_core::mica_host::source_provider::source_path;
use roe_core::keys::{KeyModifier, LogicalKey, Side};

#[test]
fn roe_buffer_source_paths_cannot_escape_the_workspace_root() {
    let root = "/workspace";

    assert_eq!(
        source_path(root, "src/main.rs"),
        Some("/workspace/src/main.rs".to_string())
    );
    assert_eq!(source_path(root, "../outside"), None);
    assert_eq!(source_path(root, "/etc/passwd"), None);
}

#[test]
fn normalized_keys_use_the_mica_keymap_spelling() {
    assert_eq!(normalized_key_sequence(&[LogicalKey::Function(12)]), "F12");
    assert_eq!(
        normalized_key_sequence(&[LogicalKey::AlphaNumeric(' ')]),
        " "
    );
    assert_eq!(
        normalized_key_sequence(&[
            LogicalKey::Modifier(KeyModifier::Control(Side::Right)),
            LogicalKey::AlphaNumeric('x'),
        ]),
        "C-x"
    );
    assert_eq!(
        normalized_key_sequence(&[
            LogicalKey::Modifier(KeyModifier::Shift(Side::Left)),
            LogicalKey::AlphaNumeric('Z'),
        ]),
        "Z"
    );
    assert_eq!(
        normalized_key_sequence(&[
            LogicalKey::Modifier(KeyModifier::Control(Side::Left)),
            LogicalKey::Modifier(KeyModifier::Shift(Side::Right)),
            LogicalKey::Left,
        ]),
        "C-S-←"
    );
}
