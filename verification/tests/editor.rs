use roe_core::editor::{ActionPosition, ChromeAction, Editor, Frame, ECHO_TIMEOUT_MILLIS, MAX_MESSAGES_CHARS};
use roe_core::buffer::Buffer;
use roe_core::file_watcher::FileWatcher;
use roe_core::ids::WindowId;
use roe_core::keys::{CursorDirection, KeyAction};
use roe_core::kill_ring::KillRing;
use roe_core::native_services::ClockReading;
use roe_core::renderer::DirtyRegion;
use roe_core::slots::{BufferSlots, WindowSlots};
use roe_core::window::{SplitDirection, SplitRatio, Window, WindowNode, WindowType};

fn test_editor() -> Editor {
    let mut buffers = BufferSlots::new();
    let mut scratch_buffer = Buffer::new(&[]);
    scratch_buffer.set_object("test".to_string());
    scratch_buffer.load_str("Hello\nWorld\nTest");
    let scratch_buffer_id = buffers.insert(scratch_buffer);

    let window = Window {
        x: 0,
        y: 0,
        width_chars: 80,
        height_chars: 22,
        active_buffer: scratch_buffer_id,
        cursor: 0,
        window_type: WindowType::Normal,
    };
    let mut windows = WindowSlots::new();
    let window_id = windows.insert(window);

    Editor {
        frame: Frame::new(80, 24),
        buffers,
        windows,
        active_window: window_id,
        previous_active_window: None,
        window_tree: WindowNode::new_leaf(window_id),
        kill_ring: KillRing::with_capacity(60),
        buffer_history: vec![],
        echo_message: "".to_string(),
        echo_message_time: None,
        mouse_drag_state: None,
        messages_buffer_id: None,
        file_watcher: FileWatcher::new(),
    }
}

#[test]
fn test_echo_expiry_uses_injected_clock() {
    let start: u64 = 10_000;
    let mut editor = test_editor();
    editor.echo_message = "hello".to_string();
    editor.echo_message_time = Some(start);

    assert!(!editor.check_and_clear_expired_echo(start));
    assert!(editor.check_and_clear_expired_echo(start + ECHO_TIMEOUT_MILLIS));
    assert!(editor.echo_message.is_empty());
}

#[test]
fn split_ratios_are_normalized_at_construction() {
    let mut editor = test_editor();
    let first = WindowNode::new_leaf(editor.active_window);
    let second = WindowNode::new_leaf(editor.split_horizontal());

    for (input, expected) in [(-1.0, 0.0), (2.0, 1.0), (f32::NAN, 0.5)] {
        let node = WindowNode::new_split(
            SplitDirection::Horizontal,
            SplitRatio::from_float_bits(f32::to_bits(input)),
            first.copy(),
            second.copy(),
        );
        let WindowNode::Split { ratio, .. } = node else {
            unreachable!();
        };
        assert_eq!(ratio.numer as f32 / 2f32.powi(ratio.shift as i32), expected);
    }
}

#[test]
fn messages_buffer_retains_a_bounded_recent_tail() {
    let mut editor = test_editor();
    for index in 0..2_000 {
        let at = ClockReading { millis: 0, unix_secs: 1_700_000_000 };
        editor.add_message_to_buffer(format!("{index:04} {}", "x".repeat(64)), at);
    }
    let messages = editor.messages_buffer_id.unwrap();
    let content = editor.buffers.get(messages).unwrap().content();
    assert!(content.chars().count() <= MAX_MESSAGES_CHARS);
    assert!(content.contains("1999"));
    assert!(!content.contains("0000 x"));
}

#[test]
fn test_cursor_move_right() {
    let mut editor = test_editor();
    let window = editor.windows.get(editor.active_window).unwrap();
    let initial_cursor = window.cursor;

    // Move cursor right
    editor
        .perform_native_action(KeyAction::Cursor(CursorDirection::Right));

    // Cursor should have moved
    let window = editor.windows.get(editor.active_window).unwrap();
    assert_eq!(window.cursor, initial_cursor + 1);
}

#[test]
fn public_edit_paths_use_character_offsets_for_unicode() {
    let mut editor = test_editor();
    let window_id = editor.active_window;
    let buffer_id = editor.windows.get(window_id).unwrap().active_buffer;
    editor.buffers.get_mut(buffer_id).unwrap().load_str("éx");
    editor.windows.get_mut(window_id).unwrap().cursor = 2;
    editor.kill_ring.kill("é".to_string());

    let yank_actions = editor.yank(&ActionPosition::Cursor);
    assert_eq!(editor.buffers.get(buffer_id).unwrap().content(), "éxé");
    assert_eq!(editor.windows.get(window_id).unwrap().cursor, 3);
    assert!(yank_actions.iter().any(|action| matches!(
        action,
        ChromeAction::BufferChanged {
            start: 2,
            old_end: 2,
            new_end: 3,
            ..
        }
    )));

    editor.insert_text("Z".to_string(), &ActionPosition::Cursor);
    assert_eq!(editor.buffers.get(buffer_id).unwrap().content(), "éxéZ");
    assert_eq!(editor.windows.get(window_id).unwrap().cursor, 4);

    let delete_actions = editor.delete_text(&ActionPosition::Cursor, -2);
    assert_eq!(editor.buffers.get(buffer_id).unwrap().content(), "éx");
    assert_eq!(editor.windows.get(window_id).unwrap().cursor, 2);
    assert!(delete_actions.iter().any(|action| matches!(
        action,
        ChromeAction::BufferChanged {
            start: 2,
            old_end: 4,
            new_end: 2,
            ..
        }
    )));

    editor.kill_text(&ActionPosition::Cursor, -1);
    assert_eq!(editor.buffers.get(buffer_id).unwrap().content(), "é");
    assert_eq!(editor.windows.get(window_id).unwrap().cursor, 1);
}

#[test]
fn test_cursor_move_down() {
    let mut editor = test_editor();

    // Move cursor down
    editor
        .perform_native_action(KeyAction::Cursor(CursorDirection::Down));

    // Cursor should have moved to next line
    let window = editor.windows.get(editor.active_window).unwrap();
    let buffer = editor.buffers.get(window.active_buffer).unwrap();
    let (_, line) = buffer.to_column_line(window.cursor);
    assert_eq!(line, 1);
}

#[test]
fn test_cursor_move_beyond_buffer() {
    let mut editor = test_editor();
    let buffer_len = {
        let window = editor.windows.get(editor.active_window).unwrap();
        let buffer = editor.buffers.get(window.active_buffer).unwrap();
        buffer.buffer_len_chars()
    };

    // Move cursor to end of buffer
    let window = editor.windows.get_mut(editor.active_window).unwrap();
    window.cursor = buffer_len;

    // Try to move right beyond end
    let _actions = editor
        .perform_native_action(KeyAction::Cursor(CursorDirection::Right));

    // Cursor should stay at end
    let window = editor.windows.get(editor.active_window).unwrap();
    assert_eq!(window.cursor, buffer_len);
}

#[test]
fn test_window_split_horizontal() {
    let mut editor = test_editor();
    let initial_window_count = editor.windows.len();

    // Split horizontally
    let new_window_id = editor.split_horizontal();

    // Should have one more window
    assert_eq!(editor.windows.len(), initial_window_count + 1);
    assert!(editor.windows.contains_key(new_window_id));

    // Check that the layout was updated
    editor.calculate_window_layout();
    let original_window = editor.windows.get(editor.active_window).unwrap();
    let new_window = editor.windows.get(new_window_id).unwrap();

    // Both windows should be positioned correctly
    assert_eq!(original_window.x, 0);
    assert_eq!(original_window.y, 0);
    assert_eq!(new_window.x, 0);
    assert!(new_window.y > 0); // Should be below the first window

    // Check that windows have minimum size for borders and modeline
    assert!(original_window.width_chars >= 4);
    assert!(original_window.height_chars >= 4);
    assert!(new_window.width_chars >= 4);
    assert!(new_window.height_chars >= 4);
}

#[test]
fn test_window_split_vertical() {
    let mut editor = test_editor();
    let initial_window_count = editor.windows.len();

    // Split vertically
    let new_window_id = editor.split_vertical();

    // Should have one more window
    assert_eq!(editor.windows.len(), initial_window_count + 1);
    assert!(editor.windows.contains_key(new_window_id));

    // Check that the layout was updated
    editor.calculate_window_layout();
    let original_window = editor.windows.get(editor.active_window).unwrap();
    let new_window = editor.windows.get(new_window_id).unwrap();

    // Both windows should be positioned correctly
    assert_eq!(original_window.x, 0);
    assert_eq!(original_window.y, 0);
    assert!(new_window.x > 0); // Should be to the right of the first window
    assert_eq!(new_window.y, 0);

    // Check that windows have minimum size for borders and modeline
    assert!(original_window.width_chars >= 4);
    assert!(original_window.height_chars >= 4);
    assert!(new_window.width_chars >= 4);
    assert!(new_window.height_chars >= 4);
}

#[test]
fn test_window_delete() {
    let mut editor = test_editor();

    // Split to have two windows
    let _new_window_id = editor.split_horizontal();
    assert_eq!(editor.windows.len(), 2);

    // Delete the current window
    let deleted = editor.delete_window();
    assert!(deleted);
    assert_eq!(editor.windows.len(), 1);

    // Should not be able to delete the last window
    let deleted = editor.delete_window();
    assert!(!deleted);
    assert_eq!(editor.windows.len(), 1);
}

#[test]
fn test_window_switch() {
    let mut editor = test_editor();
    let original_active = editor.active_window;

    // Split to have two windows
    let _new_window_id = editor.split_horizontal();

    // Switch windows
    editor.switch_window();

    // Active window should have changed
    assert_ne!(editor.active_window, original_active);

    // Switch again should go back
    editor.switch_window();
    assert_eq!(editor.active_window, original_active);
}

#[test]
fn test_window_deletion_geometry_restoration() {
    let mut editor = test_editor();
    let original_window = editor.active_window;

    // Get initial size of the single window
    let initial_width = editor.windows.get(original_window).unwrap().width_chars;
    let initial_height = editor.windows.get(original_window).unwrap().height_chars;

    // Split horizontally to create two windows
    let _new_window_id = editor.split_horizontal();

    // Both windows should be smaller now
    let after_split_height = editor.windows.get(original_window).unwrap().height_chars;
    assert!(after_split_height < initial_height);

    // Delete one window
    editor.delete_window();

    // Should only have one window remaining
    assert_eq!(editor.windows.len(), 1);

    // The remaining window should expand to fill the available space
    let remaining_window = editor.windows.keys()[0];
    let final_window = editor.windows.get(remaining_window).unwrap();

    // Window should be close to original size (allowing for some variance)
    assert!(final_window.width_chars >= initial_width - 2);
    assert!(final_window.height_chars >= initial_height - 2);
}

#[test]
fn test_multiple_splits_then_delete_phantom_window() {
    let mut editor = test_editor();

    // Start with one window
    assert_eq!(editor.windows.len(), 1);

    // First split: horizontal (creates 2 windows)
    let _second_window = editor.split_horizontal();
    assert_eq!(editor.windows.len(), 2);

    // Second split: split the active window vertically (creates 3 windows)
    let _third_window = editor.split_vertical();
    assert_eq!(editor.windows.len(), 3);

    // Delete the current window
    let deleted = editor.delete_window();
    assert!(deleted);

    // Should have 2 windows remaining
    assert_eq!(editor.windows.len(), 2);

    // Verify that all remaining windows are valid in the tree
    verify_window_tree_integrity(&editor);
}

#[test]
fn test_complex_split_delete_scenario() {
    let mut editor = test_editor();

    // Create a complex tree: horizontal split, then vertical split in each half
    let _window2 = editor.split_horizontal();
    let _window3 = editor.split_vertical();
    editor.switch_window(); // Switch to the other half
    let _window4 = editor.split_vertical();

    // Should have 4 windows total
    assert_eq!(editor.windows.len(), 4);

    // Delete one window from a nested split
    let deleted = editor.delete_window();
    assert!(deleted);
    assert_eq!(editor.windows.len(), 3);

    // Verify integrity
    verify_window_tree_integrity(&editor);

    // Delete another window
    let deleted = editor.delete_window();
    assert!(deleted);
    assert_eq!(editor.windows.len(), 2);

    // Verify integrity again
    verify_window_tree_integrity(&editor);
}

#[test]
fn test_deep_nested_splits() {
    let mut editor = test_editor();

    // Create a deeply nested structure
    let _w2 = editor.split_horizontal();
    let _w3 = editor.split_vertical();
    let _w4 = editor.split_horizontal();
    let _w5 = editor.split_vertical();

    assert_eq!(editor.windows.len(), 5);

    // Delete from the deepest nesting
    let deleted = editor.delete_window();
    assert!(deleted);
    assert_eq!(editor.windows.len(), 4);

    verify_window_tree_integrity(&editor);

    // Delete another deep window
    let deleted = editor.delete_window();
    assert!(deleted);
    assert_eq!(editor.windows.len(), 3);

    verify_window_tree_integrity(&editor);
}

#[test]
fn test_window_selection_after_delete() {
    let mut editor = test_editor();
    let original_window = editor.active_window;

    // Create horizontal split: original window (top) and new window (bottom)
    let bottom_window = editor.split_horizontal();

    // Active window should still be the original (top) window
    assert_eq!(editor.active_window, original_window);

    // Delete the active (top) window
    let deleted = editor.delete_window();
    assert!(deleted);

    // Should now be active in the bottom window (the one that expanded)
    assert_eq!(editor.active_window, bottom_window);
    assert_eq!(editor.windows.len(), 1);

    // Test vertical split scenario
    let right_window = editor.split_vertical();

    // Delete the left window (current active window)
    let left_window = editor.active_window;
    let deleted = editor.delete_window();
    assert!(deleted);

    // Should now be active in the right window (the one that expanded)
    assert_eq!(editor.active_window, right_window);
    assert_ne!(editor.active_window, left_window); // Shouldn't be the deleted window
}

#[test]
fn test_nested_window_selection_after_delete() {
    let mut editor = test_editor();

    // Create complex nested structure
    let _w2 = editor.split_horizontal(); // Split horizontally
    let w3 = editor.split_vertical(); // Split the top window vertically

    // Now we have:
    // [ w1 | w3 ]  (top half)
    // [    w2   ]  (bottom half)

    // Delete w1 (top-left)
    let w1 = editor.active_window;
    let deleted = editor.delete_window();
    assert!(deleted);

    // Should select w3 (the window that expanded horizontally to fill w1's space)
    assert_eq!(editor.active_window, w3);
    assert_ne!(editor.active_window, w1);
}

#[test]
fn test_spatial_window_switching() {
    let mut editor = test_editor();
    let w1 = editor.active_window;

    // Create a layout like this:
    // [ w1 | w3 ]  (top half)
    // [    w2   ]  (bottom half)
    let w2 = editor.split_horizontal(); // Split horizontally
    let w3 = editor.split_vertical(); // Split the top window vertically

    // Now get the positions to verify our expected order
    let _w1_pos = (editor.windows.get(w1).unwrap().x, editor.windows.get(w1).unwrap().y);
    let _w2_pos = (editor.windows.get(w2).unwrap().x, editor.windows.get(w2).unwrap().y);
    let _w3_pos = (editor.windows.get(w3).unwrap().x, editor.windows.get(w3).unwrap().y);

    // Spatial order should be: w1 (top-left), w3 (top-right), w2 (bottom)
    // This is because we sort by y first (top-to-bottom), then by x (left-to-right)

    // Start at w1 (top-left)
    assert_eq!(editor.active_window, w1);

    // Switch to next window (should go to w3 - top-right)
    editor.switch_window();
    assert_eq!(editor.active_window, w3);

    // Switch again (should go to w2 - bottom)
    editor.switch_window();
    assert_eq!(editor.active_window, w2);

    // Switch again (should wrap back to w1 - top-left)
    editor.switch_window();
    assert_eq!(editor.active_window, w1);

    // Verify the spatial order function directly
    let spatial_order = editor.get_windows_in_spatial_order();
    assert_eq!(spatial_order.len(), 3);

    // The order should follow the spatial layout: top row (left to right), then bottom row
    let positions: Vec<(u16, u16)> = spatial_order
        .iter()
        .map(|&id| (editor.windows.get(id).unwrap().x, editor.windows.get(id).unwrap().y))
        .collect();

    // Verify positions are in spatial order
    for i in 1..positions.len() {
        let (x1, y1) = positions[i - 1];
        let (x2, y2) = positions[i];
        // Either same row and x2 > x1, or y2 > y1
        assert!(
            y2 > y1 || (y2 == y1 && x2 > x1),
            "Windows not in spatial order: ({x1}, {y1}) should come before ({x2}, {y2})"
        );
    }
}

#[test]
fn test_spatial_order_with_complex_layout() {
    let mut editor = test_editor();

    // Create a more complex layout:
    // [ w1 | w3 | w5 ]  (top row)
    // [   w2   |  w4 ]  (bottom row)

    let w1 = editor.active_window;
    let w2 = editor.split_horizontal(); // w1 on top, w2 on bottom

    // Go back to w1 and split it vertically
    editor.active_window = w1;
    let w3 = editor.split_vertical(); // w1 left, w3 right in top half

    // Split w3 vertically to create w5
    editor.active_window = w3;
    let _w5 = editor.split_vertical(); // w3 left, w5 right in top-right

    // Split w2 vertically to create w4
    editor.active_window = w2;
    let _w4 = editor.split_vertical(); // w2 left, w4 right in bottom half

    // Test spatial switching starting from w1
    editor.active_window = w1;

    let spatial_order = editor.get_windows_in_spatial_order();

    // The spatial order should visit all windows in predictable top-to-bottom, left-to-right order
    assert_eq!(spatial_order.len(), 5);
}

fn verify_window_tree_integrity(editor: &Editor) {
    let remaining_windows: std::collections::HashSet<_> = editor.windows.keys().into_iter().collect();
    let tree_windows = extract_windows_from_tree(&editor.window_tree);

    // All windows in the tree should exist in the SlotMap
    for tree_window in &tree_windows {
        assert!(
            editor.windows.contains_key(*tree_window),
            "Window {tree_window:?} exists in tree but not in SlotMap"
        );
    }

    // All windows in SlotMap should exist in the tree
    for window_id in remaining_windows {
        assert!(
            tree_windows.contains(&window_id),
            "Window {window_id:?} exists in SlotMap but not in tree"
        );
    }

    // Active window should exist in both
    assert!(
        editor.windows.contains_key(editor.active_window),
        "Active window {:?} not in SlotMap",
        editor.active_window
    );
    assert!(
        tree_windows.contains(&editor.active_window),
        "Active window {:?} not in tree",
        editor.active_window
    );
}

fn extract_windows_from_tree(node: &WindowNode) -> std::collections::HashSet<WindowId> {
    let mut windows = std::collections::HashSet::new();
    extract_windows_recursive(node, &mut windows);
    windows
}

fn extract_windows_recursive(
    node: &WindowNode,
    windows: &mut std::collections::HashSet<WindowId>,
) {
    match node {
        WindowNode::Leaf { window_id } => {
            windows.insert(*window_id);
        }
        WindowNode::Split { first, second, .. } => {
            extract_windows_recursive(first, windows);
            extract_windows_recursive(second, windows);
        }
    }
}

#[test]
fn test_delete_other_windows() {
    let mut editor = test_editor();
    let original_window = editor.active_window;

    // Create multiple windows
    let _w2 = editor.split_horizontal();
    let _w3 = editor.split_vertical();
    assert_eq!(editor.windows.len(), 3);

    // Switch to a different window to test that the active one is preserved
    editor.switch_window();
    let active_before = editor.active_window;
    assert_ne!(active_before, original_window);

    // Delete other windows
    let deleted = editor.delete_other_windows();
    assert!(deleted);

    // Should only have one window left
    assert_eq!(editor.windows.len(), 1);

    // The remaining window should be the one that was active
    assert_eq!(editor.active_window, active_before);
    assert!(editor.windows.contains_key(active_before));

    // The window should fill the entire available space
    let window = editor.windows.get(active_before).unwrap();
    assert_eq!(window.x, 0);
    assert_eq!(window.y, 0);
    assert_eq!(window.width_chars, editor.frame.available_columns);
    assert_eq!(window.height_chars, editor.frame.available_lines);

    // Tree should be a single leaf
    match &editor.window_tree {
        WindowNode::Leaf { window_id } => {
            assert_eq!(*window_id, active_before);
        }
        WindowNode::Split { .. } => {
            panic!("Tree should be a single leaf after delete_other_windows");
        }
    }
}

#[test]
fn test_delete_other_windows_single_window() {
    let mut editor = test_editor();

    // Try to delete other windows when there's only one
    let deleted = editor.delete_other_windows();
    assert!(!deleted); // Should return false

    // Should still have one window
    assert_eq!(editor.windows.len(), 1);
}

#[test]
fn test_kill_line() {
    let mut editor = test_editor();
    let window = editor.windows.get_mut(editor.active_window).unwrap();
    window.cursor = 2; // Position at 'l' in "Hello"

    // Kill from cursor to end of line
    let actions = editor.kill_line();

    // Should have a killed message and refresh
    assert!(actions.iter().any(|a| matches!(a, ChromeAction::Echo(_))));
    assert!(
        actions
            .iter()
            .any(|a| matches!(a, ChromeAction::MarkDirty(_)))
    );

    // Check that text was killed and kill-ring has content
    assert!(!editor.kill_ring.is_empty());
    let killed_text = editor.kill_ring.current().unwrap();
    assert_eq!(killed_text, "llo"); // "llo" from "He[l]lo"

    // Check buffer content
    let window = editor.windows.get(editor.active_window).unwrap();
    let buffer = editor.buffers.get(window.active_buffer).unwrap();
    assert_eq!(buffer.content(), "He\nWorld\nTest");
}

#[test]
fn test_kill_line_consecutive() {
    let mut editor = test_editor();
    let window = editor.windows.get_mut(editor.active_window).unwrap();
    window.cursor = 5; // At end of "Hello"

    // Kill the newline
    editor.kill_line();

    // Kill from beginning of next line
    let window = editor.windows.get_mut(editor.active_window).unwrap();
    window.cursor = 5; // Still at position 5, but now it's at "World"
    editor.kill_line();

    // Should have appended kills
    let killed_text = editor.kill_ring.current().unwrap();
    assert_eq!(killed_text, "\nWorld"); // Newline + "World"
}

#[test]
fn test_yank_basic() {
    let mut editor = test_editor();

    // First kill some text
    let window = editor.windows.get_mut(editor.active_window).unwrap();
    window.cursor = 0; // Start of buffer
    editor.kill_line(); // Kill "Hello"

    // Move cursor and yank
    let window = editor.windows.get_mut(editor.active_window).unwrap();
    window.cursor = 0; // Start of buffer (now at "\ncruel...")
    let actions = editor.yank(&ActionPosition::cursor());

    // Should have inserted text
    assert!(
        actions
            .iter()
            .any(|a| matches!(a, ChromeAction::MarkDirty(_)))
    );

    // Check buffer content
    let window = editor.windows.get(editor.active_window).unwrap();
    let buffer = editor.buffers.get(window.active_buffer).unwrap();
    let content = buffer.content();
    assert!(content.starts_with("Hello")); // Yanked text should be at start
}

#[test]
fn editor_test_yank_index() {
    let mut editor = test_editor();

    // Kill multiple pieces of text
    let window = editor.windows.get_mut(editor.active_window).unwrap();
    window.cursor = 0;
    editor.kill_line(); // Kill "Hello"

    // Break sequence and kill something else
    editor.kill_ring.break_kill_sequence();
    let window = editor.windows.get_mut(editor.active_window).unwrap();
    window.cursor = 0;
    editor.kill_line(); // Kill "cruel"

    // Yank the first kill (index 1, "Hello")
    let window = editor.windows.get_mut(editor.active_window).unwrap();
    window.cursor = 0;
    editor.yank_index(&ActionPosition::cursor(), 1);

    // Check that we got the older kill
    let window = editor.windows.get(editor.active_window).unwrap();
    let buffer = editor.buffers.get(window.active_buffer).unwrap();
    let content = buffer.content();
    assert!(content.starts_with("Hello"));
}

#[test]
fn test_kill_ring_max_capacity() {
    let mut editor = test_editor();

    // Fill up the kill ring beyond capacity
    for i in 0..65 {
        // More than default capacity of 60
        editor.kill_ring.break_kill_sequence();
        editor.kill_ring.kill(format!("kill-{i}"));
    }

    // Should be at max capacity
    assert_eq!(editor.kill_ring.len(), 60);

    // Most recent should be kill-64
    let recent = editor.kill_ring.yank().unwrap();
    assert_eq!(recent, "kill-64");
}

#[test]
fn test_kill_sequence_break() {
    let mut editor = test_editor();

    // Kill some text
    editor.kill_ring.kill("first".to_string());

    // Do a non-kill operation (insert text)
    let window = editor.windows.get_mut(editor.active_window).unwrap();
    window.cursor = 0;
    editor.insert_text("test".to_string(), &ActionPosition::cursor());

    // Kill again - should be separate entry
    editor.kill_ring.kill("second".to_string());

    // Should have two separate entries
    assert_eq!(editor.kill_ring.len(), 2);
    assert_eq!(editor.kill_ring.yank().unwrap(), "second");
}

#[test]
fn test_empty_kill_ring_yank() {
    let mut editor = test_editor();

    // Try to yank from empty kill ring
    let actions = editor.yank(&ActionPosition::cursor());

    // Should get an error message
    assert!(
        actions
            .iter()
            .any(|a| matches!(a, ChromeAction::Echo(msg) if msg.contains("empty")))
    );
}

#[test]
fn test_set_mark() {
    let mut editor = test_editor();
    let window = editor.windows.get_mut(editor.active_window).unwrap();
    window.cursor = 5; // End of "Hello"

    // Set mark at cursor position
    let actions = editor.set_mark();

    // Should get confirmation message
    assert!(
        actions
            .iter()
            .any(|a| matches!(a, ChromeAction::Echo(msg) if msg.contains("Mark set")))
    );

    // Check that mark was set in buffer
    let window = editor.windows.get(editor.active_window).unwrap();
    let buffer = editor.buffers.get(window.active_buffer).unwrap();
    assert!(buffer.has_mark());
    assert_eq!(buffer.get_mark(), Some(5));
}

#[test]
fn test_clear_mark() {
    let mut editor = test_editor();
    let window = editor.windows.get_mut(editor.active_window).unwrap();
    let buffer = editor.buffers.get_mut(window.active_buffer).unwrap();

    // Set a mark first
    buffer.set_mark(3);
    assert!(buffer.has_mark());

    // Clear mark
    let actions = editor.clear_mark();

    // Should get confirmation message
    assert!(
        actions
            .iter()
            .any(|a| matches!(a, ChromeAction::Echo(msg) if msg.contains("Mark cleared")))
    );

    // Check that mark was cleared
    let window = editor.windows.get(editor.active_window).unwrap();
    let buffer = editor.buffers.get(window.active_buffer).unwrap();
    assert!(!buffer.has_mark());
}

#[test]
fn test_clear_mark_when_no_mark() {
    let mut editor = test_editor();

    // Try to clear mark when none is set
    let actions = editor.clear_mark();

    // Should get error message
    assert!(
        actions
            .iter()
            .any(|a| matches!(a, ChromeAction::Echo(msg) if msg.contains("No mark to clear")))
    );
}

#[test]
fn test_kill_region_basic() {
    let mut editor = test_editor(); // "Hello\nWorld\nTest"

    // Set mark at position 2 ('l' in "Hello")
    let window = editor.windows.get_mut(editor.active_window).unwrap();
    let buffer = editor.buffers.get_mut(window.active_buffer).unwrap();
    buffer.set_mark(2);

    // Move cursor to position 8 ('o' in "World")
    let window = editor.windows.get_mut(editor.active_window).unwrap();
    window.cursor = 8;

    // Kill region
    let actions = editor.kill_region();

    // Should have killed message and refresh
    assert!(actions.iter().any(|a| matches!(a, ChromeAction::Echo(_))));
    assert!(
        actions
            .iter()
            .any(|a| matches!(a, ChromeAction::MarkDirty(_)))
    );

    // Check that text was killed and added to kill-ring
    assert!(!editor.kill_ring.is_empty());
    let killed_text = editor.kill_ring.current().unwrap();
    assert_eq!(killed_text, "llo\nWo"); // "llo\nWo" from "He[llo\nWo]rld"

    // Check buffer content after kill
    let window = editor.windows.get(editor.active_window).unwrap();
    let buffer = editor.buffers.get(window.active_buffer).unwrap();
    assert_eq!(buffer.content(), "Herld\nTest");

    // Check cursor position (should be at start of killed region)
    assert_eq!(window.cursor, 2);

    // Mark should be cleared
    assert!(!buffer.has_mark());
}

#[test]
fn test_kill_region_no_mark() {
    let mut editor = test_editor();

    // Try to kill region without setting mark
    let actions = editor.kill_region();

    // Should get error message
    assert!(
        actions
            .iter()
            .any(|a| matches!(a, ChromeAction::Echo(msg) if msg.contains("No mark set")))
    );

    // Buffer should be unchanged
    let window = editor.windows.get(editor.active_window).unwrap();
    let buffer = editor.buffers.get(window.active_buffer).unwrap();
    assert_eq!(buffer.content(), "Hello\nWorld\nTest");

    // Kill-ring should be empty
    assert!(editor.kill_ring.is_empty());
}

#[test]
fn test_kill_region_empty() {
    let mut editor = test_editor();

    // Set mark at cursor position (empty region)
    let window = editor.windows.get_mut(editor.active_window).unwrap();
    window.cursor = 5;
    let buffer = editor.buffers.get_mut(window.active_buffer).unwrap();
    buffer.set_mark(5);

    // Kill empty region
    let actions = editor.kill_region();

    // Should get empty region message
    assert!(
        actions
            .iter()
            .any(|a| matches!(a, ChromeAction::Echo(msg) if msg.contains("Empty region")))
    );

    // Buffer should be unchanged
    let window = editor.windows.get(editor.active_window).unwrap();
    let buffer = editor.buffers.get(window.active_buffer).unwrap();
    assert_eq!(buffer.content(), "Hello\nWorld\nTest");

    // Mark should be cleared
    assert!(!buffer.has_mark());
}

#[test]
fn test_kill_region_reverse() {
    let mut editor = test_editor(); // "Hello\nWorld\nTest"

    // Set mark at position 8 ('o' in "World")
    let window = editor.windows.get_mut(editor.active_window).unwrap();
    let buffer = editor.buffers.get_mut(window.active_buffer).unwrap();
    buffer.set_mark(8);

    // Move cursor to position 2 ('l' in "Hello") - before mark
    let window = editor.windows.get_mut(editor.active_window).unwrap();
    window.cursor = 2;

    // Kill region (should work in reverse)
    let actions = editor.kill_region();

    // Should have killed message
    assert!(actions.iter().any(|a| matches!(a, ChromeAction::Echo(_))));

    // Check that same text was killed
    let killed_text = editor.kill_ring.current().unwrap();
    assert_eq!(killed_text, "llo\nWo"); // Same region regardless of direction

    // Check buffer content
    let window = editor.windows.get(editor.active_window).unwrap();
    let buffer = editor.buffers.get(window.active_buffer).unwrap();
    assert_eq!(buffer.content(), "Herld\nTest");

    // Cursor should be at start of region (position 2)
    assert_eq!(window.cursor, 2);
}

#[test]
fn test_region_kill_integration_with_yank() {
    let mut editor = test_editor(); // "Hello\nWorld\nTest"

    // Set mark and kill region
    let window = editor.windows.get_mut(editor.active_window).unwrap();
    let buffer = editor.buffers.get_mut(window.active_buffer).unwrap();
    buffer.set_mark(2); // 'l' in "Hello"

    let window = editor.windows.get_mut(editor.active_window).unwrap();
    window.cursor = 8; // 'o' in "World"

    editor.kill_region(); // Kill "llo\nWo"

    // Move cursor to end of buffer
    let window = editor.windows.get_mut(editor.active_window).unwrap();
    window.cursor = editor.buffers.get(window.active_buffer).unwrap().buffer_len_chars();

    // Yank the killed region
    let actions = editor.yank(&ActionPosition::cursor());

    // Should have refresh action
    assert!(
        actions
            .iter()
            .any(|a| matches!(a, ChromeAction::MarkDirty(_)))
    );

    // Check buffer content - should have yanked text at end
    let window = editor.windows.get(editor.active_window).unwrap();
    let buffer = editor.buffers.get(window.active_buffer).unwrap();
    assert_eq!(buffer.content(), "Herld\nTestllo\nWo");
}

fn shown_text(editor: &Editor) -> String {
    let window = editor.windows.get(editor.active_window).unwrap();
    editor.buffers.get(window.active_buffer).unwrap().content()
}

#[test]
fn backward_kills_join_in_front() {
    let mut editor = test_editor();
    let shown = editor.windows.get(editor.active_window).unwrap().active_buffer;
    editor.buffers.get_mut(shown).unwrap().load_str("foo bar");
    editor.windows.get_mut(editor.active_window).unwrap().cursor = 7;
    editor.backward_kill_word();
    editor.backward_kill_word();
    assert_eq!(editor.kill_ring.len(), 1);
    assert_eq!(editor.kill_ring.current(), Some("foo bar"));
    assert_eq!(shown_text(&editor), "");
    assert_eq!(editor.windows.get(editor.active_window).unwrap().cursor, 0);
}

#[test]
fn forward_kills_join_behind() {
    let mut editor = test_editor();
    let shown = editor.windows.get(editor.active_window).unwrap().active_buffer;
    editor.buffers.get_mut(shown).unwrap().load_str("foo bar");
    editor.forward_kill_word();
    editor.forward_kill_word();
    assert_eq!(editor.kill_ring.len(), 1);
    assert_eq!(editor.kill_ring.current(), Some("foo bar"));
}

#[test]
fn an_absolute_position_is_a_row_and_a_column() {
    let mut editor = test_editor();
    let shown = editor.windows.get(editor.active_window).unwrap().active_buffer;
    let actions = editor.insert_text("X".to_string(), &ActionPosition::Absolute(1, 0));
    assert_eq!(shown_text(&editor), "Hello\nXWorld\nTest");
    assert!(actions.contains(&ChromeAction::BufferChanged {
        buffer_id: shown,
        start: 6,
        old_end: 6,
        new_end: 7,
    }));
    assert!(actions.contains(&ChromeAction::MarkDirty(DirtyRegion::Line {
        buffer_id: shown,
        line: 1,
    })));
    assert_eq!(editor.windows.get(editor.active_window).unwrap().cursor, 0);

    let actions = editor.delete_text(&ActionPosition::Absolute(2, 1), 2);
    assert_eq!(shown_text(&editor), "Hello\nXWorld\nTt");
    assert!(actions.contains(&ChromeAction::BufferChanged {
        buffer_id: shown,
        start: 14,
        old_end: 16,
        new_end: 14,
    }));

    editor.kill_text(&ActionPosition::Absolute(1, 1), 5);
    assert_eq!(shown_text(&editor), "Hello\nX\nTt");
    assert_eq!(editor.kill_ring.current(), Some("World"));
}
