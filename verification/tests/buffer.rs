use roe_core::buffer::BufferInner;

fn test_buffer() -> BufferInner {
    let mut buffer = BufferInner::new(&[]);
    buffer.load_str("Hello\ncruel\nworld!");
    buffer
}

// Verify that position conversions are symmetrical
#[test]
fn test_position() {
    let buffer = test_buffer();
    let (col, line) = buffer.to_column_line(7);
    let pos = buffer.to_char_index(col, line);
    assert_eq!(pos, 7);
}

// Verify that line adjustments work
#[test]
fn test_position_conversions() {
    let buffer = test_buffer();
    let (_col, line) = buffer.to_column_line(7);
    let pos = buffer.to_char_index(5, line - 1);
    // Go up to the end of previous line (the \n)
    assert_eq!(pos, 5);
    // Go down to the start of the next line
    let pos = buffer.to_char_index(0, line + 1);
    assert_eq!(pos, 12);

    // Convert those positions back to line/col
    let (col, line) = buffer.to_column_line(5);
    assert_eq!(col, 5);
    assert_eq!(line, 0);

    let (col, line) = buffer.to_column_line(12);
    assert_eq!(col, 0);
    assert_eq!(line, 2);
}

#[test]
fn test_insert() {
    let mut buffer = BufferInner::new(&[]);
    buffer.load_str("Hello, world!");
    buffer.insert_col_line("cruel ".to_string(), (7, 0));
    assert_eq!(buffer.content(), "Hello, cruel world!");

    buffer.insert_col_line("world!".to_string(), (0, 0));
    assert_eq!(buffer.content(), "world!Hello, cruel world!");

    buffer.insert_col_line("Hello, ".to_string(), (0, 1));
    assert_eq!(buffer.content(), "world!Hello, cruel world!Hello, ");
}

#[test]
fn test_delete() {
    let mut buffer = BufferInner::new(&[]);
    buffer.load_str("Hello, cruel world!");
    assert_eq!(
        buffer.delete_col_line((7, 0), 6),
        Some("cruel ".to_string())
    );
    assert_eq!(buffer.content(), "Hello, world!");

    assert_eq!(
        buffer.delete_col_line((0, 0), 6),
        Some("Hello,".to_string())
    );
    assert_eq!(buffer.content(), " world!");

    assert_eq!(
        buffer.delete_col_line((0, 0), 7),
        Some(" world!".to_string())
    );
    assert_eq!(buffer.content(), "");

    assert_eq!(buffer.delete_col_line((0, 0), 1), None);
}

#[test]
fn test_delete_backwards() {
    let mut buffer = BufferInner::new(&[]);
    buffer.load_str("Hello, cruel world!");
    assert_eq!(
        buffer.delete_col_line((13, 0), -6),
        Some("cruel ".to_string())
    );
    assert_eq!(buffer.content(), "Hello, world!");

    assert_eq!(
        buffer.delete_col_line((6, 0), -6),
        Some("Hello,".to_string())
    );
    assert_eq!(buffer.content(), " world!");

    assert_eq!(buffer.delete_col_line((0, 0), -7), None);
    assert_eq!(buffer.content(), " world!");

    assert_eq!(
        buffer.delete_col_line((7, 0), -7),
        Some(" world!".to_string())
    );
    assert_eq!(buffer.content(), "");

    // Emulate backspace
    buffer.load_str("Hello, cruel world!");
    assert_eq!(buffer.delete_col_line((13, 0), -1), Some(" ".to_string()));
    assert_eq!(buffer.content(), "Hello, cruelworld!");
}

#[test]
fn test_eol_pos_middle_of_line() {
    let buffer = test_buffer(); // "Hello\ncruel\nworld!"

    // From middle of first line
    let eol = buffer.eol_pos(2); // From 'l' in "Hello"
    let (_col, line) = buffer.to_column_line(eol);
    assert_eq!(line, 0);
    // Should go to after 'o' in "Hello" (position 5)
    assert_eq!(eol, 5);
}

#[test]
fn test_eol_pos_last_line() {
    let buffer = test_buffer(); // "Hello\ncruel\nworld!"

    // From start of last line
    let eol = buffer.eol_pos(12); // From 'w' in "world!"
    let (_col, line) = buffer.to_column_line(eol);
    assert_eq!(line, 2);
    // Should go to after '!' (end of buffer)
    assert_eq!(eol, 18);
}

#[test]
fn test_eol_pos_end_of_buffer() {
    let buffer = test_buffer(); // "Hello\ncruel\nworld!"
    let buffer_len = buffer.buffer.len_chars();

    // From end of buffer
    let eol = buffer.eol_pos(buffer_len);

    // When already at end of buffer, should stay at end
    assert_eq!(eol, buffer_len);
}

#[test]
fn test_eol_pos_already_at_eol() {
    let buffer = test_buffer(); // "Hello\ncruel\nworld!"

    // From end of first line (position 5, after 'o')
    let eol = buffer.eol_pos(5);
    let (_col, line) = buffer.to_column_line(eol);
    assert_eq!(line, 0);
    // Should stay at end of line
    assert_eq!(eol, 5);
}

#[test]
fn test_simple_movement_api() {
    let buffer = test_buffer(); // "Hello\ncruel\nworld!"

    // Test horizontal movement
    assert_eq!(buffer.move_left(5), 4); // From end of "Hello"
    assert_eq!(buffer.move_left(0), 0); // From start - should stay
    assert_eq!(buffer.move_right(4), 5); // To end of "Hello"
    assert_eq!(buffer.move_right(18), 18); // From end - should stay

    // Test line movement
    assert_eq!(buffer.move_line_start(3), 0); // From middle of "Hello" to start
    assert_eq!(buffer.move_line_end(0), 5); // From start to end of line

    // Test buffer movement
    assert_eq!(buffer.move_buffer_start(), 0);
    assert_eq!(buffer.move_buffer_end(), 18);
}

#[test]
fn test_vertical_movement_api() {
    let buffer = test_buffer(); // "Hello\ncruel\nworld!"

    // Move up from "cruel" to "Hello"
    let pos = buffer.move_up(8); // From 'u' in "cruel"
    let (col, line) = buffer.to_column_line(pos);
    assert_eq!(line, 0); // First line
    assert_eq!(col, 2); // Same column position ('l' in "Hello")

    // Move down from "Hello" to "cruel"
    let pos = buffer.move_down(2); // From 'l' in "Hello"
    let (col, line) = buffer.to_column_line(pos);
    assert_eq!(line, 1); // Second line
    assert_eq!(col, 2); // Same column position ('u' in "cruel")
}

#[test]
fn test_movement_edge_cases() {
    let buffer = test_buffer(); // "Hello\ncruel\nworld!"

    // Move up from first line - should stay
    assert_eq!(buffer.move_up(3), 3);

    // Move down from last line - should stay
    assert_eq!(buffer.move_down(15), 15);

    // Test with empty buffer
    let empty_buffer = BufferInner::new(&[]);
    assert_eq!(empty_buffer.move_up(0), 0);
    assert_eq!(empty_buffer.move_down(0), 0);
    assert_eq!(empty_buffer.move_left(0), 0);
    assert_eq!(empty_buffer.move_right(0), 0);
}

#[test]
fn test_phase1_api_handles_original_edge_cases() {
    let buffer = test_buffer(); // "Hello\ncruel\nworld!"

    // Test case from failing test_char_index_relative_offset_column_bounds
    // Move far left from position 7 - should go to start of buffer
    let pos = buffer.move_left(7);
    // Keep moving left until we hit start
    let mut current = pos;
    for _ in 0..10 {
        current = buffer.move_left(current);
    }
    assert_eq!(current, 0); // Should reach start of buffer

    // Test case from failing test_relative_offset_left_to_prev_line
    // Position 7 is 'u' in "cruel", move left should go to 'r'
    assert_eq!(buffer.move_left(7), 6);
}

#[test]
fn test_mark_operations() {
    let mut buffer = test_buffer(); // "Hello\ncruel\nworld!"

    // Initially no mark
    assert!(!buffer.has_mark());
    assert_eq!(buffer.get_mark(), None);

    // Set mark at position 5 (end of "Hello")
    buffer.set_mark(5);
    assert!(buffer.has_mark());
    assert_eq!(buffer.get_mark(), Some(5));

    // Clear mark
    buffer.clear_mark();
    assert!(!buffer.has_mark());
    assert_eq!(buffer.get_mark(), None);
}

#[test]
fn test_region_operations() {
    let mut buffer = test_buffer(); // "Hello\ncruel\nworld!"

    // No mark set - should return None
    assert_eq!(buffer.get_region(5), None);
    assert_eq!(buffer.get_region_text(5), None);

    // Set mark at position 2 ('l' in "Hello")
    buffer.set_mark(2);

    // Test region from mark to cursor at position 7 ('u' in "cruel")
    let region = buffer.get_region(7);
    assert_eq!(region, Some((2, 7))); // start <= end

    // Test region text
    let region_text = buffer.get_region_text(7);
    assert_eq!(region_text, Some("llo\nc".to_string()));

    // Test reverse region (cursor before mark)
    let region = buffer.get_region(0);
    assert_eq!(region, Some((0, 2))); // start <= end (swapped)

    let region_text = buffer.get_region_text(0);
    assert_eq!(region_text, Some("He".to_string()));
}

#[test]
fn test_region_delete() {
    let mut buffer = test_buffer(); // "Hello\ncruel\nworld!"

    // No mark set - should return None
    assert_eq!(buffer.delete_region(5), None);

    // Set mark at position 2 ('l' in "Hello")
    buffer.set_mark(2);

    // Delete region from mark to cursor at position 7 ('u' in "cruel")
    let result = buffer.delete_region(7);
    assert_eq!(result, Some(("llo\nc".to_string(), 2)));

    // Check buffer content after deletion
    assert_eq!(buffer.content(), "Heruel\nworld!");

    // Mark should be cleared
    assert!(!buffer.has_mark());
}

#[test]
fn test_empty_region() {
    let mut buffer = test_buffer(); // "Hello\ncruel\nworld!"

    // Set mark at position 5
    buffer.set_mark(5);

    // Get region at same position (empty region)
    let region = buffer.get_region(5);
    assert_eq!(region, Some((5, 5)));

    let region_text = buffer.get_region_text(5);
    assert_eq!(region_text, Some(String::new()));

    // Delete empty region
    let result = buffer.delete_region(5);
    assert_eq!(result, Some((String::new(), 5)));

    // Buffer should be unchanged
    assert_eq!(buffer.content(), "Hello\ncruel\nworld!");

    // Mark should be cleared
    assert!(!buffer.has_mark());
}

#[test]
fn test_region_bounds_clamping() {
    let mut buffer = test_buffer(); // "Hello\ncruel\nworld!"
    let buffer_len = buffer.buffer.len_chars();

    // Set mark beyond buffer end
    buffer.set_mark(buffer_len + 10);
    assert_eq!(buffer.get_mark(), Some(buffer_len)); // Should be clamped

    // Get region with cursor beyond buffer end
    let region = buffer.get_region(buffer_len + 5);
    assert_eq!(region, Some((buffer_len, buffer_len))); // Both should be clamped
}

#[test]
fn test_word_movement() {
    let buffer = BufferInner::new(&[]);
    // Load some test text with various word patterns
    let mut buffer = buffer;
    buffer.load_str("hello world  test\n  another line");

    // Test forward word movement
    // From start (position 0), should move to 'w' in "world"
    assert_eq!(buffer.move_word_forward(0), 6); // "hello " -> "world"

    // From 'w' in "world", should move to 't' in "test"
    assert_eq!(buffer.move_word_forward(6), 13); // "world  " -> "test"

    // From 't' in "test", should move to 'a' in "another" (skipping newline and spaces)
    assert_eq!(buffer.move_word_forward(13), 20); // "test\n  " -> "another"

    // From 'a' in "another", should move to 'l' in "line"
    assert_eq!(buffer.move_word_forward(20), 28); // "another " -> "line"

    // From end of buffer, should stay at end
    let end_pos = buffer.buffer.len_chars();
    assert_eq!(buffer.move_word_forward(end_pos), end_pos);

    // Test backward word movement
    // From end, should move to start of "line"
    assert_eq!(buffer.move_word_backward(end_pos), 28);

    // From 'l' in "line", should move to start of "another"
    assert_eq!(buffer.move_word_backward(28), 20);

    // From 'a' in "another", should move to start of "test"
    assert_eq!(buffer.move_word_backward(20), 13);

    // From 't' in "test", should move to start of "world"
    assert_eq!(buffer.move_word_backward(13), 6);

    // From 'w' in "world", should move to start of "hello"
    assert_eq!(buffer.move_word_backward(6), 0);

    // From start, should stay at start
    assert_eq!(buffer.move_word_backward(0), 0);
}

#[test]
fn test_paragraph_movement() {
    let mut buffer = BufferInner::new(&[]);
    // Load text with multiple paragraphs separated by blank lines
    buffer.load_str("First paragraph\nstill first paragraph\n\nSecond paragraph\nstill second\n\n\nThird paragraph\nstill third");

    // Text layout:
    // Line 0: "First paragraph"                    (chars 0-15)
    // Line 1: "still first paragraph"             (chars 16-37)
    // Line 2: ""                                  (chars 38-38, blank line)
    // Line 3: "Second paragraph"                  (chars 39-55)
    // Line 4: "still second"                      (chars 56-68)
    // Line 5: ""                                  (chars 69-69, blank line)
    // Line 6: ""                                  (chars 70-70, blank line)
    // Line 7: "Third paragraph"                   (chars 71-86)
    // Line 8: "still third"                       (chars 87-98)

    // Test forward paragraph movement
    // From start of first paragraph (pos 0), should move to start of second paragraph
    assert_eq!(buffer.move_paragraph_forward(0), 39); // Start of "Second paragraph"

    // From middle of first paragraph, should still move to start of second paragraph
    assert_eq!(buffer.move_paragraph_forward(10), 39); // Start of "Second paragraph"

    // From start of second paragraph, should move to start of third paragraph
    assert_eq!(buffer.move_paragraph_forward(39), 71); // Start of "Third paragraph"

    // From middle of second paragraph, should move to start of third paragraph
    assert_eq!(buffer.move_paragraph_forward(60), 71); // Start of "Third paragraph"

    // From start of third paragraph, should move to end of buffer
    let end_pos = buffer.buffer.len_chars();
    assert_eq!(buffer.move_paragraph_forward(71), end_pos); // End of buffer

    // Test backward paragraph movement
    // From end of buffer, should move to start of third paragraph
    assert_eq!(buffer.move_paragraph_backward(end_pos), 71);

    // From middle of third paragraph, should move to start of third paragraph
    assert_eq!(buffer.move_paragraph_backward(90), 71);

    // From start of third paragraph, should move to start of second paragraph
    assert_eq!(buffer.move_paragraph_backward(71), 39);

    // From middle of second paragraph, should move to start of second paragraph
    assert_eq!(buffer.move_paragraph_backward(50), 39);

    // From start of second paragraph, should move to start of first paragraph
    assert_eq!(buffer.move_paragraph_backward(39), 0);

    // From start of first paragraph, should stay at start
    assert_eq!(buffer.move_paragraph_backward(0), 0);
}
