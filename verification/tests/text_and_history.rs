use roe_core::buffer::{Buffer, BufferInner};
use roe_core::syntax::{Color, Face, FaceId, FaceRegistry, HighlightSpan, SpanStore};
use roe_core::undo::{EditOp, UndoManager};

fn filled(text: &str) -> BufferInner {
    let mut buffer = BufferInner::new(&[]);
    buffer.load_str(text);
    buffer
}

#[test]
fn a_carriage_return_and_a_line_feed_end_one_line() {
    let buffer = filled("ab\r\ncd\re\u{2028}f");
    assert_eq!(buffer.to_column_line(3), (3, 0));
    assert_eq!(buffer.to_column_line(4), (0, 1));
    assert_eq!(buffer.to_column_line(7), (0, 2));
    assert_eq!(buffer.to_column_line(9), (0, 3));
    assert_eq!(buffer.to_char_index(0, 1), 4);
    assert_eq!(buffer.to_char_index(1, 2), 8);
}

#[test]
fn undo_takes_an_insertion_back_and_redo_brings_it_again() {
    let mut buffer = filled("Hello");
    buffer.insert_pos(" world".to_string(), 5);
    assert_eq!(buffer.content(), "Hello world");
    assert!(buffer.can_undo());
    assert_eq!(buffer.undo(), Some(5));
    assert_eq!(buffer.content(), "Hello");
    assert!(buffer.can_redo());
    assert_eq!(buffer.redo(), Some(11));
    assert_eq!(buffer.content(), "Hello world");
    assert_eq!(buffer.undo(), Some(5));
    assert_eq!(buffer.content(), "Hello");
}

#[test]
fn undo_brings_a_deletion_back() {
    let mut buffer = filled("Hello");
    assert_eq!(buffer.delete_pos(1, 3), Some("ell".to_string()));
    assert_eq!(buffer.content(), "Ho");
    assert_eq!(buffer.undo(), Some(4));
    assert_eq!(buffer.content(), "Hello");
    assert_eq!(buffer.undo(), None);
}

#[test]
fn a_group_is_undone_at_once() {
    let mut buffer = filled("");
    buffer.begin_undo_group();
    buffer.insert_pos("one".to_string(), 0);
    buffer.undo_boundary();
    buffer.insert_pos("two".to_string(), 3);
    buffer.end_undo_group();
    assert_eq!(buffer.content(), "onetwo");
    assert_eq!(buffer.undo(), Some(0));
    assert_eq!(buffer.content(), "");
}

#[test]
fn reversing_swaps_insertion_and_deletion_and_turns_groups_round() {
    let group = EditOp::Group(vec![
        EditOp::Insert { pos: 0, text: "a".to_string() },
        EditOp::Delete { pos: 4, text: "b".to_string() },
    ]);
    let EditOp::Group(ops) = group.reverse() else {
        panic!("a group is reversed to a group");
    };
    assert!(matches!(&ops[0], EditOp::Insert { pos: 4, text } if text == "b"));
    assert!(matches!(&ops[1], EditOp::Delete { pos: 0, text } if text == "a"));
}

#[test]
fn a_new_change_forgets_what_could_be_redone() {
    let mut history = UndoManager::new();
    history.record_insert(0, "a".to_string());
    history.boundary();
    let op = history.pop_undo().unwrap();
    history.did_undo(op);
    assert!(history.can_redo());
    history.record_delete(0, "b".to_string());
    assert!(!history.can_redo());
}

#[test]
fn movement_stops_at_the_ends() {
    let buffer = filled("one two\n\nthree");
    assert_eq!(buffer.move_left(0), 0);
    assert_eq!(buffer.move_right(14), 14);
    assert_eq!(buffer.move_word_forward(0), 4);
    assert_eq!(buffer.move_word_backward(7), 4);
    assert_eq!(buffer.move_buffer_end(), 14);
    assert_eq!(buffer.clamp_position(99), 14);
}

#[test]
fn a_shared_buffer_edits_its_text() {
    let mut buffer = Buffer::from_content("notes.txt", "one\ntwo\n", &[]);
    assert_eq!(buffer.object(), "notes.txt");
    assert!(buffer.show_gutter());
    buffer.set_mark(0);
    assert_eq!(buffer.get_region(3), Some((0, 3)));
    assert_eq!(buffer.delete_region(3), Some(("one".to_string(), 0)));
    assert_eq!(buffer.content(), "\ntwo\n");
    assert_eq!(buffer.undo(), Some(3));
    assert_eq!(buffer.content(), "one\ntwo\n");
}

#[test]
fn spans_move_with_the_text() {
    let mut spans = SpanStore::new();
    spans.add_span(HighlightSpan::new(2, 5, FaceId(7)));
    assert_eq!(spans.face_at(4), Some(FaceId(7)));
    assert_eq!(spans.face_at(5), None);
    spans.adjust_for_insert(0, 3);
    assert_eq!(spans.face_at(2), None);
    assert_eq!(spans.face_at(5), Some(FaceId(7)));
    spans.adjust_for_delete(0, 4);
    assert_eq!(spans.spans_in_range(0, 10), vec![HighlightSpan::new(1, 4, FaceId(7))]);
    spans.clear_range(0, 2);
    assert_eq!(spans.face_at(1), None);
}

#[test]
fn colours_are_read_from_hexadecimal_digits() {
    assert_eq!(Color::from_hex("#10fF00"), Some(Color { red: 16, green: 255, blue: 0 }));
    assert_eq!(Color::from_hex("102030"), Some(Color { red: 16, green: 32, blue: 48 }));
    assert_eq!(Color::from_hex("#12345"), None);
    assert_eq!(Color::from_hex("#12345g"), None);
}

#[test]
fn a_face_is_found_by_its_name() {
    let mut registry = FaceRegistry::new();
    registry.define(Face::new("keyword"));
    registry.define(Face::new("comment"));
    assert_eq!(registry.get_id("comment"), Some(FaceId(1)));
    assert_eq!(registry.get_id("string"), None);
}
