//! The other effects of the policy code: edits, published facts, prompts and
//! searches, each read as it is written.

use vstd::prelude::*;
use vstd::string::*;

use crate::ids::BufferId;
use crate::keys::CursorDirection;
use crate::mica_host::context::MicaHost;
use crate::mica_host::decode_laws;
use crate::mica_host::effects::RuleView;
use crate::mica_host::events::{
    MicaEvent, MicaNativeAction, MicaPolicyFact, MicaPresentationEffect, MicaPromptUpdate,
    MicaSearchFinish, MicaSearchUpdate, SearchMatch, MAX_BATCH_BYTES, MAX_POLICY_FACTS,
};
use crate::mica_host::value::{Identity, Value};
use crate::mica_host::{decode, effects, events, value};
use crate::native_io;
use crate::session::MAX_TEXT_CHARS_PER_INPUT;
use crate::text;

verus! {

// --- Edits ---

/// The word for a direction.
pub open spec fn word_for(direction: CursorDirection) -> Seq<char> {
    match direction {
        CursorDirection::Left => "left"@,
        CursorDirection::Right => "right"@,
        CursorDirection::Up => "up"@,
        CursorDirection::Down => "down"@,
        CursorDirection::LineStart => "line_start"@,
        CursorDirection::LineEnd => "line_end"@,
        CursorDirection::BufferStart => "buffer_start"@,
        CursorDirection::BufferEnd => "buffer_end"@,
        CursorDirection::PageUp => "page_up"@,
        CursorDirection::PageDown => "page_down"@,
        CursorDirection::WordForward => "word_forward"@,
        CursorDirection::WordBackward => "word_backward"@,
        CursorDirection::ParagraphForward => "paragraph_forward"@,
        CursorDirection::ParagraphBackward => "paragraph_backward"@,
    }
}

/// The name of a movement: the word for its direction, and whether it selects.
pub open spec fn movement_name(direction: CursorDirection, selecting: bool) -> Seq<char> {
    if selecting {
        "cursor_"@ + word_for(direction) + "_select"@
    } else {
        "cursor_"@ + word_for(direction)
    }
}

/// Whether an edit has a name. Paragraphs are not selected.
pub open spec fn is_called(edit: MicaNativeAction, name: Seq<char>) -> bool {
    match edit {
        MicaNativeAction::InsertText(_) => false,
        MicaNativeAction::Move { direction, selecting } => {
            &&& name == movement_name(direction, selecting)
            &&& selecting ==> direction != CursorDirection::ParagraphForward && direction
                != CursorDirection::ParagraphBackward
        },
        MicaNativeAction::KillWord { forward } => name == if forward {
            "kill_word"@
        } else {
            "backward_kill_word"@
        },
        MicaNativeAction::Backspace => name == "backspace"@,
        MicaNativeAction::Delete => name == "delete"@,
        MicaNativeAction::Enter => name == "enter"@,
        MicaNativeAction::Tab => name == "tab"@,
        MicaNativeAction::KillLine => name == "kill_line"@,
        MicaNativeAction::KillRegion => name == "kill_region"@,
        MicaNativeAction::CopyRegion => name == "copy_region"@,
        MicaNativeAction::Yank => name == "yank"@,
        MicaNativeAction::SetMark => name == "set_mark"@,
        MicaNativeAction::MarkWholeBuffer => name == "mark_whole_buffer"@,
        MicaNativeAction::Cancel => name == "cancel"@ || name == "escape"@,
        MicaNativeAction::Undo => name == "undo"@,
        MicaNativeAction::Redo => name == "redo"@,
    }
}

/// An edit is found by its name.
pub proof fn edits_are_found_by_name(edit: MicaNativeAction, name: Seq<char>)
    requires
        is_called(edit, name),
    ensures
        events::edit_named(name) == Some(edit),
        name != "insert_text"@,
{
    reveal_strlit("backspace");
    assert("backspace"@.len() == 9);
    reveal_strlit("backward_kill_word");
    assert("backward_kill_word"@.len() == 18);
    reveal_strlit("cancel");
    assert("cancel"@.len() == 6);
    reveal_strlit("copy_region");
    assert("copy_region"@.len() == 11);
    reveal_strlit("cursor_buffer_end");
    assert("cursor_buffer_end"@.len() == 17);
    reveal_strlit("cursor_buffer_end_select");
    assert("cursor_buffer_end_select"@.len() == 24);
    reveal_strlit("cursor_buffer_start");
    assert("cursor_buffer_start"@.len() == 19);
    reveal_strlit("cursor_buffer_start_select");
    assert("cursor_buffer_start_select"@.len() == 26);
    reveal_strlit("cursor_down");
    assert("cursor_down"@.len() == 11);
    reveal_strlit("cursor_down_select");
    assert("cursor_down_select"@.len() == 18);
    reveal_strlit("cursor_left");
    assert("cursor_left"@.len() == 11);
    reveal_strlit("cursor_left_select");
    assert("cursor_left_select"@.len() == 18);
    reveal_strlit("cursor_line_end");
    assert("cursor_line_end"@.len() == 15);
    reveal_strlit("cursor_line_end_select");
    assert("cursor_line_end_select"@.len() == 22);
    reveal_strlit("cursor_line_start");
    assert("cursor_line_start"@.len() == 17);
    reveal_strlit("cursor_line_start_select");
    assert("cursor_line_start_select"@.len() == 24);
    reveal_strlit("cursor_page_down");
    assert("cursor_page_down"@.len() == 16);
    reveal_strlit("cursor_page_down_select");
    assert("cursor_page_down_select"@.len() == 23);
    reveal_strlit("cursor_page_up");
    assert("cursor_page_up"@.len() == 14);
    reveal_strlit("cursor_page_up_select");
    assert("cursor_page_up_select"@.len() == 21);
    reveal_strlit("cursor_paragraph_backward");
    assert("cursor_paragraph_backward"@.len() == 25);
    reveal_strlit("cursor_paragraph_forward");
    assert("cursor_paragraph_forward"@.len() == 24);
    reveal_strlit("cursor_right");
    assert("cursor_right"@.len() == 12);
    reveal_strlit("cursor_right_select");
    assert("cursor_right_select"@.len() == 19);
    reveal_strlit("cursor_up");
    assert("cursor_up"@.len() == 9);
    reveal_strlit("cursor_up_select");
    assert("cursor_up_select"@.len() == 16);
    reveal_strlit("cursor_word_backward");
    assert("cursor_word_backward"@.len() == 20);
    reveal_strlit("cursor_word_backward_select");
    assert("cursor_word_backward_select"@.len() == 27);
    reveal_strlit("cursor_word_forward");
    assert("cursor_word_forward"@.len() == 19);
    reveal_strlit("cursor_word_forward_select");
    assert("cursor_word_forward_select"@.len() == 26);
    reveal_strlit("delete");
    assert("delete"@.len() == 6);
    reveal_strlit("enter");
    assert("enter"@.len() == 5);
    reveal_strlit("escape");
    assert("escape"@.len() == 6);
    reveal_strlit("insert_text");
    assert("insert_text"@.len() == 11);
    reveal_strlit("kill_line");
    assert("kill_line"@.len() == 9);
    reveal_strlit("kill_region");
    assert("kill_region"@.len() == 11);
    reveal_strlit("kill_word");
    assert("kill_word"@.len() == 9);
    reveal_strlit("mark_whole_buffer");
    assert("mark_whole_buffer"@.len() == 17);
    reveal_strlit("redo");
    assert("redo"@.len() == 4);
    reveal_strlit("set_mark");
    assert("set_mark"@.len() == 8);
    reveal_strlit("tab");
    assert("tab"@.len() == 3);
    reveal_strlit("undo");
    assert("undo"@.len() == 4);
    reveal_strlit("yank");
    assert("yank"@.len() == 4);
    assert("backspace"@[0] == 'b');
    assert("backward_kill_word"@[0] == 'b');
    assert("cancel"@[0] == 'c');
    assert("copy_region"@[0] == 'c');
    assert("copy_region"@[1] == 'o');
    assert("cursor_buffer_end"@[0] == 'c');
    assert("cursor_buffer_end"@[7] == 'b');
    assert("cursor_buffer_end_select"@[7] == 'b');
    assert("cursor_buffer_start"@[7] == 'b');
    assert("cursor_buffer_start_select"@[7] == 'b');
    assert("cursor_down"@[0] == 'c');
    assert("cursor_down"@[1] == 'u');
    assert("cursor_down"@[7] == 'd');
    assert("cursor_down_select"@[0] == 'c');
    assert("cursor_down_select"@[7] == 'd');
    assert("cursor_left"@[0] == 'c');
    assert("cursor_left"@[1] == 'u');
    assert("cursor_left"@[7] == 'l');
    assert("cursor_left_select"@[0] == 'c');
    assert("cursor_left_select"@[7] == 'l');
    assert("cursor_line_start"@[0] == 'c');
    assert("cursor_line_start"@[7] == 'l');
    assert("cursor_line_start_select"@[7] == 'l');
    assert("cursor_page_down"@[7] == 'p');
    assert("cursor_paragraph_forward"@[7] == 'p');
    assert("cursor_right_select"@[7] == 'r');
    assert("cursor_up"@[0] == 'c');
    assert("cursor_up_select"@[7] == 'u');
    assert("cursor_word_forward"@[7] == 'w');
    assert("cursor_word_forward_select"@[7] == 'w');
    assert("delete"@[0] == 'd');
    assert("escape"@[0] == 'e');
    assert("insert_text"@[0] == 'i');
    assert("kill_line"@[0] == 'k');
    assert("kill_line"@[5] == 'l');
    assert("kill_region"@[0] == 'k');
    assert("kill_word"@[0] == 'k');
    assert("kill_word"@[5] == 'w');
    assert("mark_whole_buffer"@[0] == 'm');
    assert("redo"@[0] == 'r');
    assert("undo"@[0] == 'u');
    assert("yank"@[0] == 'y');
    reveal_strlit("cursor_");
    reveal_strlit("_select");
    reveal_strlit("left");
    reveal_strlit("right");
    reveal_strlit("up");
    reveal_strlit("down");
    reveal_strlit("line_start");
    reveal_strlit("line_end");
    reveal_strlit("buffer_start");
    reveal_strlit("buffer_end");
    reveal_strlit("page_up");
    reveal_strlit("page_down");
    reveal_strlit("word_forward");
    reveal_strlit("word_backward");
    reveal_strlit("paragraph_forward");
    reveal_strlit("paragraph_backward");
    assert("cursor_left"@ =~= "cursor_"@ + "left"@);
    assert("cursor_left_select"@ =~= "cursor_"@ + "left"@ + "_select"@);
    assert("cursor_right"@ =~= "cursor_"@ + "right"@);
    assert("cursor_right_select"@ =~= "cursor_"@ + "right"@ + "_select"@);
    assert("cursor_up"@ =~= "cursor_"@ + "up"@);
    assert("cursor_up_select"@ =~= "cursor_"@ + "up"@ + "_select"@);
    assert("cursor_down"@ =~= "cursor_"@ + "down"@);
    assert("cursor_down_select"@ =~= "cursor_"@ + "down"@ + "_select"@);
    assert("cursor_line_start"@ =~= "cursor_"@ + "line_start"@);
    assert("cursor_line_start_select"@ =~= "cursor_"@ + "line_start"@ + "_select"@);
    assert("cursor_line_end"@ =~= "cursor_"@ + "line_end"@);
    assert("cursor_line_end_select"@ =~= "cursor_"@ + "line_end"@ + "_select"@);
    assert("cursor_buffer_start"@ =~= "cursor_"@ + "buffer_start"@);
    assert("cursor_buffer_start_select"@ =~= "cursor_"@ + "buffer_start"@ + "_select"@);
    assert("cursor_buffer_end"@ =~= "cursor_"@ + "buffer_end"@);
    assert("cursor_buffer_end_select"@ =~= "cursor_"@ + "buffer_end"@ + "_select"@);
    assert("cursor_page_up"@ =~= "cursor_"@ + "page_up"@);
    assert("cursor_page_up_select"@ =~= "cursor_"@ + "page_up"@ + "_select"@);
    assert("cursor_page_down"@ =~= "cursor_"@ + "page_down"@);
    assert("cursor_page_down_select"@ =~= "cursor_"@ + "page_down"@ + "_select"@);
    assert("cursor_word_forward"@ =~= "cursor_"@ + "word_forward"@);
    assert("cursor_word_forward_select"@ =~= "cursor_"@ + "word_forward"@ + "_select"@);
    assert("cursor_word_backward"@ =~= "cursor_"@ + "word_backward"@);
    assert("cursor_word_backward_select"@ =~= "cursor_"@ + "word_backward"@ + "_select"@);
    assert("cursor_paragraph_forward"@ =~= "cursor_"@ + "paragraph_forward"@);
    assert("cursor_paragraph_backward"@ =~= "cursor_"@ + "paragraph_backward"@);
}

/// What is found by a name is called so.
pub proof fn found_edits_are_called_so(edit: MicaNativeAction, name: Seq<char>)
    requires
        events::edit_named(name) == Some(edit),
    ensures
        is_called(edit, name),
{
    reveal_strlit("cursor_buffer_end");
    reveal_strlit("cursor_buffer_end_select");
    reveal_strlit("cursor_buffer_start");
    reveal_strlit("cursor_buffer_start_select");
    reveal_strlit("cursor_down");
    reveal_strlit("cursor_down_select");
    reveal_strlit("cursor_left");
    reveal_strlit("cursor_left_select");
    reveal_strlit("cursor_line_end");
    reveal_strlit("cursor_line_end_select");
    reveal_strlit("cursor_line_start");
    reveal_strlit("cursor_line_start_select");
    reveal_strlit("cursor_page_down");
    reveal_strlit("cursor_page_down_select");
    reveal_strlit("cursor_page_up");
    reveal_strlit("cursor_page_up_select");
    reveal_strlit("cursor_paragraph_backward");
    reveal_strlit("cursor_paragraph_forward");
    reveal_strlit("cursor_right");
    reveal_strlit("cursor_right_select");
    reveal_strlit("cursor_up");
    reveal_strlit("cursor_up_select");
    reveal_strlit("cursor_word_backward");
    reveal_strlit("cursor_word_backward_select");
    reveal_strlit("cursor_word_forward");
    reveal_strlit("cursor_word_forward_select");
    reveal_strlit("cursor_");
    reveal_strlit("_select");
    reveal_strlit("left");
    reveal_strlit("right");
    reveal_strlit("up");
    reveal_strlit("down");
    reveal_strlit("line_start");
    reveal_strlit("line_end");
    reveal_strlit("buffer_start");
    reveal_strlit("buffer_end");
    reveal_strlit("page_up");
    reveal_strlit("page_down");
    reveal_strlit("word_forward");
    reveal_strlit("word_backward");
    reveal_strlit("paragraph_forward");
    reveal_strlit("paragraph_backward");
    assert("cursor_left"@ =~= "cursor_"@ + "left"@);
    assert("cursor_left_select"@ =~= "cursor_"@ + "left"@ + "_select"@);
    assert("cursor_right"@ =~= "cursor_"@ + "right"@);
    assert("cursor_right_select"@ =~= "cursor_"@ + "right"@ + "_select"@);
    assert("cursor_up"@ =~= "cursor_"@ + "up"@);
    assert("cursor_up_select"@ =~= "cursor_"@ + "up"@ + "_select"@);
    assert("cursor_down"@ =~= "cursor_"@ + "down"@);
    assert("cursor_down_select"@ =~= "cursor_"@ + "down"@ + "_select"@);
    assert("cursor_line_start"@ =~= "cursor_"@ + "line_start"@);
    assert("cursor_line_start_select"@ =~= "cursor_"@ + "line_start"@ + "_select"@);
    assert("cursor_line_end"@ =~= "cursor_"@ + "line_end"@);
    assert("cursor_line_end_select"@ =~= "cursor_"@ + "line_end"@ + "_select"@);
    assert("cursor_buffer_start"@ =~= "cursor_"@ + "buffer_start"@);
    assert("cursor_buffer_start_select"@ =~= "cursor_"@ + "buffer_start"@ + "_select"@);
    assert("cursor_buffer_end"@ =~= "cursor_"@ + "buffer_end"@);
    assert("cursor_buffer_end_select"@ =~= "cursor_"@ + "buffer_end"@ + "_select"@);
    assert("cursor_page_up"@ =~= "cursor_"@ + "page_up"@);
    assert("cursor_page_up_select"@ =~= "cursor_"@ + "page_up"@ + "_select"@);
    assert("cursor_page_down"@ =~= "cursor_"@ + "page_down"@);
    assert("cursor_page_down_select"@ =~= "cursor_"@ + "page_down"@ + "_select"@);
    assert("cursor_word_forward"@ =~= "cursor_"@ + "word_forward"@);
    assert("cursor_word_forward_select"@ =~= "cursor_"@ + "word_forward"@ + "_select"@);
    assert("cursor_word_backward"@ =~= "cursor_"@ + "word_backward"@);
    assert("cursor_word_backward_select"@ =~= "cursor_"@ + "word_backward"@ + "_select"@);
    assert("cursor_paragraph_forward"@ =~= "cursor_"@ + "paragraph_forward"@);
    assert("cursor_paragraph_backward"@ =~= "cursor_"@ + "paragraph_backward"@);
}

// --- Published facts ---

/// Whether the value of a fact is published as a text: as itself, or, where it is
/// none, as what it is called.
pub open spec fn value_under(value: Value, formatted: Seq<char>, s: Seq<char>) -> bool {
    match value.field("value"@) {
        Some(Value::Text(t)) => t@ == s,
        Some(_) => formatted == s,
        None => false,
    }
}

/// Whether a table describes a rule.
pub open spec fn describes_rule(row: Value, rule: RuleView) -> bool {
    &&& decode_laws::symbol_under(row, "capture"@, rule.capture)
    &&& decode_laws::text_under(row, "face"@, rule.face)
    &&& decode_laws::number_under(row, "precedence"@, rule.precedence as int)
}

/// Whether a table publishes a fact: it says of which kind it is, and has what it
/// is about under the names of its fields.
pub open spec fn publishes(
    host: MicaHost,
    value: Value,
    formatted: Seq<char>,
    fact: MicaPolicyFact,
) -> bool {
    match fact {
        MicaPolicyFact::Parser { mode, grammar, query } => {
            &&& decode_laws::symbol_under(value, "kind"@, "parser_policy"@)
            &&& decode_laws::text_under(value, "mode"@, mode@)
            &&& decode_laws::symbol_under(value, "grammar"@, grammar@)
            &&& decode_laws::text_under(value, "query"@, query@)
        },
        MicaPolicyFact::Injection { mode, grammar, query, highlights } => {
            &&& decode_laws::symbol_under(value, "kind"@, "injection_policy"@)
            &&& decode_laws::text_under(value, "mode"@, mode@)
            &&& decode_laws::symbol_under(value, "grammar"@, grammar@)
            &&& decode_laws::text_under(value, "query"@, query@)
            &&& decode_laws::text_under(value, "highlights"@, highlights@)
        },
        MicaPolicyFact::Indentation { mode, query, anchor, offset, precedence } => {
            &&& decode_laws::symbol_under(value, "kind"@, "indentation_policy"@)
            &&& decode_laws::text_under(value, "mode"@, mode@)
            &&& decode_laws::text_under(value, "query"@, query@)
            &&& decode_laws::symbol_under(value, "anchor"@, anchor@)
            &&& decode_laws::number_under(value, "offset"@, offset as int)
            &&& decode_laws::number_under(value, "precedence"@, precedence as int)
        },
        MicaPolicyFact::Mode { buffer, name } => {
            &&& decode_laws::symbol_under(value, "kind"@, "mode_policy"@)
            &&& decode_laws::buffer_under(host, value, "buffer"@, buffer)
            &&& decode_laws::text_under(value, "name"@, name@)
        },
        MicaPolicyFact::Face { name, attribute, value: shown } => {
            &&& decode_laws::symbol_under(value, "kind"@, "face_policy"@)
            &&& decode_laws::text_under(value, "face"@, name@)
            &&& decode_laws::symbol_under(value, "attribute"@, attribute@)
            &&& value_under(value, formatted, shown@)
        },
        MicaPolicyFact::Configuration { key, value: shown } => {
            &&& decode_laws::symbol_under(value, "kind"@, "configuration_policy"@)
            &&& decode_laws::symbol_under(value, "key"@, key@)
            &&& value_under(value, formatted, shown@)
        },
        MicaPolicyFact::Syntax { buffer, kind, pattern, precedence } => {
            &&& decode_laws::symbol_under(value, "kind"@, "syntax_policy"@)
            &&& decode_laws::buffer_under(host, value, "buffer"@, buffer)
            &&& decode_laws::symbol_under(value, "syntax_kind"@, kind@)
            &&& decode_laws::text_under(value, "pattern"@, pattern@)
            &&& decode_laws::number_under(value, "precedence"@, precedence as int)
        },
        MicaPolicyFact::Highlight { .. } => false,
        MicaPolicyFact::Highlights { buffer, rules } => {
            &&& decode_laws::symbol_under(value, "kind"@, "highlight_policy"@)
            &&& decode_laws::buffer_under(host, value, "buffer"@, buffer)
            &&& value.field("rules"@) matches Some(Value::List(rows)) && lists_rules(
                rows@,
                effects::rule_views(rules@),
            )
        },
    }
}

/// Whether a row describes one of the rules.
pub open spec fn is_listed(row: Value, rules: Seq<RuleView>) -> bool {
    exists|rule: RuleView| #[trigger] describes_rule(row, rule) && rules.contains(rule)
}

/// Whether one of the rows describes a rule.
pub open spec fn is_described(rows: Seq<Value>, rule: RuleView) -> bool {
    exists|i: int| 0 <= i < rows.len() && describes_rule(#[trigger] rows[i], rule)
}

/// Whether rows describe rules: each row one of them, each of them in some row,
/// and they are in order, each once.
pub open spec fn lists_rules(rows: Seq<Value>, rules: Seq<RuleView>) -> bool {
    &&& rows.len() <= MAX_POLICY_FACTS
    &&& forall|i: int| 0 <= i < rows.len() ==> is_listed(#[trigger] rows[i], rules)
    &&& forall|rule: RuleView| #[trigger] rules.contains(rule) ==> is_described(rows, rule)
    &&& effects::rules_ordered(rules)
}

proof fn with_rule_holds(rules: Seq<RuleView>, rule: RuleView)
    ensures
        forall|r: RuleView| #[trigger]
            effects::with_rule(rules, rule).contains(r) <==> rules.contains(r) || r == rule,
    decreases rules.len(),
{
    let after = effects::with_rule(rules, rule);
    if rules.len() == 0 {
        assert(after[0] == rule);
    } else if rules.last() == rule {
        assert(rules[rules.len() - 1] == rule);
    } else if effects::rule_precedes(rules.last(), rule) {
        assert forall|r: RuleView| #[trigger] after.contains(r) <==> rules.contains(r) || r
            == rule by {
            if rules.contains(r) {
                assert(after[rules.index_of(r)] == r);
            }
            assert(after[rules.len() as int] == rule);
        }
    } else {
        let front = effects::with_rule(rules.drop_last(), rule);
        with_rule_holds(rules.drop_last(), rule);
        assert forall|r: RuleView| #[trigger] after.contains(r) <==> rules.contains(r) || r
            == rule by {
            assert(front.contains(r) <==> rules.drop_last().contains(r) || r == rule);
            if front.contains(r) {
                assert(after[front.index_of(r)] == r);
            }
            assert(after[front.len() as int] == rules.last());
            if rules.drop_last().contains(r) {
                assert(rules[rules.drop_last().index_of(r)] == r);
            }
            assert(rules[rules.len() - 1] == rules.last());
            if rules.contains(r) && r != rules.last() {
                assert(rules.drop_last()[rules.index_of(r)] == r);
            }
        }
    }
}

/// The rules of a publication are those that its rows describe.
pub proof fn rules_are_those_described(rows: Seq<Value>, rules: Seq<RuleView>)
    requires
        effects::rules_in(rows) == Ok::<Seq<RuleView>, Seq<char>>(rules),
    ensures
        forall|i: int| 0 <= i < rows.len() ==> is_listed(#[trigger] rows[i], rules),
        forall|rule: RuleView| #[trigger] rules.contains(rule) ==> is_described(rows, rule),
    decreases rows.len(),
{
    if rows.len() > 0 {
        let front = rows.drop_last();
        let before = effects::rules_in(front)->Ok_0;
        rules_are_those_described(front, before);
        let last = effects::rule_in(rows.last())->Ok_0;
        with_rule_holds(before, last);
        assert(describes_rule(rows.last(), last));
        assert(rules.contains(last));
        assert forall|i: int| 0 <= i < rows.len() implies is_listed(#[trigger] rows[i], rules) by {
            if i < front.len() {
                assert(is_listed(front[i], before));
                assert(front[i] == rows[i]);
                let rule = choose|rule: RuleView| #[trigger]
                    describes_rule(front[i], rule) && before.contains(rule);
                assert(rules.contains(rule));
            }
        }
        assert forall|rule: RuleView| #[trigger] rules.contains(rule) implies is_described(
            rows,
            rule,
        ) by {
            if before.contains(rule) {
                assert(is_described(front, rule));
                let i = choose|i: int|
                    0 <= i < front.len() && describes_rule(#[trigger] front[i], rule);
                assert(rows[i] == front[i]);
            } else {
                assert(rows[rows.len() - 1] == rows.last());
            }
        }
    }
}

/// A fact that a table publishes is what the table is read as.
pub proof fn facts_are_read_as_they_are_written(
    host: MicaHost,
    value: Value,
    formatted: Seq<char>,
    fact: MicaPolicyFact,
)
    requires
        publishes(host, value, formatted, fact),
        !(fact is Highlights),
    ensures
        host.policy_fact_in(value, formatted) == Ok::<effects::PolicyFactView, Seq<char>>(fact@),
{
    reveal_strlit("configuration_policy");
    assert("configuration_policy"@.len() == 20);
    reveal_strlit("face_policy");
    assert("face_policy"@.len() == 11);
    reveal_strlit("highlight_policy");
    assert("highlight_policy"@.len() == 16);
    reveal_strlit("indentation_policy");
    assert("indentation_policy"@.len() == 18);
    reveal_strlit("injection_policy");
    assert("injection_policy"@.len() == 16);
    reveal_strlit("mode_policy");
    assert("mode_policy"@.len() == 11);
    reveal_strlit("parser_policy");
    assert("parser_policy"@.len() == 13);
    reveal_strlit("syntax_policy");
    assert("syntax_policy"@.len() == 13);
    assert("face_policy"@[0] == 'f');
    assert("highlight_policy"@[0] == 'h');
    assert("injection_policy"@[0] == 'i');
    assert("mode_policy"@[0] == 'm');
    assert("parser_policy"@[0] == 'p');
    assert("syntax_policy"@[0] == 's');
    match fact {
        MicaPolicyFact::Mode { buffer, .. } => decode_laws::reads_buffer(
            host,
            value,
            "buffer"@,
            buffer,
        ),
        MicaPolicyFact::Syntax { buffer, .. } => decode_laws::reads_buffer(
            host,
            value,
            "buffer"@,
            buffer,
        ),
        _ => {},
    }
}

/// What a table is read as, it publishes.
pub proof fn facts_are_written_as_they_are_read(
    host: MicaHost,
    value: Value,
    formatted: Seq<char>,
    fact: MicaPolicyFact,
)
    requires
        host.policy_fact_in(value, formatted) == Ok::<effects::PolicyFactView, Seq<char>>(fact@),
    ensures
        publishes(host, value, formatted, fact),
{
    match fact {
        MicaPolicyFact::Mode { buffer, .. } => decode_laws::reads_buffer(
            host,
            value,
            "buffer"@,
            buffer,
        ),
        MicaPolicyFact::Syntax { buffer, .. } => decode_laws::reads_buffer(
            host,
            value,
            "buffer"@,
            buffer,
        ),
        MicaPolicyFact::Highlights { buffer, rules } => {
            decode_laws::reads_buffer(host, value, "buffer"@, buffer);
            match value.field("rules"@) {
                Some(Value::List(rows)) => {
                    let told = effects::rule_views(rules@);
                    rules_are_those_described(rows@, told);
                    effects::published_rules_are_ordered(rows@);
                },
                _ => {},
            }
        },
        _ => {},
    }
}

// --- Prompts and searches ---

/// Whether a table describes a prompt.
pub open spec fn describes_prompt(value: Value, prompt: MicaPromptUpdate) -> bool {
    &&& decode_laws::text_under(value, "prefix"@, prompt.prefix@)
    &&& decode_laws::text_under(value, "query"@, prompt.query@)
    &&& decode_laws::number_under(value, "selected"@, prompt.selected as int)
    &&& value.field("candidates"@) matches Some(Value::List(rows)) && {
        &&& rows@.len() == prompt.candidates@.len()
        &&& rows@.len() <= 256
        &&& rows@.len() > 0 ==> prompt.selected < rows@.len()
        &&& forall|i: int|
            0 <= i < rows@.len() ==> {
                &&& (#[trigger] rows@[i]) matches Value::List(row)
                &&& row@.len() > 0
                &&& row@[0] matches Value::Text(s)
                &&& s@ == prompt.candidates@[i]@
            }
    }
}

/// Whether rows show candidates.
pub open spec fn shows(rows: Seq<Value>, candidates: Seq<Seq<char>>) -> bool {
    &&& rows.len() == candidates.len()
    &&& forall|i: int|
        0 <= i < rows.len() ==> {
            &&& (#[trigger] rows[i]) matches Value::List(row)
            &&& row@.len() > 0
            &&& row@[0] matches Value::Text(s)
            &&& s@ == candidates[i]
        }
}

proof fn candidates_are_those_shown(rows: Seq<Value>, candidates: Seq<Seq<char>>)
    ensures
        shows(rows, candidates) <==> effects::candidates_in(rows) == Some(candidates),
    decreases rows.len(),
{
    if rows.len() == 0 {
        if shows(rows, candidates) {
            assert(candidates =~= seq![]);
        }
    } else {
        let front = rows.drop_last();
        if shows(rows, candidates) {
            let before = candidates.drop_last();
            assert forall|i: int| 0 <= i < front.len() implies {
                &&& (#[trigger] front[i]) matches Value::List(row)
                &&& row@.len() > 0
                &&& row@[0] matches Value::Text(s)
                &&& s@ == before[i]
            } by {
                assert(rows[i] == front[i]);
            }
            candidates_are_those_shown(front, before);
            assert(rows[rows.len() - 1] == rows.last());
            assert(before.push(candidates.last()) =~= candidates);
        }
        if effects::candidates_in(rows) == Some(candidates) {
            let before = effects::candidates_in(front)->0;
            candidates_are_those_shown(front, before);
            assert forall|i: int| 0 <= i < rows.len() implies {
                &&& (#[trigger] rows[i]) matches Value::List(row)
                &&& row@.len() > 0
                &&& row@[0] matches Value::Text(s)
                &&& s@ == candidates[i]
            } by {
                if i < front.len() {
                    assert(front[i] == rows[i]);
                } else {
                    assert(rows[i] == rows.last());
                }
            }
        }
    }
}

/// A prompt is read as it is written, and from nothing else.
pub proof fn prompts_are_read_as_they_are_written(value: Value, prompt: MicaPromptUpdate)
    ensures
        describes_prompt(value, prompt) <==> effects::prompt_in(value) == Some(prompt@),
{
    match value.field("candidates"@) {
        Some(Value::List(rows)) => {
            let shown = text::views(prompt.candidates@);
            candidates_are_those_shown(rows@, shown);
            if describes_prompt(value, prompt) {
                assert(shows(rows@, shown));
            }
            if effects::prompt_in(value) == Some(prompt@) {
                assert(shows(rows@, shown));
                assert forall|i: int| 0 <= i < rows@.len() implies {
                    &&& (#[trigger] rows@[i]) matches Value::List(row)
                    &&& row@.len() > 0
                    &&& row@[0] matches Value::Text(s)
                    &&& s@ == prompt.candidates@[i]@
                } by {
                    assert(shown[i] == prompt.candidates@[i]@);
                }
            }
        },
        _ => {},
    }
}

/// Whether rows are the places from one position to another.
pub open spec fn lists_places(rows: Seq<Value>, places: Seq<SearchMatch>) -> bool {
    &&& rows.len() == places.len()
    &&& forall|i: int|
        0 <= i < rows.len() ==> {
            &&& (#[trigger] rows[i]) matches Value::List(row)
            &&& row@.len() >= 2
            &&& row@[0] matches Value::Int(start)
            &&& row@[1] matches Value::Int(end)
            &&& start == places[i].start
            &&& end == places[i].end
            &&& start <= end
        }
}

proof fn places_are_those_listed(rows: Seq<Value>, places: Seq<SearchMatch>)
    ensures
        lists_places(rows, places) <==> effects::matches_in(rows) == Some(places),
    decreases rows.len(),
{
    if rows.len() == 0 {
        if lists_places(rows, places) {
            assert(places =~= seq![]);
        }
    } else {
        let front = rows.drop_last();
        if lists_places(rows, places) {
            let before = places.drop_last();
            assert forall|i: int| 0 <= i < front.len() implies {
                &&& (#[trigger] front[i]) matches Value::List(row)
                &&& row@.len() >= 2
                &&& row@[0] matches Value::Int(start)
                &&& row@[1] matches Value::Int(end)
                &&& start == before[i].start
                &&& end == before[i].end
                &&& start <= end
            } by {
                assert(rows[i] == front[i]);
            }
            places_are_those_listed(front, before);
            assert(rows[rows.len() - 1] == rows.last());
            assert(effects::match_in(rows.last()) == Some(places.last()));
            assert(before.push(places.last()) =~= places);
        }
        if effects::matches_in(rows) == Some(places) {
            let before = effects::matches_in(front)->0;
            places_are_those_listed(front, before);
            assert forall|i: int| 0 <= i < rows.len() implies {
                &&& (#[trigger] rows[i]) matches Value::List(row)
                &&& row@.len() >= 2
                &&& row@[0] matches Value::Int(start)
                &&& row@[1] matches Value::Int(end)
                &&& start == places[i].start
                &&& end == places[i].end
                &&& start <= end
            } by {
                if i < front.len() {
                    assert(front[i] == rows[i]);
                } else {
                    assert(rows[i] == rows.last());
                }
            }
        }
    }
}

/// Whether a table describes what a search found.
pub open spec fn describes_search(host: MicaHost, value: Value, search: MicaSearchUpdate) -> bool {
    &&& decode_laws::view_under(host, value, search.view)
    &&& value.field("matches"@) matches Some(Value::List(rows)) && rows@.len() <= 1024
        && lists_places(rows@, search.matches@)
    &&& match search.selected {
        Some(n) => decode_laws::number_under(value, "selected"@, n as int),
        None => !(value.field("selected"@) matches Some(Value::Int(n)) && 0 <= n <= usize::MAX),
    }
}

/// What a search found is read as it is written, and from nothing else.
pub proof fn searches_are_read_as_they_are_written(
    host: MicaHost,
    value: Value,
    search: MicaSearchUpdate,
)
    ensures
        describes_search(host, value, search) <==> host.search_in(value) == Some(
            effects::SearchView {
                view: search.view,
                matches: search.matches@,
                selected: search.selected,
            },
        ),
{
    decode_laws::views_are_read(host, value);
    assert(decode_laws::view_under(host, value, search.view) <==> host.known_view(value) == Some(
        search.view,
    ));
    match value.field("matches"@) {
        Some(Value::List(rows)) => {
            places_are_those_listed(rows@, search.matches@);
        },
        _ => {},
    }
}

/// Whether a table describes the end of a search.
pub open spec fn describes_search_end(
    host: MicaHost,
    value: Value,
    search: MicaSearchFinish,
) -> bool {
    &&& decode_laws::view_under(host, value, search.view)
    &&& decode_laws::number_under(value, "original"@, search.original_cursor as int)
    &&& decode_laws::text_under(value, "query"@, search.query@)
    &&& decode_laws::flag_under(value, "accepted"@, search.accepted)
}

/// The end of a search is read as it is written, and from nothing else.
pub proof fn search_ends_are_read_as_they_are_written(
    host: MicaHost,
    value: Value,
    search: MicaSearchFinish,
)
    ensures
        describes_search_end(host, value, search) <==> host.search_end_in(value) == Some(
            effects::SearchEndView {
                view: search.view,
                original_cursor: search.original_cursor,
                query: search.query@,
                accepted: search.accepted,
            },
        ),
{
    decode_laws::views_are_read(host, value);
    assert(decode_laws::view_under(host, value, search.view) <==> host.known_view(value) == Some(
        search.view,
    ));
}

/// Whether a table describes what is shown of a view now.
pub open spec fn describes_presentation(
    host: MicaHost,
    value: Value,
    effect: MicaPresentationEffect,
) -> bool {
    &&& decode_laws::buffer_under(host, value, "buffer"@, effect.buffer)
    &&& decode_laws::view_under(host, value, effect.view)
    &&& decode_laws::number_under(value, "cursor"@, effect.cursor as int)
}

/// What is shown of a view is read as it is written, and from nothing else.
pub proof fn presentations_are_read_as_they_are_written(
    host: MicaHost,
    value: Value,
    effect: MicaPresentationEffect,
)
    ensures
        describes_presentation(host, value, effect) <==> host.presentation_in(value) == Some(
            effect,
        ),
{
    match value.field("buffer"@) {
        Some(Value::Identity(logical)) => {
            decode_laws::buffer_is_named(host, logical, effect.buffer);
        },
        _ => {},
    }
    match value.field("view"@) {
        Some(Value::Identity(logical)) => {
            decode_laws::view_is_named(host, logical, effect.view);
        },
        _ => {},
    }
}

// --- Effects ---

/// Whether a table says that it is an effect of a kind.
pub open spec fn is_of_kind(value: Value, kind: Seq<char>) -> bool {
    decode_laws::symbol_under(value, "kind"@, kind)
}

/// Whether a table describes an event.
pub open spec fn describes(
    host: MicaHost,
    value: Value,
    formatted: Seq<String>,
    event: MicaEvent,
) -> bool {
    match event {
        MicaEvent::Presentation(effect) => is_of_kind(value, "presentation_invalidated"@)
            && describes_presentation(host, value, effect),
        MicaEvent::Host(action) => is_of_kind(value, "host_action"@) && decode_laws::asks(host, value, action),
        MicaEvent::Native(MicaNativeAction::InsertText(s)) => {
            &&& is_of_kind(value, "native_action"@)
            &&& decode_laws::symbol_under(value, "action"@, "insert_text"@)
            &&& decode_laws::text_under(value, "text"@, s@)
        },
        MicaEvent::Native(edit) => is_of_kind(value, "native_action"@) && exists|name: Seq<char>|
            decode_laws::symbol_under(value, "action"@, name) && #[trigger] is_called(edit, name),
        MicaEvent::Policy(facts) => {
            &&& is_of_kind(value, "policy_snapshot"@)
            &&& value.field("facts"@) matches Some(Value::List(items)) && {
                &&& items@.len() == facts@.len()
                &&& items@.len() <= 256
                &&& forall|i: int|
                    0 <= i < items@.len() ==> publishes(
                        host,
                        #[trigger] items@[i],
                        effects::formatted_at(formatted, i),
                        facts@[i],
                    )
            }
        },
        MicaEvent::Prompt(prompt) => is_of_kind(value, "prompt_update"@) && describes_prompt(value, prompt),
        MicaEvent::PromptClosed => is_of_kind(value, "prompt_close"@),
        MicaEvent::Search(search) => is_of_kind(value, "search_update"@) && describes_search(
            host,
            value,
            search,
        ),
        MicaEvent::SearchFinished(search) => is_of_kind(value, "search_finish"@) && describes_search_end(
            host,
            value,
            search,
        ),
        _ => false,
    }
}

proof fn facts_are_published(
    host: MicaHost,
    items: Seq<Value>,
    formatted: Seq<String>,
    facts: Seq<MicaPolicyFact>,
)
    requires
        host.policy_facts_in(items, formatted) == Ok::<Seq<effects::PolicyFactView>, Seq<char>>(
            effects::policy_views(facts),
        ),
    ensures
        items.len() == facts.len(),
        forall|i: int|
            0 <= i < items.len() ==> publishes(
                host,
                #[trigger] items[i],
                effects::formatted_at(formatted, i),
                facts[i],
            ),
    decreases items.len(),
{
    if items.len() == 0 {
        assert(effects::policy_views(facts).len() == 0);
    } else {
        let front = items.drop_last();
        let n = items.len() - 1;
        let views = effects::policy_views(facts);
        assert(views.len() > 0);
        let before = host.policy_facts_in(front, formatted)->Ok_0;
        assert(views.drop_last() =~= before);
        assert(effects::policy_views(facts.drop_last()) =~= before);
        assert(views.last() == facts.last()@);
        facts_are_published(host, front, formatted, facts.drop_last());
        facts_are_written_as_they_are_read(
            host,
            items.last(),
            effects::formatted_at(formatted, n),
            facts.last(),
        );
        assert forall|i: int| 0 <= i < items.len() implies publishes(
            host,
            #[trigger] items[i],
            effects::formatted_at(formatted, i),
            facts[i],
        ) by {
            if i < n {
                assert(front[i] == items[i]);
                assert(facts.drop_last()[i] == facts[i]);
            }
        }
    }
}

/// What an effect is read as is what its table describes, and only the cursor of
/// a view that is shown anew is noted.
pub proof fn effects_are_what_they_describe(
    host: MicaHost,
    after: MicaHost,
    target: Identity,
    value: Value,
    formatted: Seq<String>,
    r: Result<MicaEvent, String>,
)
    requires
        host.effect_decoded(&after, target, value, formatted, r),
    ensures
        target != host.names.session ==> r is Err && after == host,
        r matches Ok(event) ==> describes(host, value, formatted, event),
        !(r matches Ok(MicaEvent::Presentation(_))) ==> after == host,
        r matches Ok(MicaEvent::Presentation(effect)) ==> {
            &&& after.views@.len() == host.views@.len()
            &&& forall|i: int|
                0 <= i < host.views@.len() ==> {
                    let before = #[trigger] host.views@[i];
                    &&& before.id == effect.view ==> after.views@[i].cursor == effect.cursor
                    &&& before.id != effect.view ==> after.views@[i] == before
                    &&& after.views@[i].id == before.id
                    &&& after.views@[i].logical == before.logical
                    &&& after.views@[i].buffer == before.buffer
                }
        },
{
    match r {
        Ok(MicaEvent::Presentation(effect)) => {
            presentations_are_read_as_they_are_written(host, value, effect);
        },
        Ok(MicaEvent::Host(action)) => {
            decode_laws::actions_are_written_as_they_are_read(host, value, action);
        },
        Ok(MicaEvent::Native(edit)) => {
            let name = decode::symbol_in(value, "action"@)->Ok_0;
            if events::edit_named(name) == Some(edit) {
                found_edits_are_called_so(edit, name);
                assert(decode_laws::symbol_under(value, "action"@, name) && is_called(edit, name));
            }
        },
        Ok(MicaEvent::Policy(facts)) => {
            match value.field("facts"@) {
                Some(Value::List(items)) => {
                    facts_are_published(host, items@, formatted, facts@);
                },
                _ => {},
            }
        },
        Ok(MicaEvent::Prompt(prompt)) => {
            prompts_are_read_as_they_are_written(value, prompt);
        },
        Ok(MicaEvent::Search(search)) => {
            searches_are_read_as_they_are_written(host, value, search);
        },
        Ok(MicaEvent::SearchFinished(search)) => {
            search_ends_are_read_as_they_are_written(host, value, search);
        },
        _ => {},
    }
}

/// What a table describes is read, where it is meant for this session and within
/// the limits.
pub proof fn described_effects_are_read(
    host: MicaHost,
    after: MicaHost,
    value: Value,
    formatted: Seq<String>,
    event: MicaEvent,
    r: Result<MicaEvent, String>,
)
    requires
        host.effect_decoded(&after, host.names.session, value, formatted, r),
        value::left_of(value, MAX_BATCH_BYTES as int, 0) is Ok,
        describes(host, value, formatted, event),
        !(event is Policy),
        event is Native ==> (value.field("text"@) matches Some(v) ==> (v matches Value::Text(s)
            && s@.len() <= MAX_TEXT_CHARS_PER_INPUT)),
    ensures
        r is Ok,
{
    reveal_strlit("host_action");
    assert("host_action"@.len() == 11);
    reveal_strlit("native_action");
    assert("native_action"@.len() == 13);
    reveal_strlit("policy_snapshot");
    assert("policy_snapshot"@.len() == 15);
    reveal_strlit("presentation_invalidated");
    assert("presentation_invalidated"@.len() == 24);
    reveal_strlit("prompt_close");
    assert("prompt_close"@.len() == 12);
    reveal_strlit("prompt_update");
    assert("prompt_update"@.len() == 13);
    reveal_strlit("search_finish");
    assert("search_finish"@.len() == 13);
    reveal_strlit("search_update");
    assert("search_update"@.len() == 13);
    assert("native_action"@[0] == 'n');
    assert("prompt_update"@[0] == 'p');
    assert("search_finish"@[0] == 's');
    assert("search_finish"@[7] == 'f');
    assert("search_update"@[0] == 's');
    assert("search_update"@[7] == 'u');
    match event {
        MicaEvent::Presentation(effect) => {
            presentations_are_read_as_they_are_written(host, value, effect);
        },
        MicaEvent::Host(action) => {
            decode_laws::actions_are_read_as_they_are_written(host, value, action);
        },
        MicaEvent::Native(edit) => {
            if !(edit is InsertText) {
                let name = choose|name: Seq<char>|
                    decode_laws::symbol_under(value, "action"@, name) && #[trigger] is_called(
                        edit,
                        name,
                    );
                edits_are_found_by_name(edit, name);
            }
        },
        MicaEvent::Prompt(prompt) => {
            prompts_are_read_as_they_are_written(value, prompt);
        },
        MicaEvent::Search(search) => {
            searches_are_read_as_they_are_written(host, value, search);
        },
        MicaEvent::SearchFinished(search) => {
            search_ends_are_read_as_they_are_written(host, value, search);
        },
        _ => {},
    }
}

} // verus!
