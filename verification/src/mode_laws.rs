//! What the actions of modes do to a buffer, and what is told of them.

use vstd::prelude::*;
use vstd::string::*;

use crate::buffer::BufferInner;
use crate::buffer_host;
use crate::buffer_host::{BufferHost, ProgressView};
use crate::editor::{ChromeView, Editor};
use crate::ids::BufferId;
use crate::kernel_laws;
use crate::keys::KeyAction;
use crate::mode;
use crate::mode::{
    ActionPosition, JuliaReplMode, ModeActionView, ModeResultView, MouseEvent, MouseEventType,
};
use crate::renderer::DirtyRegion;
use crate::{rope, text};

verus! {

// --- Texts ---

/// A text that is inserted at the cursor stands there, and the cursor behind it.
pub proof fn text_goes_in_at_the_cursor(
    b0: BufferInner,
    b1: BufferInner,
    p0: ProgressView,
    p1: ProgressView,
    s: Seq<char>,
    id: BufferId,
)
    requires
        buffer_host::one_acted(
            b0,
            b1,
            p0,
            p1,
            ModeActionView::InsertText(ActionPosition::Cursor, s),
            id,
        ),
        0 <= p0.cursor <= b0.text().len(),
    ensures
        kernel_laws::exchanged(b0.text(), b1.text(), p0.cursor, 0, s),
        p1.cursor == p0.cursor + s.len(),
        p1.new_cursor_pos == Some(p1.cursor),
        p1.buffer_changed,
        b1.mark == b0.mark,
{
}

/// A text that is inserted at the end stands behind all others, and the cursor
/// stays.
pub proof fn text_goes_in_at_the_end(
    b0: BufferInner,
    b1: BufferInner,
    p0: ProgressView,
    p1: ProgressView,
    s: Seq<char>,
    id: BufferId,
)
    requires
        buffer_host::one_acted(
            b0,
            b1,
            p0,
            p1,
            ModeActionView::InsertText(ActionPosition::End, s),
            id,
        ),
    ensures
        b1.text() == b0.text() + s,
        p1.cursor == p0.cursor,
        p1.buffer_changed,
{
    assert(b1.text() =~= b0.text() + s);
}

/// A deletion at the cursor takes out as many characters as it says: behind the
/// cursor, or in front of it for a negative number. Where there are not as many
/// nothing happens.
pub proof fn characters_go_at_the_cursor(
    b0: BufferInner,
    b1: BufferInner,
    p0: ProgressView,
    p1: ProgressView,
    n: int,
    id: BufferId,
)
    requires
        buffer_host::one_acted(
            b0,
            b1,
            p0,
            p1,
            ModeActionView::DeleteText(ActionPosition::Cursor, n),
            id,
        ),
        0 <= p0.cursor <= b0.text().len(),
    ensures
        n >= 0 && p0.cursor + n <= b0.text().len() ==> kernel_laws::exchanged(
            b0.text(),
            b1.text(),
            p0.cursor,
            n,
            seq![],
        ) && p1.cursor == p0.cursor,
        n < 0 && p0.cursor + n >= 0 ==> kernel_laws::exchanged(
            b0.text(),
            b1.text(),
            p0.cursor + n,
            -n,
            seq![],
        ) && p1.cursor == p0.cursor + n && p1.new_cursor_pos == Some(p1.cursor),
        p0.cursor + n < 0 || p0.cursor + n > b0.text().len() ==> b1 == b0 && p1 == p0,
{
}

/// What was inserted at the cursor is taken back by the deletion of as many
/// characters in front of it: the text and the cursor are what they were.
pub proof fn deletion_takes_back_insertion(
    b0: BufferInner,
    b1: BufferInner,
    b2: BufferInner,
    p0: ProgressView,
    p1: ProgressView,
    p2: ProgressView,
    s: Seq<char>,
    id: BufferId,
)
    requires
        0 <= p0.cursor <= b0.text().len(),
        buffer_host::one_acted(
            b0,
            b1,
            p0,
            p1,
            ModeActionView::InsertText(ActionPosition::Cursor, s),
            id,
        ),
        buffer_host::one_acted(
            b1,
            b2,
            p1,
            p2,
            ModeActionView::DeleteText(ActionPosition::Cursor, -s.len()),
            id,
        ),
    ensures
        b2.text() == b0.text(),
        p2.cursor == p0.cursor,
{
    if s.len() == 0 {
        assert(b1.text() =~= b0.text());
    }
    assert(b2.text() =~= b0.text());
}

/// A cleared buffer is empty, and the cursor is at its start, where there was
/// text. A text that is then inserted at the cursor is all that it holds.
pub proof fn cleared_buffer_holds_what_comes_next(
    b0: BufferInner,
    b1: BufferInner,
    b2: BufferInner,
    p0: ProgressView,
    p1: ProgressView,
    p2: ProgressView,
    s: Seq<char>,
    id: BufferId,
)
    requires
        0 <= p0.cursor <= b0.text().len(),
        buffer_host::one_acted(b0, b1, p0, p1, ModeActionView::ClearText, id),
        buffer_host::one_acted(
            b1,
            b2,
            p1,
            p2,
            ModeActionView::InsertText(ActionPosition::Cursor, s),
            id,
        ),
    ensures
        b1.text().len() == 0,
        p1.cursor == 0,
        b2.text() == s,
        p2.cursor == s.len(),
{
    assert(b2.text() =~= s);
}

/// The mark is set at the cursor, as far as there is text, and goes when it is
/// cleared. The text stays.
pub proof fn mark_is_set_at_the_cursor(
    b0: BufferInner,
    b1: BufferInner,
    b2: BufferInner,
    p0: ProgressView,
    p1: ProgressView,
    p2: ProgressView,
    id: BufferId,
)
    requires
        0 <= p0.cursor <= b0.text().len() <= usize::MAX,
        buffer_host::one_acted(b0, b1, p0, p1, ModeActionView::SetMark, id),
        buffer_host::one_acted(b1, b2, p1, p2, ModeActionView::ClearMark, id),
    ensures
        b1.mark matches Some(m) && m == p0.cursor,
        b2.mark is None,
        b1.text() == b0.text(),
        b2.text() == b0.text(),
        p2.cursor == p0.cursor,
        !p0.buffer_changed ==> !p2.buffer_changed,
{
}

// --- What is told ---

/// What came of actions is not forgotten by later ones: what has to be drawn
/// anew stays so, and a buffer that changed stays changed. A text that is another
/// one than before counts as changed, and has something to be drawn.
pub proof fn changes_are_told(
    b0: BufferInner,
    b1: BufferInner,
    p0: ProgressView,
    p1: ProgressView,
    action: ModeActionView,
    id: BufferId,
)
    requires
        buffer_host::one_acted(b0, b1, p0, p1, action, id),
    ensures
        p0.buffer_changed ==> p1.buffer_changed,
        p0.dirty_regions.is_prefix_of(p1.dirty_regions),
        b1.text() != b0.text() ==> p1.buffer_changed && p1.dirty_regions.len()
            == p0.dirty_regions.len() + 1,
        b1.mark != b0.mark ==> p1.dirty_regions.len() == p0.dirty_regions.len() + 1,
        p1.editor_action is Some && p0.editor_action is None ==> p1.editor_action == Some(action),
{
    let t = b0.text();
    if action is ClearText && t.len() == 0 {
        assert(b1.text() =~= t);
    }
}

/// Where a change concerns a line feed the whole buffer is drawn anew.
pub proof fn line_feeds_concern_the_buffer(
    b0: BufferInner,
    b1: BufferInner,
    p0: ProgressView,
    p1: ProgressView,
    position: ActionPosition,
    s: Seq<char>,
    id: BufferId,
    k: int,
)
    requires
        buffer_host::one_acted(
            b0,
            b1,
            p0,
            p1,
            ModeActionView::InsertText(position, s),
            id,
        ),
        0 <= k < s.len(),
        s[k] == '\n',
    ensures
        p1.dirty_regions.last() == (DirtyRegion::Buffer { buffer_id: id }),
{
    assert(s.contains(s[k]));
}

// --- The chain of modes ---

/// What the modes want is done in the order in which they were asked; those that
/// failed or ignored the event add nothing.
pub proof fn wishes_are_collected_in_order(
    replies: Seq<Option<ModeResultView>>,
    reply: Option<ModeResultView>,
)
    ensures
        buffer_host::collected(replies).is_prefix_of(
            buffer_host::collected(replies.push(reply)),
        ),
        reply is None || reply == Some(ModeResultView::Ignored) ==> buffer_host::collected(
            replies.push(reply),
        ) == buffer_host::collected(replies),
        reply matches Some(ModeResultView::Consumed(actions)) ==> buffer_host::collected(
            replies.push(reply),
        ) == buffer_host::collected(replies) + actions,
        reply matches Some(ModeResultView::Annotated(actions)) ==> buffer_host::collected(
            replies.push(reply),
        ) == buffer_host::collected(replies) + actions,
        buffer_host::collected(Seq::<Option<ModeResultView>>::empty()).len() == 0,
{
    assert(replies.push(reply).drop_last() =~= replies);
}

/// Actions are done up to the first that saves or evaluates, and no further.
pub proof fn plain_actions_come_first(actions: Seq<ModeActionView>)
    ensures
        0 <= buffer_host::plain_prefix(actions) <= actions.len(),
        forall|i: int|
            0 <= i < buffer_host::plain_prefix(actions) ==> !((#[trigger] actions[i]) is Save)
                && !(actions[i] is EvalJulia),
        buffer_host::plain_prefix(actions) < actions.len() ==> actions[buffer_host::plain_prefix(
            actions,
        )] is Save || actions[buffer_host::plain_prefix(actions)] is EvalJulia,
    decreases actions.len(),
{
    if actions.len() > 0 && buffer_host::is_plain(actions[0]) {
        let rest = actions.drop_first();
        plain_actions_come_first(rest);
        let n = buffer_host::plain_prefix(rest);
        assert forall|i: int| 0 <= i < n + 1 implies !((#[trigger] actions[i]) is Save) && !(
        actions[i] is EvalJulia) by {
            if i > 0 {
                assert(rest[i - 1] == actions[i]);
            }
        }
        if n < rest.len() {
            assert(rest[n] == actions[n + 1]);
        }
    }
}

// --- Clicks and evaluations ---

/// A click on a character of a line puts the cursor in front of it: on that row,
/// and as many characters behind the start of the line as the column says.
pub proof fn click_leads_to_the_character(
    b0: BufferInner,
    b1: BufferInner,
    p0: ProgressView,
    p1: ProgressView,
    row: u16,
    col: u16,
    id: BufferId,
)
    requires
        buffer_host::one_acted(b0, b1, p0, p1, ModeActionView::MoveCursor(row, col), id),
        row < rope::line_count(b0.text()),
        col < rope::line_text(b0.text(), row as int).len(),
        b0.text().len() <= usize::MAX,
    ensures
        b1 == b0,
        p1.new_cursor_pos matches Some(p) && {
            &&& 0 <= p < b0.text().len()
            &&& rope::line_of(b0.text(), p) == row
            &&& p == rope::line_start(b0.text(), row as int) + col
        },
{
    let t = b0.text();
    let line = rope::line_text(t, row as int);
    rope::line_start_facts(t, row as int);
    rope::line_start_facts(t, row + 1);
    rope::line_starts_increase(t, row as int);
    each_takes_a_byte(line);
    let start = rope::line_start(t, row as int);
    let p = start + col;
    rope::line_of_monotonic(t, start, p);
    assert(rope::line_of(t, p) < row + 1);
    assert(buffer_host::clicked(t, row, col) == p);
}

proof fn each_takes_a_byte(s: Seq<char>)
    ensures
        text::utf8_len(s) >= s.len(),
    decreases s.len(),
{
    if s.len() > 0 {
        each_takes_a_byte(s.drop_last());
    }
}

/// An evaluation is answered with what it came to, or with why it failed, and
/// always with a new prompt behind it.
pub proof fn evaluation_is_answered_with_a_prompt(outcome: Option<Result<String, String>>)
    ensures
        "\njulia> "@.is_suffix_of(BufferHost::answer(outcome)),
        outcome matches Some(Ok(s)) ==> s@.is_prefix_of(BufferHost::answer(outcome)),
        outcome matches Some(Err(e)) ==> text::found_at(BufferHost::answer(outcome), e@, 7),
{
    reveal_strlit("\njulia> ");
    reveal_strlit("Error: ");
    reveal_strlit("Error: Julia runtime not available\njulia> ");
    let all = BufferHost::answer(outcome);
    let prompt = "\njulia> "@;
    assert(all.subrange(all.len() - prompt.len(), all.len() as int) =~= prompt);
    match outcome {
        Some(Ok(s)) => {
            assert(all.subrange(0, s@.len() as int) =~= s@);
        },
        Some(Err(e)) => {
            assert(all.subrange(7, 7 + e@.len() as int) =~= e@);
        },
        None => {},
    }
}

// --- What keys ask for ---

/// What comes of one action of a mode, if a mode asks for just one.
pub open spec fn only_action(r: ModeResultView) -> Option<ModeActionView> {
    match r {
        ModeResultView::Consumed(actions) if actions.len() == 1 => Some(actions[0]),
        ModeResultView::Annotated(actions) if actions.len() == 1 => Some(actions[0]),
        _ => None,
    }
}

/// A mode edits as the editor itself does: a typed character, backspace and
/// delete lead to the same text and the same cursor, whichever of the two does
/// it.
pub proof fn modes_edit_as_the_editor_does(
    e: Editor,
    f: Editor,
    key: KeyAction,
    r: Seq<ChromeView>,
    saves: bool,
    b1: BufferInner,
    p0: ProgressView,
    p1: ProgressView,
    id: BufferId,
)
    requires
        key is AlphaNumeric || key is Backspace || key is Delete,
        e.ready(),
        e.here().cursor <= e.current().text().len(),
        e.current().text().len() < usize::MAX,
        e.performed(&f, key, r),
        p0.cursor == e.here().cursor,
        only_action(mode::editing_result(key, saves)) is Some,
        buffer_host::one_acted(
            e.current(),
            b1,
            p0,
            p1,
            only_action(mode::editing_result(key, saves))->0,
            id,
        ),
    ensures
        b1.text() == f.current().text(),
        p1.cursor == f.here().cursor,
{
}

/// A key that edits asks for the edit that it is called, and no other key does:
/// the region is killed or only copied, as the key says, and a save is asked for
/// only where there is a file.
pub proof fn keys_ask_for_what_they_are_called(key: KeyAction, saves: bool)
    ensures
        ({
            let asked = only_action(mode::editing_result(key, saves));
            &&& asked == Some(ModeActionView::KillRegion) <==> key == KeyAction::KillRegion(true)
            &&& asked == Some(ModeActionView::CopyRegion) <==> key == KeyAction::KillRegion(false)
            &&& asked == Some(ModeActionView::KillLine) <==> key is KillLine
            &&& asked == Some(ModeActionView::SetMark) <==> key is MarkStart
            &&& asked == Some(ModeActionView::ClearMark) <==> key is Cancel
            &&& asked == Some(ModeActionView::ForwardKillWord) <==> key is DeleteWord
            &&& asked == Some(ModeActionView::BackwardKillWord) <==> key is BackspaceWord
            &&& asked == Some(ModeActionView::Save) <==> key is Save && saves
            &&& asked == Some(ModeActionView::Yank(ActionPosition::Cursor)) <==> key
                == KeyAction::Yank(None)
            &&& key matches KeyAction::Yank(Some(n)) ==> asked == Some(
                ModeActionView::YankIndex(ActionPosition::Cursor, n),
            )
        }),
{
}

/// Nothing that a key asks for in the messages buffer types, deletes or kills.
pub proof fn messages_are_not_edited(key: KeyAction, a: ModeActionView)
    requires
        only_action(mode::messages_result(key)) == Some(a),
    ensures
        !(a is InsertText) && !(a is DeleteText) && !(a is KillText) && !(a is KillLine),
        !(a is KillRegion) && !(a is ClearText) && !(a is ForwardKillWord),
        !(a is BackwardKillWord) && !(a is Save),
        a is CopyRegion ==> key == KeyAction::KillRegion(false),
{
}

/// A left click is one on the row and in the column where it was made, and other
/// events of the mouse are none.
pub proof fn clicks_name_row_and_column(event: MouseEvent, column: u16, row: u16)
    requires
        event.position == (column, row),
    ensures
        event.event_type == MouseEventType::LeftClick <==> mode::click_result(event)
            == ModeResultView::Consumed(seq![ModeActionView::MoveCursor(row, column)]),
        event.event_type != MouseEventType::LeftClick ==> mode::click_result(event)
            == ModeResultView::Ignored,
{
}

/// What is typed into the prompt of the interpreter is what is evaluated: each
/// character is shown and noted, backspace takes the last one back, and enter
/// hands over all of it and starts anew. Blank input is not evaluated.
pub proof fn typed_input_is_evaluated(m: JuliaReplMode, c: char)
    ensures
        m.input_after(KeyAction::AlphaNumeric(c)).len() == m.current_input@.len() + 1,
        m.input_after(KeyAction::AlphaNumeric(c)).last() == c,
        m.current_input@.is_prefix_of(m.input_after(KeyAction::AlphaNumeric(c))),
        only_action(m.result(KeyAction::AlphaNumeric(c))) == Some(
            ModeActionView::InsertText(ActionPosition::Cursor, seq![c]),
        ),
        m.current_input@.len() > 0 ==> only_action(m.result(KeyAction::Backspace)) == Some(
            ModeActionView::DeleteText(ActionPosition::Cursor, -1),
        ) && m.input_after(KeyAction::Backspace).push(m.current_input@.last())
            == m.current_input@,
        m.current_input@.len() == 0 ==> m.result(KeyAction::Backspace) is Ignored,
        (exists|i: int|
            0 <= i < m.current_input@.len() && !text::is_space(#[trigger] m.current_input@[i]))
            ==> m.input_after(KeyAction::Enter).len() == 0 && (m.result(KeyAction::Enter)
            matches ModeResultView::Consumed(actions) && actions.last()
            == ModeActionView::EvalJulia(m.current_input@)),
        (forall|i: int|
            0 <= i < m.current_input@.len() ==> text::is_space(#[trigger] m.current_input@[i]))
            ==> only_action(m.result(KeyAction::Enter)) is Some && !(only_action(
            m.result(KeyAction::Enter),
        )->0 is EvalJulia),
{
    if m.current_input@.len() > 0 {
        assert(m.current_input@.drop_last().push(m.current_input@.last()) =~= m.current_input@);
    }
}

} // verus!
