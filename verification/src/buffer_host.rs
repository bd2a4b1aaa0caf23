//! What a buffer does with the actions of its modes.

use vstd::prelude::*;
use vstd::string::*;

use crate::buffer;
use crate::buffer::{Buffer, BufferInner};
use crate::editing;
use crate::editor::OpenType;
use crate::ids::{BufferId, WindowId};
use crate::keys::KeyAction;
use crate::mode;
use crate::mode::{ActionPosition, ModeAction, ModeActionView, ModeResult, ModeResultView, MouseEvent};
use crate::renderer::DirtyRegion;
use crate::text::{byte_len, char_count, concat2, str_chars, str_contains_char};
use crate::{rope, syntax, text, undo};

verus! {

/// What a buffer is asked for.
#[derive(Debug)]
pub enum BufferRequest {
    HandleKey { action: KeyAction, cursor_pos: usize },
    HandleMouse { event: MouseEvent, cursor_pos: usize },
    GetState,
    Save,
    Load(String),
}

/// What is left for the editor to do.
#[derive(Debug, Clone)]
pub enum EditorAction {
    ExecuteCommand(String),
    SwitchToBuffer(BufferId),
    KillBuffer(BufferId),
    OpenFile { path: String, open_type: OpenType },
    KillLine,
    KillRegion,
    CopyRegion,
    Yank { position: ActionPosition },
    YankIndex { position: ActionPosition, index: usize },
    UpdateIsearch {
        target_buffer_id: BufferId,
        target_window_id: WindowId,
        matches: Vec<(usize, usize)>,
        current_match: Option<usize>,
    },
    AcceptIsearch { target_buffer_id: BufferId, search_term: String },
    CancelIsearch {
        target_buffer_id: BufferId,
        target_window_id: WindowId,
        original_cursor: usize,
    },
}

impl View for EditorAction {
    type V = ModeActionView;

    open spec fn view(&self) -> ModeActionView {
        match self {
            EditorAction::ExecuteCommand(s) => ModeActionView::ExecuteCommand(s@),
            EditorAction::SwitchToBuffer(b) => ModeActionView::SwitchToBuffer(*b),
            EditorAction::KillBuffer(b) => ModeActionView::KillBuffer(*b),
            EditorAction::OpenFile { path, open_type } => ModeActionView::OpenFile {
                path: path@,
                open_type: *open_type,
            },
            EditorAction::KillLine => ModeActionView::KillLine,
            EditorAction::KillRegion => ModeActionView::KillRegion,
            EditorAction::CopyRegion => ModeActionView::CopyRegion,
            EditorAction::Yank { position } => ModeActionView::Yank(*position),
            EditorAction::YankIndex { position, index } => ModeActionView::YankIndex(
                *position,
                *index,
            ),
            EditorAction::UpdateIsearch {
                target_buffer_id,
                target_window_id,
                matches,
                current_match,
            } => ModeActionView::UpdateIsearch {
                target_buffer_id: *target_buffer_id,
                target_window_id: *target_window_id,
                matches: matches@,
                current_match: *current_match,
            },
            EditorAction::AcceptIsearch { target_buffer_id, search_term } =>
                ModeActionView::AcceptIsearch {
                target_buffer_id: *target_buffer_id,
                search_term: search_term@,
            },
            EditorAction::CancelIsearch { target_buffer_id, target_window_id, original_cursor } =>
                ModeActionView::CancelIsearch {
                target_buffer_id: *target_buffer_id,
                target_window_id: *target_window_id,
                original_cursor: *original_cursor,
            },
        }
    }
}

/// A change of the text: characters from `start` up to `old_end` became those
/// up to `new_end`.
#[derive(Debug, Clone, Copy, PartialEq, Eq, Structural)]
pub struct BufferChange {
    pub start: usize,
    pub old_end: usize,
    pub new_end: usize,
}

/// What a buffer answers.
#[derive(Debug, Clone)]
pub enum BufferResponse {
    ActionsCompleted {
        dirty_regions: Vec<DirtyRegion>,
        /// Where the cursor went, if it moved.
        new_cursor_pos: Option<usize>,
        editor_action: Option<EditorAction>,
        buffer_change: Option<BufferChange>,
    },
    Saved(String),
    Loaded(String),
    Error(String),
    NoChange,
}

// --- The chain of modes ---

/// The actions that the modes of a buffer want to be done about an event.
#[derive(Debug)]
pub struct ModeChain {
    pub actions: Vec<ModeAction>,
}

/// What the modes asked so far want to be done, in order: those that failed or
/// ignored the event want nothing, and none is asked behind one that consumed
/// it.
pub open spec fn collected(replies: Seq<Option<ModeResultView>>) -> Seq<ModeActionView>
    decreases replies.len(),
{
    if replies.len() == 0 {
        seq![]
    } else {
        let before = collected(replies.drop_last());
        match replies.last() {
            Some(ModeResultView::Consumed(actions)) => before + actions,
            Some(ModeResultView::Annotated(actions)) => before + actions,
            _ => before,
        }
    }
}

/// A reply as a mathematical value; nothing where a mode failed.
pub open spec fn reply_view(reply: Result<ModeResult, String>) -> Option<ModeResultView> {
    match reply {
        Ok(r) => Some(r@),
        Err(_) => None,
    }
}

impl ModeChain {
    pub fn new() -> (r: Self)
        ensures
            mode::action_views(r.actions@) == collected(Seq::empty()),
    {
        let r = ModeChain { actions: Vec::new() };
        assert(mode::action_views(r.actions@) =~= Seq::<ModeActionView>::empty());
        r
    }

    /// Takes the reply of the next mode. Says whether the mode behind it is to
    /// be asked.
    pub fn take(&mut self, reply: Result<ModeResult, String>) -> (go_on: bool)
        ensures
            go_on == !(reply_view(reply) matches Some(ModeResultView::Consumed(_))),
            forall|before: Seq<Option<ModeResultView>>|
                mode::action_views(old(self).actions@) == #[trigger] collected(before)
                    ==> mode::action_views(final(self).actions@) == collected(
                    before.push(reply_view(reply)),
                ),
    {
        let ghost had = self.actions@;
        let ghost reply_seen = reply_view(reply);
        let mut go_on = true;
        match reply {
            Ok(result) => match result {
                ModeResult::Consumed(actions) => {
                    let mut actions = actions;
                    let ghost more = actions@;
                    self.actions.append(&mut actions);
                    go_on = false;
                    assert(mode::action_views(self.actions@) =~= mode::action_views(had)
                        + mode::action_views(more));
                },
                ModeResult::Annotated(actions) => {
                    let mut actions = actions;
                    let ghost more = actions@;
                    self.actions.append(&mut actions);
                    assert(mode::action_views(self.actions@) =~= mode::action_views(had)
                        + mode::action_views(more));
                },
                ModeResult::Ignored => (),
            },
            Err(_) => (),
        }
        assert forall|before: Seq<Option<ModeResultView>>|
            mode::action_views(had) == #[trigger] collected(before) implies mode::action_views(
            self.actions@,
        ) == collected(before.push(reply_seen)) by {
            assert(before.push(reply_seen).drop_last() =~= before);
        }
        go_on
    }
}

// --- Actions ---

/// What has come of the actions so far.
#[derive(Debug)]
pub struct Progress {
    /// Where the actions take place.
    pub cursor: usize,
    pub dirty_regions: Vec<DirtyRegion>,
    pub new_cursor_pos: Option<usize>,
    pub editor_action: Option<EditorAction>,
    pub buffer_changed: bool,
}

/// What has come of the actions so far, as a mathematical value.
pub struct ProgressView {
    pub cursor: int,
    pub dirty_regions: Seq<DirtyRegion>,
    pub new_cursor_pos: Option<int>,
    pub editor_action: Option<ModeActionView>,
    pub buffer_changed: bool,
}

impl View for Progress {
    type V = ProgressView;

    open spec fn view(&self) -> ProgressView {
        ProgressView {
            cursor: self.cursor as int,
            dirty_regions: self.dirty_regions@,
            new_cursor_pos: match self.new_cursor_pos {
                Some(p) => Some(p as int),
                None => None,
            },
            editor_action: match self.editor_action {
                Some(a) => Some(a@),
                None => None,
            },
            buffer_changed: self.buffer_changed,
        }
    }
}

/// Whether an action is done by the buffer at once: neither a save nor an
/// evaluation.
pub open spec fn is_plain(action: ModeActionView) -> bool {
    !(action is Save) && !(action is EvalJulia)
}

/// What is to be drawn anew after a change of `changed`.
pub open spec fn region_of(id: BufferId, changed: Seq<char>, line: usize) -> DirtyRegion {
    if changed.contains('\n') {
        DirtyRegion::Buffer { buffer_id: id }
    } else {
        DirtyRegion::Line { buffer_id: id, line }
    }
}

fn dirty_region(id: BufferId, changed: &str, line: usize) -> (r: DirtyRegion)
    ensures
        r == region_of(id, changed@, line),
{
    if str_contains_char(changed, '\n') {
        DirtyRegion::Buffer { buffer_id: id }
    } else {
        DirtyRegion::Line { buffer_id: id, line }
    }
}

/// How long the first line of a text is.
pub open spec fn first_line_len(s: Seq<char>) -> int
    decreases s.len(),
{
    if s.len() == 0 || s[0] == '\n' {
        0
    } else {
        1 + first_line_len(s.drop_first())
    }
}

fn first_line_length(s: &str) -> (n: usize)
    ensures
        n == first_line_len(s@),
{
    let chars = str_chars(s);
    let mut n: usize = 0;
    assert(s@.skip(0) =~= s@);
    while n < chars.len() && chars[n] != '\n'
        invariant
            n <= chars@.len(),
            chars@ == s@,
            first_line_len(s@) == n + first_line_len(s@.skip(n as int)),
        decreases chars.len() - n,
    {
        assert(s@.skip(n as int)[0] == s@[n as int]);
        assert(s@.skip(n as int).drop_first() =~= s@.skip(n + 1));
        n = n + 1;
    }
    proof {
        if n < chars@.len() {
            assert(s@.skip(n as int)[0] == s@[n as int]);
        }
    }
    n
}

/// Where in a text an insertion takes place.
pub open spec fn insert_place(t: Seq<char>, cursor: int, position: ActionPosition) -> int {
    match position {
        ActionPosition::Cursor => cursor,
        ActionPosition::Absolute(row, col) => rope::line_start(t, row as int) + col,
        ActionPosition::End => t.len() as int,
    }
}

/// Where in a text a deletion takes place.
pub open spec fn delete_place(t: Seq<char>, cursor: int, position: ActionPosition) -> int {
    match position {
        ActionPosition::Cursor => cursor,
        ActionPosition::Absolute(row, col) => syntax::capped_sum(
            rope::line_start(t, row as int) as usize,
            col as usize,
        ) as int,
        ActionPosition::End => t.len() as int,
    }
}

/// Whether an action fits a text and a cursor.
pub open spec fn can_act(t: Seq<char>, cursor: int, action: ModeActionView) -> bool {
    match action {
        ModeActionView::InsertText(position, _) => match position {
            ActionPosition::Cursor => 0 <= cursor <= t.len(),
            ActionPosition::Absolute(row, col) => {
                &&& row <= rope::line_count(t)
                &&& rope::line_start(t, row as int) + col <= t.len()
            },
            ActionPosition::End => true,
        },
        ModeActionView::DeleteText(ActionPosition::Absolute(row, _), _) => row
            <= rope::line_count(t),
        _ => true,
    }
}

/// What an action does to a buffer.
pub open spec fn buffer_acted(
    b0: BufferInner,
    b1: BufferInner,
    cursor: int,
    action: ModeActionView,
) -> bool {
    let t = b0.text();
    match action {
        ModeActionView::InsertText(position, s) => {
            &&& b0.inserted(&b1, insert_place(t, cursor, position), s)
            &&& b0.same_mark(&b1)
        },
        ModeActionView::DeleteText(position, n) => match editing::doomed(
            t,
            delete_place(t, cursor, position),
            n,
        ) {
            None => b1 == b0,
            Some((x, y)) => b0.deleted(&b1, x, y) && b0.same_mark(&b1),
        },
        ModeActionView::ClearText => if t.len() > 0 {
            b0.deleted(&b1, 0, t.len() as int) && b0.same_mark(&b1)
        } else {
            b1 == b0
        },
        ModeActionView::SetMark => b1 == (BufferInner {
            mark: Some(buffer::lesser(cursor, t.len() as int) as usize),
            transient_mark: false,
            ..b0
        }),
        ModeActionView::ClearMark => b1 == (BufferInner {
            mark: None,
            transient_mark: false,
            ..b0
        }),
        _ => b1 == b0,
    }
}

/// `a - n`, and 0 where that is less.
pub open spec fn less_by(a: int, n: int) -> int {
    if n <= a {
        a - n
    } else {
        0
    }
}

/// Where a click on a row and column puts the cursor: no further than the last
/// line, and no further on it than one byte less than it has.
pub open spec fn clicked(t: Seq<char>, row: u16, col: u16) -> int {
    let line = buffer::lesser(row as int, rope::line_count(t) - 1);
    let width = less_by(text::utf8_len(rope::line_text(t, line)) as int, 1);
    syntax::capped_sum(
        rope::line_start(t, line) as usize,
        buffer::lesser(col as int, width) as usize,
    ) as int
}

/// What comes of an action, where `t0` and `t1` are the text before and after
/// it.
pub open spec fn progress_after(
    p: ProgressView,
    t0: Seq<char>,
    t1: Seq<char>,
    id: BufferId,
    action: ModeActionView,
) -> ProgressView {
    let whole = DirtyRegion::Buffer { buffer_id: id };
    match action {
        ModeActionView::InsertText(position, s) => match position {
            ActionPosition::Cursor => {
                let end = p.cursor + s.len();
                ProgressView {
                    cursor: end,
                    new_cursor_pos: Some(end),
                    dirty_regions: p.dirty_regions.push(
                        region_of(id, s, editing::reported_line(t1, end)),
                    ),
                    buffer_changed: true,
                    ..p
                }
            },
            ActionPosition::Absolute(row, _) => ProgressView {
                new_cursor_pos: Some(first_line_len(s)),
                dirty_regions: p.dirty_regions.push(region_of(id, s, row as usize)),
                buffer_changed: true,
                ..p
            },
            ActionPosition::End => ProgressView {
                dirty_regions: p.dirty_regions.push(
                    region_of(id, s, editing::reported_line(t1, t0.len() as int)),
                ),
                buffer_changed: true,
                ..p
            },
        },
        ModeActionView::DeleteText(position, n) => match editing::doomed(
            t0,
            delete_place(t0, p.cursor, position),
            n,
        ) {
            None => p,
            Some((x, y)) => {
                let gone = t0.subrange(x, y);
                match position {
                    ActionPosition::Cursor => {
                        let seen_from = if n < 0 {
                            less_by(p.cursor, 1)
                        } else {
                            p.cursor
                        };
                        ProgressView {
                            dirty_regions: p.dirty_regions.push(
                                region_of(id, gone, editing::reported_line(t1, seen_from)),
                            ),
                            buffer_changed: true,
                            cursor: if n < 0 {
                                less_by(p.cursor, -n)
                            } else {
                                p.cursor
                            },
                            new_cursor_pos: if n < 0 {
                                Some(less_by(p.cursor, -n))
                            } else {
                                p.new_cursor_pos
                            },
                            ..p
                        }
                    },
                    ActionPosition::Absolute(row, _) => ProgressView {
                        dirty_regions: p.dirty_regions.push(region_of(id, gone, row as usize)),
                        buffer_changed: true,
                        ..p
                    },
                    ActionPosition::End => ProgressView {
                        dirty_regions: p.dirty_regions.push(
                            region_of(id, gone, editing::reported_line(t1, t0.len() as int)),
                        ),
                        buffer_changed: true,
                        ..p
                    },
                }
            },
        },
        ModeActionView::ClearText => if t0.len() > 0 {
            ProgressView {
                dirty_regions: p.dirty_regions.push(whole),
                buffer_changed: true,
                cursor: 0,
                new_cursor_pos: Some(0),
                ..p
            }
        } else {
            p
        },
        ModeActionView::SetMark => ProgressView {
            dirty_regions: p.dirty_regions.push(whole),
            ..p
        },
        ModeActionView::ClearMark => ProgressView {
            dirty_regions: p.dirty_regions.push(whole),
            ..p
        },
        ModeActionView::CopyRegion => ProgressView {
            editor_action: Some(action),
            dirty_regions: p.dirty_regions.push(whole),
            ..p
        },
        ModeActionView::MoveCursor(row, col) => ProgressView {
            new_cursor_pos: Some(clicked(t0, row, col)),
            dirty_regions: p.dirty_regions.push(whole),
            ..p
        },
        ModeActionView::ExecuteCommand(_)
        | ModeActionView::SwitchToBuffer(_)
        | ModeActionView::KillBuffer(_)
        | ModeActionView::OpenFile { .. }
        | ModeActionView::KillLine
        | ModeActionView::KillRegion
        | ModeActionView::Yank(_)
        | ModeActionView::YankIndex(_, _)
        | ModeActionView::UpdateIsearch { .. }
        | ModeActionView::AcceptIsearch { .. }
        | ModeActionView::CancelIsearch { .. } => ProgressView {
            editor_action: Some(action),
            ..p
        },
        _ => p,
    }
}

/// A buffer and its handle.
pub struct BufferHost {
    pub buffer: Buffer,
    pub buffer_id: BufferId,
}

impl BufferHost {
    pub fn new(buffer: Buffer, buffer_id: BufferId) -> (r: Self)
        ensures
            r == (BufferHost { buffer, buffer_id }),
    {
        BufferHost { buffer, buffer_id }
    }

    fn insert(&mut self, p: &mut Progress, position: ActionPosition, s: String)
        requires
            can_act(
                old(self).buffer.text(),
                old(p).cursor as int,
                ModeActionView::InsertText(position, s@),
            ),
        ensures
            final(self).buffer_id == old(self).buffer_id,
            buffer_acted(
                old(self).buffer.inner,
                final(self).buffer.inner,
                old(p).cursor as int,
                ModeActionView::InsertText(position, s@),
            ),
            final(p)@ == progress_after(
                old(p)@,
                old(self).buffer.text(),
                final(self).buffer.text(),
                old(self).buffer_id,
                ModeActionView::InsertText(position, s@),
            ),
    {
        let length = char_count(s.as_str());
        let before = self.buffer.buffer_len_chars();
        p.buffer_changed = true;
        match position {
            ActionPosition::Cursor => {
                self.buffer.insert_pos(s.clone(), p.cursor);
                let total = self.buffer.buffer_len_chars();
                assert(total == before + length);
                p.cursor = p.cursor + length;
                p.new_cursor_pos = Some(p.cursor);
                let line = self.buffer.to_column_line(p.cursor).1 as usize;
                p.dirty_regions.push(dirty_region(self.buffer_id, s.as_str(), line));
            },
            ActionPosition::Absolute(row, col) => {
                self.buffer.insert_col_line(s.clone(), (col, row));
                p.new_cursor_pos = Some(first_line_length(s.as_str()));
                p.dirty_regions.push(dirty_region(self.buffer_id, s.as_str(), row as usize));
            },
            ActionPosition::End => {
                self.buffer.insert_pos(s.clone(), before);
                let line = self.buffer.to_column_line(before).1 as usize;
                p.dirty_regions.push(dirty_region(self.buffer_id, s.as_str(), line));
            },
        }
    }

    fn delete(&mut self, p: &mut Progress, position: ActionPosition, count: isize)
        requires
            can_act(
                old(self).buffer.text(),
                old(p).cursor as int,
                ModeActionView::DeleteText(position, count as int),
            ),
        ensures
            final(self).buffer_id == old(self).buffer_id,
            buffer_acted(
                old(self).buffer.inner,
                final(self).buffer.inner,
                old(p).cursor as int,
                ModeActionView::DeleteText(position, count as int),
            ),
            final(p)@ == progress_after(
                old(p)@,
                old(self).buffer.text(),
                final(self).buffer.text(),
                old(self).buffer_id,
                ModeActionView::DeleteText(position, count as int),
            ),
    {
        let before = self.buffer.buffer_len_chars();
        match position {
            ActionPosition::Cursor => match self.buffer.delete_pos(p.cursor, count) {
                Some(gone) => {
                    p.buffer_changed = true;
                    let seen_from = if count < 0 {
                        p.cursor.saturating_sub(1)
                    } else {
                        p.cursor
                    };
                    let line = self.buffer.to_column_line(seen_from).1 as usize;
                    p.dirty_regions.push(dirty_region(self.buffer_id, gone.as_str(), line));
                    if count < 0 {
                        let length = char_count(gone.as_str());
                        p.cursor = p.cursor - length;
                        p.new_cursor_pos = Some(p.cursor);
                    }
                },
                None => (),
            },
            ActionPosition::Absolute(row, col) => match self.buffer.delete_col_line(
                (col, row),
                count,
            ) {
                Some(gone) => {
                    p.buffer_changed = true;
                    p.dirty_regions.push(
                        dirty_region(self.buffer_id, gone.as_str(), row as usize),
                    );
                },
                None => (),
            },
            ActionPosition::End => match self.buffer.delete_pos(before, count) {
                Some(gone) => {
                    p.buffer_changed = true;
                    let line = self.buffer.to_column_line(before).1 as usize;
                    p.dirty_regions.push(dirty_region(self.buffer_id, gone.as_str(), line));
                },
                None => (),
            },
        }
    }

    /// Where a click puts the cursor.
    fn click(&self, row: u16, col: u16) -> (r: usize)
        ensures
            r == clicked(self.buffer.text(), row, col),
    {
        let lines = self.buffer.buffer_len_lines();
        let line: usize = if (row as usize) < lines {
            row as usize
        } else {
            lines - 1
        };
        let start = self.buffer.buffer_line_to_char(line);
        let content = self.buffer.buffer_line(line);
        let width = byte_len(content.as_str()).saturating_sub(1);
        let column: usize = if col as usize <= width {
            col as usize
        } else {
            width
        };
        start.saturating_add(column)
    }

    /// Whether an action fits the text and the cursor.
    pub fn admits(&self, p: &Progress, action: &ModeAction) -> (r: bool)
        ensures
            r == can_act(self.buffer.text(), p.cursor as int, action@),
    {
        let length = self.buffer.buffer_len_chars();
        let lines = self.buffer.buffer_len_lines();
        match action {
            ModeAction::InsertText(ActionPosition::Cursor, _) => p.cursor <= length,
            ModeAction::InsertText(ActionPosition::Absolute(row, col), _) => {
                if *row as usize > lines {
                    return false;
                }
                let start = self.buffer.buffer_line_to_char(*row as usize);
                proof {
                    rope::line_start_facts(self.buffer.text(), *row as int);
                }
                *col as usize <= length - start
            },
            ModeAction::DeleteText(ActionPosition::Absolute(row, _), _) => *row as usize <= lines,
            _ => true,
        }
    }

    /// Does an action that is done at once.
    pub fn act(&mut self, p: &mut Progress, action: ModeAction)
        requires
            is_plain(action@),
            can_act(old(self).buffer.text(), old(p).cursor as int, action@),
        ensures
            final(self).buffer_id == old(self).buffer_id,
            buffer_acted(
                old(self).buffer.inner,
                final(self).buffer.inner,
                old(p).cursor as int,
                action@,
            ),
            final(p)@ == progress_after(
                old(p)@,
                old(self).buffer.text(),
                final(self).buffer.text(),
                old(self).buffer_id,
                action@,
            ),
    {
        let whole = DirtyRegion::Buffer { buffer_id: self.buffer_id };
        match action {
            ModeAction::InsertText(position, s) => self.insert(p, position, s),
            ModeAction::DeleteText(position, count) => self.delete(p, position, count),
            ModeAction::ClearText => {
                let length = self.buffer.buffer_len_chars();
                if length > 0 {
                    self.buffer.delete_region_range(0, length);
                    p.buffer_changed = true;
                    p.dirty_regions.push(whole);
                    p.cursor = 0;
                    p.new_cursor_pos = Some(0);
                }
            },
            ModeAction::SetMark => {
                self.buffer.set_mark(p.cursor);
                p.dirty_regions.push(whole);
            },
            ModeAction::ClearMark => {
                self.buffer.clear_mark();
                p.dirty_regions.push(whole);
            },
            ModeAction::MoveCursor(row, col) => {
                p.new_cursor_pos = Some(self.click(row, col));
                p.dirty_regions.push(whole);
            },
            ModeAction::CopyRegion => {
                p.editor_action = Some(EditorAction::CopyRegion);
                p.dirty_regions.push(whole);
            },
            ModeAction::ExecuteCommand(name) => {
                p.editor_action = Some(EditorAction::ExecuteCommand(name));
            },
            ModeAction::SwitchToBuffer(id) => {
                p.editor_action = Some(EditorAction::SwitchToBuffer(id));
            },
            ModeAction::KillBuffer(id) => {
                p.editor_action = Some(EditorAction::KillBuffer(id));
            },
            ModeAction::OpenFile { path, open_type } => {
                p.editor_action = Some(EditorAction::OpenFile { path, open_type });
            },
            ModeAction::KillLine => {
                p.editor_action = Some(EditorAction::KillLine);
            },
            ModeAction::KillRegion => {
                p.editor_action = Some(EditorAction::KillRegion);
            },
            ModeAction::Yank(position) => {
                p.editor_action = Some(EditorAction::Yank { position });
            },
            ModeAction::YankIndex(position, index) => {
                p.editor_action = Some(EditorAction::YankIndex { position, index });
            },
            ModeAction::UpdateIsearch {
                target_buffer_id,
                target_window_id,
                matches,
                current_match,
            } => {
                p.editor_action = Some(
                    EditorAction::UpdateIsearch {
                        target_buffer_id,
                        target_window_id,
                        matches,
                        current_match,
                    },
                );
            },
            ModeAction::AcceptIsearch { target_buffer_id, search_term } => {
                p.editor_action = Some(
                    EditorAction::AcceptIsearch { target_buffer_id, search_term },
                );
            },
            ModeAction::CancelIsearch { target_buffer_id, target_window_id, original_cursor } => {
                p.editor_action = Some(
                    EditorAction::CancelIsearch {
                        target_buffer_id,
                        target_window_id,
                        original_cursor,
                    },
                );
            },
            _ => (),
        }
    }

    // --- Runs of actions ---

    /// Whether `after` is this buffer, and `p1` what has come of it, after plain
    /// actions were done in order.
    pub open spec fn ran(
        &self,
        after: &Self,
        p0: ProgressView,
        p1: ProgressView,
        actions: Seq<ModeActionView>,
    ) -> bool {
        &&& after.buffer_id == self.buffer_id
        &&& exists|states: Seq<BufferInner>, steps: Seq<ProgressView>| #[trigger]
            acted_through(states, steps, actions, self.buffer_id) && states[0] == self.buffer.inner
                && steps[0] == p0 && states.last() == after.buffer.inner && steps.last() == p1
    }

    /// Does actions in order up to a save or an evaluation, or to the end.
    pub fn execute_actions(&mut self, run: &mut ActionRun) -> (r: NextStep)
        requires
            old(run).fits(old(self).buffer.text()),
        ensures
            final(self).buffer_id == old(self).buffer_id,
            ({
                let all = old(run).todo();
                let k = plain_prefix(all);
                &&& old(self).ran(final(self), old(run).progress@, final(run).progress@, all.take(k))
                &&& final(run).todo() == if k < all.len() {
                    all.skip(k + 1)
                } else {
                    Seq::<ModeActionView>::empty()
                }
                &&& match r {
                    NextStep::Save => k < all.len() && all[k] is Save,
                    NextStep::Evaluate(s) => k < all.len() && all[k]
                        == ModeActionView::EvalJulia(s@),
                    NextStep::Finished => k == all.len(),
                }
            }),
    {
        let ghost before = *self;
        let ghost all = run.todo();
        let ghost p0 = run.progress@;
        let ghost mut states = seq![self.buffer.inner];
        let ghost mut steps = seq![run.progress@];
        let ghost mut done: int = 0;
        proof {
            assert(all.skip(0) =~= all);
        }
        loop
            invariant
                before == *old(self),
                all == old(run).todo(),
                p0 == old(run).progress@,
                0 <= done <= all.len(),
                run.todo() == all.skip(done),
                self.buffer_id == before.buffer_id,
                acted_through(states, steps, all.take(done), before.buffer_id),
                states[0] == before.buffer.inner,
                steps[0] == p0,
                states.last() == self.buffer.inner,
                steps.last() == run.progress@,
                run.fits(self.buffer.text()),
                plain_prefix(all) == done + plain_prefix(all.skip(done)),
            decreases all.len() - done,
        {
            let ghost waiting = run.waiting@;
            assert(run.todo().len() == waiting.len());
            match run.waiting.pop() {
                None => {
                    assert(all.skip(done).len() == 0);
                    assert(run.todo() =~= Seq::<ModeActionView>::empty());
                    assert(before.ran(self, p0, run.progress@, all.take(done)));
                    return NextStep::Finished;
                },
                Some(action) => {
                    proof {
                        assert(all.skip(done)[0] == action@);
                        assert(all.skip(done).drop_first() =~= all.skip(done + 1));
                        assert(run.todo() =~= all.skip(done + 1));
                        assert(all.skip(done)[0] == all[done]);
                    }
                    match action {
                        ModeAction::Save => {
                            assert(before.ran(self, p0, run.progress@, all.take(done)));
                            return NextStep::Save;
                        },
                        ModeAction::EvalJulia(s) => {
                            assert(before.ran(self, p0, run.progress@, all.take(done)));
                            return NextStep::Evaluate(s);
                        },
                        other => {
                            let ghost b = self.buffer.inner;
                            let ghost p = run.progress@;
                            let ghost rest = run.todo();
                            let ghost seen = other@;
                            proof {
                                assert(ActionRun::all_fit(
                                    b.text(),
                                    p.cursor,
                                    all.skip(done),
                                ));
                                assert(can_act(b.text(), p.cursor, seen));
                            }
                            self.act(&mut run.progress, other);
                            proof {
                                let states_before = states;
                                let steps_before = steps;
                                states = states.push(self.buffer.inner);
                                steps = steps.push(run.progress@);
                                assert forall|i: int| 0 <= i < done + 1 implies one_acted(
                                    #[trigger] states[i],
                                    states[i + 1],
                                    steps[i],
                                    steps[i + 1],
                                    all.take(done + 1)[i],
                                    before.buffer_id,
                                ) by {
                                    if i < done {
                                        assert(states[i] == states_before[i]);
                                        assert(states[i + 1] == states_before[i + 1]);
                                        assert(steps[i] == steps_before[i]);
                                        assert(steps[i + 1] == steps_before[i + 1]);
                                        assert(all.take(done)[i] == all.take(done + 1)[i]);
                                    }
                                }
                                text_follows(b, self.buffer.inner, p.cursor, seen);
                                cursor_follows(p, b.text(), self.buffer.inner.text(),
                                    before.buffer_id, seen);
                                done = done + 1;
                            }
                        },
                    }
                },
            }
        }
    }

    /// What an evaluation is answered with: what it came to, or why it failed,
    /// and a new prompt.
    pub open spec fn answer(outcome: Option<Result<String, String>>) -> Seq<char> {
        match outcome {
            None => "Error: Julia runtime not available\njulia> "@,
            Some(Ok(s)) => s@ + "\njulia> "@,
            Some(Err(e)) => "Error: "@ + e@ + "\njulia> "@,
        }
    }

    /// Appends what an evaluation came to. There is no outcome where nothing
    /// can evaluate.
    pub fn evaluated(&mut self, run: &mut ActionRun, outcome: Option<Result<String, String>>)
        ensures
            final(self).buffer_id == old(self).buffer_id,
            final(run).waiting == old(run).waiting,
            old(self).buffer.inner.inserted(
                &final(self).buffer.inner,
                old(self).buffer.text().len() as int,
                Self::answer(outcome),
            ),
            old(self).buffer.inner.same_mark(&final(self).buffer.inner),
            final(run).progress@ == (ProgressView {
                new_cursor_pos: Some(
                    syntax::capped_sum(
                        old(self).buffer.text().len() as usize,
                        text::utf8_len(Self::answer(outcome)) as usize,
                    ) as int,
                ),
                dirty_regions: old(run).progress@.dirty_regions.push(
                    DirtyRegion::Buffer { buffer_id: old(self).buffer_id },
                ),
                ..old(run).progress@
            }),
    {
        let answer = match &outcome {
            None => "Error: Julia runtime not available\njulia> ".to_owned(),
            Some(result) => match result {
                Ok(s) => concat2(s.as_str(), "\njulia> "),
                Err(e) => {
                    let mut m = concat2("Error: ", e.as_str());
                    m.append("\njulia> ");
                    m
                },
            },
        };
        assert(answer@ == Self::answer(outcome));
        let end = self.buffer.buffer_len_chars();
        let length = byte_len(answer.as_str());
        self.buffer.insert_pos(answer, end);
        run.progress.new_cursor_pos = Some(end.saturating_add(length));
        run.progress.dirty_regions.push(DirtyRegion::Buffer { buffer_id: self.buffer_id });
    }

    /// Whether anything has come of the actions.
    pub open spec fn any_effect(p: ProgressView) -> bool {
        ||| p.dirty_regions.len() > 0
        ||| p.new_cursor_pos is Some
        ||| p.editor_action is Some
        ||| p.buffer_changed
    }

    /// What is answered when the actions are done.
    pub fn finish(&self, run: ActionRun) -> (r: BufferResponse)
        ensures
            match r {
                BufferResponse::ActionsCompleted {
                    dirty_regions,
                    new_cursor_pos,
                    editor_action,
                    buffer_change,
                } => {
                    let length = self.buffer.text().len() as usize;
                    &&& Self::any_effect(run.progress@)
                    &&& dirty_regions == run.progress.dirty_regions
                    &&& new_cursor_pos == run.progress.new_cursor_pos
                    &&& editor_action == run.progress.editor_action
                    &&& buffer_change == if run.progress.buffer_changed {
                        Some(BufferChange { start: 0, old_end: length, new_end: length })
                    } else {
                        None
                    }
                },
                BufferResponse::NoChange => !Self::any_effect(run.progress@),
                _ => false,
            },
    {
        let p = run.progress;
        if p.dirty_regions.len() > 0 || p.new_cursor_pos.is_some() || p.editor_action.is_some()
            || p.buffer_changed {
            let buffer_change = if p.buffer_changed {
                let length = self.buffer.buffer_len_chars();
                Some(BufferChange { start: 0, old_end: length, new_end: length })
            } else {
                None
            };
            BufferResponse::ActionsCompleted {
                dirty_regions: p.dirty_regions,
                new_cursor_pos: p.new_cursor_pos,
                editor_action: p.editor_action,
                buffer_change,
            }
        } else {
            BufferResponse::NoChange
        }
    }

    /// What a question for the state is answered with.
    pub fn get_state(&self) -> (r: BufferResponse)
        ensures
            r is NoChange,
    {
        BufferResponse::NoChange
    }

    /// What is to be written where when the buffer is saved: the file and its
    /// content.
    pub fn save_request(&self) -> (r: (String, String))
        ensures
            r.0@ == self.buffer.inner.object@,
            r.1@ == self.buffer.text(),
    {
        (self.buffer.object(), self.buffer.content())
    }

    /// What is answered when a save came to an end.
    pub fn saved(&self, written: Result<(), String>) -> (r: BufferResponse)
        ensures
            match written {
                Ok(_) => r matches BufferResponse::Saved(path) && path@
                    == self.buffer.inner.object@,
                Err(e) => r matches BufferResponse::Error(m) && m@ == "Save failed: "@ + e@,
            },
    {
        match written {
            Ok(_) => BufferResponse::Saved(self.buffer.object()),
            Err(e) => BufferResponse::Error(concat2("Save failed: ", e.as_str())),
        }
    }

    /// Takes over what was read from a file. Gives the answer.
    pub fn loaded(&mut self, file_path: String, read: Result<String, String>) -> (r: BufferResponse)
        ensures
            final(self).buffer_id == old(self).buffer_id,
            match read {
                Ok(content) => {
                    &&& r matches BufferResponse::Loaded(path) && path@ == file_path@
                    &&& final(self).buffer.text() == content@
                    &&& final(self).buffer.inner.object@ == file_path@
                    &&& final(self).buffer.inner.modes@.len() == 0
                    &&& final(self).buffer.inner == (BufferInner {
                        object: final(self).buffer.inner.object,
                        modes: final(self).buffer.inner.modes,
                        buffer: final(self).buffer.inner.buffer,
                        mark: None,
                        ..old(self).buffer.inner
                    })
                },
                Err(e) => {
                    &&& r matches BufferResponse::Error(m) && m@ == "Load failed: "@ + e@
                    &&& *final(self) == *old(self)
                },
            },
    {
        match read {
            Ok(content) => {
                self.buffer.load_str(content.as_str());
                self.buffer.set_object(file_path.clone());
                self.buffer.inner.modes = Vec::new();
                self.buffer.inner.mark = None;
                BufferResponse::Loaded(file_path)
            },
            Err(e) => BufferResponse::Error(concat2("Load failed: ", e.as_str())),
        }
    }
}

/// What is to be done next.
#[derive(Debug)]
pub enum NextStep {
    /// The buffer is to be saved, and nothing else is done.
    Save,
    /// An expression is to be evaluated.
    Evaluate(String),
    Finished,
}

/// Actions that wait to be done, and what has come of those before them.
#[derive(Debug)]
pub struct ActionRun {
    /// The actions, the next one last.
    pub waiting: Vec<ModeAction>,
    pub progress: Progress,
}

/// How many actions there are in front of the first save or evaluation.
pub open spec fn plain_prefix(actions: Seq<ModeActionView>) -> int
    decreases actions.len(),
{
    if actions.len() == 0 || !is_plain(actions[0]) {
        0
    } else {
        1 + plain_prefix(actions.drop_first())
    }
}

/// The text after an action.
pub open spec fn text_after(t: Seq<char>, cursor: int, action: ModeActionView) -> Seq<char> {
    match action {
        ModeActionView::InsertText(position, s) => undo::spliced(
            t,
            insert_place(t, cursor, position),
            s,
        ),
        ModeActionView::DeleteText(position, n) => match editing::doomed(
            t,
            delete_place(t, cursor, position),
            n,
        ) {
            None => t,
            Some((x, y)) => undo::cut(t, x, y),
        },
        ModeActionView::ClearText => seq![],
        _ => t,
    }
}

/// The cursor after an action.
pub open spec fn cursor_after(t: Seq<char>, cursor: int, action: ModeActionView) -> int {
    match action {
        ModeActionView::InsertText(ActionPosition::Cursor, s) => cursor + s.len(),
        ModeActionView::DeleteText(ActionPosition::Cursor, n) => if n < 0 && editing::doomed(
            t,
            cursor,
            n,
        ) is Some {
            less_by(cursor, -n)
        } else {
            cursor
        },
        ModeActionView::ClearText => if t.len() > 0 {
            0
        } else {
            cursor
        },
        _ => cursor,
    }
}

/// Whether an action leads from one state of a buffer, and of what has come of
/// it, to the next.
pub open spec fn one_acted(
    b0: BufferInner,
    b1: BufferInner,
    p0: ProgressView,
    p1: ProgressView,
    action: ModeActionView,
    id: BufferId,
) -> bool {
    &&& buffer_acted(b0, b1, p0.cursor, action)
    &&& p1 == progress_after(p0, b0.text(), b1.text(), id, action)
}

/// Whether actions lead through these states of a buffer and of what has come
/// of them.
pub open spec fn acted_through(
    states: Seq<BufferInner>,
    steps: Seq<ProgressView>,
    actions: Seq<ModeActionView>,
    id: BufferId,
) -> bool {
    &&& states.len() == actions.len() + 1
    &&& steps.len() == actions.len() + 1
    &&& forall|i: int|
        0 <= i < actions.len() ==> one_acted(
            #[trigger] states[i],
            states[i + 1],
            steps[i],
            steps[i + 1],
            actions[i],
            id,
        )
}

proof fn text_follows(b0: BufferInner, b1: BufferInner, cursor: int, action: ModeActionView)
    requires
        buffer_acted(b0, b1, cursor, action),
    ensures
        b1.text() == text_after(b0.text(), cursor, action),
{
    let t = b0.text();
    if action is ClearText {
        if t.len() > 0 {
            assert(undo::cut(t, 0, t.len() as int) =~= Seq::<char>::empty());
        } else {
            assert(t =~= Seq::<char>::empty());
        }
    }
}

proof fn cursor_follows(
    p: ProgressView,
    t0: Seq<char>,
    t1: Seq<char>,
    id: BufferId,
    action: ModeActionView,
)
    ensures
        progress_after(p, t0, t1, id, action).cursor == cursor_after(t0, p.cursor, action),
{
}

impl ActionRun {
    /// Actions that wait, in order.
    pub open spec fn todo(&self) -> Seq<ModeActionView> {
        mode::action_views(self.waiting@).reverse()
    }

    /// Whether the plain actions in front fit the text and cursor that they are
    /// done to.
    pub open spec fn all_fit(t: Seq<char>, cursor: int, actions: Seq<ModeActionView>) -> bool
        decreases actions.len(),
    {
        actions.len() == 0 || !is_plain(actions[0]) || {
            &&& can_act(t, cursor, actions[0])
            &&& Self::all_fit(
                text_after(t, cursor, actions[0]),
                cursor_after(t, cursor, actions[0]),
                actions.drop_first(),
            )
        }
    }

    /// Whether the plain actions in front fit a text.
    pub open spec fn fits(&self, t: Seq<char>) -> bool {
        Self::all_fit(t, self.progress.cursor as int, self.todo())
    }

    /// Actions that are to be done with the cursor at a position.
    pub fn new(actions: Vec<ModeAction>, cursor_pos: usize) -> (r: Self)
        ensures
            r.todo() == mode::action_views(actions@),
            r.progress@ == (ProgressView {
                cursor: cursor_pos as int,
                dirty_regions: Seq::<DirtyRegion>::empty(),
                new_cursor_pos: None,
                editor_action: None,
                buffer_changed: false,
            }),
    {
        let mut actions = actions;
        let ghost all = actions@;
        let mut waiting: Vec<ModeAction> = Vec::new();
        loop
            invariant
                actions@.len() <= all.len(),
                actions@ == all.take(actions@.len() as int),
                waiting@ == all.skip(actions@.len() as int).reverse(),
            ensures
                actions@.len() == 0,
            decreases actions@.len(),
        {
            let ghost n = actions@.len();
            match actions.pop() {
                None => {
                    break;
                },
                Some(action) => {
                    waiting.push(action);
                    assert(waiting@ =~= all.skip(n - 1).reverse());
                },
            }
        }
        let r = ActionRun {
            waiting,
            progress: Progress {
                cursor: cursor_pos,
                dirty_regions: Vec::new(),
                new_cursor_pos: None,
                editor_action: None,
                buffer_changed: false,
            },
        };
        assert(r.todo() =~= mode::action_views(all));
        r
    }
}

} // verus!
