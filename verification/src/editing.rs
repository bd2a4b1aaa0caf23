//! What the editor does to the text of the active window.

use vstd::prelude::*;
use vstd::string::*;

use crate::buffer;
use crate::buffer::BufferInner;
use crate::editor;
use crate::editor::{ActionPosition, ChromeAction, ChromeView, Editor, Window};
use crate::ids::BufferId;
use crate::keys::{CursorDirection, KeyAction};
use crate::kill_ring::KillRing;
use crate::renderer::{DirtyRegion, ModelineComponent};
use crate::text::{char_count, char_string, concat2, decimal_string, escape_newlines, str_contains_char};
use crate::{rope, syntax, text, undo};

verus! {

/// The range that a deletion of `count` characters at `pos` takes out of a
/// text: those behind `pos`, or in front of it for a negative count. Nothing
/// where there are not as many.
pub open spec fn doomed(t: Seq<char>, pos: int, count: int) -> Option<(int, int)> {
    let start = if count < 0 {
        pos + count
    } else {
        pos
    };
    let end = if count < 0 {
        pos
    } else {
        pos + count
    };
    if 0 <= start && end <= t.len() {
        Some((start, end))
    } else {
        None
    }
}

/// What is to be drawn anew after an edit of `changed`: the buffer where lines
/// changed, else the line.
pub open spec fn dirty_after(id: BufferId, changed: Seq<char>, line: usize) -> ChromeView {
    if changed.contains('\n') {
        ChromeView::MarkDirty(DirtyRegion::Buffer { buffer_id: id })
    } else {
        ChromeView::MarkDirty(DirtyRegion::Line { buffer_id: id, line })
    }
}

fn dirty_action(id: BufferId, changed: &str, line: usize) -> (r: ChromeAction)
    ensures
        r@ == dirty_after(id, changed@, line),
{
    if str_contains_char(changed, '\n') {
        ChromeAction::MarkDirty(DirtyRegion::Buffer { buffer_id: id })
    } else {
        ChromeAction::MarkDirty(DirtyRegion::Line { buffer_id: id, line })
    }
}

/// The line of a position, as it is reported.
pub open spec fn reported_line(t: Seq<char>, pos: int) -> usize {
    let p = buffer::lesser(pos, t.len() as int);
    (rope::line_of(t, p) as int) as u16 as usize
}

/// An echo message and nothing else.
fn echo_only(message: &str) -> (r: Vec<ChromeAction>)
    ensures
        editor::chrome_views(r@) == seq![ChromeView::Echo(message@)],
{
    let r = vec![ChromeAction::Echo(message.to_owned())];
    assert(editor::chrome_views(r@) =~= seq![ChromeView::Echo(message@)]);
    r
}

fn two_actions(a: ChromeAction, b: ChromeAction) -> (r: Vec<ChromeAction>)
    ensures
        editor::chrome_views(r@) == seq![a@, b@],
{
    let r = vec![a, b];
    assert(editor::chrome_views(r@) =~= seq![a@, b@]);
    r
}

fn three_actions(a: ChromeAction, b: ChromeAction, c: ChromeAction) -> (r: Vec<ChromeAction>)
    ensures
        editor::chrome_views(r@) == seq![a@, b@, c@],
{
    let r = vec![a, b, c];
    assert(editor::chrome_views(r@) =~= seq![a@, b@, c@]);
    r
}

fn no_actions() -> (r: Vec<ChromeAction>)
    ensures
        editor::chrome_views(r@) == Seq::<ChromeView>::empty(),
{
    let r: Vec<ChromeAction> = Vec::new();
    assert(editor::chrome_views(r@) =~= Seq::<ChromeView>::empty());
    r
}

impl Editor {
    /// The buffer of the active window.
    pub open spec fn current(&self) -> BufferInner {
        self.buffers@[self.here().active_buffer].inner
    }

    /// Whether `after` is this editor but for the buffer of the active window,
    /// the cursor, which is at `cursor`, and the kill ring.
    pub open spec fn edited(&self, after: &Self, cursor: int) -> bool {
        let shown = self.here().active_buffer;
        &&& after.buffers@ == self.buffers@.insert(shown, after.buffers@[shown])
        &&& after.windows@ == self.windows@.insert(
            self.active_window,
            Window { cursor: cursor as usize, ..self.here() },
        )
        &&& *after == (Editor {
            buffers: after.buffers,
            windows: after.windows,
            kill_ring: after.kill_ring,
            ..*self
        })
    }

    /// The kill ring after something that is no kill.
    pub open spec fn kills_ended(&self) -> KillRing {
        KillRing { last_was_kill: false, ..self.kill_ring }
    }

    // --- Insertion ---

    /// Whether text can go in at a position.
    pub open spec fn can_insert(&self, position: ActionPosition) -> bool {
        let t = self.current().text();
        &&& self.ready()
        &&& match position {
            ActionPosition::Cursor => self.here().cursor <= t.len(),
            ActionPosition::Absolute(row, col) => {
                &&& row <= rope::line_count(t)
                &&& rope::line_start(t, row as int) + col <= t.len()
            },
            ActionPosition::End => true,
        }
    }

    /// Whether `after` is this editor with `ins` put in, and `r` what is to be
    /// done about it.
    pub open spec fn text_inserted(
        &self,
        after: &Self,
        ins: Seq<char>,
        position: ActionPosition,
        r: Seq<ChromeView>,
    ) -> bool {
        let shown = self.here().active_buffer;
        let cursor = self.here().cursor;
        let b0 = self.current();
        let b1 = after.current();
        let t = b0.text();
        &&& after.kill_ring == self.kills_ended()
        &&& match position {
            ActionPosition::Cursor => {
                let end = cursor + ins.len();
                &&& self.edited(after, end)
                &&& b0.inserted(&b1, cursor as int, ins)
                &&& b0.same_mark(&b1)
                &&& r == seq![
                    ChromeView::Echo("Inserted text"@),
                    dirty_after(shown, ins, reported_line(b1.text(), end)),
                    ChromeView::BufferChanged {
                        buffer_id: shown,
                        start: cursor,
                        old_end: cursor,
                        new_end: end as usize,
                    },
                ]
            },
            ActionPosition::Absolute(row, col) => {
                let start = rope::line_start(t, row as int) + col;
                &&& self.edited(after, cursor as int)
                &&& b0.inserted(&b1, start, ins)
                &&& b0.same_mark(&b1)
                &&& r == seq![
                    ChromeView::Echo("Inserted text"@),
                    dirty_after(shown, ins, row as usize),
                    ChromeView::BufferChanged {
                        buffer_id: shown,
                        start: start as usize,
                        old_end: start as usize,
                        new_end: (start + ins.len()) as usize,
                    },
                ]
            },
            ActionPosition::End => {
                &&& *after == (Editor { kill_ring: after.kill_ring, ..*self })
                &&& r == seq![ChromeView::Echo("End insert not implemented"@)]
            },
        }
    }

    /// Puts text in: at the cursor, which moves behind it, or elsewhere.
    pub fn insert_text(&mut self, text: String, position: &ActionPosition) -> (r: Vec<ChromeAction>)
        requires
            old(self).can_insert(*position),
        ensures
            old(self).text_inserted(
                final(self),
                text@,
                *position,
                editor::chrome_views(r@),
            ),
    {
        let ghost before = *self;
        self.kill_ring.break_kill_sequence();
        let active = self.active_window;
        let (shown, cursor) = match self.windows.get(active) {
            Some(w) => (w.active_buffer, w.cursor),
            None => return no_actions(),
        };
        let length = char_count(text.as_str());
        match position {
            ActionPosition::Cursor => {
                let mut line: usize = 0;
                let mut end: usize = cursor;
                if let Some(b) = self.buffers.get_mut(shown) {
                    b.insert_pos(text.clone(), cursor);
                    let total = b.buffer_len_chars();
                    assert(total == before.current().text().len() + length);
                    end = cursor + length;
                    line = b.to_column_line(end).1 as usize;
                }
                if let Some(w) = self.windows.get_mut(active) {
                    w.cursor = end;
                }
                three_actions(
                    ChromeAction::Echo("Inserted text".to_owned()),
                    dirty_action(shown, text.as_str(), line),
                    ChromeAction::BufferChanged {
                        buffer_id: shown,
                        start: cursor,
                        old_end: cursor,
                        new_end: end,
                    },
                )
            },
            ActionPosition::Absolute(row, col) => {
                let mut start: usize = 0;
                let mut end: usize = 0;
                if let Some(b) = self.buffers.get_mut(shown) {
                    proof {
                        rope::line_start_facts(b.text(), *row as int);
                    }
                    let old_total = b.buffer_len_chars();
                    start = b.to_char_index(*col, *row);
                    b.insert_col_line(text.clone(), (*col, *row));
                    let total = b.buffer_len_chars();
                    assert(total == old_total + length);
                    end = start + length;
                }
                assert(self.windows@ =~= before.windows@.insert(active, before.here()));
                three_actions(
                    ChromeAction::Echo("Inserted text".to_owned()),
                    dirty_action(shown, text.as_str(), *row as usize),
                    ChromeAction::BufferChanged {
                        buffer_id: shown,
                        start,
                        old_end: start,
                        new_end: end,
                    },
                )
            },
            ActionPosition::End => echo_only("End insert not implemented"),
        }
    }

    // --- Deletion ---

    /// Where in the text an action at `position` takes place.
    pub open spec fn action_place(&self, position: ActionPosition) -> int {
        match position {
            ActionPosition::Absolute(row, col) => syntax::capped_sum(
                rope::line_start(self.current().text(), row as int) as usize,
                col as usize,
            ) as int,
            _ => self.here().cursor as int,
        }
    }

    /// Whether a deletion can be tried at a position.
    pub open spec fn can_delete(&self, position: ActionPosition) -> bool {
        let t = self.current().text();
        &&& self.ready()
        &&& position matches ActionPosition::Absolute(row, _) ==> row <= rope::line_count(t)
    }

    /// Whether `after` is this editor with the characters from `a` up to `b`
    /// taken out and the cursor at `cursor`.
    pub open spec fn range_deleted(&self, after: &Self, a: int, b: int, cursor: int) -> bool {
        &&& self.edited(after, cursor)
        &&& self.current().deleted(&after.current(), a, b)
        &&& self.current().same_mark(&after.current())
    }

    /// Whether `after` is this editor with `count` characters deleted, and `r`
    /// what is to be done about it.
    pub open spec fn text_deleted(
        &self,
        after: &Self,
        position: ActionPosition,
        count: int,
        r: Seq<ChromeView>,
    ) -> bool {
        let shown = self.here().active_buffer;
        let cursor = self.here().cursor;
        let t = self.current().text();
        let range = doomed(t, self.action_place(position), count);
        &&& after.kill_ring == self.kills_ended()
        &&& if position == ActionPosition::End {
            &&& *after == (Editor { kill_ring: after.kill_ring, ..*self })
            &&& r == seq![ChromeView::Echo("End delete not implemented"@)]
        } else {
            match range {
                None => {
                    &&& *after == (Editor { buffers: after.buffers, kill_ring: after.kill_ring, ..*self })
                    &&& after.buffers@ == self.buffers@
                    &&& r == Seq::<ChromeView>::empty()
                },
                Some((a, b)) => {
                    let gone = t.subrange(a, b);
                    if a == b {
                        &&& self.range_deleted(after, a, b, cursor as int)
                        &&& r == Seq::<ChromeView>::empty()
                    } else {
                        match position {
                            ActionPosition::Absolute(row, _) => {
                                &&& self.range_deleted(after, a, b, cursor as int)
                                &&& r == seq![
                                    ChromeView::Echo("Deleted text"@),
                                    dirty_after(shown, gone, row as usize),
                                    ChromeView::BufferChanged {
                                        buffer_id: shown,
                                        start: a as usize,
                                        old_end: b as usize,
                                        new_end: a as usize,
                                    },
                                ]
                            },
                            _ => {
                                &&& self.range_deleted(after, a, b, a)
                                &&& r == seq![
                                    ChromeView::Echo("Deleted text"@),
                                    dirty_after(
                                        shown,
                                        gone,
                                        reported_line(after.current().text(), a),
                                    ),
                                    ChromeView::BufferChanged {
                                        buffer_id: shown,
                                        start: a as usize,
                                        old_end: b as usize,
                                        new_end: a as usize,
                                    },
                                ]
                            },
                        }
                    }
                },
            }
        }
    }

    /// Deletes `count` characters behind a position, or in front of it for a
    /// negative count.
    pub fn delete_text(&mut self, position: &ActionPosition, count: isize) -> (r: Vec<ChromeAction>)
        requires
            old(self).can_delete(*position),
        ensures
            old(self).text_deleted(
                final(self),
                *position,
                count as int,
                editor::chrome_views(r@),
            ),
    {
        let ghost before = *self;
        self.kill_ring.break_kill_sequence();
        let active = self.active_window;
        let (shown, cursor) = match self.windows.get(active) {
            Some(w) => (w.active_buffer, w.cursor),
            None => return no_actions(),
        };
        proof {
            assert(self.windows@ =~= before.windows@.insert(active, before.here()));
        }
        match position {
            ActionPosition::Cursor => {
                let mut gone: Option<String> = None;
                let mut line: usize = 0;
                let mut start: usize = cursor;
                let mut end: usize = cursor;
                if let Some(b) = self.buffers.get_mut(shown) {
                    let total = b.buffer_len_chars();
                    gone = b.delete_pos(cursor, count);
                    match &gone {
                        Some(s) => {
                            let len = char_count(s.as_str());
                            if count < 0 {
                                start = cursor - len;
                            } else {
                                end = cursor + len;
                            }
                            line = b.to_column_line(start).1 as usize;
                        },
                        None => (),
                    }
                }
                match gone {
                    None => {
                        assert(self.buffers@ =~= before.buffers@);
                        no_actions()
                    },
                    Some(s) => {
                        if s.as_str().is_empty() {
                            return no_actions();
                        }
                        if let Some(w) = self.windows.get_mut(active) {
                            w.cursor = start;
                        }
                        three_actions(
                            ChromeAction::Echo("Deleted text".to_owned()),
                            dirty_action(shown, s.as_str(), line),
                            ChromeAction::BufferChanged {
                                buffer_id: shown,
                                start,
                                old_end: end,
                                new_end: start,
                            },
                        )
                    },
                }
            },
            ActionPosition::Absolute(row, col) => {
                let mut gone: Option<String> = None;
                let mut place: usize = 0;
                let mut total: usize = 0;
                if let Some(b) = self.buffers.get_mut(shown) {
                    total = b.buffer_len_chars();
                    place = b.to_char_index(*col, *row);
                    gone = b.delete_col_line((*col, *row), count);
                }
                match gone {
                    None => {
                        assert(self.buffers@ =~= before.buffers@);
                        no_actions()
                    },
                    Some(s) => {
                        if s.as_str().is_empty() {
                            return no_actions();
                        }
                        let len = char_count(s.as_str());
                        assert(count >= 0 ==> place + len <= total);
                        let (start, old_end) = if count < 0 {
                            (place - len, place)
                        } else {
                            (place, place + len)
                        };
                        three_actions(
                            ChromeAction::Echo("Deleted text".to_owned()),
                            dirty_action(shown, s.as_str(), *row as usize),
                            ChromeAction::BufferChanged {
                                buffer_id: shown,
                                start,
                                old_end,
                                new_end: start,
                            },
                        )
                    },
                }
            },
            ActionPosition::End => echo_only("End delete not implemented"),
        }
    }

    // --- Killing ---

    /// Whether `after` is this editor with the characters from `a` up to `b`
    /// moved to the kill ring and the cursor at `cursor`.
    pub open spec fn range_killed(
        &self,
        after: &Self,
        a: int,
        b: int,
        prepend: bool,
        cursor: int,
    ) -> bool {
        let gone = self.current().text().subrange(a, b);
        let latest = self.kill_ring.texts().last();
        &&& self.range_deleted(after, a, b, cursor)
        &&& self.kill_ring.killed(
            &after.kill_ring,
            gone,
            if prepend {
                gone + latest
            } else {
                latest + gone
            },
        )
    }

    /// Whether `after` is this editor with `count` characters killed, and `r`
    /// what is to be done about it.
    pub open spec fn text_killed(
        &self,
        after: &Self,
        position: ActionPosition,
        count: int,
        r: Seq<ChromeView>,
    ) -> bool {
        let shown = self.here().active_buffer;
        let cursor = self.here().cursor;
        let t = self.current().text();
        if position == ActionPosition::End {
            &&& *after == *self
            &&& r == seq![ChromeView::Echo("End kill not implemented"@)]
        } else {
            match doomed(t, self.action_place(position), count) {
                None => self.unchanged(after) && r == Seq::<ChromeView>::empty(),
                Some((a, b)) => {
                    let gone = t.subrange(a, b);
                    if a == b {
                        &&& self.range_deleted(after, a, b, cursor as int)
                        &&& after.kill_ring == self.kill_ring
                        &&& r == Seq::<ChromeView>::empty()
                    } else {
                        &&& self.range_killed(
                            after,
                            a,
                            b,
                            count < 0,
                            if position == ActionPosition::Cursor {
                                a
                            } else {
                                cursor as int
                            },
                        )
                        &&& r == seq![
                            ChromeView::Echo("Killed: "@ + gone),
                            ChromeView::MarkDirty(DirtyRegion::Buffer { buffer_id: shown }),
                        ]
                    }
                },
            }
        }
    }

    /// Whether `after` is this editor.
    pub open spec fn unchanged(&self, after: &Self) -> bool {
        &&& after.buffers@ == self.buffers@
        &&& after.windows@ == self.windows@
        &&& *after == (Editor { buffers: after.buffers, windows: after.windows, ..*self })
    }

    /// Moves `count` characters behind a position to the kill ring, or those in
    /// front of it for a negative count.
    pub fn kill_text(&mut self, position: &ActionPosition, count: isize) -> (r: Vec<ChromeAction>)
        requires
            old(self).can_delete(*position),
            old(self).kill_ring.wf(),
        ensures
            final(self).kill_ring.wf(),
            old(self).text_killed(
                final(self),
                *position,
                count as int,
                editor::chrome_views(r@),
            ),
    {
        let ghost before = *self;
        let active = self.active_window;
        let (shown, cursor) = match self.windows.get(active) {
            Some(w) => (w.active_buffer, w.cursor),
            None => return no_actions(),
        };
        proof {
            assert(self.windows@ =~= before.windows@.insert(active, before.here()));
        }
        let mut gone: Option<String> = None;
        match position {
            ActionPosition::Cursor => {
                if let Some(b) = self.buffers.get_mut(shown) {
                    gone = b.delete_pos(cursor, count);
                }
            },
            ActionPosition::Absolute(row, col) => {
                if let Some(b) = self.buffers.get_mut(shown) {
                    gone = b.delete_col_line((*col, *row), count);
                }
            },
            ActionPosition::End => {
                return echo_only("End kill not implemented");
            },
        }
        let s = match gone {
            None => {
                assert(self.buffers@ =~= before.buffers@);
                return no_actions();
            },
            Some(s) => s,
        };
        if s.as_str().is_empty() {
            return no_actions();
        }
        let len = char_count(s.as_str());
        if count < 0 {
            self.kill_ring.kill_prepend(s.clone());
            if *position == ActionPosition::Cursor {
                if let Some(w) = self.windows.get_mut(active) {
                    w.cursor = cursor - len;
                }
            }
        } else {
            self.kill_ring.kill(s.clone());
        }
        two_actions(
            ChromeAction::Echo(concat2("Killed: ", s.as_str())),
            ChromeAction::MarkDirty(DirtyRegion::Buffer { buffer_id: shown }),
        )
    }

    /// What `kill_line` takes out: the rest of the line, or at its end the
    /// character behind it.
    pub open spec fn line_to_kill(&self) -> Option<(int, int)> {
        let t = self.current().text();
        let cursor = self.here().cursor as int;
        let end = buffer::line_end(t, cursor);
        if end > cursor {
            Some((cursor, end))
        } else {
            doomed(t, cursor, 1)
        }
    }

    /// Whether `after` is this editor with a range killed, if there is one, or
    /// else `r` says that there is nothing. `backward` tells a kill that goes
    /// backward, whose text comes in front of a kill that it continues.
    pub open spec fn killed_if_any(
        &self,
        after: &Self,
        range: Option<(int, int)>,
        backward: bool,
        cursor: int,
        r: Seq<ChromeView>,
        told: Seq<ChromeView>,
    ) -> bool {
        match range {
            None => self.unchanged(after) && r == seq![ChromeView::Echo("Nothing to kill"@)],
            Some((a, b)) => self.range_killed(after, a, b, backward, cursor) && r == told,
        }
    }

    /// Takes the range out and kills it. Gives the text, if the range holds any.
    fn kill_range(
        &mut self,
        start: usize,
        end: usize,
        backward: bool,
        cursor: usize,
    ) -> (r: Option<String>)
        requires
            old(self).ready(),
            old(self).kill_ring.wf(),
        ensures
            final(self).kill_ring.wf(),
            match r {
                None => !(start < end <= old(self).current().text().len()) && old(self).unchanged(
                    final(self),
                ),
                Some(s) => {
                    &&& start < end <= old(self).current().text().len()
                    &&& s@ == old(self).current().text().subrange(start as int, end as int)
                    &&& old(self).range_killed(
                        final(self),
                        start as int,
                        end as int,
                        backward,
                        cursor as int,
                    )
                },
            },
    {
        let ghost before = *self;
        let active = self.active_window;
        let shown = match self.windows.get(active) {
            Some(w) => w.active_buffer,
            None => return None,
        };
        let mut gone: Option<String> = None;
        if let Some(b) = self.buffers.get_mut(shown) {
            gone = b.delete_region_range(start, end);
        }
        match gone {
            None => {
                assert(self.buffers@ =~= before.buffers@);
                None
            },
            Some(s) => {
                if backward {
                    self.kill_ring.kill_prepend(s.clone());
                } else {
                    self.kill_ring.kill(s.clone());
                }
                if let Some(w) = self.windows.get_mut(active) {
                    w.cursor = cursor;
                }
                Some(s)
            },
        }
    }

    /// Kills the rest of the line, or at its end what ends it.
    pub fn kill_line(&mut self) -> (r: Vec<ChromeAction>)
        requires
            old(self).ready(),
            old(self).kill_ring.wf(),
        ensures
            final(self).kill_ring.wf(),
            ({
                let range = old(self).line_to_kill();
                let shown = old(self).here().active_buffer;
                old(self).killed_if_any(
                    final(self),
                    range,
                    false,
                    old(self).here().cursor as int,
                    editor::chrome_views(r@),
                    seq![
                        ChromeView::Echo(
                            "Killed line: "@ + text::escaped_newlines(
                                old(self).current().text().subrange((range->0).0, (range->0).1),
                            ),
                        ),
                        ChromeView::MarkDirty(DirtyRegion::Buffer { buffer_id: shown }),
                    ],
                )
            }),
    {
        let ghost before = *self;
        let (shown, cursor) = match self.windows.get(self.active_window) {
            Some(w) => (w.active_buffer, w.cursor),
            None => return no_actions(),
        };
        let (line_end, total) = match self.buffers.get(shown) {
            Some(b) => (b.eol_pos(cursor), b.buffer_len_chars()),
            None => (0, 0),
        };
        proof {
            line_end_bound(before.current().text(), cursor as int);
        }
        let end: usize = if line_end > cursor {
            line_end
        } else if cursor < total {
            cursor + 1
        } else {
            cursor
        };
        match self.kill_range(cursor, end, false, cursor) {
            Some(s) => two_actions(
                ChromeAction::Echo(concat2("Killed line: ", escape_newlines(s.as_str()).as_str())),
                ChromeAction::MarkDirty(DirtyRegion::Buffer { buffer_id: shown }),
            ),
            None => echo_only("Nothing to kill"),
        }
    }

    /// What `backward_kill_word` takes out: from the start of the word up to
    /// the cursor.
    pub open spec fn word_behind(&self) -> Option<(int, int)> {
        let t = self.current().text();
        let cursor = self.here().cursor as int;
        let start = buffer::word_backward(t, cursor);
        if start < cursor && cursor <= t.len() {
            Some((start, cursor))
        } else {
            None
        }
    }

    /// Kills from the start of the word up to the cursor: a backward kill.
    pub fn backward_kill_word(&mut self) -> (r: Vec<ChromeAction>)
        requires
            old(self).ready(),
            old(self).kill_ring.wf(),
        ensures
            final(self).kill_ring.wf(),
            old(self).killed_if_any(
                final(self),
                old(self).word_behind(),
                true,
                (old(self).word_behind()->0).0,
                editor::chrome_views(r@),
                seq![
                    ChromeView::MarkDirty(
                        DirtyRegion::Buffer { buffer_id: old(self).here().active_buffer },
                    ),
                ],
            ),
    {
        let (shown, cursor) = match self.windows.get(self.active_window) {
            Some(w) => (w.active_buffer, w.cursor),
            None => return no_actions(),
        };
        let start = match self.buffers.get(shown) {
            Some(b) => b.move_word_backward(cursor),
            None => cursor,
        };
        match self.kill_range(start, cursor, true, start) {
            Some(_) => mark_buffer(shown),
            None => echo_only("Nothing to kill"),
        }
    }

    /// What `forward_kill_word` takes out: from the cursor up to the next word.
    pub open spec fn word_ahead(&self) -> Option<(int, int)> {
        let t = self.current().text();
        let cursor = self.here().cursor as int;
        let end = buffer::word_forward(t, cursor);
        if cursor < end {
            Some((cursor, end))
        } else {
            None
        }
    }

    /// Kills from the cursor up to the next word.
    pub fn forward_kill_word(&mut self) -> (r: Vec<ChromeAction>)
        requires
            old(self).ready(),
            old(self).kill_ring.wf(),
        ensures
            final(self).kill_ring.wf(),
            old(self).killed_if_any(
                final(self),
                old(self).word_ahead(),
                false,
                old(self).here().cursor as int,
                editor::chrome_views(r@),
                seq![
                    ChromeView::MarkDirty(
                        DirtyRegion::Buffer { buffer_id: old(self).here().active_buffer },
                    ),
                ],
            ),
    {
        let (shown, cursor) = match self.windows.get(self.active_window) {
            Some(w) => (w.active_buffer, w.cursor),
            None => return no_actions(),
        };
        let end = match self.buffers.get(shown) {
            Some(b) => b.move_word_forward(cursor),
            None => cursor,
        };
        match self.kill_range(cursor, end, false, cursor) {
            Some(_) => mark_buffer(shown),
            None => echo_only("Nothing to kill"),
        }
    }

    // --- Mark and region ---

    /// Whether `after` is this editor with the mark of its buffer cleared.
    pub open spec fn mark_cleared(&self, after: &Self) -> bool {
        &&& self.edited(after, self.here().cursor as int)
        &&& after.current() == (BufferInner {
            mark: None,
            transient_mark: false,
            ..self.current()
        })
    }

    /// Whether `after` is this editor with the region killed, and `r` what is
    /// to be done about it.
    pub open spec fn region_killed(&self, after: &Self, r: Seq<ChromeView>) -> bool {
        let b0 = self.current();
        let b1 = after.current();
        let shown = self.here().active_buffer;
        match b0.region(self.here().cursor as int) {
            None => self.unchanged(after) && r == seq![ChromeView::Echo("No mark set"@)],
            Some((a, b)) => {
                let gone = b0.text().subrange(a, b);
                if a == b {
                    &&& self.mark_cleared(after)
                    &&& after.kill_ring == self.kill_ring
                    &&& r == seq![ChromeView::Echo("Empty region"@)]
                } else {
                    &&& self.edited(after, a)
                    &&& b0.deleted(&b1, a, b)
                    &&& b1.mark is None
                    &&& !b1.transient_mark
                    &&& self.kill_ring.killed(
                        &after.kill_ring,
                        gone,
                        self.kill_ring.texts().last() + gone,
                    )
                    &&& r == seq![
                        ChromeView::Echo("Killed region: "@ + text::escaped_newlines(gone)),
                        ChromeView::MarkDirty(DirtyRegion::Buffer { buffer_id: shown }),
                    ]
                }
            },
        }
    }

    /// Moves the text between mark and cursor to the kill ring.
    pub fn kill_region(&mut self) -> (r: Vec<ChromeAction>)
        requires
            old(self).ready(),
            old(self).kill_ring.wf(),
        ensures
            final(self).kill_ring.wf(),
            old(self).region_killed(final(self), editor::chrome_views(r@)),
    {
        let ghost before = *self;
        let active = self.active_window;
        let (shown, cursor) = match self.windows.get(active) {
            Some(w) => (w.active_buffer, w.cursor),
            None => return no_actions(),
        };
        let mut gone: Option<(String, usize)> = None;
        if let Some(b) = self.buffers.get_mut(shown) {
            gone = b.delete_region(cursor);
        }
        match gone {
            None => {
                assert(self.buffers@ =~= before.buffers@);
                echo_only("No mark set")
            },
            Some((s, start)) => {
                if s.as_str().is_empty() {
                    assert(self.windows@ =~= before.windows@.insert(active, before.here()));
                    return echo_only("Empty region");
                }
                self.kill_ring.kill(s.clone());
                if let Some(w) = self.windows.get_mut(active) {
                    w.cursor = start;
                }
                two_actions(
                    ChromeAction::Echo(
                        concat2("Killed region: ", escape_newlines(s.as_str()).as_str()),
                    ),
                    ChromeAction::MarkDirty(DirtyRegion::Buffer { buffer_id: shown }),
                )
            },
        }
    }

    /// Whether `after` is this editor with the region copied, and `r` what is
    /// to be done about it.
    pub open spec fn region_copied(&self, after: &Self, r: Seq<ChromeView>) -> bool {
        let b0 = self.current();
        let shown = self.here().active_buffer;
        match b0.region(self.here().cursor as int) {
            None => self.unchanged(after) && r == seq![ChromeView::Echo("No mark set"@)],
            Some((a, b)) => {
                let copied = b0.text().subrange(a, b);
                if a == b {
                    &&& self.mark_cleared(after)
                    &&& after.kill_ring == self.kill_ring
                    &&& r == seq![ChromeView::Echo("Empty region"@)]
                } else {
                    &&& self.mark_cleared(after)
                    &&& self.kill_ring.killed(
                        &after.kill_ring,
                        copied,
                        self.kill_ring.texts().last() + copied,
                    )
                    &&& r == seq![
                        ChromeView::Echo("Copied region: "@ + text::escaped_newlines(copied)),
                        ChromeView::MarkDirty(DirtyRegion::Buffer { buffer_id: shown }),
                    ]
                }
            },
        }
    }

    /// Copies the text between mark and cursor to the kill ring.
    pub fn copy_region(&mut self) -> (r: Vec<ChromeAction>)
        requires
            old(self).ready(),
            old(self).kill_ring.wf(),
        ensures
            final(self).kill_ring.wf(),
            old(self).region_copied(final(self), editor::chrome_views(r@)),
    {
        let ghost before = *self;
        let active = self.active_window;
        let (shown, cursor) = match self.windows.get(active) {
            Some(w) => (w.active_buffer, w.cursor),
            None => return no_actions(),
        };
        proof {
            assert(self.windows@ =~= before.windows@.insert(active, before.here()));
        }
        let mut copied: Option<String> = None;
        if let Some(b) = self.buffers.get_mut(shown) {
            copied = b.get_region_text(cursor);
            if copied.is_some() {
                b.clear_mark();
            }
        }
        match copied {
            None => {
                assert(self.buffers@ =~= before.buffers@);
                echo_only("No mark set")
            },
            Some(s) => {
                if s.as_str().is_empty() {
                    return echo_only("Empty region");
                }
                self.kill_ring.kill(s.clone());
                two_actions(
                    ChromeAction::Echo(
                        concat2("Copied region: ", escape_newlines(s.as_str()).as_str()),
                    ),
                    ChromeAction::MarkDirty(DirtyRegion::Buffer { buffer_id: shown }),
                )
            },
        }
    }

    /// Whether `after` is this editor with the mark set at the cursor.
    pub open spec fn mark_set(&self, after: &Self, r: Seq<ChromeView>) -> bool {
        let b0 = self.current();
        &&& self.edited(after, self.here().cursor as int)
        &&& after.kill_ring == self.kill_ring
        &&& after.current() == (BufferInner {
            mark: Some(
                buffer::lesser(self.here().cursor as int, b0.text().len() as int) as usize,
            ),
            transient_mark: false,
            ..b0
        })
        &&& r == seq![ChromeView::Echo("Mark set"@)]
    }

    /// Sets the mark at the cursor.
    pub fn set_mark(&mut self) -> (r: Vec<ChromeAction>)
        requires
            old(self).ready(),
        ensures
            old(self).mark_set(final(self), editor::chrome_views(r@)),
    {
        let ghost before = *self;
        let active = self.active_window;
        let (shown, cursor) = match self.windows.get(active) {
            Some(w) => (w.active_buffer, w.cursor),
            None => return no_actions(),
        };
        if let Some(b) = self.buffers.get_mut(shown) {
            b.set_mark(cursor);
        }
        assert(self.windows@ =~= before.windows@.insert(active, before.here()));
        echo_only("Mark set")
    }

    /// Whether `after` is this editor with the mark cleared, if it was set.
    pub open spec fn mark_cleared_if_set(&self, after: &Self, r: Seq<ChromeView>) -> bool {
        let shown = self.here().active_buffer;
        if self.current().mark is Some {
            &&& self.mark_cleared(after)
            &&& after.kill_ring == self.kill_ring
            &&& r == seq![
                ChromeView::Echo("Mark cleared"@),
                ChromeView::MarkDirty(DirtyRegion::Buffer { buffer_id: shown }),
            ]
        } else {
            self.unchanged(after) && r == seq![ChromeView::Echo("No mark to clear"@)]
        }
    }

    /// Clears the mark.
    pub fn clear_mark(&mut self) -> (r: Vec<ChromeAction>)
        requires
            old(self).ready(),
        ensures
            old(self).mark_cleared_if_set(final(self), editor::chrome_views(r@)),
    {
        let ghost before = *self;
        let active = self.active_window;
        let shown = match self.windows.get(active) {
            Some(w) => w.active_buffer,
            None => return no_actions(),
        };
        let mut marked = false;
        if let Some(b) = self.buffers.get_mut(shown) {
            marked = b.has_mark();
            if marked {
                b.clear_mark();
            }
        }
        assert(self.windows@ =~= before.windows@.insert(active, before.here()));
        if marked {
            two_actions(
                ChromeAction::Echo("Mark cleared".to_owned()),
                ChromeAction::MarkDirty(DirtyRegion::Buffer { buffer_id: shown }),
            )
        } else {
            assert(self.buffers@ =~= before.buffers@);
            echo_only("No mark to clear")
        }
    }

    // --- Yanking ---

    /// This editor after an entry of the kill ring was taken up: `index` is its
    /// age, 0 for the latest.
    pub open spec fn with_taken(&self, index: int) -> Editor {
        Editor {
            kill_ring: KillRing {
                current_index: (self.kill_ring.entries@.len() - 1 - index) as usize,
                last_was_kill: false,
                ..self.kill_ring
            },
            ..*self
        }
    }

    /// Whether `after` is this editor with an entry of the kill ring put in, or
    /// with `refusal` told where there is no such entry.
    pub open spec fn yanked(
        &self,
        after: &Self,
        position: ActionPosition,
        index: int,
        r: Seq<ChromeView>,
        refusal: Seq<char>,
    ) -> bool {
        let texts = self.kill_ring.texts();
        if index < texts.len() {
            self.with_taken(index).text_inserted(after, texts[texts.len() - 1 - index], position, r)
        } else {
            &&& *after == (Editor { kill_ring: self.kills_ended(), ..*self })
            &&& r == seq![ChromeView::Echo(refusal)]
        }
    }

    /// Puts in the latest entry of the kill ring.
    pub fn yank(&mut self, position: &ActionPosition) -> (r: Vec<ChromeAction>)
        requires
            old(self).can_insert(*position),
            old(self).kill_ring.wf(),
        ensures
            final(self).kill_ring.wf(),
            old(self).yanked(
                final(self),
                *position,
                0,
                editor::chrome_views(r@),
                "Kill ring is empty"@,
            ),
    {
        let ghost before = *self;
        let taken = match self.kill_ring.yank() {
            Some(s) => Some(s.to_owned()),
            None => None,
        };
        match taken {
            None => echo_only("Kill ring is empty"),
            Some(s) => {
                assert(*self == before.with_taken(0));
                self.kill_ring.break_kill_sequence();
                assert(*self == before.with_taken(0));
                self.insert_text(s, position)
            },
        }
    }

    /// Puts in an entry of the kill ring by its age: 0 is the latest.
    pub fn yank_index(&mut self, position: &ActionPosition, index: usize) -> (r: Vec<ChromeAction>)
        requires
            old(self).can_insert(*position),
            old(self).kill_ring.wf(),
        ensures
            final(self).kill_ring.wf(),
            old(self).yanked(
                final(self),
                *position,
                index as int,
                editor::chrome_views(r@),
                "No kill at index "@ + text::decimal(index as nat),
            ),
    {
        let ghost before = *self;
        let taken = match self.kill_ring.yank_index(index) {
            Some(s) => Some(s.to_owned()),
            None => None,
        };
        match taken {
            None => {
                let message = concat2("No kill at index ", decimal_string(index as u64).as_str());
                echo_only(message.as_str())
            },
            Some(s) => {
                assert(*self == before.with_taken(index as int));
                self.kill_ring.break_kill_sequence();
                assert(*self == before.with_taken(index as int));
                self.insert_text(s, position)
            },
        }
    }

    // --- Movement ---

    /// Whether the cursor can be moved in a direction from where it is.
    pub open spec fn can_move(&self, direction: CursorDirection) -> bool {
        let cursor = self.here().cursor;
        let t = self.current().text();
        &&& self.ready()
        &&& match direction {
            CursorDirection::Right => cursor < usize::MAX,
            CursorDirection::Up | CursorDirection::Down | CursorDirection::LineStart => cursor
                <= t.len() || t.len() == 0,
            _ => true,
        }
    }

    /// Where a movement in a window leads.
    pub open spec fn target(t: Seq<char>, w: Window, direction: CursorDirection) -> int {
        let cursor = w.cursor as int;
        let end = t.len() as int;
        let p = buffer::lesser(cursor, end);
        let line = (rope::line_of(t, p) as int) as u16;
        let column = (p - rope::line_start(t, rope::line_of(t, p) as int)) as u16;
        let page: u16 = if w.height_chars >= 3 {
            (w.height_chars - 3) as u16
        } else {
            0
        };
        match direction {
            CursorDirection::Left => if cursor > 0 {
                cursor - 1
            } else {
                0
            },
            CursorDirection::Right => buffer::lesser(cursor + 1, end),
            CursorDirection::Up => buffer::line_up(t, cursor),
            CursorDirection::Down => buffer::line_down(t, cursor),
            CursorDirection::LineStart => if end == 0 {
                0
            } else {
                rope::line_start(t, rope::line_of(t, cursor) as int)
            },
            CursorDirection::LineEnd => buffer::line_end(t, cursor),
            CursorDirection::BufferStart => 0,
            CursorDirection::BufferEnd => end,
            CursorDirection::PageUp => {
                let to = if line >= page {
                    line - page
                } else {
                    0
                };
                syntax::capped_sum(rope::line_start(t, to) as usize, column as usize) as int
            },
            CursorDirection::PageDown => {
                let last = ((rope::line_count(t) - 1) as int) as u16;
                let to = buffer::lesser(line + page, last as int);
                syntax::capped_sum(rope::line_start(t, to) as usize, column as usize) as int
            },
            CursorDirection::WordForward => buffer::word_forward(t, cursor),
            CursorDirection::WordBackward => buffer::word_backward(t, cursor),
            CursorDirection::ParagraphForward => buffer::paragraph_forward(t, cursor),
            CursorDirection::ParagraphBackward => buffer::paragraph_backward(t, cursor),
        }
    }

    /// Whether `after` is this editor with its buffer left for a movement: the
    /// run of edits ended, and the mark set or cleared as the movement selects
    /// or not.
    pub open spec fn moved_to(&self, after: &Self, cursor: int, selecting: bool) -> bool {
        let b0 = self.current();
        let b1 = after.current();
        &&& self.edited(after, cursor)
        &&& after.kill_ring == self.kill_ring
        &&& buffer::run_ended(b0.undo_manager, b1.undo_manager)
        &&& b0.history_ok() ==> b1.history_ok()
        &&& b1 == (BufferInner {
            undo_manager: b1.undo_manager,
            mark: b1.mark,
            transient_mark: b1.transient_mark,
            ..b0
        })
        &&& (b1.mark, b1.transient_mark) == if selecting && b0.mark is None {
            (
                Some(buffer::lesser(self.here().cursor as int, b0.text().len() as int) as usize),
                true,
            )
        } else if !selecting && b0.mark is Some && b0.transient_mark {
            (None, false)
        } else {
            (b0.mark, b0.transient_mark)
        }
    }

    /// Whether `after` is this editor with the cursor moved, and `r` what is to
    /// be done about it.
    pub open spec fn cursor_moved(
        &self,
        after: &Self,
        direction: CursorDirection,
        selecting: bool,
        r: Seq<ChromeView>,
    ) -> bool {
        &&& self.moved_to(
            after,
            Self::target(self.current().text(), self.here(), direction),
            selecting,
        )
        &&& r == seq![
            ChromeView::MarkDirty(
                DirtyRegion::Modeline {
                    window_id: self.active_window,
                    component: ModelineComponent::CursorPosition,
                },
            ),
            ChromeView::MarkDirty(DirtyRegion::Buffer { buffer_id: self.here().active_buffer }),
        ]
    }

    /// Moves the cursor. Where the movement selects, what it passes over is in
    /// the region.
    pub fn move_cursor(&mut self, direction: CursorDirection, selecting: bool) -> (r: Vec<
        ChromeAction,
    >)
        requires
            old(self).can_move(direction),
        ensures
            old(self).cursor_moved(
                final(self),
                direction,
                selecting,
                editor::chrome_views(r@),
            ),
    {
        let ghost before = *self;
        let active = self.active_window;
        let (shown, cursor, height) = match self.windows.get(active) {
            Some(w) => (w.active_buffer, w.cursor, w.height_chars),
            None => return no_actions(),
        };
        let mut position: usize = cursor;
        if let Some(b) = self.buffers.get_mut(shown) {
            b.undo_boundary();
            if selecting {
                if !b.has_mark() {
                    b.set_transient_mark(cursor);
                }
            } else {
                b.clear_transient_mark();
            }
            assert(b.inner.text() == before.current().text());
            position = Self::movement(b, cursor, height, direction);
        }
        if let Some(w) = self.windows.get_mut(active) {
            w.cursor = position;
        }
        two_actions(
            ChromeAction::MarkDirty(
                DirtyRegion::Modeline {
                    window_id: active,
                    component: ModelineComponent::CursorPosition,
                },
            ),
            ChromeAction::MarkDirty(DirtyRegion::Buffer { buffer_id: shown }),
        )
    }

    /// Where a movement leads in a buffer shown in a window of a height.
    fn movement(
        b: &buffer::Buffer,
        cursor: usize,
        height: u16,
        direction: CursorDirection,
    ) -> (r: usize)
        requires
            match direction {
                CursorDirection::Right => cursor < usize::MAX,
                CursorDirection::Up | CursorDirection::Down | CursorDirection::LineStart => cursor
                    <= b.inner.text().len() || b.inner.text().len() == 0,
                _ => true,
            },
        ensures
            forall|w: Window|
                w.cursor == cursor && w.height_chars == height ==> r == #[trigger] Self::target(
                    b.inner.text(),
                    w,
                    direction,
                ),
    {
        let ghost t = b.inner.text();
        match direction {
            CursorDirection::Left => b.move_left(cursor),
            CursorDirection::Right => b.move_right(cursor),
            CursorDirection::Up => b.move_up(cursor),
            CursorDirection::Down => b.move_down(cursor),
            CursorDirection::LineStart => b.move_line_start(cursor),
            CursorDirection::LineEnd => b.move_line_end(cursor),
            CursorDirection::BufferStart => b.move_buffer_start(),
            CursorDirection::BufferEnd => b.move_buffer_end(),
            CursorDirection::PageUp => {
                let page = height.saturating_sub(3);
                let (column, line) = b.to_column_line(cursor);
                let total = b.buffer_len_lines();
                proof {
                    line_in_range(t, cursor as int, total);
                }
                b.to_char_index(column, line.saturating_sub(page))
            },
            CursorDirection::PageDown => {
                let page = height.saturating_sub(3);
                let (column, line) = b.to_column_line(cursor);
                let total = b.buffer_len_lines();
                let last = total.saturating_sub(1) as u16;
                proof {
                    let index = total.saturating_sub(1);
                    assert(index as u16 <= index) by (bit_vector);
                }
                let to = line.saturating_add(page);
                b.to_char_index(
                    column,
                    if to <= last {
                        to
                    } else {
                        last
                    },
                )
            },
            CursorDirection::WordForward => b.move_word_forward(cursor),
            CursorDirection::WordBackward => b.move_word_backward(cursor),
            CursorDirection::ParagraphForward => b.move_paragraph_forward(cursor),
            CursorDirection::ParagraphBackward => b.move_paragraph_backward(cursor),
        }
    }

    /// Moves the cursor to a position, or to the end where that lies behind it.
    pub fn move_cursor_to(&mut self, position: usize) -> (r: Vec<ChromeAction>)
        requires
            old(self).ready(),
        ensures
            old(self).moved_to(
                final(self),
                buffer::lesser(position as int, old(self).current().text().len() as int),
                false,
            ),
            editor::chrome_views(r@) == seq![
                ChromeView::MarkDirty(
                    DirtyRegion::Buffer { buffer_id: old(self).here().active_buffer },
                ),
            ],
    {
        let active = self.active_window;
        let shown = match self.windows.get(active) {
            Some(w) => w.active_buffer,
            None => return no_actions(),
        };
        let mut target: usize = position;
        if let Some(b) = self.buffers.get_mut(shown) {
            b.undo_boundary();
            b.clear_transient_mark();
            let end = b.buffer_len_chars();
            if end < position {
                target = end;
            }
        }
        if let Some(w) = self.windows.get_mut(active) {
            w.cursor = target;
        }
        mark_buffer(shown)
    }

    // --- Undo and redo ---

    /// Whether `after` is this editor with an edit undone, or made again, and
    /// `r` what is to be done about it.
    pub open spec fn history_walked(&self, after: &Self, redo: bool, r: Seq<ChromeView>) -> bool {
        let b0 = self.current();
        let b1 = after.current();
        let h = b0.undo_manager;
        let shown = self.here().active_buffer;
        let any = if redo {
            h.redo_stack@.len() > 0
        } else {
            h.pending@.len() + h.undo_stack@.len() > 0
        };
        &&& after.kill_ring == self.kill_ring
        &&& b0.history_ok() ==> b1.history_ok()
        &&& b0.same_settings(&b1)
        &&& b0.same_mark(&b1)
        &&& if any {
            &&& self.edited(after, after.here().cursor as int)
            &&& if redo {
                b0.redone(&b1, after.here().cursor as int)
            } else {
                b0.undone(&b1, after.here().cursor as int)
            }
            &&& r == seq![
                ChromeView::MarkDirty(DirtyRegion::Buffer { buffer_id: shown }),
                ChromeView::Echo(
                    if redo {
                        "Redo"@
                    } else {
                        "Undo"@
                    },
                ),
            ]
        } else {
            &&& self.edited(after, self.here().cursor as int)
            &&& b1.text() == b0.text()
            &&& b1.spans@ == b0.spans@
            &&& r == seq![
                ChromeView::Echo(
                    if redo {
                        "No further redo information"@
                    } else {
                        "No further undo information"@
                    },
                ),
            ]
        }
    }

    /// Undoes an edit, or makes one again that was undone.
    pub fn undo_or_redo(&mut self, redo: bool) -> (r: Vec<ChromeAction>)
        requires
            old(self).ready(),
            redo ==> old(self).current().redo_fits(),
            !redo ==> old(self).current().undo_fits(),
        ensures
            old(self).history_walked(final(self), redo, editor::chrome_views(r@)),
    {
        let ghost before = *self;
        let active = self.active_window;
        let shown = match self.windows.get(active) {
            Some(w) => w.active_buffer,
            None => return no_actions(),
        };
        let mut target: Option<usize> = None;
        if let Some(b) = self.buffers.get_mut(shown) {
            target = if redo {
                b.redo()
            } else {
                b.undo()
            };
        }
        match target {
            None => {
                assert(self.windows@ =~= before.windows@.insert(active, before.here()));
                if redo {
                    echo_only("No further redo information")
                } else {
                    echo_only("No further undo information")
                }
            },
            Some(cursor) => {
                if let Some(w) = self.windows.get_mut(active) {
                    w.cursor = cursor;
                }
                two_actions(
                    ChromeAction::MarkDirty(DirtyRegion::Buffer { buffer_id: shown }),
                    ChromeAction::Echo(
                        if redo {
                            "Redo".to_owned()
                        } else {
                            "Undo".to_owned()
                        },
                    ),
                )
            },
        }
    }

    // --- Native actions ---

    /// Whether `after` is this editor after what a user does to give up: the run
    /// of edits ended and the mark cleared.
    pub open spec fn cancelled(&self, after: &Self, r: Seq<ChromeView>) -> bool {
        let b0 = self.current();
        let b1 = after.current();
        let shown = self.here().active_buffer;
        &&& self.edited(after, self.here().cursor as int)
        &&& after.kill_ring == self.kill_ring
        &&& buffer::run_ended(b0.undo_manager, b1.undo_manager)
        &&& b0.history_ok() ==> b1.history_ok()
        &&& b1 == (BufferInner {
            undo_manager: b1.undo_manager,
            mark: None,
            transient_mark: if b0.mark is Some {
                false
            } else {
                b0.transient_mark
            },
            ..b0
        })
        &&& r == if b0.mark is Some {
            seq![
                ChromeView::Echo("Mark cleared"@),
                ChromeView::MarkDirty(DirtyRegion::Buffer { buffer_id: shown }),
            ]
        } else {
            seq![ChromeView::Echo("Quit"@)]
        }
    }

    /// Whether an action can be performed.
    pub open spec fn can_perform(&self, action: KeyAction) -> bool {
        &&& self.ready()
        &&& self.kill_ring.wf()
        &&& match action {
            KeyAction::AlphaNumeric(_) | KeyAction::Enter | KeyAction::Tab
            | KeyAction::Yank(_) => self.can_insert(ActionPosition::Cursor),
            KeyAction::Cursor(direction) | KeyAction::CursorSelect(direction) => self.can_move(
                direction,
            ),
            KeyAction::Undo => self.current().undo_fits(),
            KeyAction::Redo => self.current().redo_fits(),
            _ => true,
        }
    }

    /// Whether `after` is this editor with an action performed, and `r` what is
    /// to be done about it.
    pub open spec fn performed(&self, after: &Self, action: KeyAction, r: Seq<ChromeView>) -> bool {
        let shown = self.here().active_buffer;
        let cursor = self.here().cursor as int;
        let word_told = seq![ChromeView::MarkDirty(DirtyRegion::Buffer { buffer_id: shown })];
        match action {
            KeyAction::AlphaNumeric(c) => self.text_inserted(
                after,
                seq![c],
                ActionPosition::Cursor,
                r,
            ),
            KeyAction::Enter => self.text_inserted(after, "\n"@, ActionPosition::Cursor, r),
            KeyAction::Tab => self.text_inserted(after, "\t"@, ActionPosition::Cursor, r),
            KeyAction::Backspace => self.text_deleted(after, ActionPosition::Cursor, -1, r),
            KeyAction::Delete => self.text_deleted(after, ActionPosition::Cursor, 1, r),
            KeyAction::MarkStart => self.mark_set(after, r),
            KeyAction::KillRegion(true) => self.region_killed(after, r),
            KeyAction::KillRegion(false) => self.region_copied(after, r),
            KeyAction::KillLine(_) => self.killed_if_any(
                after,
                self.line_to_kill(),
                false,
                cursor,
                r,
                seq![
                    ChromeView::Echo(
                        "Killed line: "@ + text::escaped_newlines(
                            self.current().text().subrange(
                                (self.line_to_kill()->0).0,
                                (self.line_to_kill()->0).1,
                            ),
                        ),
                    ),
                    ChromeView::MarkDirty(DirtyRegion::Buffer { buffer_id: shown }),
                ],
            ),
            KeyAction::Yank(Some(index)) => self.yanked(
                after,
                ActionPosition::Cursor,
                index as int,
                r,
                "No kill at index "@ + text::decimal(index as nat),
            ),
            KeyAction::Yank(None) => self.yanked(
                after,
                ActionPosition::Cursor,
                0,
                r,
                "Kill ring is empty"@,
            ),
            KeyAction::DeleteWord => self.killed_if_any(
                after,
                self.word_ahead(),
                false,
                cursor,
                r,
                word_told,
            ),
            KeyAction::BackspaceWord => self.killed_if_any(
                after,
                self.word_behind(),
                true,
                (self.word_behind()->0).0,
                r,
                word_told,
            ),
            KeyAction::Cursor(direction) => self.cursor_moved(after, direction, false, r),
            KeyAction::CursorSelect(direction) => self.cursor_moved(after, direction, true, r),
            KeyAction::Undo => self.history_walked(after, false, r),
            KeyAction::Redo => self.history_walked(after, true, r),
            KeyAction::Cancel | KeyAction::Escape => self.cancelled(after, r),
            KeyAction::Redraw => {
                &&& *after == *self
                &&& r == seq![ChromeView::MarkDirty(DirtyRegion::FullScreen)]
            },
            _ => *after == *self && r == Seq::<ChromeView>::empty(),
        }
    }

    /// Performs an action on the active window. Actions that are none on a text
    /// do nothing here.
    pub fn perform_native_action(&mut self, action: KeyAction) -> (r: Vec<ChromeAction>)
        requires
            old(self).can_perform(action),
        ensures
            final(self).kill_ring.wf(),
            old(self).performed(final(self), action, editor::chrome_views(r@)),
    {
        let here = ActionPosition::Cursor;
        match action {
            KeyAction::AlphaNumeric(c) => self.insert_text(char_string(c), &here),
            KeyAction::Enter => self.insert_text("\n".to_owned(), &here),
            KeyAction::Tab => self.insert_text("\t".to_owned(), &here),
            KeyAction::Backspace => self.delete_text(&here, -1),
            KeyAction::Delete => self.delete_text(&here, 1),
            KeyAction::MarkStart => self.set_mark(),
            KeyAction::KillRegion(destructive) => if destructive {
                self.kill_region()
            } else {
                self.copy_region()
            },
            KeyAction::KillLine(_) => self.kill_line(),
            KeyAction::Yank(index) => match index {
                Some(index) => self.yank_index(&here, index),
                None => self.yank(&here),
            },
            KeyAction::DeleteWord => self.forward_kill_word(),
            KeyAction::BackspaceWord => self.backward_kill_word(),
            KeyAction::Cursor(direction) => self.move_cursor(direction, false),
            KeyAction::CursorSelect(direction) => self.move_cursor(direction, true),
            KeyAction::Undo => self.undo_or_redo(false),
            KeyAction::Redo => self.undo_or_redo(true),
            KeyAction::Cancel => self.cancel(),
            KeyAction::Escape => self.cancel(),
            KeyAction::Redraw => {
                let r = vec![ChromeAction::MarkDirty(DirtyRegion::FullScreen)];
                assert(editor::chrome_views(r@) =~= seq![
                    ChromeView::MarkDirty(DirtyRegion::FullScreen),
                ]);
                r
            },
            _ => no_actions(),
        }
    }

    /// Ends the run of edits and clears the mark.
    fn cancel(&mut self) -> (r: Vec<ChromeAction>)
        requires
            old(self).ready(),
        ensures
            old(self).cancelled(final(self), editor::chrome_views(r@)),
    {
        let ghost before = *self;
        let active = self.active_window;
        let shown = match self.windows.get(active) {
            Some(w) => w.active_buffer,
            None => return no_actions(),
        };
        let mut marked = false;
        if let Some(b) = self.buffers.get_mut(shown) {
            b.undo_boundary();
            marked = b.has_mark();
            if marked {
                b.clear_mark();
            }
        }
        assert(self.windows@ =~= before.windows@.insert(active, before.here()));
        if marked {
            two_actions(
                ChromeAction::Echo("Mark cleared".to_owned()),
                ChromeAction::MarkDirty(DirtyRegion::Buffer { buffer_id: shown }),
            )
        } else {
            echo_only("Quit")
        }
    }
}

proof fn line_in_range(t: Seq<char>, cursor: int, total: usize)
    requires
        0 <= cursor,
        total == rope::line_count(t),
    ensures
        ((rope::line_of(t, buffer::lesser(cursor, t.len() as int)) as int) as u16) <= total,
{
    let p = buffer::lesser(cursor, t.len() as int);
    rope::position_within_line(t, p);
    rope::line_of_monotonic(t, p, t.len() as int);
    let line = rope::line_of(t, p) as usize;
    assert(line as u16 <= line) by (bit_vector);
}

fn mark_buffer(buffer_id: BufferId) -> (r: Vec<ChromeAction>)
    ensures
        editor::chrome_views(r@) == seq![ChromeView::MarkDirty(DirtyRegion::Buffer { buffer_id })],
{
    let r = vec![ChromeAction::MarkDirty(DirtyRegion::Buffer { buffer_id })];
    assert(editor::chrome_views(r@) =~= seq![
        ChromeView::MarkDirty(DirtyRegion::Buffer { buffer_id }),
    ]);
    r
}

proof fn line_end_bound(t: Seq<char>, pos: int)
    requires
        0 <= pos,
    ensures
        0 <= buffer::line_end(t, pos) <= t.len(),
{
    if t.len() > 0 && pos < t.len() {
        rope::position_within_line(t, pos);
        let line = rope::line_of(t, pos) as int;
        if line + 1 < rope::line_count(t) {
            rope::line_start_facts(t, line + 1);
        }
    }
}

/// A text that was killed and yanked at the same place is there again.
pub proof fn yank_restores_killed(
    before: Editor,
    killed: Editor,
    after: Editor,
    a: int,
    b: int,
    r: Seq<ChromeView>,
    refusal: Seq<char>,
)
    requires
        before.ready(),
        before.kill_ring.wf(),
        !before.kill_ring.joins(),
        0 <= a < b <= before.current().text().len(),
        before.current().text().len() <= usize::MAX,
        before.range_killed(&killed, a, b, false, a),
        killed.yanked(&after, ActionPosition::Cursor, 0, r, refusal),
    ensures
        after.current().text() == before.current().text(),
        after.here().cursor == b,
{
    let t = before.current().text();
    let gone = t.subrange(a, b);
    assert(killed.kill_ring.texts().last() == gone);
    assert(killed.here() == (Window { cursor: a as usize, ..before.here() }));
    let taken = killed.with_taken(0);
    assert(taken.current() == killed.current());
    assert(undo::spliced(undo::cut(t, a, b), a, gone) =~= t);
}

/// Deleting backwards as much as was inserted at the cursor gives back text and
/// cursor.
pub proof fn delete_restores_inserted(
    before: Editor,
    inserted: Editor,
    after: Editor,
    ins: Seq<char>,
    r: Seq<ChromeView>,
    s: Seq<ChromeView>,
)
    requires
        before.can_insert(ActionPosition::Cursor),
        ins.len() > 0,
        before.here().cursor + ins.len() <= usize::MAX,
        before.text_inserted(&inserted, ins, ActionPosition::Cursor, r),
        inserted.text_deleted(&after, ActionPosition::Cursor, -(ins.len() as int), s),
    ensures
        after.current().text() == before.current().text(),
        after.here().cursor == before.here().cursor,
{
    let t = before.current().text();
    let cursor = before.here().cursor as int;
    assert(inserted.here().cursor == cursor + ins.len());
    assert(undo::cut(undo::spliced(t, cursor, ins), cursor, cursor + ins.len()) =~= t);
}

} // verus!
