//! Buffers: a text with its mark, its history and its highlighting.

use ropey::Rope;
use vstd::prelude::*;

use crate::ids::ModeId;
use crate::rope::{
    rope_char, rope_char_to_line, rope_from_str, rope_insert, rope_len_chars, rope_len_lines,
    rope_line, rope_line_to_char, rope_new, rope_remove, rope_slice, rope_to_string,
};
use crate::syntax::{FaceId, HighlightSpan, SpanStore};
use crate::text::{char_count, str_chars};
use crate::undo::{EditOp, UndoManager};
use crate::{rope, syntax, text, undo};

verus! {

/// The smaller of two positions.
pub open spec fn lesser(a: int, b: int) -> int {
    if a <= b {
        a
    } else {
        b
    }
}

// --- Words ---

/// The first position at or behind `p` that holds no white space.
pub open spec fn skip_space(t: Seq<char>, p: int) -> int
    decreases t.len() - p,
{
    if 0 <= p < t.len() && text::is_space(t[p]) {
        skip_space(t, p + 1)
    } else {
        p
    }
}

/// The first position at or behind `p` that holds white space, or the end.
pub open spec fn skip_word(t: Seq<char>, p: int) -> int
    decreases t.len() - p,
{
    if 0 <= p < t.len() && !text::is_space(t[p]) {
        skip_word(t, p + 1)
    } else {
        p
    }
}

/// Where the word behind `pos` starts: white space, the word there and the
/// white space behind it are passed over.
pub open spec fn word_forward(t: Seq<char>, pos: int) -> int {
    skip_space(t, skip_word(t, skip_space(t, lesser(pos, t.len() as int))))
}

/// The last position at or in front of `p` that holds no white space, or 0.
pub open spec fn back_over_space(t: Seq<char>, p: int) -> int
    decreases p,
{
    if 0 < p < t.len() && text::is_space(t[p]) {
        back_over_space(t, p - 1)
    } else {
        p
    }
}

/// Where the run of characters that are no white space starts that ends in
/// front of `p`.
pub open spec fn back_over_word(t: Seq<char>, p: int) -> int
    decreases p,
{
    if 0 < p <= t.len() && !text::is_space(t[p - 1]) {
        back_over_word(t, p - 1)
    } else {
        p
    }
}

/// Where the word in front of `pos` starts.
pub open spec fn word_backward(t: Seq<char>, pos: int) -> int {
    let p = lesser(pos, t.len() as int);
    if p <= 0 {
        0
    } else {
        back_over_word(t, back_over_space(t, p - 1))
    }
}

// --- Paragraphs ---

/// Whether a line holds white space only. There is nothing on a line behind the
/// last.
pub open spec fn is_blank_line(t: Seq<char>, line: int) -> bool {
    line >= rope::line_count(t) || (forall|i: int|
        0 <= i < rope::line_text(t, line).len() ==> text::is_space(#[trigger] rope::line_text(t, line)[i]))
}

/// The first line at or behind `line` that is blank, or the number of lines.
pub open spec fn skip_paragraph(t: Seq<char>, line: int) -> int
    decreases rope::line_count(t) - line,
{
    if line < rope::line_count(t) && !is_blank_line(t, line) {
        skip_paragraph(t, line + 1)
    } else {
        line
    }
}

/// The first line at or behind `line` that is not blank, or the number of lines.
pub open spec fn skip_blank_lines(t: Seq<char>, line: int) -> int
    decreases rope::line_count(t) - line,
{
    if line < rope::line_count(t) && is_blank_line(t, line) {
        skip_blank_lines(t, line + 1)
    } else {
        line
    }
}

/// Where the next paragraph starts, or the end of the text.
pub open spec fn paragraph_forward(t: Seq<char>, pos: int) -> int {
    let line = rope::line_of(t, lesser(pos, t.len() as int)) as int;
    rope::line_start(t, skip_blank_lines(t, skip_paragraph(t, line)))
}

/// The last line at or in front of `line` that is not blank, or 0.
pub open spec fn back_over_blank_lines(t: Seq<char>, line: int) -> int
    decreases line,
{
    if line > 0 && is_blank_line(t, line) {
        back_over_blank_lines(t, line - 1)
    } else {
        line
    }
}

/// The last line at or in front of `line` that is blank, or 0.
pub open spec fn back_over_paragraph(t: Seq<char>, line: int) -> int
    decreases line,
{
    if line > 0 && !is_blank_line(t, line) {
        back_over_paragraph(t, line - 1)
    } else {
        line
    }
}

/// The line on which the paragraph starts that `line` belongs to.
pub open spec fn paragraph_start(t: Seq<char>, line: int) -> int
    decreases line,
{
    if line > 0 && !is_blank_line(t, line - 1) {
        paragraph_start(t, line - 1)
    } else {
        line
    }
}

/// The line on which the paragraph starts that lies in front of `line`, where a
/// paragraph starts.
pub open spec fn previous_paragraph(t: Seq<char>, line: int) -> int {
    let l = back_over_paragraph(t, back_over_blank_lines(t, line - 1));
    if is_blank_line(t, l) && l + 1 < rope::line_count(t) {
        l + 1
    } else {
        l
    }
}

/// Where the paragraph around `pos` starts; from the start of a line that is
/// not blank, where the paragraph before it does.
pub open spec fn paragraph_backward(t: Seq<char>, pos: int) -> int {
    let p = lesser(pos, t.len() as int);
    let line = rope::line_of(t, p) as int;
    if line == 0 {
        0
    } else if p == rope::line_start(t, line) && !is_blank_line(t, line) {
        rope::line_start(t, previous_paragraph(t, line))
    } else {
        rope::line_start(t, paragraph_start(t, line))
    }
}

// --- Lines ---

/// The number of characters of a line in front of its last one, which ends it;
/// on the last line, all of them. 0 for a line behind the last.
pub open spec fn line_len(t: Seq<char>, line: int) -> int {
    if line >= rope::line_count(t) {
        0
    } else if line + 1 < rope::line_count(t) {
        rope::line_start(t, line + 1) - rope::line_start(t, line) - 1
    } else {
        t.len() - rope::line_start(t, line)
    }
}

/// The end of the line that `pos` is on: in front of the character that ends
/// it, or the end of the text.
pub open spec fn line_end(t: Seq<char>, pos: int) -> int {
    if pos >= t.len() {
        t.len() as int
    } else if rope::line_of(t, pos) + 1 < rope::line_count(t) {
        rope::line_start(t, (rope::line_of(t, pos) + 1) as int) - 1
    } else {
        t.len() as int
    }
}

/// The position on `line` with the column of `pos`, or the end of `line` where
/// it is shorter.
pub open spec fn same_column(t: Seq<char>, pos: int, line: int) -> int {
    let column = pos - rope::line_start(t, rope::line_of(t, pos) as int);
    rope::line_start(t, line) + lesser(column, line_len(t, line))
}

/// One line up from `pos`; `pos` itself on the first line.
pub open spec fn line_up(t: Seq<char>, pos: int) -> int {
    if t.len() == 0 {
        0
    } else if rope::line_of(t, pos) == 0 {
        pos
    } else {
        same_column(t, pos, rope::line_of(t, pos) - 1)
    }
}

/// One line down from `pos`; `pos` itself on the last line.
pub open spec fn line_down(t: Seq<char>, pos: int) -> int {
    if t.len() == 0 {
        0
    } else if rope::line_of(t, pos) + 1 >= rope::line_count(t) {
        pos
    } else {
        same_column(t, pos, (rope::line_of(t, pos) + 1) as int)
    }
}

// --- Highlighting under whole edits ---

/// The spans after `op` was made.
pub open spec fn spans_after(op: EditOp, spans: Seq<HighlightSpan>) -> Seq<HighlightSpan>
    decreases op,
{
    match op {
        EditOp::Insert { pos, text } => syntax::spans_after_insert(spans, pos, text@.len() as usize),
        EditOp::Delete { pos, text } => syntax::spans_after_delete(
            spans,
            pos,
            (pos + text@.len()) as usize,
        ),
        EditOp::Group(ops) => spans_after_seq(ops@, spans),
    }
}

/// The spans after `ops` were made, first to last.
pub open spec fn spans_after_seq(ops: Seq<EditOp>, spans: Seq<HighlightSpan>) -> Seq<HighlightSpan>
    decreases ops,
{
    if ops.len() == 0 {
        spans
    } else {
        spans_after(ops.last(), spans_after_seq(ops.drop_last(), spans))
    }
}

/// The spans after `op` was taken back.
pub open spec fn spans_before(op: EditOp, spans: Seq<HighlightSpan>) -> Seq<HighlightSpan>
    decreases op,
{
    match op {
        EditOp::Insert { pos, text } => syntax::spans_after_delete(
            spans,
            pos,
            (pos + text@.len()) as usize,
        ),
        EditOp::Delete { pos, text } => syntax::spans_after_insert(
            spans,
            pos,
            text@.len() as usize,
        ),
        EditOp::Group(ops) => spans_before_seq(ops@, spans),
    }
}

/// The spans after `ops` were taken back, last to first.
pub open spec fn spans_before_seq(ops: Seq<EditOp>, spans: Seq<HighlightSpan>) -> Seq<HighlightSpan>
    decreases ops,
{
    if ops.len() == 0 {
        spans
    } else {
        spans_before_seq(ops.drop_last(), spans_before(ops.last(), spans))
    }
}

/// Where the cursor stands after `op` was taken back: where an insertion was,
/// behind a deletion, and after a group where its first change puts it.
pub open spec fn cursor_before(op: EditOp) -> int
    decreases op,
{
    match op {
        EditOp::Insert { pos, text } => pos as int,
        EditOp::Delete { pos, text } => pos + text@.len(),
        EditOp::Group(ops) => cursor_before_seq(ops@),
    }
}

/// The cursor after the first of `ops` was taken back, or 0 where there is none.
pub open spec fn cursor_before_seq(ops: Seq<EditOp>) -> int
    decreases ops,
{
    if ops.len() == 0 {
        0
    } else {
        cursor_before(ops.first())
    }
}

proof fn reversal_effects(op: EditOp, r: EditOp, spans: Seq<HighlightSpan>)
    requires
        undo::reverses(op, r),
    ensures
        undo::cursor_after(r) == cursor_before(op),
        spans_after(r, spans) == spans_before(op, spans),
    decreases op,
{
    match op {
        EditOp::Group(ops) => {
            reversal_effects_seq(ops@, r->Group_0@, spans);
        },
        _ => {},
    }
}

proof fn reversal_effects_seq(ops: Seq<EditOp>, rs: Seq<EditOp>, spans: Seq<HighlightSpan>)
    requires
        undo::reverses_seq(ops, rs),
    ensures
        undo::cursor_after_seq(rs) == cursor_before_seq(ops),
        spans_after_seq(rs, spans) == spans_before_seq(ops, spans),
    decreases ops,
{
    if ops.len() > 0 {
        let s1 = spans_before(ops.last(), spans);
        reversal_effects(ops.last(), rs.first(), spans);
        reversal_effects_seq(ops.drop_last(), rs.drop_first(), s1);
        spans_after_seq_first(rs, spans);
        if ops.len() == 1 {
            assert(rs.drop_first().len() == 0);
            assert(rs.last() == rs.first());
            assert(ops.first() == ops.last());
        } else {
            assert(ops.drop_last().first() == ops.first());
            assert(rs.drop_first().len() > 0);
            assert(rs.drop_first().last() == rs.last());
        }
    }
}

proof fn spans_after_seq_first(ops: Seq<EditOp>, spans: Seq<HighlightSpan>)
    requires
        ops.len() > 0,
    ensures
        spans_after_seq(ops, spans) == spans_after_seq(
            ops.drop_first(),
            spans_after(ops.first(), spans),
        ),
    decreases ops.len(),
{
    if ops.len() == 1 {
        assert(spans_after_seq(ops.drop_last(), spans) == spans);
        assert(spans_after_seq(ops.drop_first(), spans_after(ops.first(), spans)) == spans_after(
            ops.first(),
            spans,
        ));
    } else {
        spans_after_seq_first(ops.drop_last(), spans);
        assert(ops.drop_last().drop_first() =~= ops.drop_first().drop_last());
        assert(ops.drop_last().first() == ops.first());
        assert(ops.drop_first().last() == ops.last());
    }
}

/// The internal data of a buffer: the text and what belongs to it.
#[derive(Debug)]
pub struct BufferInner {
    /// Title or file name.
    pub object: String,
    /// Modes, the primary one first.
    pub modes: Vec<ModeId>,
    pub buffer: Rope,
    /// Where the mark is, if it is set.
    pub mark: Option<usize>,
    /// Whether a cursor movement that does not select clears the mark.
    pub transient_mark: bool,
    pub spans: SpanStore,
    /// Major mode name, such as "julia-mode".
    pub major_mode: Option<String>,
    /// Whether line numbers and line states are shown beside the text.
    pub show_gutter: bool,
    pub undo_manager: UndoManager,
}

impl BufferInner {
    /// The characters of the buffer.
    pub open spec fn text(&self) -> Seq<char> {
        rope::rope_text(self.buffer)
    }

    /// Whether the history leads up to the text, so that it can be walked.
    pub open spec fn history_ok(&self) -> bool {
        self.undo_manager.tracks(self.text())
    }

    /// Whether two states agree but for text, spans, history and mark.
    pub open spec fn same_settings(&self, other: &Self) -> bool {
        &&& self.object == other.object
        &&& self.modes == other.modes
        &&& self.major_mode == other.major_mode
        &&& self.show_gutter == other.show_gutter
    }

    /// Whether two states have the same mark.
    pub open spec fn same_mark(&self, other: &Self) -> bool {
        &&& self.mark == other.mark
        &&& self.transient_mark == other.transient_mark
    }

    /// Whether `after` is this buffer with `ins` put in front of `pos`: the
    /// text, the spans moved, and the edit recorded.
    pub open spec fn inserted(&self, after: &Self, pos: int, ins: Seq<char>) -> bool {
        &&& after.text() == undo::spliced(self.text(), pos, ins)
        &&& after.spans@ == syntax::spans_after_insert(self.spans@, pos as usize, ins.len() as usize)
        &&& self.recorded(after)
        &&& after.undo_manager.pending@.last() matches EditOp::Insert { pos: p, text } && p == pos
            && text@ == ins
        &&& self.same_settings(after)
        &&& self.history_ok() ==> after.history_ok()
    }

    /// Whether `after` is this buffer without the characters from `start` up to
    /// `end`: the text, the spans moved, and the edit recorded.
    pub open spec fn deleted(&self, after: &Self, start: int, end: int) -> bool {
        &&& after.text() == undo::cut(self.text(), start, end)
        &&& after.spans@ == syntax::spans_after_delete(self.spans@, start as usize, end as usize)
        &&& self.recorded(after)
        &&& after.undo_manager.pending@.last() matches EditOp::Delete { pos: p, text } && p
            == start && text@ == self.text().subrange(start, end)
        &&& self.same_settings(after)
        &&& self.history_ok() ==> after.history_ok()
    }

    /// Whether the history of `after` has one more pending edit.
    pub open spec fn recorded(&self, after: &Self) -> bool {
        let h0 = self.undo_manager;
        let h1 = after.undo_manager;
        &&& h1.pending@.len() == h0.pending@.len() + 1
        &&& h1.pending@.drop_last() == h0.pending@
        &&& h1.undo_stack@ == h0.undo_stack@
        &&& h1.redo_stack@.len() == 0
        &&& h1.group_depth == h0.group_depth
    }

    /// An empty buffer.
    pub fn new(modes: &[ModeId]) -> (b: Self)
        ensures
            b.text() == Seq::<char>::empty(),
            b.object@ == Seq::<char>::empty(),
            b.modes@ == modes@,
            b.mark is None,
            !b.transient_mark,
            b.spans@.len() == 0,
            b.major_mode is None,
            !b.show_gutter,
            b.undo_manager.is_blank(),
            b.undo_manager.group_depth == 0,
            b.history_ok(),
    {
        let own = copy_modes(modes);
        BufferInner {
            object: String::new(),
            modes: own,
            buffer: rope_new(),
            mark: None,
            transient_mark: false,
            spans: SpanStore::new(),
            major_mode: None,
            show_gutter: false,
            undo_manager: UndoManager::new(),
        }
    }

    /// A buffer that visits the file `file_path`, which holds `content`.
    pub fn from_content(file_path: &str, content: &str, modes: &[ModeId]) -> (b: Self)
        ensures
            b.text() == content@,
            b.object@ == file_path@,
            b.modes@ == modes@,
            b.mark is None,
            !b.transient_mark,
            b.spans@.len() == 0,
            b.major_mode is None,
            b.show_gutter,
            b.undo_manager.is_blank(),
            b.undo_manager.group_depth == 0,
            b.history_ok(),
    {
        let own = copy_modes(modes);
        BufferInner {
            object: file_path.to_owned(),
            modes: own,
            buffer: rope_from_str(content),
            mark: None,
            transient_mark: false,
            spans: SpanStore::new(),
            major_mode: None,
            show_gutter: true,
            undo_manager: UndoManager::new(),
        }
    }

    /// Replaces the text. Mark, spans and history stay as they are.
    pub fn load_str(&mut self, text: &str)
        ensures
            final(self).text() == text@,
            *final(self) == (BufferInner { buffer: final(self).buffer, ..*old(self) }),
            old(self).undo_manager.is_blank() ==> final(self).history_ok(),
    {
        self.buffer = rope_from_str(text);
    }

    /// Puts `fragment` in at a column and line.
    pub fn insert_col_line(&mut self, fragment: String, position: (u16, u16))
        requires
            position.1 <= rope::line_count(old(self).text()),
            rope::line_start(old(self).text(), position.1 as int) + position.0 <= old(
                self,
            ).text().len(),
        ensures
            old(self).inserted(
                final(self),
                rope::line_start(old(self).text(), position.1 as int) + position.0,
                fragment@,
            ),
            old(self).same_mark(final(self)),
    {
        let length = rope_len_chars(&self.buffer);
        proof {
            rope::line_start_facts(self.text(), position.1 as int);
        }
        let location = self.to_char_index(position.0, position.1);
        assert(location <= length);
        self.insert_pos(fragment, location);
    }

    /// Puts `fragment` in front of the character at `position`.
    pub fn insert_pos(&mut self, fragment: String, position: usize)
        requires
            position <= old(self).text().len(),
        ensures
            old(self).inserted(final(self), position as int, fragment@),
            old(self).same_mark(final(self)),
    {
        let ghost before = *self;
        let len = char_count(fragment.as_str());
        self.undo_manager.record_insert(position, fragment.clone());
        rope_insert(&mut self.buffer, position, fragment.as_str());
        self.spans.adjust_for_insert(position, len);
        proof {
            let op = self.undo_manager.pending@.last();
            assert(self.undo_manager.pending@.drop_last() =~= before.undo_manager.pending@);
            if before.history_ok() {
                assert(undo::applies(op, before.text()));
                assert(undo::apply(op, before.text()) == self.text());
                UndoManager::record_keeps_track(
                    before.undo_manager,
                    self.undo_manager,
                    op,
                    before.text(),
                );
            }
        }
    }

    /// Takes out `count` characters at a column and line; for a negative count,
    /// those in front of it.
    pub fn delete_col_line(&mut self, position: (u16, u16), count: isize) -> (r: Option<String>)
        requires
            position.1 <= rope::line_count(old(self).text()),
        ensures
            deletion(
                *old(self),
                *final(self),
                syntax::capped_sum(
                    rope::line_start(old(self).text(), position.1 as int) as usize,
                    position.0 as usize,
                ) as int,
                count as int,
                r,
            ),
    {
        let location = self.to_char_index(position.0, position.1);
        proof {
            rope::line_start_facts(self.text(), position.1 as int);
        }
        let length = rope_len_chars(&self.buffer);
        assert(rope::line_start(self.text(), position.1 as int) <= length);
        self.delete_pos(location, count)
    }

    /// Takes out `count` characters at `position`; for a negative count, those
    /// in front of it. Nothing happens where there are not as many.
    pub fn delete_pos(&mut self, position: usize, count: isize) -> (r: Option<String>)
        ensures
            deletion(*old(self), *final(self), position as int, count as int, r),
    {
        let length = rope_len_chars(&self.buffer);
        let start: usize;
        let end: usize;
        if count < 0 {
            if position > length || (position as i128) + (count as i128) < 0 {
                return None;
            }
            start = ((position as i128) + (count as i128)) as usize;
            end = position;
        } else {
            if (position as i128) + (count as i128) > (length as i128) {
                return None;
            }
            start = position;
            end = position + count as usize;
        }
        Some(self.take_out(start, end))
    }

    /// Takes out the characters from `start` up to `end` and records it.
    fn take_out(&mut self, start: usize, end: usize) -> (gone: String)
        requires
            start <= end <= old(self).text().len(),
        ensures
            gone@ == old(self).text().subrange(start as int, end as int),
            old(self).deleted(final(self), start as int, end as int),
            old(self).same_mark(final(self)),
    {
        let ghost before = *self;
        let gone = rope_slice(&self.buffer, start, end);
        self.undo_manager.record_delete(start, gone.clone());
        rope_remove(&mut self.buffer, start, end);
        self.spans.adjust_for_delete(start, end);
        proof {
            let op = self.undo_manager.pending@.last();
            assert(self.undo_manager.pending@.drop_last() =~= before.undo_manager.pending@);
            if before.history_ok() {
                assert(undo::applies(op, before.text()));
                assert(undo::apply(op, before.text()) == self.text());
                UndoManager::record_keeps_track(
                    before.undo_manager,
                    self.undo_manager,
                    op,
                    before.text(),
                );
            }
        }
        gone
    }

    /// The end of the line that `start_pos` is on.
    pub fn eol_pos(&self, start_pos: usize) -> (r: usize)
        ensures
            r == line_end(self.text(), start_pos as int),
    {
        let length = rope_len_chars(&self.buffer);
        if length == 0 {
            return 0;
        }
        if start_pos >= length {
            return length;
        }
        let line = rope_char_to_line(&self.buffer, start_pos);
        let count = rope_len_lines(&self.buffer);
        proof {
            rope::position_within_line(self.text(), start_pos as int);
        }
        if line + 1 < count {
            let next = rope_line_to_char(&self.buffer, line + 1);
            next - 1
        } else {
            length
        }
    }

    /// The column and line of a position; past the end, those of the end.
    pub fn to_column_line(&self, char_index: usize) -> (r: (u16, u16))
        ensures
            ({
                let t = self.text();
                let p = lesser(char_index as int, t.len() as int);
                let line = rope::line_of(t, p) as int;
                r == ((p - rope::line_start(t, line)) as u16, line as u16)
            }),
    {
        let p = self.clamp_position(char_index);
        let line = rope_char_to_line(&self.buffer, p);
        proof {
            rope::position_within_line(self.text(), p as int);
        }
        let start = rope_line_to_char(&self.buffer, line);
        ((p - start) as u16, line as u16)
    }

    /// The position `col` characters behind the start of a line.
    pub fn to_char_index(&self, col: u16, line: u16) -> (r: usize)
        requires
            line <= rope::line_count(self.text()),
        ensures
            r == syntax::capped_sum(rope::line_start(self.text(), line as int) as usize, col as usize),
    {
        let start = rope_line_to_char(&self.buffer, line as usize);
        start.saturating_add(col as usize)
    }

    /// One character to the left.
    pub fn move_left(&self, pos: usize) -> (r: usize)
        ensures
            r == if pos > 0 {
                pos - 1
            } else {
                0
            },
    {
        pos.saturating_sub(1)
    }

    /// One character to the right.
    pub fn move_right(&self, pos: usize) -> (r: usize)
        requires
            pos < usize::MAX,
        ensures
            r == lesser(pos + 1, self.text().len() as int),
    {
        let length = rope_len_chars(&self.buffer);
        if pos + 1 <= length {
            pos + 1
        } else {
            length
        }
    }

    /// One line up, in the same column where the line is long enough.
    pub fn move_up(&self, pos: usize) -> (r: usize)
        requires
            pos <= self.text().len() || self.text().len() == 0,
        ensures
            r == line_up(self.text(), pos as int),
            r <= self.text().len(),
    {
        let length = rope_len_chars(&self.buffer);
        if length == 0 {
            return 0;
        }
        let line = rope_char_to_line(&self.buffer, pos);
        if line == 0 {
            return pos;
        }
        proof {
            rope::position_within_line(self.text(), pos as int);
        }
        self.column_on(pos, line, line - 1)
    }

    /// One line down, in the same column where the line is long enough.
    pub fn move_down(&self, pos: usize) -> (r: usize)
        requires
            pos <= self.text().len() || self.text().len() == 0,
        ensures
            r == line_down(self.text(), pos as int),
            r <= self.text().len(),
    {
        let length = rope_len_chars(&self.buffer);
        if length == 0 {
            return 0;
        }
        let line = rope_char_to_line(&self.buffer, pos);
        let count = rope_len_lines(&self.buffer);
        proof {
            rope::position_within_line(self.text(), pos as int);
        }
        if line + 1 >= count {
            return pos;
        }
        self.column_on(pos, line, line + 1)
    }

    /// The position on line `target` in the column that `pos` has on `line`.
    fn column_on(&self, pos: usize, line: usize, target: usize) -> (r: usize)
        requires
            pos <= self.text().len(),
            line == rope::line_of(self.text(), pos as int),
            target < rope::line_count(self.text()),
        ensures
            r == same_column(self.text(), pos as int, target as int),
            r <= self.text().len(),
    {
        proof {
            rope::position_within_line(self.text(), pos as int);
            rope::line_starts_increase(self.text(), target as int);
            rope::line_start_facts(self.text(), target as int);
            rope::line_start_facts(self.text(), target + 1);
        }
        let length = rope_len_chars(&self.buffer);
        let start = rope_line_to_char(&self.buffer, line);
        let column = pos - start;
        let target_start = rope_line_to_char(&self.buffer, target);
        let target_len = self.line_length(target);
        if column <= target_len {
            target_start + column
        } else {
            target_start + target_len
        }
    }

    /// The start of the line.
    pub fn move_line_start(&self, pos: usize) -> (r: usize)
        requires
            pos <= self.text().len() || self.text().len() == 0,
        ensures
            self.text().len() == 0 ==> r == 0,
            self.text().len() > 0 ==> r == rope::line_start(
                self.text(),
                rope::line_of(self.text(), pos as int) as int,
            ),
    {
        let length = rope_len_chars(&self.buffer);
        if length == 0 {
            return 0;
        }
        let line = rope_char_to_line(&self.buffer, pos);
        proof {
            rope::position_within_line(self.text(), pos as int);
        }
        rope_line_to_char(&self.buffer, line)
    }

    /// The end of the line.
    pub fn move_line_end(&self, pos: usize) -> (r: usize)
        ensures
            r == line_end(self.text(), pos as int),
    {
        self.eol_pos(pos)
    }

    pub fn move_buffer_start(&self) -> (r: usize)
        ensures
            r == 0,
    {
        0
    }

    pub fn move_buffer_end(&self) -> (r: usize)
        ensures
            r == self.text().len(),
    {
        rope_len_chars(&self.buffer)
    }

    /// The length of a line without the character that ends it.
    pub fn line_length(&self, line: usize) -> (r: usize)
        ensures
            r == line_len(self.text(), line as int),
    {
        let count = rope_len_lines(&self.buffer);
        if line >= count {
            return 0;
        }
        proof {
            rope::line_starts_increase(self.text(), line as int);
            rope::line_start_facts(self.text(), line as int);
        }
        let start = rope_line_to_char(&self.buffer, line);
        if line + 1 < count {
            let next = rope_line_to_char(&self.buffer, line + 1);
            next - start - 1
        } else {
            let length = rope_len_chars(&self.buffer);
            length - start
        }
    }

    /// The position itself, or the end where it lies behind.
    pub fn clamp_position(&self, pos: usize) -> (r: usize)
        ensures
            r == lesser(pos as int, self.text().len() as int),
    {
        let length = rope_len_chars(&self.buffer);
        if pos <= length {
            pos
        } else {
            length
        }
    }

    fn pass_space(&self, from: usize) -> (r: usize)
        requires
            from <= self.text().len(),
        ensures
            r == skip_space(self.text(), from as int),
            r <= self.text().len(),
    {
        let length = rope_len_chars(&self.buffer);
        let mut p: usize = from;
        while p < length
            invariant_except_break
                p <= length,
                length == self.text().len(),
                skip_space(self.text(), p as int) == skip_space(self.text(), from as int),
            ensures
                p == skip_space(self.text(), from as int),
                p <= self.text().len(),
            decreases length - p,
        {
            if !rope_char(&self.buffer, p).is_whitespace() {
                break;
            }
            p = p + 1;
        }
        p
    }

    fn pass_word(&self, from: usize) -> (r: usize)
        requires
            from <= self.text().len(),
        ensures
            r == skip_word(self.text(), from as int),
            r <= self.text().len(),
    {
        let length = rope_len_chars(&self.buffer);
        let mut p: usize = from;
        while p < length
            invariant_except_break
                p <= length,
                length == self.text().len(),
                skip_word(self.text(), p as int) == skip_word(self.text(), from as int),
            ensures
                p == skip_word(self.text(), from as int),
                p <= self.text().len(),
            decreases length - p,
        {
            if rope_char(&self.buffer, p).is_whitespace() {
                break;
            }
            p = p + 1;
        }
        p
    }

    /// The start of the next word.
    pub fn move_word_forward(&self, pos: usize) -> (r: usize)
        ensures
            r == word_forward(self.text(), pos as int),
            r <= self.text().len(),
    {
        let p = self.clamp_position(pos);
        let at_word = self.pass_space(p);
        let behind_word = self.pass_word(at_word);
        self.pass_space(behind_word)
    }

    /// The start of the word in front of `pos`.
    pub fn move_word_backward(&self, pos: usize) -> (r: usize)
        ensures
            r == word_backward(self.text(), pos as int),
            r <= self.text().len(),
    {
        let mut p = self.clamp_position(pos);
        if p == 0 {
            return 0;
        }
        p = p - 1;
        let ghost from = p as int;
        while p > 0
            invariant_except_break
                p < self.text().len(),
                back_over_space(self.text(), p as int) == back_over_space(self.text(), from),
            ensures
                p == back_over_space(self.text(), from),
                p < self.text().len(),
            decreases p,
        {
            if !rope_char(&self.buffer, p).is_whitespace() {
                break;
            }
            p = p - 1;
        }
        let ghost mid = p as int;
        while p > 0
            invariant_except_break
                p < self.text().len(),
                back_over_word(self.text(), p as int) == back_over_word(self.text(), mid),
            ensures
                p == back_over_word(self.text(), mid),
                p < self.text().len(),
            decreases p,
        {
            if rope_char(&self.buffer, p - 1).is_whitespace() {
                break;
            }
            p = p - 1;
        }
        p
    }

    /// Whether a line holds white space only.
    fn is_line_blank(&self, line_idx: usize) -> (r: bool)
        ensures
            r == is_blank_line(self.text(), line_idx as int),
    {
        let count = rope_len_lines(&self.buffer);
        if line_idx >= count {
            return true;
        }
        let line = rope_line(&self.buffer, line_idx);
        let chars = str_chars(line.as_str());
        let mut i: usize = 0;
        while i < chars.len()
            invariant
                i <= chars@.len(),
                chars@ == rope::line_text(self.text(), line_idx as int),
                line_idx < rope::line_count(self.text()),
                forall|j: int|
                    0 <= j < i ==> text::is_space(
                        #[trigger] rope::line_text(self.text(), line_idx as int)[j],
                    ),
            decreases chars.len() - i,
        {
            if !chars[i].is_whitespace() {
                assert(!text::is_space(rope::line_text(self.text(), line_idx as int)[i as int]));
                return false;
            }
            i = i + 1;
        }
        true
    }

    /// The start of the next paragraph.
    pub fn move_paragraph_forward(&self, pos: usize) -> (r: usize)
        ensures
            r == paragraph_forward(self.text(), pos as int),
            r <= self.text().len(),
    {
        let p = self.clamp_position(pos);
        let current = rope_char_to_line(&self.buffer, p);
        let total = rope_len_lines(&self.buffer);
        proof {
            rope::position_within_line(self.text(), p as int);
        }
        let mut line: usize = current;
        while line < total && !self.is_line_blank(line)
            invariant
                line <= total,
                total == rope::line_count(self.text()),
                skip_paragraph(self.text(), line as int) == skip_paragraph(
                    self.text(),
                    current as int,
                ),
            decreases total - line,
        {
            line = line + 1;
        }
        let ghost mid = line as int;
        while line < total && self.is_line_blank(line)
            invariant
                line <= total,
                total == rope::line_count(self.text()),
                skip_blank_lines(self.text(), line as int) == skip_blank_lines(self.text(), mid),
            decreases total - line,
        {
            line = line + 1;
        }
        proof {
            rope::line_start_facts(self.text(), line as int);
        }
        rope_line_to_char(&self.buffer, line)
    }

    /// The start of the paragraph, or of the one before it.
    pub fn move_paragraph_backward(&self, pos: usize) -> (r: usize)
        ensures
            r == paragraph_backward(self.text(), pos as int),
            r <= self.text().len(),
    {
        let p = self.clamp_position(pos);
        let current = rope_char_to_line(&self.buffer, p);
        let total = rope_len_lines(&self.buffer);
        proof {
            rope::position_within_line(self.text(), p as int);
        }
        if current == 0 {
            return 0;
        }
        let mut line: usize = current;
        let start = rope_line_to_char(&self.buffer, current);
        if p == start && !self.is_line_blank(current) {
            line = line - 1;
            while line > 0 && self.is_line_blank(line)
                invariant
                    line < total,
                    total == rope::line_count(self.text()),
                    back_over_blank_lines(self.text(), line as int) == back_over_blank_lines(
                        self.text(),
                        current - 1,
                    ),
                decreases line,
            {
                line = line - 1;
            }
            let ghost mid = line as int;
            while line > 0 && !self.is_line_blank(line)
                invariant
                    line < total,
                    total == rope::line_count(self.text()),
                    back_over_paragraph(self.text(), line as int) == back_over_paragraph(
                        self.text(),
                        mid,
                    ),
                decreases line,
            {
                line = line - 1;
            }
            if self.is_line_blank(line) && line + 1 < total {
                line = line + 1;
            }
        } else {
            while line > 0 && !self.is_line_blank(line - 1)
                invariant
                    line < total,
                    total == rope::line_count(self.text()),
                    paragraph_start(self.text(), line as int) == paragraph_start(
                        self.text(),
                        current as int,
                    ),
                decreases line,
            {
                line = line - 1;
            }
        }
        proof {
            rope::line_start_facts(self.text(), line as int);
        }
        rope_line_to_char(&self.buffer, line)
    }

    // --- Mark and region ---

    /// Sets the mark; it stays until it is cleared.
    pub fn set_mark(&mut self, pos: usize)
        ensures
            *final(self) == (BufferInner {
                mark: Some(lesser(pos as int, old(self).text().len() as int) as usize),
                transient_mark: false,
                ..*old(self)
            }),
    {
        self.mark = Some(self.clamp_position(pos));
        self.transient_mark = false;
    }

    /// Sets a mark that the next movement without selection clears.
    pub fn set_transient_mark(&mut self, pos: usize)
        ensures
            *final(self) == (BufferInner {
                mark: Some(lesser(pos as int, old(self).text().len() as int) as usize),
                transient_mark: true,
                ..*old(self)
            }),
    {
        self.mark = Some(self.clamp_position(pos));
        self.transient_mark = true;
    }

    /// Clears the mark.
    pub fn clear_mark(&mut self)
        ensures
            *final(self) == (BufferInner { mark: None, transient_mark: false, ..*old(self) }),
    {
        self.mark = None;
        self.transient_mark = false;
    }

    /// Clears the mark where it is a transient one, and says whether it was.
    pub fn clear_transient_mark(&mut self) -> (r: bool)
        ensures
            r == (old(self).transient_mark && old(self).mark is Some),
            r ==> *final(self) == (BufferInner {
                mark: None,
                transient_mark: false,
                ..*old(self)
            }),
            !r ==> *final(self) == *old(self),
    {
        if self.transient_mark && self.mark.is_some() {
            self.mark = None;
            self.transient_mark = false;
            true
        } else {
            false
        }
    }

    pub fn get_mark(&self) -> (r: Option<usize>)
        ensures
            r == self.mark,
    {
        self.mark
    }

    pub fn has_mark(&self) -> (r: bool)
        ensures
            r == (self.mark is Some),
    {
        self.mark.is_some()
    }

    pub fn is_transient_mark(&self) -> (r: bool)
        ensures
            r == (self.transient_mark && self.mark is Some),
    {
        self.transient_mark && self.mark.is_some()
    }

    /// The whole text.
    pub fn content(&self) -> (r: String)
        ensures
            r@ == self.text(),
    {
        rope_to_string(&self.buffer)
    }

    /// The region between mark and cursor, in order, if the mark is set.
    pub open spec fn region(&self, cursor: int) -> Option<(int, int)> {
        match self.mark {
            None => None,
            Some(m) => {
                let end = self.text().len() as int;
                let a = lesser(m as int, end);
                let b = lesser(cursor, end);
                if a <= b {
                    Some((a, b))
                } else {
                    Some((b, a))
                }
            },
        }
    }

    /// The bounds of the region between mark and cursor.
    pub fn get_region(&self, cursor_pos: usize) -> (r: Option<(usize, usize)>)
        ensures
            match r {
                None => self.region(cursor_pos as int) is None,
                Some((a, b)) => {
                    &&& self.region(cursor_pos as int) == Some((a as int, b as int))
                    &&& a <= b <= self.text().len()
                },
            },
    {
        match self.mark {
            None => None,
            Some(m) => {
                let cursor = self.clamp_position(cursor_pos);
                let mark = self.clamp_position(m);
                if mark <= cursor {
                    Some((mark, cursor))
                } else {
                    Some((cursor, mark))
                }
            },
        }
    }

    /// The text of the region between mark and cursor.
    pub fn get_region_text(&self, cursor_pos: usize) -> (r: Option<String>)
        ensures
            match (self.region(cursor_pos as int), r) {
                (None, None) => true,
                (Some((a, b)), Some(s)) => s@ == self.text().subrange(a, b),
                _ => false,
            },
    {
        match self.get_region(cursor_pos) {
            None => None,
            Some((start, end)) => Some(rope_slice(&self.buffer, start, end)),
        }
    }

    /// Takes the region out and clears the mark. Gives the text that went and
    /// where the cursor goes: to the start of the region, or nowhere where the
    /// region is empty.
    pub fn delete_region(&mut self, cursor_pos: usize) -> (r: Option<(String, usize)>)
        ensures
            match (old(self).region(cursor_pos as int), r) {
                (None, None) => *final(self) == *old(self),
                (Some((a, b)), Some((s, c))) => {
                    &&& s@ == old(self).text().subrange(a, b)
                    &&& a == b ==> {
                        &&& c == cursor_pos
                        &&& *final(self) == (BufferInner {
                            mark: None,
                            transient_mark: false,
                            ..*old(self)
                        })
                    }
                    &&& a < b ==> {
                        &&& c == a
                        &&& old(self).deleted(final(self), a, b)
                        &&& final(self).mark is None
                        &&& !final(self).transient_mark
                    }
                },
                _ => false,
            },
    {
        match self.get_region(cursor_pos) {
            None => None,
            Some((start, end)) => {
                if start == end {
                    self.clear_mark();
                    let nothing = String::new();
                    assert(nothing@ =~= old(self).text().subrange(start as int, end as int));
                    return Some((nothing, cursor_pos));
                }
                let gone = self.take_out(start, end);
                self.clear_mark();
                Some((gone, start))
            },
        }
    }

    /// Takes out the characters from `start` up to `end`, if there are any.
    pub fn delete_range(&mut self, start: usize, end: usize) -> (r: Option<String>)
        ensures
            r is Some <==> start < end <= old(self).text().len(),
            r is None ==> *final(self) == *old(self),
            r matches Some(s) ==> {
                &&& s@ == old(self).text().subrange(start as int, end as int)
                &&& old(self).deleted(final(self), start as int, end as int)
                &&& old(self).same_mark(final(self))
            },
    {
        let length = rope_len_chars(&self.buffer);
        if start >= end || end > length {
            return None;
        }
        Some(self.take_out(start, end))
    }

    // --- Undo and redo ---

    /// Whether the positions of the latest entry lie in the text.
    pub open spec fn undo_fits(&self) -> bool {
        self.undo_manager.undo_fits(self.text().len() as int)
    }

    /// Whether the positions of the edit undone last lie in the text.
    pub open spec fn redo_fits(&self) -> bool {
        self.undo_manager.redo_fits(self.text().len() as int)
    }

    /// Takes back the latest entry of the history. Gives where the cursor goes.
    pub fn undo(&mut self) -> (r: Option<usize>)
        requires
            old(self).undo_fits(),
        ensures
            r is Some <==> old(self).undo_manager.pending@.len()
                + old(self).undo_manager.undo_stack@.len() > 0,
            old(self).history_ok() ==> final(self).history_ok(),
            old(self).same_settings(final(self)),
            old(self).same_mark(final(self)),
            r is None ==> {
                &&& final(self).text() == old(self).text()
                &&& final(self).spans@ == old(self).spans@
                &&& final(self).undo_manager.redo_stack@ == old(self).undo_manager.redo_stack@
                &&& final(self).undo_manager.undo_stack@.len() == 0
                &&& final(self).undo_manager.pending@.len() == 0
            },
            r matches Some(cursor) ==> old(self).undone(final(self), cursor as int),
    {
        let ghost before = *self;
        let popped = self.undo_manager.pop_undo();
        match popped {
            None => {
                proof {
                    assert(undo::taken_back_seq(before.undo_manager.pending@, before.text())
                        == before.text());
                }
                None
            },
            Some(op) => {
                let r = op.reverse();
                proof {
                    assert(before.undo_manager.undo_fits(before.text().len() as int));
                    undo::reverse_does_it(op, r, before.text());
                    reversal_effects(op, r, before.spans@);
                }
                let cursor = self.apply_edit_op(&r);
                self.undo_manager.did_undo(op);
                proof {
                    assert(self.undo_manager.redo_stack@.drop_last()
                        =~= before.undo_manager.redo_stack@);
                    assert(self.undo_manager.redo_stack@.last() == op);
                    assert(undo::taken_back_seq(self.undo_manager.pending@, self.text())
                        == self.text());
                    if before.history_ok() {
                        assert(before.undo_manager.tracks(before.text()));
                        undo::taken_back_applies_again(op, before.text());
                    }
                }
                Some(cursor)
            },
        }
    }

    /// Whether `after` is this buffer with the latest entry of its history
    /// taken back, and `cursor` where that puts the cursor. The entry moves to
    /// the edits that can be redone.
    pub open spec fn undone(&self, after: &Self, cursor: int) -> bool {
        let h0 = self.undo_manager;
        let h1 = after.undo_manager;
        let op = h1.redo_stack@.last();
        &&& h1.redo_stack@.len() == h0.redo_stack@.len() + 1
        &&& h1.redo_stack@.drop_last() == h0.redo_stack@
        &&& h1.pending@.len() == 0
        &&& if h0.pending@.len() > 0 {
            &&& UndoManager::is_sealed_entry(h0.pending@, op)
            &&& h1.undo_stack@ == h0.undo_stack@
        } else {
            &&& op == h0.undo_stack@.last()
            &&& h1.undo_stack@ == h0.undo_stack@.drop_last()
        }
        &&& after.text() == undo::taken_back(op, self.text())
        &&& after.spans@ == spans_before(op, self.spans@)
        &&& cursor == cursor_before(op)
    }

    /// Makes the edit again that was undone last. Gives where the cursor goes.
    pub fn redo(&mut self) -> (r: Option<usize>)
        requires
            old(self).redo_fits(),
        ensures
            r is Some <==> old(self).undo_manager.redo_stack@.len() > 0,
            old(self).history_ok() ==> final(self).history_ok(),
            old(self).same_settings(final(self)),
            old(self).same_mark(final(self)),
            r is None ==> {
                &&& final(self).text() == old(self).text()
                &&& final(self).spans@ == old(self).spans@
                &&& final(self).undo_manager.undo_stack@ == old(self).undo_manager.undo_stack@
                &&& final(self).undo_manager.pending@ == old(self).undo_manager.pending@
            },
            r matches Some(cursor) ==> old(self).redone(final(self), cursor as int),
    {
        let ghost before = *self;
        let popped = self.undo_manager.pop_redo();
        match popped {
            None => None,
            Some(op) => {
                let cursor = self.apply_edit_op(&op);
                self.undo_manager.did_redo(op);
                proof {
                    assert(self.undo_manager.undo_stack@.drop_last()
                        =~= before.undo_manager.undo_stack@);
                    assert(self.undo_manager.undo_stack@.last() == op);
                    if before.history_ok() {
                        undo::apply_can_be_taken_back(op, before.text());
                        assert(undo::taken_back_seq(self.undo_manager.pending@, self.text())
                            == self.text());
                        assert(undo::taken_back_seq(before.undo_manager.pending@, before.text())
                            == before.text());
                    }
                }
                Some(cursor)
            },
        }
    }

    /// Whether `after` is this buffer with the edit made again that was undone
    /// last, and `cursor` where that puts the cursor.
    pub open spec fn redone(&self, after: &Self, cursor: int) -> bool {
        let h0 = self.undo_manager;
        let h1 = after.undo_manager;
        let op = h0.redo_stack@.last();
        &&& h1.redo_stack@ == h0.redo_stack@.drop_last()
        &&& h1.undo_stack@.len() == h0.undo_stack@.len() + 1
        &&& h1.undo_stack@.drop_last() == h0.undo_stack@
        &&& h1.undo_stack@.last() == op
        &&& h1.pending@ == h0.pending@
        &&& after.text() == undo::apply(op, self.text())
        &&& after.spans@ == spans_after(op, self.spans@)
        &&& cursor == undo::cursor_after(op)
    }

    /// Makes an edit without recording it. Gives where the cursor goes.
    fn apply_edit_op(&mut self, op: &EditOp) -> (cursor: usize)
        requires
            undo::fits(*op, old(self).text().len() as int),
        ensures
            final(self).text() == undo::apply(*op, old(self).text()),
            final(self).spans@ == spans_after(*op, old(self).spans@),
            *final(self) == (BufferInner {
                buffer: final(self).buffer,
                spans: final(self).spans,
                ..*old(self)
            }),
            cursor == undo::cursor_after(*op),
        decreases op,
    {
        match op {
            EditOp::Insert { pos, text } => {
                let len = char_count(text.as_str());
                rope_insert(&mut self.buffer, *pos, text.as_str());
                self.spans.adjust_for_insert(*pos, len);
                let total = rope_len_chars(&self.buffer);
                assert(*pos + len <= total);
                *pos + len
            },
            EditOp::Delete { pos, text } => {
                let total = rope_len_chars(&self.buffer);
                let len = char_count(text.as_str());
                assert(*pos + len <= total);
                let end = *pos + len;
                rope_remove(&mut self.buffer, *pos, end);
                self.spans.adjust_for_delete(*pos, end);
                *pos
            },
            EditOp::Group(ops) => {
                let ghost before = *self;
                let mut cursor: usize = 0;
                let mut i: usize = 0;
                assert(ops@.take(0) =~= Seq::<EditOp>::empty());
                while i < ops.len()
                    invariant
                        i <= ops@.len(),
                        *op == EditOp::Group(*ops),
                        undo::fits_seq(ops@, before.text().len() as int),
                        self.text() == undo::apply_seq(ops@.take(i as int), before.text()),
                        self.spans@ == spans_after_seq(ops@.take(i as int), before.spans@),
                        *self == (BufferInner {
                            buffer: self.buffer,
                            spans: self.spans,
                            ..before
                        }),
                        cursor == undo::cursor_after_seq(ops@.take(i as int)),
                    decreases ops.len() - i,
                {
                    proof {
                        undo::fits_prefix(ops@, before.text().len() as int, i + 1);
                        undo::fits_prefix(ops@, before.text().len() as int, i as int);
                        undo::fits_seq_gives_len(ops@.take(i as int), before.text());
                        assert(ops@.take(i + 1).drop_last() =~= ops@.take(i as int));
                        assert(ops@.take(i + 1).last() == ops@[i as int]);
                        assert(decreases_to!(*op => op->Group_0));
                        assert(decreases_to!(*ops => ops@));
                        assert(decreases_to!(ops@ => ops@[i as int]));
                    }
                    cursor = self.apply_edit_op(&ops[i]);
                    i = i + 1;
                }
                assert(ops@.take(i as int) =~= ops@);
                cursor
            },
        }
    }

    pub fn can_undo(&self) -> (r: bool)
        ensures
            r == (self.undo_manager.pending@.len() + self.undo_manager.undo_stack@.len() > 0),
    {
        self.undo_manager.can_undo()
    }

    pub fn can_redo(&self) -> (r: bool)
        ensures
            r == (self.undo_manager.redo_stack@.len() > 0),
    {
        self.undo_manager.can_redo()
    }

    /// Opens a group: what follows until it closes is undone at once.
    pub fn begin_undo_group(&mut self)
        ensures
            *final(self) == (BufferInner {
                undo_manager: final(self).undo_manager,
                ..*old(self)
            }),
            group_begun(old(self).undo_manager, final(self).undo_manager),
            old(self).history_ok() ==> final(self).history_ok(),
    {
        self.undo_manager.begin_group();
    }

    /// Closes a group.
    pub fn end_undo_group(&mut self)
        ensures
            *final(self) == (BufferInner {
                undo_manager: final(self).undo_manager,
                ..*old(self)
            }),
            group_ended(old(self).undo_manager, final(self).undo_manager),
            old(self).history_ok() ==> final(self).history_ok(),
    {
        self.undo_manager.end_group();
    }

    /// Marks the end of a run of edits: the next edit is undone by itself.
    pub fn undo_boundary(&mut self)
        ensures
            *final(self) == (BufferInner {
                undo_manager: final(self).undo_manager,
                ..*old(self)
            }),
            run_ended(old(self).undo_manager, final(self).undo_manager),
            old(self).history_ok() ==> final(self).history_ok(),
    {
        self.undo_manager.boundary();
    }

    // --- Highlighting ---

    pub fn add_span(&mut self, span: HighlightSpan)
        ensures
            final(self).spans@ == old(self).spans@.push(span),
            *final(self) == (BufferInner { spans: final(self).spans, ..*old(self) }),
    {
        self.spans.add_span(span);
    }

    pub fn add_spans(&mut self, spans: Vec<HighlightSpan>)
        ensures
            final(self).spans@ == old(self).spans@ + spans@,
            *final(self) == (BufferInner { spans: final(self).spans, ..*old(self) }),
    {
        self.spans.add_spans(spans);
    }

    pub fn clear_spans(&mut self)
        ensures
            final(self).spans@.len() == 0,
            *final(self) == (BufferInner { spans: final(self).spans, ..*old(self) }),
    {
        self.spans.clear();
    }

    /// Drops the spans that overlap a range.
    pub fn clear_spans_in_range(&mut self, start: usize, end: usize)
        ensures
            final(self).spans@ == syntax::spans_apart(old(self).spans@, start as int, end as int),
            *final(self) == (BufferInner { spans: final(self).spans, ..*old(self) }),
    {
        self.spans.clear_range(start, end);
    }

    /// The face at a position.
    pub fn face_at(&self, pos: usize) -> (r: Option<FaceId>)
        ensures
            r == syntax::face_on_top(self.spans@, pos as int),
    {
        self.spans.face_at(pos)
    }

    /// The spans that overlap a range.
    pub fn spans_in_range(&self, start: usize, end: usize) -> (r: Vec<HighlightSpan>)
        ensures
            r@ == syntax::spans_overlapping(self.spans@, start as int, end as int),
    {
        self.spans.spans_in_range(start, end)
    }

    /// All spans.
    pub fn all_spans(&self) -> (r: &[HighlightSpan])
        ensures
            r@ == self.spans@,
    {
        self.spans.spans.as_slice()
    }

    pub fn has_spans(&self) -> (r: bool)
        ensures
            r == (self.spans@.len() > 0),
    {
        !self.spans.is_empty()
    }
}

/// Whether the pending edits of `before` are sealed into an entry in `after`.
pub open spec fn run_sealed(before: UndoManager, after: UndoManager) -> bool {
    if before.pending@.len() == 0 {
        after.undo_stack@ == before.undo_stack@ && after.pending@ == before.pending@
    } else {
        &&& after.pending@.len() == 0
        &&& after.undo_stack@.len() == before.undo_stack@.len() + 1
        &&& after.undo_stack@.drop_last() == before.undo_stack@
        &&& UndoManager::is_sealed_entry(before.pending@, after.undo_stack@.last())
    }
}

/// What the end of a run of edits does to a history: outside of groups it seals
/// the pending edits.
pub open spec fn run_ended(before: UndoManager, after: UndoManager) -> bool {
    &&& after.redo_stack@ == before.redo_stack@
    &&& after.group_depth == before.group_depth
    &&& if before.group_depth == 0 {
        run_sealed(before, after)
    } else {
        after.undo_stack@ == before.undo_stack@ && after.pending@ == before.pending@
    }
}

/// What the opening of a group does to a history.
pub open spec fn group_begun(before: UndoManager, after: UndoManager) -> bool {
    &&& after.redo_stack@ == before.redo_stack@
    &&& after.group_depth == syntax::capped_sum(before.group_depth, 1)
    &&& if before.group_depth == 0 {
        run_sealed(before, after)
    } else {
        after.undo_stack@ == before.undo_stack@ && after.pending@ == before.pending@
    }
}

/// What the closing of a group does to a history: the outermost one seals the
/// pending edits.
pub open spec fn group_ended(before: UndoManager, after: UndoManager) -> bool {
    &&& after.redo_stack@ == before.redo_stack@
    &&& after.group_depth == if before.group_depth > 0 {
        before.group_depth - 1
    } else {
        0
    }
    &&& if before.group_depth == 1 {
        run_sealed(before, after)
    } else {
        after.undo_stack@ == before.undo_stack@ && after.pending@ == before.pending@
    }
}

/// A position is found again from its column and line, as long as both fit
/// their numbers.
pub proof fn positions_convert_back(t: Seq<char>, pos: int)
    requires
        0 <= pos <= t.len() <= usize::MAX,
        rope::line_of(t, pos) <= u16::MAX,
        pos - rope::line_start(t, rope::line_of(t, pos) as int) <= u16::MAX,
    ensures
        ({
            let line = rope::line_of(t, pos) as int;
            let found = ((pos - rope::line_start(t, line)) as u16, line as u16);
            &&& found.1 <= rope::line_count(t)
            &&& syntax::capped_sum(
                rope::line_start(t, found.1 as int) as usize,
                found.0 as usize,
            ) == pos
        }),
{
    rope::position_within_line(t, pos);
    rope::line_start_facts(t, rope::line_of(t, pos) as int);
}

/// Undoing and redoing leads back to the text before the undo.
pub proof fn redo_restores_undone(
    a: BufferInner,
    b: BufferInner,
    c: BufferInner,
    undo_cursor: int,
    redo_cursor: int,
)
    requires
        a.history_ok(),
        a.undo_manager.pending@.len() + a.undo_manager.undo_stack@.len() > 0,
        a.undone(&b, undo_cursor),
        b.redone(&c, redo_cursor),
    ensures
        c.text() == a.text(),
{
    let op = b.undo_manager.redo_stack@.last();
    entry_can_be_taken_back(a, op);
    undo::taken_back_applies_again(op, a.text());
}

/// Redoing and undoing leads back to the text before the redo.
pub proof fn undo_restores_redone(
    a: BufferInner,
    b: BufferInner,
    c: BufferInner,
    redo_cursor: int,
    undo_cursor: int,
)
    requires
        a.history_ok(),
        a.undo_manager.redo_stack@.len() > 0,
        a.redone(&b, redo_cursor),
        b.undone(&c, undo_cursor),
    ensures
        c.text() == a.text(),
{
    let op = a.undo_manager.redo_stack@.last();
    undo::apply_can_be_taken_back(op, a.text());
}

/// An insertion that starts a run of edits is undone by one undo.
pub proof fn undo_restores_inserted(
    a: BufferInner,
    b: BufferInner,
    c: BufferInner,
    pos: int,
    ins: Seq<char>,
    cursor: int,
)
    requires
        0 <= pos <= a.text().len(),
        a.undo_manager.pending@.len() == 0,
        a.inserted(&b, pos, ins),
        b.undone(&c, cursor),
    ensures
        c.text() == a.text(),
        cursor == pos,
{
    assert(undo::cut(undo::spliced(a.text(), pos, ins), pos, pos + ins.len()) =~= a.text());
}

/// A deletion that starts a run of edits is undone by one undo.
pub proof fn undo_restores_deleted(
    a: BufferInner,
    b: BufferInner,
    c: BufferInner,
    start: int,
    end: int,
    cursor: int,
)
    requires
        0 <= start <= end <= a.text().len(),
        a.undo_manager.pending@.len() == 0,
        a.deleted(&b, start, end),
        b.undone(&c, cursor),
    ensures
        c.text() == a.text(),
        cursor == end,
{
    assert(undo::spliced(
        undo::cut(a.text(), start, end),
        start,
        a.text().subrange(start, end),
    ) =~= a.text());
}

proof fn entry_can_be_taken_back(b: BufferInner, op: EditOp)
    requires
        b.history_ok(),
        if b.undo_manager.pending@.len() > 0 {
            UndoManager::is_sealed_entry(b.undo_manager.pending@, op)
        } else {
            b.undo_manager.undo_stack@.len() > 0 && op == b.undo_manager.undo_stack@.last()
        },
    ensures
        undo::can_take_back(op, b.text()),
{
    let run = b.undo_manager.pending@;
    if run.len() == 0 {
        assert(undo::taken_back_seq(run, b.text()) == b.text());
    }
}

/// What a deletion of `count` characters at `pos` does to a buffer, and what it
/// gives: the characters behind `pos`, or in front of it for a negative count.
/// Where there are not as many, nothing changes.
pub open spec fn deletion(
    before: BufferInner,
    after: BufferInner,
    pos: int,
    count: int,
    r: Option<String>,
) -> bool {
    let start = if count < 0 {
        pos + count
    } else {
        pos
    };
    let end = if count < 0 {
        pos
    } else {
        pos + count
    };
    if 0 <= start && end <= before.text().len() {
        &&& r matches Some(s) && s@ == before.text().subrange(start, end)
        &&& before.deleted(&after, start, end)
        &&& before.same_mark(&after)
    } else {
        &&& r is None
        &&& after == before
    }
}

fn copy_modes(modes: &[ModeId]) -> (r: Vec<ModeId>)
    ensures
        r@ == modes@,
{
    let mut own: Vec<ModeId> = Vec::new();
    let mut i: usize = 0;
    while i < modes.len()
        invariant
            i <= modes@.len(),
            own@ == modes@.take(i as int),
        decreases modes.len() - i,
    {
        own.push(modes[i]);
        i = i + 1;
    }
    assert(own@ =~= modes@);
    own
}

/// A buffer as the rest of the editor sees it.
#[derive(Debug)]
pub struct Buffer {
    pub inner: BufferInner,
}

impl Buffer {
    /// The characters of the buffer.
    pub open spec fn text(&self) -> Seq<char> {
        self.inner.text()
    }

    /// An empty buffer.
    pub fn new(modes: &[ModeId]) -> (b: Self)
        ensures
            b.text() == Seq::<char>::empty(),
            b.inner.object@ == Seq::<char>::empty(),
            b.inner.modes@ == modes@,
            b.inner.mark is None,
            !b.inner.transient_mark,
            b.inner.spans@.len() == 0,
            b.inner.major_mode is None,
            !b.inner.show_gutter,
            b.inner.undo_manager.is_blank(),
            b.inner.undo_manager.group_depth == 0,
            b.inner.history_ok(),
    {
        Buffer { inner: BufferInner::new(modes) }
    }

    /// A buffer that visits the file `file_path`, which holds `content`.
    pub fn from_content(file_path: &str, content: &str, modes: &[ModeId]) -> (b: Self)
        ensures
            b.text() == content@,
            b.inner.object@ == file_path@,
            b.inner.modes@ == modes@,
            b.inner.mark is None,
            !b.inner.transient_mark,
            b.inner.spans@.len() == 0,
            b.inner.major_mode is None,
            b.inner.show_gutter,
            b.inner.undo_manager.is_blank(),
            b.inner.undo_manager.group_depth == 0,
            b.inner.history_ok(),
    {
        Buffer { inner: BufferInner::from_content(file_path, content, modes) }
    }

    /// The column and line of a position; past the end, those of the end.
    pub fn to_column_line(&self, char_index: usize) -> (r: (u16, u16))
        ensures
            ({
                let t = self.inner.text();
                let p = lesser(char_index as int, t.len() as int);
                let line = rope::line_of(t, p) as int;
                r == ((p - rope::line_start(t, line)) as u16, line as u16)
            }),
    {
        self.inner.to_column_line(char_index)
    }

    /// The position `col` characters behind the start of a line.
    pub fn to_char_index(&self, col: u16, line: u16) -> (r: usize)
        requires
            line <= rope::line_count(self.inner.text()),
        ensures
            r == syntax::capped_sum(rope::line_start(self.inner.text(), line as int) as usize, col as usize),
    {
        self.inner.to_char_index(col, line)
    }

    pub fn has_mark(&self) -> (r: bool)
        ensures
            r == (self.inner.mark is Some),
    {
        self.inner.has_mark()
    }

    /// The bounds of the region between mark and cursor.
    pub fn get_region(&self, cursor_pos: usize) -> (r: Option<(usize, usize)>)
        ensures
            match r {
                None => self.inner.region(cursor_pos as int) is None,
                Some((a, b)) => {
                    &&& self.inner.region(cursor_pos as int) == Some((a as int, b as int))
                    &&& a <= b <= self.inner.text().len()
                },
            },
    {
        self.inner.get_region(cursor_pos)
    }

    /// One character to the left.
    pub fn move_left(&self, pos: usize) -> (r: usize)
        ensures
            r == if pos > 0 {
                pos - 1
            } else {
                0
            },
    {
        self.inner.move_left(pos)
    }

    /// One character to the right.
    pub fn move_right(&self, pos: usize) -> (r: usize)
        requires
            pos < usize::MAX,
        ensures
            r == lesser(pos + 1, self.inner.text().len() as int),
    {
        self.inner.move_right(pos)
    }

    /// One line up, in the same column where the line is long enough.
    pub fn move_up(&self, pos: usize) -> (r: usize)
        requires
            pos <= self.inner.text().len() || self.inner.text().len() == 0,
        ensures
            r == line_up(self.inner.text(), pos as int),
            r <= self.inner.text().len(),
    {
        self.inner.move_up(pos)
    }

    /// One line down, in the same column where the line is long enough.
    pub fn move_down(&self, pos: usize) -> (r: usize)
        requires
            pos <= self.inner.text().len() || self.inner.text().len() == 0,
        ensures
            r == line_down(self.inner.text(), pos as int),
            r <= self.inner.text().len(),
    {
        self.inner.move_down(pos)
    }

    /// The start of the line.
    pub fn move_line_start(&self, pos: usize) -> (r: usize)
        requires
            pos <= self.inner.text().len() || self.inner.text().len() == 0,
        ensures
            self.inner.text().len() == 0 ==> r == 0,
            self.inner.text().len() > 0 ==> r == rope::line_start(
                self.inner.text(),
                rope::line_of(self.inner.text(), pos as int) as int,
            ),
    {
        self.inner.move_line_start(pos)
    }

    /// The end of the line.
    pub fn move_line_end(&self, pos: usize) -> (r: usize)
        ensures
            r == line_end(self.inner.text(), pos as int),
    {
        self.inner.move_line_end(pos)
    }

    pub fn move_buffer_start(&self) -> (r: usize)
        ensures
            r == 0,
    {
        self.inner.move_buffer_start()
    }

    pub fn move_buffer_end(&self) -> (r: usize)
        ensures
            r == self.inner.text().len(),
    {
        self.inner.move_buffer_end()
    }

    /// The end of the line that `start_pos` is on.
    pub fn eol_pos(&self, start_pos: usize) -> (r: usize)
        ensures
            r == line_end(self.inner.text(), start_pos as int),
    {
        self.inner.eol_pos(start_pos)
    }

    /// The start of the next word.
    pub fn move_word_forward(&self, pos: usize) -> (r: usize)
        ensures
            r == word_forward(self.inner.text(), pos as int),
            r <= self.inner.text().len(),
    {
        self.inner.move_word_forward(pos)
    }

    /// The start of the word in front of `pos`.
    pub fn move_word_backward(&self, pos: usize) -> (r: usize)
        ensures
            r == word_backward(self.inner.text(), pos as int),
            r <= self.inner.text().len(),
    {
        self.inner.move_word_backward(pos)
    }

    /// The start of the next paragraph.
    pub fn move_paragraph_forward(&self, pos: usize) -> (r: usize)
        ensures
            r == paragraph_forward(self.inner.text(), pos as int),
            r <= self.inner.text().len(),
    {
        self.inner.move_paragraph_forward(pos)
    }

    /// The start of the paragraph, or of the one before it.
    pub fn move_paragraph_backward(&self, pos: usize) -> (r: usize)
        ensures
            r == paragraph_backward(self.inner.text(), pos as int),
            r <= self.inner.text().len(),
    {
        self.inner.move_paragraph_backward(pos)
    }

    /// Puts `fragment` in front of the character at `position`.
    pub fn insert_pos(&mut self, fragment: String, position: usize)
        requires
            position <= old(self).inner.text().len(),
        ensures
            old(self).inner.inserted(&final(self).inner, position as int, fragment@),
            old(self).inner.same_mark(&final(self).inner),
    {
        self.inner.insert_pos(fragment, position);
    }

    /// Puts `fragment` in at a column and line.
    pub fn insert_col_line(&mut self, fragment: String, position: (u16, u16))
        requires
            position.1 <= rope::line_count(old(self).inner.text()),
            rope::line_start(old(self).inner.text(), position.1 as int) + position.0 <= old(self).inner.text().len(),
        ensures
            old(self).inner.inserted(&final(self).inner,
                rope::line_start(old(self).inner.text(), position.1 as int) + position.0,
                fragment@,
            ),
            old(self).inner.same_mark(&final(self).inner),
    {
        self.inner.insert_col_line(fragment, position);
    }

    /// Takes out `count` characters at `position`; for a negative count, those
    /// in front of it. Nothing happens where there are not as many.
    pub fn delete_pos(&mut self, position: usize, count: isize) -> (r: Option<String>)
        ensures
            deletion(old(self).inner, final(self).inner, position as int, count as int, r),
    {
        self.inner.delete_pos(position, count)
    }

    /// Takes out `count` characters at a column and line; for a negative count,
    /// those in front of it.
    pub fn delete_col_line(&mut self, position: (u16, u16), count: isize) -> (r: Option<String>)
        requires
            position.1 <= rope::line_count(old(self).inner.text()),
        ensures
            deletion(
                old(self).inner,
                final(self).inner,
                syntax::capped_sum(
                    rope::line_start(old(self).inner.text(), position.1 as int) as usize,
                    position.0 as usize,
                ) as int,
                count as int,
                r,
            ),
    {
        self.inner.delete_col_line(position, count)
    }

    /// Sets the mark; it stays until it is cleared.
    pub fn set_mark(&mut self, pos: usize)
        ensures
            final(self).inner == (BufferInner {
                mark: Some(lesser(pos as int, old(self).inner.text().len() as int) as usize),
                transient_mark: false,
                ..old(self).inner
            }),
    {
        self.inner.set_mark(pos);
    }

    /// Sets a mark that the next movement without selection clears.
    pub fn set_transient_mark(&mut self, pos: usize)
        ensures
            final(self).inner == (BufferInner {
                mark: Some(lesser(pos as int, old(self).inner.text().len() as int) as usize),
                transient_mark: true,
                ..old(self).inner
            }),
    {
        self.inner.set_transient_mark(pos);
    }

    /// Clears the mark.
    pub fn clear_mark(&mut self)
        ensures
            final(self).inner == (BufferInner { mark: None, transient_mark: false, ..old(self).inner }),
    {
        self.inner.clear_mark();
    }

    /// Clears the mark where it is a transient one, and says whether it was.
    pub fn clear_transient_mark(&mut self) -> (r: bool)
        ensures
            r == (old(self).inner.transient_mark && old(self).inner.mark is Some),
            r ==> final(self).inner == (BufferInner {
                mark: None,
                transient_mark: false,
                ..old(self).inner
            }),
            !r ==> final(self).inner == old(self).inner,
    {
        self.inner.clear_transient_mark()
    }

    pub fn is_transient_mark(&self) -> (r: bool)
        ensures
            r == (self.inner.transient_mark && self.inner.mark is Some),
    {
        self.inner.is_transient_mark()
    }

    /// Takes the region out and clears the mark. Gives the text that went and
    /// where the cursor goes: to the start of the region, or nowhere where the
    /// region is empty.
    pub fn delete_region(&mut self, cursor_pos: usize) -> (r: Option<(String, usize)>)
        ensures
            match (old(self).inner.region(cursor_pos as int), r) {
                (None, None) => final(self).inner == old(self).inner,
                (Some((a, b)), Some((s, c))) => {
                    &&& s@ == old(self).inner.text().subrange(a, b)
                    &&& a == b ==> {
                        &&& c == cursor_pos
                        &&& final(self).inner == (BufferInner {
                            mark: None,
                            transient_mark: false,
                            ..old(self).inner
                        })
                    }
                    &&& a < b ==> {
                        &&& c == a
                        &&& old(self).inner.deleted(&final(self).inner, a, b)
                        &&& final(self).inner.mark is None
                        &&& !final(self).inner.transient_mark
                    }
                },
                _ => false,
            },
    {
        self.inner.delete_region(cursor_pos)
    }

    /// Takes out the characters from `start` up to `end`, if there are any.
    pub fn delete_region_range(&mut self, start: usize, end: usize) -> (r: Option<String>)
        ensures
            r is Some <==> start < end <= old(self).inner.text().len(),
            r is None ==> final(self).inner == old(self).inner,
            r matches Some(s) ==> {
                &&& s@ == old(self).inner.text().subrange(start as int, end as int)
                &&& old(self).inner.deleted(&final(self).inner, start as int, end as int)
                &&& old(self).inner.same_mark(&final(self).inner)
            },
    {
        self.inner.delete_range(start, end)
    }

    /// Takes back the latest entry of the history. Gives where the cursor goes.
    pub fn undo(&mut self) -> (r: Option<usize>)
        requires
            old(self).inner.undo_fits(),
        ensures
            r is Some <==> old(self).inner.undo_manager.pending@.len()
                + old(self).inner.undo_manager.undo_stack@.len() > 0,
            old(self).inner.history_ok() ==> final(self).inner.history_ok(),
            old(self).inner.same_settings(&final(self).inner),
            old(self).inner.same_mark(&final(self).inner),
            r is None ==> {
                &&& final(self).inner.text() == old(self).inner.text()
                &&& final(self).inner.spans@ == old(self).inner.spans@
                &&& final(self).inner.undo_manager.redo_stack@ == old(self).inner.undo_manager.redo_stack@
                &&& final(self).inner.undo_manager.undo_stack@.len() == 0
                &&& final(self).inner.undo_manager.pending@.len() == 0
            },
            r matches Some(cursor) ==> old(self).inner.undone(&final(self).inner, cursor as int),
    {
        self.inner.undo()
    }

    /// Makes the edit again that was undone last. Gives where the cursor goes.
    pub fn redo(&mut self) -> (r: Option<usize>)
        requires
            old(self).inner.redo_fits(),
        ensures
            r is Some <==> old(self).inner.undo_manager.redo_stack@.len() > 0,
            old(self).inner.history_ok() ==> final(self).inner.history_ok(),
            old(self).inner.same_settings(&final(self).inner),
            old(self).inner.same_mark(&final(self).inner),
            r is None ==> {
                &&& final(self).inner.text() == old(self).inner.text()
                &&& final(self).inner.spans@ == old(self).inner.spans@
                &&& final(self).inner.undo_manager.undo_stack@ == old(self).inner.undo_manager.undo_stack@
                &&& final(self).inner.undo_manager.pending@ == old(self).inner.undo_manager.pending@
            },
            r matches Some(cursor) ==> old(self).inner.redone(&final(self).inner, cursor as int),
    {
        self.inner.redo()
    }

    pub fn can_undo(&self) -> (r: bool)
        ensures
            r == (self.inner.undo_manager.pending@.len() + self.inner.undo_manager.undo_stack@.len() > 0),
    {
        self.inner.can_undo()
    }

    pub fn can_redo(&self) -> (r: bool)
        ensures
            r == (self.inner.undo_manager.redo_stack@.len() > 0),
    {
        self.inner.can_redo()
    }

    /// Opens a group: what follows until it closes is undone at once.
    pub fn begin_undo_group(&mut self)
        ensures
            final(self).inner == (BufferInner {
                undo_manager: final(self).inner.undo_manager,
                ..old(self).inner
            }),
            group_begun(old(self).inner.undo_manager, final(self).inner.undo_manager),
            old(self).inner.history_ok() ==> final(self).inner.history_ok(),
    {
        self.inner.begin_undo_group();
    }

    /// Closes a group.
    pub fn end_undo_group(&mut self)
        ensures
            final(self).inner == (BufferInner {
                undo_manager: final(self).inner.undo_manager,
                ..old(self).inner
            }),
            group_ended(old(self).inner.undo_manager, final(self).inner.undo_manager),
            old(self).inner.history_ok() ==> final(self).inner.history_ok(),
    {
        self.inner.end_undo_group();
    }

    /// Marks the end of a run of edits: the next edit is undone by itself.
    pub fn undo_boundary(&mut self)
        ensures
            final(self).inner == (BufferInner {
                undo_manager: final(self).inner.undo_manager,
                ..old(self).inner
            }),
            run_ended(old(self).inner.undo_manager, final(self).inner.undo_manager),
            old(self).inner.history_ok() ==> final(self).inner.history_ok(),
    {
        self.inner.undo_boundary();
    }

    /// Replaces the text. Mark, spans and history stay as they are.
    pub fn load_str(&mut self, text: &str)
        ensures
            final(self).inner.text() == text@,
            final(self).inner == (BufferInner { buffer: final(self).inner.buffer, ..old(self).inner }),
            old(self).inner.undo_manager.is_blank() ==> final(self).inner.history_ok(),
    {
        self.inner.load_str(text);
    }

    /// The whole text.
    pub fn content(&self) -> (r: String)
        ensures
            r@ == self.inner.text(),
    {
        self.inner.content()
    }

    pub fn get_mark(&self) -> (r: Option<usize>)
        ensures
            r == self.inner.mark,
    {
        self.inner.get_mark()
    }

    /// The text of the region between mark and cursor.
    pub fn get_region_text(&self, cursor_pos: usize) -> (r: Option<String>)
        ensures
            match (self.inner.region(cursor_pos as int), r) {
                (None, None) => true,
                (Some((a, b)), Some(s)) => s@ == self.inner.text().subrange(a, b),
                _ => false,
            },
    {
        self.inner.get_region_text(cursor_pos)
    }

    pub fn add_span(&mut self, span: HighlightSpan)
        ensures
            final(self).inner.spans@ == old(self).inner.spans@.push(span),
            final(self).inner == (BufferInner { spans: final(self).inner.spans, ..old(self).inner }),
    {
        self.inner.add_span(span);
    }

    pub fn add_spans(&mut self, spans: Vec<HighlightSpan>)
        ensures
            final(self).inner.spans@ == old(self).inner.spans@ + spans@,
            final(self).inner == (BufferInner { spans: final(self).inner.spans, ..old(self).inner }),
    {
        self.inner.add_spans(spans);
    }

    pub fn clear_spans(&mut self)
        ensures
            final(self).inner.spans@.len() == 0,
            final(self).inner == (BufferInner { spans: final(self).inner.spans, ..old(self).inner }),
    {
        self.inner.clear_spans();
    }

    /// Drops the spans that overlap a range.
    pub fn clear_spans_in_range(&mut self, start: usize, end: usize)
        ensures
            final(self).inner.spans@ == syntax::spans_apart(old(self).inner.spans@, start as int, end as int),
            final(self).inner == (BufferInner { spans: final(self).inner.spans, ..old(self).inner }),
    {
        self.inner.clear_spans_in_range(start, end);
    }

    /// The face at a position.
    pub fn face_at(&self, pos: usize) -> (r: Option<FaceId>)
        ensures
            r == syntax::face_on_top(self.inner.spans@, pos as int),
    {
        self.inner.face_at(pos)
    }

    /// The spans that overlap a range.
    pub fn spans_in_range(&self, start: usize, end: usize) -> (r: Vec<HighlightSpan>)
        ensures
            r@ == syntax::spans_overlapping(self.inner.spans@, start as int, end as int),
    {
        self.inner.spans_in_range(start, end)
    }

    pub fn has_spans(&self) -> (r: bool)
        ensures
            r == (self.inner.spans@.len() > 0),
    {
        self.inner.has_spans()
    }

    /// Title or file name.
    pub fn object(&self) -> (r: String)
        ensures
            r == self.inner.object,
    {
        self.inner.object.clone()
    }

    pub fn set_object(&mut self, object: String)
        ensures
            final(self).inner == (BufferInner { object, ..old(self).inner }),
    {
        self.inner.object = object;
    }

    pub fn modes(&self) -> (r: Vec<ModeId>)
        ensures
            r@ == self.inner.modes@,
    {
        copy_modes(self.inner.modes.as_slice())
    }

    /// The number of lines.
    pub fn buffer_len_lines(&self) -> (r: usize)
        ensures
            r == rope::line_count(self.text()),
    {
        rope_len_lines(&self.inner.buffer)
    }

    /// A line, with the characters that end it.
    pub fn buffer_line(&self, line_idx: usize) -> (r: String)
        requires
            line_idx < rope::line_count(self.text()),
        ensures
            r@ == rope::line_text(self.text(), line_idx as int),
    {
        rope_line(&self.inner.buffer, line_idx)
    }

    /// Where a line starts.
    pub fn buffer_line_to_char(&self, line_idx: usize) -> (r: usize)
        requires
            line_idx <= rope::line_count(self.text()),
        ensures
            r == rope::line_start(self.text(), line_idx as int),
    {
        rope_line_to_char(&self.inner.buffer, line_idx)
    }

    /// All lines, with the characters that end them.
    pub fn buffer_lines(&self) -> (r: Vec<String>)
        ensures
            r@.len() == rope::line_count(self.text()),
            forall|i: int|
                0 <= i < r@.len() ==> (#[trigger] r@[i])@ == rope::line_text(self.text(), i),
    {
        let count = self.buffer_len_lines();
        let mut lines: Vec<String> = Vec::new();
        let mut i: usize = 0;
        while i < count
            invariant
                i <= count,
                count == rope::line_count(self.text()),
                lines@.len() == i,
                forall|j: int|
                    0 <= j < i ==> (#[trigger] lines@[j])@ == rope::line_text(self.text(), j),
            decreases count - i,
        {
            lines.push(self.buffer_line(i));
            i = i + 1;
        }
        lines
    }

    /// The number of characters.
    pub fn buffer_len_chars(&self) -> (r: usize)
        ensures
            r == self.text().len(),
    {
        rope_len_chars(&self.inner.buffer)
    }

    /// Major mode name.
    pub fn major_mode(&self) -> (r: Option<String>)
        ensures
            r == self.inner.major_mode,
    {
        match &self.inner.major_mode {
            Some(name) => Some(name.clone()),
            None => None,
        }
    }

    pub fn set_major_mode(&mut self, mode_name: String)
        ensures
            final(self).inner == (BufferInner { major_mode: Some(mode_name), ..old(self).inner }),
    {
        self.inner.major_mode = Some(mode_name);
    }

    pub fn show_gutter(&self) -> (r: bool)
        ensures
            r == self.inner.show_gutter,
    {
        self.inner.show_gutter
    }

    pub fn set_show_gutter(&mut self, show: bool)
        ensures
            final(self).inner == (BufferInner { show_gutter: show, ..old(self).inner }),
    {
        self.inner.show_gutter = show;
    }
}

} // verus!
