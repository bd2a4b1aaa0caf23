//! What the movements of the cursor do, in terms of the text around it.

use vstd::prelude::*;

use crate::buffer;
use crate::editor::{ChromeView, Editor, Window};
use crate::keys::{CursorDirection, KeyAction};
use crate::{rope, text};

verus! {

/// The key that moves the cursor, or moves it and selects.
pub open spec fn moving(direction: CursorDirection, selecting: bool) -> KeyAction {
    if selecting {
        KeyAction::CursorSelect(direction)
    } else {
        KeyAction::Cursor(direction)
    }
}

/// How many characters a position is behind the start of its line.
pub open spec fn column(t: Seq<char>, p: int) -> int {
    p - rope::line_start(t, rope::line_of(t, p) as int)
}

/// Whether the text of the active window is no longer than a text can be.
pub open spec fn has_text(e: Editor) -> bool {
    e.ready() && e.current().text().len() <= usize::MAX
}

/// A movement leaves the text as it is, and all windows but for the cursor of
/// the active one.
pub proof fn movement_leaves_the_text(
    e: Editor,
    f: Editor,
    direction: CursorDirection,
    selecting: bool,
    r: Seq<ChromeView>,
)
    requires
        e.ready(),
        e.performed(&f, moving(direction, selecting), r),
    ensures
        f.current().text() == e.current().text(),
        f.active_window == e.active_window,
        f.here() == (Window { cursor: f.here().cursor, ..e.here() }),
        f.windows@.remove(e.active_window) == e.windows@.remove(e.active_window),
        f.buffers@.remove(e.here().active_buffer) == e.buffers@.remove(e.here().active_buffer),
        f.kill_ring == e.kill_ring,
        f.window_tree == e.window_tree,
        f.ready(),
{
    assert(f.windows@.remove(e.active_window) =~= e.windows@.remove(e.active_window));
    assert(f.buffers@.remove(e.here().active_buffer) =~= e.buffers@.remove(
        e.here().active_buffer,
    ));
}

/// A movement that selects sets the mark where the cursor was, if there was
/// none; one that does not drops a mark that such a movement set. A mark that was
/// set otherwise stays.
pub proof fn movement_keeps_or_sets_the_mark(
    e: Editor,
    f: Editor,
    direction: CursorDirection,
    selecting: bool,
    r: Seq<ChromeView>,
)
    requires
        has_text(e),
        e.here().cursor <= e.current().text().len(),
        e.performed(&f, moving(direction, selecting), r),
    ensures
        selecting && e.current().mark is None ==> f.current().mark == Some(e.here().cursor),
        selecting && e.current().mark is Some ==> f.current().mark == e.current().mark,
        !selecting && e.current().transient_mark ==> f.current().mark is None,
        !selecting && !e.current().transient_mark ==> f.current().mark == e.current().mark,
{
    if !selecting && e.current().transient_mark {
        assert(f.current().mark is None || e.current().mark is None);
    }
}

pub(crate) proof fn arrives(
    e: Editor,
    f: Editor,
    direction: CursorDirection,
    selecting: bool,
    r: Seq<ChromeView>,
)
    requires
        e.ready(),
        e.performed(&f, moving(direction, selecting), r),
    ensures
        f.here().cursor == Editor::target(e.current().text(), e.here(), direction) as usize,
        f.current().text() == e.current().text(),
        f.here().height_chars == e.here().height_chars,
{
}

// --- By character ---

/// To the left the cursor goes in front of the character that was in front of
/// it, and to the right behind the one that was behind it; at the ends of the
/// text it stays.
pub proof fn left_and_right_pass_one_character(
    e: Editor,
    f: Editor,
    selecting: bool,
    r: Seq<ChromeView>,
)
    requires
        has_text(e),
        e.here().cursor <= e.current().text().len(),
    ensures
        e.performed(&f, moving(CursorDirection::Left, selecting), r) ==> {
            if e.here().cursor == 0 {
                f.here().cursor == 0
            } else {
                f.here().cursor + 1 == e.here().cursor
            }
        },
        e.performed(&f, moving(CursorDirection::Right, selecting), r) ==> {
            if e.here().cursor == e.current().text().len() {
                f.here().cursor == e.here().cursor
            } else {
                f.here().cursor == e.here().cursor + 1
            }
        },
{
    if e.performed(&f, moving(CursorDirection::Left, selecting), r) {
        arrives(e, f, CursorDirection::Left, selecting, r);
    }
    if e.performed(&f, moving(CursorDirection::Right, selecting), r) {
        arrives(e, f, CursorDirection::Right, selecting, r);
    }
}

/// One to the right and one to the left lead back, within the text.
pub proof fn right_then_left_leads_back(
    e: Editor,
    f: Editor,
    g: Editor,
    r: Seq<ChromeView>,
    s: Seq<ChromeView>,
)
    requires
        has_text(e),
        e.here().cursor < e.current().text().len(),
        e.performed(&f, KeyAction::Cursor(CursorDirection::Right), r),
        f.performed(&g, KeyAction::Cursor(CursorDirection::Left), s),
    ensures
        g.here().cursor == e.here().cursor,
{
    movement_leaves_the_text(e, f, CursorDirection::Right, false, r);
    left_and_right_pass_one_character(e, f, false, r);
    left_and_right_pass_one_character(f, g, false, s);
}

/// The two ends of the buffer are the first and the last position.
pub proof fn buffer_ends_are_the_outermost_positions(
    e: Editor,
    f: Editor,
    selecting: bool,
    r: Seq<ChromeView>,
)
    requires
        has_text(e),
    ensures
        e.performed(&f, moving(CursorDirection::BufferStart, selecting), r) ==> f.here().cursor
            == 0,
        e.performed(&f, moving(CursorDirection::BufferEnd, selecting), r) ==> f.here().cursor
            == f.current().text().len(),
{
    if e.performed(&f, moving(CursorDirection::BufferStart, selecting), r) {
        arrives(e, f, CursorDirection::BufferStart, selecting, r);
    }
    if e.performed(&f, moving(CursorDirection::BufferEnd, selecting), r) {
        arrives(e, f, CursorDirection::BufferEnd, selecting, r);
    }
}

// --- By line ---

proof fn on_line(t: Seq<char>, p: int, line: int)
    requires
        0 <= line < rope::line_count(t),
        rope::line_start(t, line) <= p <= t.len(),
        line + 1 < rope::line_count(t) ==> p < rope::line_start(t, line + 1),
    ensures
        rope::line_of(t, p) == line,
{
    rope::line_start_facts(t, line);
    rope::line_of_monotonic(t, rope::line_start(t, line), p);
    rope::line_of_monotonic(t, p, t.len() as int);
    if line + 1 < rope::line_count(t) {
        rope::line_start_facts(t, line + 1);
        assert(rope::line_of(t, p) < line + 1);
    }
}

proof fn line_ends_at(t: Seq<char>, line: int)
    requires
        0 <= line < rope::line_count(t),
    ensures
        ({
            let end = rope::line_start(t, line) + buffer::line_len(t, line);
            &&& buffer::line_len(t, line) >= 0
            &&& end <= t.len()
            &&& rope::line_of(t, end) == line
            &&& end == t.len() || rope::line_of(t, end + 1) > line
        }),
{
    let end = rope::line_start(t, line) + buffer::line_len(t, line);
    rope::line_start_facts(t, line);
    rope::line_starts_increase(t, line);
    if line + 1 < rope::line_count(t) {
        rope::line_start_facts(t, line + 1);
    }
    on_line(t, end, line);
}

proof fn same_column_facts(t: Seq<char>, p: int, line: int)
    requires
        0 <= p <= t.len(),
        0 <= line < rope::line_count(t),
    ensures
        ({
            let q = buffer::same_column(t, p, line);
            &&& 0 <= q <= t.len()
            &&& rope::line_of(t, q) == line
            &&& column(t, q) <= column(t, p)
            &&& column(t, q) == column(t, p) || q == t.len() || rope::line_of(t, q + 1) > line
        }),
{
    let q = buffer::same_column(t, p, line);
    rope::position_within_line(t, p);
    rope::line_start_facts(t, line);
    line_ends_at(t, line);
    if line + 1 < rope::line_count(t) {
        rope::line_start_facts(t, line + 1);
    }
    on_line(t, q, line);
}

/// Up, the cursor goes to the line above, to the same column or, where that line
/// is shorter, to its end. On the first line it stays.
pub proof fn up_leads_to_the_line_above(
    e: Editor,
    f: Editor,
    selecting: bool,
    r: Seq<ChromeView>,
)
    requires
        has_text(e),
        e.here().cursor <= e.current().text().len(),
        e.performed(&f, moving(CursorDirection::Up, selecting), r),
    ensures
        ({
            let t = e.current().text();
            let c = e.here().cursor as int;
            let d = f.here().cursor as int;
            if rope::line_of(t, c) == 0 {
                d == c
            } else {
                &&& d <= t.len()
                &&& rope::line_of(t, d) + 1 == rope::line_of(t, c)
                &&& column(t, d) <= column(t, c)
                &&& column(t, d) == column(t, c) || rope::line_of(t, d + 1) == rope::line_of(t, c)
            }
        }),
{
    let t = e.current().text();
    let c = e.here().cursor as int;
    arrives(e, f, CursorDirection::Up, selecting, r);
    if rope::line_of(t, c) > 0 {
        rope::position_within_line(t, c);
        let line = rope::line_of(t, c) - 1;
        same_column_facts(t, c, line);
        let q = buffer::same_column(t, c, line);
        if q == t.len() {
            rope::line_of_monotonic(t, c, q);
        } else {
            rope::line_of_monotonic(t, q, q + 1);
        }
    }
}

/// Down, the cursor goes to the line below, to the same column or, where that
/// line is shorter, to its end. On the last line it stays.
pub proof fn down_leads_to_the_line_below(
    e: Editor,
    f: Editor,
    selecting: bool,
    r: Seq<ChromeView>,
)
    requires
        has_text(e),
        e.here().cursor <= e.current().text().len(),
        e.performed(&f, moving(CursorDirection::Down, selecting), r),
    ensures
        ({
            let t = e.current().text();
            let c = e.here().cursor as int;
            let d = f.here().cursor as int;
            if rope::line_of(t, c) == rope::line_of(t, t.len() as int) {
                d == c
            } else {
                &&& d <= t.len()
                &&& rope::line_of(t, d) == rope::line_of(t, c) + 1
                &&& column(t, d) <= column(t, c)
                &&& column(t, d) == column(t, c) || d == t.len() || rope::line_of(t, d + 1)
                    > rope::line_of(t, d)
            }
        }),
{
    let t = e.current().text();
    let c = e.here().cursor as int;
    arrives(e, f, CursorDirection::Down, selecting, r);
    rope::position_within_line(t, c);
    if rope::line_of(t, c) < rope::line_of(t, t.len() as int) {
        same_column_facts(t, c, (rope::line_of(t, c) + 1) as int);
    }
}

proof fn place_is_line_and_column(t: Seq<char>, p: int, q: int)
    requires
        rope::line_of(t, p) == rope::line_of(t, q),
        column(t, p) == column(t, q),
    ensures
        p == q,
{
}

/// Down and up again lead back, where the line below reaches as far.
pub proof fn down_then_up_leads_back(
    e: Editor,
    f: Editor,
    g: Editor,
    r: Seq<ChromeView>,
    s: Seq<ChromeView>,
)
    requires
        has_text(e),
        e.here().cursor <= e.current().text().len(),
        e.performed(&f, KeyAction::Cursor(CursorDirection::Down), r),
        f.performed(&g, KeyAction::Cursor(CursorDirection::Up), s),
        f.here().cursor != e.here().cursor,
        column(e.current().text(), f.here().cursor as int) == column(
            e.current().text(),
            e.here().cursor as int,
        ),
    ensures
        g.here().cursor == e.here().cursor,
{
    let t = e.current().text();
    let c = e.here().cursor as int;
    movement_leaves_the_text(e, f, CursorDirection::Down, false, r);
    down_leads_to_the_line_below(e, f, false, r);
    up_leads_to_the_line_above(f, g, false, s);
    let d = g.here().cursor as int;
    if column(t, d) != column(t, c) {
        // The line of `c` would end in front of its column.
        rope::position_within_line(t, c);
        rope::position_within_line(t, d);
        rope::line_of_monotonic(t, d + 1, c);
    }
    place_is_line_and_column(t, d, c);
}

/// At the start of a line no position in front is on it, and at its end no
/// position behind; the cursor stays on its line.
pub proof fn line_ends_are_the_outermost_positions_of_the_line(
    e: Editor,
    f: Editor,
    selecting: bool,
    r: Seq<ChromeView>,
)
    requires
        has_text(e),
        e.here().cursor <= e.current().text().len(),
    ensures
        ({
            let t = e.current().text();
            let c = e.here().cursor as int;
            let d = f.here().cursor as int;
            &&& e.performed(&f, moving(CursorDirection::LineStart, selecting), r) ==> {
                &&& d <= c
                &&& rope::line_of(t, d) == rope::line_of(t, c)
                &&& d == 0 || rope::line_of(t, d - 1) < rope::line_of(t, d)
            }
            &&& e.performed(&f, moving(CursorDirection::LineEnd, selecting), r) ==> {
                &&& c <= d <= t.len()
                &&& rope::line_of(t, d) == rope::line_of(t, c)
                &&& d == t.len() || rope::line_of(t, d + 1) > rope::line_of(t, d)
            }
        }),
{
    let t = e.current().text();
    let c = e.here().cursor as int;
    let line = rope::line_of(t, c) as int;
    rope::position_within_line(t, c);
    rope::line_start_facts(t, line);
    if e.performed(&f, moving(CursorDirection::LineStart, selecting), r) {
        arrives(e, f, CursorDirection::LineStart, selecting, r);
        let d = f.here().cursor as int;
        if d > 0 {
            assert(rope::line_of(t, d - 1) < line);
        }
    }
    if e.performed(&f, moving(CursorDirection::LineEnd, selecting), r) {
        arrives(e, f, CursorDirection::LineEnd, selecting, r);
        line_ends_at(t, line);
        if line + 1 < rope::line_count(t) {
            rope::line_start_facts(t, line + 1);
        }
    }
}

/// The end of a line is on it, and what comes behind is not.
pub(crate) proof fn line_end_facts(t: Seq<char>, p: int)
    requires
        0 <= p < t.len(),
    ensures
        p <= buffer::line_end(t, p) <= t.len(),
        rope::line_of(t, buffer::line_end(t, p)) == rope::line_of(t, p),
        buffer::line_end(t, p) == t.len() || rope::line_of(t, buffer::line_end(t, p) + 1)
            > rope::line_of(t, p),
        buffer::line_end(t, p) == p <==> rope::line_of(t, p + 1) > rope::line_of(t, p),
{
    let line = rope::line_of(t, p) as int;
    rope::position_within_line(t, p);
    line_ends_at(t, line);
    if line + 1 < rope::line_count(t) {
        rope::line_start_facts(t, line + 1);
    }
    if p < buffer::line_end(t, p) {
        rope::line_of_monotonic(t, p + 1, buffer::line_end(t, p));
    }
}

// --- By page ---

/// The lines that a page passes over.
pub open spec fn page(e: Editor) -> int {
    if e.here().height_chars <= 3 {
        0
    } else {
        e.here().height_chars - 3
    }
}

/// Whether lines and columns are few enough to be counted.
pub open spec fn is_countable(e: Editor) -> bool {
    let t = e.current().text();
    &&& has_text(e)
    &&& t.len() + u16::MAX <= usize::MAX
    &&& rope::line_count(t) <= u16::MAX
    &&& e.here().cursor <= t.len()
    &&& column(t, e.here().cursor as int) <= u16::MAX
}

proof fn narrow(n: int)
    requires
        0 <= n <= u16::MAX,
    ensures
        n as u16 == n,
{
}

/// A page down leads as many lines down as a page has, or to the last line where
/// there are not as many, and keeps the column.
pub proof fn page_down_leads_down(e: Editor, f: Editor, selecting: bool, r: Seq<ChromeView>)
    requires
        is_countable(e),
        e.performed(&f, moving(CursorDirection::PageDown, selecting), r),
    ensures
        ({
            let t = e.current().text();
            let c = e.here().cursor as int;
            exists|line: int|
                {
                    &&& rope::line_of(t, c) <= line < rope::line_count(t)
                    &&& line <= rope::line_of(t, c) + page(e)
                    &&& line == rope::line_of(t, c) + page(e) || line + 1 == rope::line_count(t)
                    &&& f.here().cursor == #[trigger] rope::line_start(t, line) + column(t, c)
                }
        }),
{
    let t = e.current().text();
    let c = e.here().cursor as int;
    arrives(e, f, CursorDirection::PageDown, selecting, r);
    rope::position_within_line(t, c);
    let l = rope::line_of(t, c) as int;
    let last = rope::line_count(t) - 1;
    narrow(l);
    narrow(last);
    narrow(column(t, c));
    let line = buffer::lesser(l + page(e), last);
    rope::line_start_facts(t, line);
    assert(f.here().cursor == rope::line_start(t, line) + column(t, c));
}

/// A page up leads as many lines up as a page has, or to the first line where
/// there are not as many, and keeps the column.
pub proof fn page_up_leads_up(e: Editor, f: Editor, selecting: bool, r: Seq<ChromeView>)
    requires
        is_countable(e),
        e.performed(&f, moving(CursorDirection::PageUp, selecting), r),
    ensures
        ({
            let t = e.current().text();
            let c = e.here().cursor as int;
            exists|line: int|
                {
                    &&& 0 <= line <= rope::line_of(t, c)
                    &&& line >= rope::line_of(t, c) - page(e)
                    &&& line == rope::line_of(t, c) - page(e) || line == 0
                    &&& f.here().cursor == #[trigger] rope::line_start(t, line) + column(t, c)
                }
        }),
{
    let t = e.current().text();
    let c = e.here().cursor as int;
    arrives(e, f, CursorDirection::PageUp, selecting, r);
    rope::position_within_line(t, c);
    let l = rope::line_of(t, c) as int;
    narrow(l);
    narrow(column(t, c));
    let line = if l >= page(e) {
        l - page(e)
    } else {
        0
    };
    rope::line_start_facts(t, line);
    assert(f.here().cursor == rope::line_start(t, line) + column(t, c));
}

/// A page up after a page down gives back the cursor, where the text goes on for
/// a page and the line there reaches as far.
pub proof fn page_up_after_page_down_leads_back(
    e: Editor,
    f: Editor,
    g: Editor,
    r: Seq<ChromeView>,
    s: Seq<ChromeView>,
)
    requires
        is_countable(e),
        is_countable(f),
        e.performed(&f, KeyAction::Cursor(CursorDirection::PageDown), r),
        f.performed(&g, KeyAction::Cursor(CursorDirection::PageUp), s),
        ({
            let t = e.current().text();
            let c = e.here().cursor as int;
            &&& rope::line_of(t, c) + page(e) < rope::line_count(t)
            &&& rope::line_of(t, f.here().cursor as int) <= rope::line_of(t, c) + page(e)
        }),
    ensures
        g.here().cursor == e.here().cursor,
{
    let t = e.current().text();
    let c = e.here().cursor as int;
    movement_leaves_the_text(e, f, CursorDirection::PageDown, false, r);
    page_down_leads_down(e, f, false, r);
    page_up_leads_up(f, g, false, s);
    let line = rope::line_of(t, c) + page(e);
    let d = f.here().cursor as int;
    rope::position_within_line(t, c);
    rope::line_start_facts(t, line);
    rope::line_of_monotonic(t, rope::line_start(t, line), d);
    assert(rope::line_of(t, d) == line);
}

// --- By word ---

/// Whether the characters from `a` up to `b` are white space, or none of them is.
pub open spec fn run_of(t: Seq<char>, a: int, b: int, space: bool) -> bool {
    forall|i: int| a <= i < b ==> text::is_space(#[trigger] t[i]) == space
}

proof fn skip_space_facts(t: Seq<char>, p: int)
    requires
        0 <= p <= t.len(),
    ensures
        p <= buffer::skip_space(t, p) <= t.len(),
        run_of(t, p, buffer::skip_space(t, p), true),
        buffer::skip_space(t, p) < t.len() ==> !text::is_space(t[buffer::skip_space(t, p)]),
    decreases t.len() - p,
{
    if p < t.len() && text::is_space(t[p]) {
        skip_space_facts(t, p + 1);
    }
}

proof fn skip_word_facts(t: Seq<char>, p: int)
    requires
        0 <= p <= t.len(),
    ensures
        p <= buffer::skip_word(t, p) <= t.len(),
        run_of(t, p, buffer::skip_word(t, p), false),
        buffer::skip_word(t, p) < t.len() ==> text::is_space(t[buffer::skip_word(t, p)]),
    decreases t.len() - p,
{
    if p < t.len() && !text::is_space(t[p]) {
        skip_word_facts(t, p + 1);
    }
}

/// Forward by a word, the cursor passes over white space, the whole word behind
/// it and the white space behind that, and stops in front of the next word or at
/// the end of the text.
pub open spec fn passes_word_forward(t: Seq<char>, c: int, a: int, b: int, d: int) -> bool {
    &&& c <= a <= b <= d <= t.len()
    &&& run_of(t, c, a, true)
    &&& run_of(t, a, b, false)
    &&& run_of(t, b, d, true)
    &&& a < t.len() ==> a < b
    &&& b < t.len() ==> b < d
    &&& d < t.len() ==> !text::is_space(t[d])
}

pub(crate) proof fn word_forward_passes(t: Seq<char>, c: int)
    requires
        0 <= c <= t.len(),
    ensures
        exists|a: int, b: int| #[trigger]
            passes_word_forward(t, c, a, b, buffer::word_forward(t, c)),
{
    skip_space_facts(t, c);
    let a = buffer::skip_space(t, c);
    skip_word_facts(t, a);
    let b = buffer::skip_word(t, a);
    skip_space_facts(t, b);
    assert(passes_word_forward(t, c, a, b, buffer::word_forward(t, c)));
}

/// Forward by a word, the cursor passes over one word.
pub proof fn word_forward_passes_one_word(
    e: Editor,
    f: Editor,
    selecting: bool,
    r: Seq<ChromeView>,
)
    requires
        has_text(e),
        e.here().cursor <= e.current().text().len(),
        e.performed(&f, moving(CursorDirection::WordForward, selecting), r),
    ensures
        exists|a: int, b: int| #[trigger]
            passes_word_forward(
                e.current().text(),
                e.here().cursor as int,
                a,
                b,
                f.here().cursor as int,
            ),
{
    let t = e.current().text();
    let c = e.here().cursor as int;
    arrives(e, f, CursorDirection::WordForward, selecting, r);
    word_forward_passes(t, c);
    let (a, b) = choose|a: int, b: int| #[trigger]
        passes_word_forward(t, c, a, b, buffer::word_forward(t, c));
    assert(passes_word_forward(t, c, a, b, f.here().cursor as int));
}

proof fn back_over_space_facts(t: Seq<char>, p: int)
    requires
        0 <= p < t.len(),
    ensures
        0 <= buffer::back_over_space(t, p) <= p,
        run_of(t, buffer::back_over_space(t, p) + 1, p + 1, true),
        buffer::back_over_space(t, p) > 0 ==> !text::is_space(t[buffer::back_over_space(t, p)]),
    decreases p,
{
    if 0 < p && text::is_space(t[p]) {
        back_over_space_facts(t, p - 1);
    }
}

proof fn back_over_word_facts(t: Seq<char>, p: int)
    requires
        0 <= p <= t.len(),
    ensures
        0 <= buffer::back_over_word(t, p) <= p,
        run_of(t, buffer::back_over_word(t, p), p, false),
        buffer::back_over_word(t, p) > 0 ==> text::is_space(t[buffer::back_over_word(t, p) - 1]),
    decreases p,
{
    if 0 < p && !text::is_space(t[p - 1]) {
        back_over_word_facts(t, p - 1);
    }
}

/// Backward by a word, the cursor passes over white space and the whole word in
/// front of it, and stops where that starts.
pub open spec fn passes_word_backward(t: Seq<char>, c: int, b: int, d: int) -> bool {
    &&& 0 <= d <= b <= c
    &&& run_of(t, b, c, true)
    &&& run_of(t, d, b, false)
    &&& d > 0 ==> d < b && text::is_space(t[d - 1])
}

pub(crate) proof fn word_backward_passes(t: Seq<char>, c: int)
    requires
        0 <= c <= t.len(),
    ensures
        exists|b: int| #[trigger] passes_word_backward(t, c, b, buffer::word_backward(t, c)),
{
    if c == 0 {
        assert(passes_word_backward(t, c, 0, buffer::word_backward(t, c)));
    } else {
        back_over_space_facts(t, c - 1);
        let s = buffer::back_over_space(t, c - 1);
        back_over_word_facts(t, s);
        let d = buffer::back_over_word(t, s);
        let b = if text::is_space(t[s]) {
            s
        } else {
            s + 1
        };
        assert(passes_word_backward(t, c, b, buffer::word_backward(t, c)));
    }
}

/// Backward by a word, the cursor passes over one word.
pub proof fn word_backward_passes_one_word(
    e: Editor,
    f: Editor,
    selecting: bool,
    r: Seq<ChromeView>,
)
    requires
        has_text(e),
        e.here().cursor <= e.current().text().len(),
        e.performed(&f, moving(CursorDirection::WordBackward, selecting), r),
    ensures
        exists|b: int| #[trigger]
            passes_word_backward(
                e.current().text(),
                e.here().cursor as int,
                b,
                f.here().cursor as int,
            ),
{
    let t = e.current().text();
    let c = e.here().cursor as int;
    arrives(e, f, CursorDirection::WordBackward, selecting, r);
    word_backward_passes(t, c);
    let b = choose|b: int| #[trigger]
        passes_word_backward(t, c, b, buffer::word_backward(t, c));
    assert(passes_word_backward(t, c, b, f.here().cursor as int));
}

// --- By paragraph ---

/// Whether there is nothing but white space on a line.
pub open spec fn is_empty_line(t: Seq<char>, line: int) -> bool {
    forall|p: int|
        0 <= p < t.len() && #[trigger] rope::line_of(t, p) == line ==> text::is_space(t[p])
}

/// Whether the lines from `a` up to `b` are empty, or none of them is.
pub open spec fn lines_are(t: Seq<char>, a: int, b: int, empty: bool) -> bool {
    forall|l: int| a <= l < b ==> #[trigger] is_empty_line(t, l) == empty
}

proof fn empty_is_blank(t: Seq<char>, line: int)
    requires
        0 <= line < rope::line_count(t),
    ensures
        is_empty_line(t, line) == buffer::is_blank_line(t, line),
{
    let a = rope::line_start(t, line);
    let b = rope::line_start(t, line + 1);
    rope::line_start_facts(t, line);
    rope::line_start_facts(t, line + 1);
    rope::line_starts_increase(t, line);
    let s = rope::line_text(t, line);
    if is_empty_line(t, line) {
        assert forall|i: int| 0 <= i < s.len() implies text::is_space(#[trigger] s[i]) by {
            on_line(t, a + i, line);
            assert(s[i] == t[a + i]);
        }
    }
    if buffer::is_blank_line(t, line) {
        assert forall|p: int| 0 <= p < t.len() && #[trigger] rope::line_of(t, p)
            == line implies text::is_space(t[p]) by {
            rope::position_within_line(t, p);
            assert(s[p - a] == t[p]);
        }
    }
}

proof fn skip_paragraph_facts(t: Seq<char>, line: int)
    requires
        0 <= line <= rope::line_count(t),
    ensures
        line <= buffer::skip_paragraph(t, line) <= rope::line_count(t),
        lines_are(t, line, buffer::skip_paragraph(t, line), false),
        buffer::skip_paragraph(t, line) < rope::line_count(t) ==> is_empty_line(
            t,
            buffer::skip_paragraph(t, line),
        ),
    decreases rope::line_count(t) - line,
{
    if line < rope::line_count(t) {
        empty_is_blank(t, line);
        if !buffer::is_blank_line(t, line) {
            skip_paragraph_facts(t, line + 1);
        }
    }
}

proof fn skip_blank_lines_facts(t: Seq<char>, line: int)
    requires
        0 <= line <= rope::line_count(t),
    ensures
        line <= buffer::skip_blank_lines(t, line) <= rope::line_count(t),
        lines_are(t, line, buffer::skip_blank_lines(t, line), true),
        buffer::skip_blank_lines(t, line) < rope::line_count(t) ==> !is_empty_line(
            t,
            buffer::skip_blank_lines(t, line),
        ),
    decreases rope::line_count(t) - line,
{
    if line < rope::line_count(t) {
        empty_is_blank(t, line);
        if buffer::is_blank_line(t, line) {
            skip_blank_lines_facts(t, line + 1);
        }
    }
}

/// Whether the lines from `l` are those of a paragraph up to `m`, empty ones up
/// to `n`, and then comes one that is not, or the end.
pub open spec fn next_paragraph(t: Seq<char>, l: int, m: int, n: int) -> bool {
    &&& l <= m <= n <= rope::line_count(t)
    &&& lines_are(t, l, m, false)
    &&& lines_are(t, m, n, true)
    &&& m < rope::line_count(t) ==> m < n
    &&& n < rope::line_count(t) ==> !is_empty_line(t, n)
}

/// Forward by a paragraph, the cursor goes to the start of the next one, or to
/// the end of the text.
pub proof fn paragraph_forward_leads_to_the_next(
    e: Editor,
    f: Editor,
    selecting: bool,
    r: Seq<ChromeView>,
)
    requires
        has_text(e),
        e.here().cursor <= e.current().text().len(),
        e.performed(&f, moving(CursorDirection::ParagraphForward, selecting), r),
    ensures
        ({
            let t = e.current().text();
            let l = rope::line_of(t, e.here().cursor as int) as int;
            exists|m: int, n: int| #[trigger]
                next_paragraph(t, l, m, n) && f.here().cursor == rope::line_start(t, n)
        }),
        f.here().cursor <= e.current().text().len(),
{
    let t = e.current().text();
    let c = e.here().cursor as int;
    let l = rope::line_of(t, c) as int;
    arrives(e, f, CursorDirection::ParagraphForward, selecting, r);
    rope::position_within_line(t, c);
    skip_paragraph_facts(t, l);
    let m = buffer::skip_paragraph(t, l);
    skip_blank_lines_facts(t, m);
    let n = buffer::skip_blank_lines(t, m);
    rope::line_start_facts(t, n);
    if m < rope::line_count(t) {
        empty_is_blank(t, m);
    }
    assert(next_paragraph(t, l, m, n));
}

proof fn paragraph_start_facts(t: Seq<char>, line: int)
    requires
        0 <= line < rope::line_count(t),
    ensures
        0 <= buffer::paragraph_start(t, line) <= line,
        lines_are(t, buffer::paragraph_start(t, line), line, false),
        buffer::paragraph_start(t, line) > 0 ==> is_empty_line(
            t,
            buffer::paragraph_start(t, line) - 1,
        ),
    decreases line,
{
    if line > 0 {
        empty_is_blank(t, line - 1);
        if !buffer::is_blank_line(t, line - 1) {
            paragraph_start_facts(t, line - 1);
        }
    }
}

proof fn back_over_blank_lines_facts(t: Seq<char>, line: int)
    requires
        0 <= line < rope::line_count(t),
    ensures
        0 <= buffer::back_over_blank_lines(t, line) <= line,
        lines_are(t, buffer::back_over_blank_lines(t, line) + 1, line + 1, true),
        is_empty_line(t, buffer::back_over_blank_lines(t, line))
            ==> buffer::back_over_blank_lines(t, line) == 0,
    decreases line,
{
    empty_is_blank(t, line);
    if line > 0 && buffer::is_blank_line(t, line) {
        back_over_blank_lines_facts(t, line - 1);
    }
}

proof fn back_over_paragraph_facts(t: Seq<char>, line: int)
    requires
        0 <= line < rope::line_count(t),
    ensures
        0 <= buffer::back_over_paragraph(t, line) <= line,
        lines_are(t, buffer::back_over_paragraph(t, line) + 1, line + 1, false),
        !is_empty_line(t, buffer::back_over_paragraph(t, line)) ==> buffer::back_over_paragraph(
            t,
            line,
        ) == 0,
    decreases line,
{
    empty_is_blank(t, line);
    if line > 0 && !buffer::is_blank_line(t, line) {
        back_over_paragraph_facts(t, line - 1);
    }
}

/// Whether a paragraph starts on line `n` that goes on up to line `l`.
pub open spec fn own_paragraph(t: Seq<char>, l: int, n: int) -> bool {
    &&& 0 <= n <= l
    &&& lines_are(t, n, l, false)
    &&& n > 0 ==> is_empty_line(t, n - 1)
}

/// Whether a paragraph starts on line `n` that ends with line `m`, and up to line
/// `l` only empty ones follow.
pub open spec fn last_paragraph(t: Seq<char>, l: int, m: int, n: int) -> bool {
    &&& 0 <= m < l
    &&& 0 <= n <= m + 1
    &&& lines_are(t, m + 1, l, true)
    &&& is_empty_line(t, m) ==> m == 0
    &&& lines_are(t, n, m + 1, false)
    &&& n > 0 ==> is_empty_line(t, n - 1)
}

/// Backward by a paragraph, the cursor goes to the start of the one that it is
/// in; from the start of a line that is not empty, to that of the one before.
pub proof fn paragraph_backward_leads_to_a_start(
    e: Editor,
    f: Editor,
    selecting: bool,
    r: Seq<ChromeView>,
)
    requires
        has_text(e),
        e.here().cursor <= e.current().text().len(),
        e.performed(&f, moving(CursorDirection::ParagraphBackward, selecting), r),
    ensures
        ({
            let t = e.current().text();
            let c = e.here().cursor as int;
            let l = rope::line_of(t, c) as int;
            let d = f.here().cursor as int;
            &&& l == 0 ==> d == 0
            &&& l > 0 && column(t, c) == 0 && !is_empty_line(t, l) ==> exists|m: int, n: int|
                #[trigger] last_paragraph(t, l, m, n) && d == rope::line_start(t, n)
            &&& l > 0 && (column(t, c) > 0 || is_empty_line(t, l)) ==> exists|n: int| #[trigger]
                own_paragraph(t, l, n) && d == rope::line_start(t, n)
        }),
{
    let t = e.current().text();
    let c = e.here().cursor as int;
    let l = rope::line_of(t, c) as int;
    arrives(e, f, CursorDirection::ParagraphBackward, selecting, r);
    rope::position_within_line(t, c);
    empty_is_blank(t, l);
    if l > 0 {
        if column(t, c) == 0 && !is_empty_line(t, l) {
            back_over_blank_lines_facts(t, l - 1);
            let m = buffer::back_over_blank_lines(t, l - 1);
            back_over_paragraph_facts(t, m);
            let x = buffer::back_over_paragraph(t, m);
            empty_is_blank(t, x);
            let n = buffer::previous_paragraph(t, l);
            rope::line_start_facts(t, n);
            assert(last_paragraph(t, l, m, n));
        } else {
            paragraph_start_facts(t, l);
            let n = buffer::paragraph_start(t, l);
            rope::line_start_facts(t, n);
            assert(own_paragraph(t, l, n));
        }
    }
}

} // verus!
