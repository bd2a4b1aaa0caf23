//! What the keys of the editor do to text, mark and kill ring.

use vstd::prelude::*;
use vstd::string::*;

use crate::buffer;
use crate::editor::{ActionPosition, ChromeView, Editor, Window};
use crate::ids::BufferId;
use crate::keys::{CursorDirection, KeyAction};
use crate::mica_host::events::MicaNativeAction;
use crate::movement_laws;
use crate::native_kernel::Capability;
use crate::renderer::DirtyRegion;
use crate::{rope, undo};

verus! {

/// Whether `b` is the text `a` with `ins` in front of position `p`.
pub open spec fn grown(a: Seq<char>, b: Seq<char>, p: int, ins: Seq<char>) -> bool {
    &&& 0 <= p <= a.len()
    &&& b.len() == a.len() + ins.len()
    &&& forall|i: int| 0 <= i < p ==> b[i] == a[i]
    &&& forall|i: int| 0 <= i < ins.len() ==> b[p + i] == ins[i]
    &&& forall|i: int| p <= i < a.len() ==> b[i + ins.len()] == #[trigger] a[i]
}

/// Whether `b` is the text `a` without the characters from `from` up to `to`.
pub open spec fn shrunk(a: Seq<char>, b: Seq<char>, from: int, to: int) -> bool {
    0 <= from <= to <= a.len() && grown(b, a, from, a.subrange(from, to))
}

/// A text that grew and shrank again at the same place is the same.
proof fn grown_then_shrunk(a: Seq<char>, b: Seq<char>, c: Seq<char>, p: int, ins: Seq<char>)
    requires
        grown(a, b, p, ins),
        shrunk(b, c, p, p + ins.len()),
    ensures
        c == a,
{
    let n = ins.len() as int;
    assert(c.len() == a.len());
    assert forall|i: int| 0 <= i < a.len() implies c[i] == a[i] by {
        if i < p {
            assert(b[i] == a[i]);
            assert(b[i] == c[i]);
        } else {
            assert(b[i + n] == a[i]);
            assert(b[i + n] == c[i]);
        }
    }
    assert(c =~= a);
}

proof fn shrunk_then_grown(a: Seq<char>, b: Seq<char>, c: Seq<char>, from: int, to: int)
    requires
        shrunk(a, b, from, to),
        grown(b, c, from, a.subrange(from, to)),
    ensures
        c == a,
{
    let gone = a.subrange(from, to);
    let n = gone.len() as int;
    assert forall|i: int| 0 <= i < a.len() implies c[i] == a[i] by {
        if i < from {
            assert(c[i] == b[i]);
        } else if i < to {
            assert(c[from + (i - from)] == gone[i - from]);
        } else {
            assert(a[(i - n) + n] == b[i - n]);
            assert(c[(i - n) + n] == b[i - n]);
        }
    }
    assert(c =~= a);
}

proof fn splicing_grows(t: Seq<char>, p: int, ins: Seq<char>)
    requires
        0 <= p <= t.len(),
    ensures
        grown(t, undo::spliced(t, p, ins), p, ins),
{
}

proof fn cutting_shrinks(t: Seq<char>, from: int, to: int)
    requires
        0 <= from <= to <= t.len(),
    ensures
        shrunk(t, undo::cut(t, from, to), from, to),
{
    let b = undo::cut(t, from, to);
    let gone = t.subrange(from, to);
    assert forall|i: int| from <= i < b.len() implies t[i + gone.len()] == #[trigger] b[i] by {}
}

/// Whether an editor has its cursor in the text of its active window, and that is
/// no longer than a text can be, also with so many characters more.
pub open spec fn takes(e: Editor, more: int) -> bool {
    &&& e.ready()
    &&& e.kill_ring.wf()
    &&& e.here().cursor <= e.current().text().len()
    &&& e.current().text().len() + more <= usize::MAX
}

/// Whether everything but the active window and its buffer is as it was.
pub open spec fn elsewhere_same(e: Editor, f: Editor) -> bool {
    let shown = e.here().active_buffer;
    &&& f.active_window == e.active_window
    &&& f.here() == (Window { cursor: f.here().cursor, ..e.here() })
    &&& f.windows@.remove(e.active_window) == e.windows@.remove(e.active_window)
    &&& f.buffers@.remove(shown) == e.buffers@.remove(shown)
    &&& f.window_tree == e.window_tree
    &&& f.buffer_history == e.buffer_history
    &&& f.file_watcher == e.file_watcher
}

/// Whether the latest kill is `gone`; behind or in front of the one before where
/// that was made just before.
pub open spec fn has_killed(e: Editor, f: Editor, gone: Seq<char>, backward: bool) -> bool {
    let before = e.kill_ring.texts();
    let after = f.kill_ring.texts();
    &&& after.len() > 0
    &&& if e.kill_ring.last_was_kill && before.len() > 0 {
        &&& after.len() == before.len()
        &&& after.last() == if backward {
            gone + before.last()
        } else {
            before.last() + gone
        }
    } else {
        after.last() == gone
    }
}

// --- Typing ---

/// What is typed goes in where the cursor is, which moves behind it; nothing else
/// changes.
pub proof fn typing_puts_a_character_in(e: Editor, f: Editor, c: char, r: Seq<ChromeView>)
    requires
        takes(e, 1),
    ensures
        e.performed(&f, KeyAction::AlphaNumeric(c), r) ==> {
            &&& grown(e.current().text(), f.current().text(), e.here().cursor as int, seq![c])
            &&& f.here().cursor == e.here().cursor + 1
            &&& elsewhere_same(e, f)
            &&& f.kill_ring.texts() == e.kill_ring.texts()
            &&& !f.kill_ring.last_was_kill
            &&& f.current().mark == e.current().mark
        },
        e.performed(&f, KeyAction::Enter, r) ==> {
            &&& grown(e.current().text(), f.current().text(), e.here().cursor as int, seq!['\n'])
            &&& f.here().cursor == e.here().cursor + 1
            &&& elsewhere_same(e, f)
            &&& f.kill_ring.texts() == e.kill_ring.texts()
        },
        e.performed(&f, KeyAction::Tab, r) ==> {
            &&& grown(e.current().text(), f.current().text(), e.here().cursor as int, seq!['\t'])
            &&& f.here().cursor == e.here().cursor + 1
            &&& elsewhere_same(e, f)
            &&& f.kill_ring.texts() == e.kill_ring.texts()
        },
{
    reveal_strlit("\n");
    reveal_strlit("\t");
    assert("\n"@ =~= seq!['\n']);
    assert("\t"@ =~= seq!['\t']);
    let t = e.current().text();
    let p = e.here().cursor as int;
    splicing_grows(t, p, seq![c]);
    splicing_grows(t, p, seq!['\n']);
    splicing_grows(t, p, seq!['\t']);
    rest_stays(e, f);
}

proof fn rest_stays(e: Editor, f: Editor)
    ensures
        e.ready() && e.edited(&f, f.here().cursor as int) ==> {
            let shown = e.here().active_buffer;
            &&& f.windows@.remove(e.active_window) == e.windows@.remove(e.active_window)
            &&& f.buffers@.remove(shown) == e.buffers@.remove(shown)
        },
{
    let shown = e.here().active_buffer;
    if e.ready() && e.edited(&f, f.here().cursor as int) {
        assert(f.windows@.remove(e.active_window) =~= e.windows@.remove(e.active_window));
        assert(f.buffers@.remove(shown) =~= e.buffers@.remove(shown));
    }
}

/// Text goes in at a row and column as well, and then the cursor stays.
pub proof fn text_goes_in_at_a_row_and_column(
    e: Editor,
    f: Editor,
    ins: Seq<char>,
    row: u16,
    col: u16,
    r: Seq<ChromeView>,
)
    requires
        takes(e, ins.len() as int),
        e.can_insert(ActionPosition::Absolute(row, col)),
        e.text_inserted(&f, ins, ActionPosition::Absolute(row, col), r),
    ensures
        grown(
            e.current().text(),
            f.current().text(),
            rope::line_start(e.current().text(), row as int) + col,
            ins,
        ),
        f.here().cursor == e.here().cursor,
        elsewhere_same(e, f),
{
    let t = e.current().text();
    rope::line_start_facts(t, row as int);
    splicing_grows(t, rope::line_start(t, row as int) + col, ins);
    rest_stays(e, f);
}

/// Backspace takes out the character in front of the cursor, and delete the one
/// behind it. Where there is none nothing happens to the text.
pub proof fn one_character_goes(e: Editor, f: Editor, r: Seq<ChromeView>)
    requires
        takes(e, 0),
    ensures
        ({
            let t = e.current().text();
            let u = f.current().text();
            let p = e.here().cursor as int;
            &&& e.performed(&f, KeyAction::Backspace, r) ==> {
                &&& elsewhere_same(e, f)
                &&& f.kill_ring.texts() == e.kill_ring.texts()
                &&& if p > 0 {
                    shrunk(t, u, p - 1, p) && f.here().cursor == p - 1
                } else {
                    u == t && f.here().cursor == p
                }
            }
            &&& e.performed(&f, KeyAction::Delete, r) ==> {
                &&& elsewhere_same(e, f)
                &&& f.kill_ring.texts() == e.kill_ring.texts()
                &&& f.here().cursor == p
                &&& if p < t.len() {
                    shrunk(t, u, p, p + 1)
                } else {
                    u == t
                }
            }
        }),
{
    let t = e.current().text();
    let p = e.here().cursor as int;
    if p > 0 {
        cutting_shrinks(t, p - 1, p);
    }
    if p < t.len() {
        cutting_shrinks(t, p, p + 1);
    }
    rest_stays(e, f);
}

/// Backspace takes back what was typed.
pub proof fn backspace_takes_back_typing(
    e: Editor,
    f: Editor,
    g: Editor,
    c: char,
    r: Seq<ChromeView>,
    s: Seq<ChromeView>,
)
    requires
        takes(e, 1),
        e.performed(&f, KeyAction::AlphaNumeric(c), r),
        f.performed(&g, KeyAction::Backspace, s),
    ensures
        g.current().text() == e.current().text(),
        g.here().cursor == e.here().cursor,
{
    typing_puts_a_character_in(e, f, c, r);
    one_character_goes(f, g, s);
    grown_then_shrunk(
        e.current().text(),
        f.current().text(),
        g.current().text(),
        e.here().cursor as int,
        seq![c],
    );
}

// --- Mark and region ---

/// The mark goes where the cursor is, and nothing else changes. Giving up clears
/// it.
pub proof fn mark_is_set_and_cleared(e: Editor, f: Editor, r: Seq<ChromeView>)
    requires
        takes(e, 0),
    ensures
        e.performed(&f, KeyAction::MarkStart, r) ==> {
            &&& f.current().mark == Some(e.here().cursor)
            &&& !f.current().transient_mark
            &&& f.current().text() == e.current().text()
            &&& f.here().cursor == e.here().cursor
            &&& elsewhere_same(e, f)
            &&& f.kill_ring == e.kill_ring
        },
        e.performed(&f, KeyAction::Cancel, r) || e.performed(&f, KeyAction::Escape, r) ==> {
            &&& f.current().mark is None
            &&& f.current().text() == e.current().text()
            &&& f.here().cursor == e.here().cursor
            &&& elsewhere_same(e, f)
            &&& f.kill_ring == e.kill_ring
        },
{
    rest_stays(e, f);
}

/// The ends of the region, in order.
pub open spec fn region_start(e: Editor) -> int {
    if e.current().mark->0 <= e.here().cursor {
        e.current().mark->0 as int
    } else {
        e.here().cursor as int
    }
}

pub open spec fn region_end(e: Editor) -> int {
    if e.current().mark->0 <= e.here().cursor {
        e.here().cursor as int
    } else {
        e.current().mark->0 as int
    }
}

/// Whether there is something between mark and cursor.
pub open spec fn has_region(e: Editor) -> bool {
    &&& takes(e, 0)
    &&& e.current().mark is Some
    &&& e.current().mark->0 <= e.current().text().len()
    &&& e.current().mark->0 != e.here().cursor
}

/// Killing the region moves what is between mark and cursor to the kill ring.
pub proof fn killing_the_region_moves_it_to_the_ring(e: Editor, f: Editor, r: Seq<ChromeView>)
    requires
        has_region(e),
        e.performed(&f, KeyAction::KillRegion(true), r),
    ensures
        shrunk(e.current().text(), f.current().text(), region_start(e), region_end(e)),
        has_killed(
            e,
            f,
            e.current().text().subrange(region_start(e), region_end(e)),
            false,
        ),
        f.here().cursor == region_start(e),
        f.current().mark is None,
        elsewhere_same(e, f),
{
    cutting_shrinks(e.current().text(), region_start(e), region_end(e));
    rest_stays(e, f);
}

/// Copying the region leaves the text as it is, and puts what is between mark and
/// cursor on the kill ring.
pub proof fn copying_the_region_leaves_it(e: Editor, f: Editor, r: Seq<ChromeView>)
    requires
        has_region(e),
        e.performed(&f, KeyAction::KillRegion(false), r),
    ensures
        f.current().text() == e.current().text(),
        f.here().cursor == e.here().cursor,
        f.current().mark is None,
        has_killed(
            e,
            f,
            e.current().text().subrange(region_start(e), region_end(e)),
            false,
        ),
        elsewhere_same(e, f),
{
    rest_stays(e, f);
}

/// Without a mark there is no region: nothing happens to text and kill ring.
pub proof fn no_mark_no_region(e: Editor, f: Editor, destructive: bool, r: Seq<ChromeView>)
    requires
        takes(e, 0),
        e.current().mark is None || e.current().mark == Some(e.here().cursor),
        e.performed(&f, KeyAction::KillRegion(destructive), r),
    ensures
        f.current().text() == e.current().text(),
        f.kill_ring == e.kill_ring,
        f.here().cursor == e.here().cursor,
{
}

/// A region that is killed and yanked is there again.
pub proof fn yank_gives_back_the_region(
    e: Editor,
    f: Editor,
    g: Editor,
    r: Seq<ChromeView>,
    s: Seq<ChromeView>,
)
    requires
        has_region(e),
        !e.kill_ring.last_was_kill,
        e.performed(&f, KeyAction::KillRegion(true), r),
        f.performed(&g, KeyAction::Yank(None), s),
    ensures
        g.current().text() == e.current().text(),
        g.here().cursor == region_end(e),
{
    killing_the_region_moves_it_to_the_ring(e, f, r);
    yanking_puts_a_kill_in(f, g, None, s);
    shrunk_then_grown(
        e.current().text(),
        f.current().text(),
        g.current().text(),
        region_start(e),
        region_end(e),
    );
}

/// Yanking puts the latest kill in, or the one of an age; the cursor goes behind
/// it. The kill ring keeps its entries. Where there is no such kill the text
/// stays.
pub proof fn yanking_puts_a_kill_in(
    e: Editor,
    f: Editor,
    age: Option<usize>,
    r: Seq<ChromeView>,
)
    requires
        e.performed(&f, KeyAction::Yank(age), r),
        ({
            let texts = e.kill_ring.texts();
            let n = match age {
                Some(n) => n as int,
                None => 0,
            };
            takes(
                e,
                if n < texts.len() {
                    texts[texts.len() - 1 - n].len() as int
                } else {
                    0
                },
            )
        }),
    ensures
        f.kill_ring.texts() == e.kill_ring.texts(),
        !f.kill_ring.last_was_kill,
        ({
            let texts = e.kill_ring.texts();
            let n = match age {
                Some(n) => n as int,
                None => 0,
            };
            if n < texts.len() {
                let kill = texts[texts.len() - 1 - n];
                &&& grown(e.current().text(), f.current().text(), e.here().cursor as int, kill)
                &&& f.here().cursor == e.here().cursor + kill.len()
                &&& elsewhere_same(e, f)
            } else {
                f.current().text() == e.current().text() && f.here() == e.here()
            }
        }),
{
    let texts = e.kill_ring.texts();
    let n = match age {
        Some(n) => n as int,
        None => 0,
    };
    if n < texts.len() {
        let taken = e.with_taken(n);
        assert(taken.current() == e.current());
        splicing_grows(e.current().text(), e.here().cursor as int, texts[texts.len() - 1 - n]);
        rest_stays(taken, f);
    }
}

// --- Lines and words ---

/// Killing a line kills what is between the cursor and the end of its line; at
/// the end of the line the one character there. At the end of the text there is
/// nothing to kill.
pub proof fn killing_a_line_kills_its_rest(
    e: Editor,
    f: Editor,
    whole: bool,
    r: Seq<ChromeView>,
)
    requires
        takes(e, 0),
        e.performed(&f, KeyAction::KillLine(whole), r),
    ensures
        ({
            let t = e.current().text();
            let p = e.here().cursor as int;
            &&& f.here().cursor == p
            &&& elsewhere_same(e, f)
            &&& if p == t.len() {
                f.current().text() == t && f.kill_ring == e.kill_ring
            } else {
                exists|end: int|
                    {
                        &&& p < end <= t.len()
                        &&& #[trigger] shrunk(t, f.current().text(), p, end)
                        &&& has_killed(e, f, t.subrange(p, end), false)
                        &&& if rope::line_of(t, p + 1) > rope::line_of(t, p) {
                            end == p + 1
                        } else {
                            &&& rope::line_of(t, end) == rope::line_of(t, p)
                            &&& end == t.len() || rope::line_of(t, end + 1) > rope::line_of(t, p)
                        }
                    }
            }
        }),
{
    let t = e.current().text();
    let p = e.here().cursor as int;
    rest_stays(e, f);
    if p == t.len() {
        assert(f.windows@.remove(e.active_window) =~= e.windows@.remove(e.active_window));
    } else {
        movement_laws::line_end_facts(t, p);
        let range = e.line_to_kill();
        let end = (range->0).1;
        cutting_shrinks(t, p, end);
        assert(shrunk(t, f.current().text(), p, end));
    }
}

/// A line that is killed and yanked is there again.
pub proof fn yank_gives_back_the_line(
    e: Editor,
    f: Editor,
    g: Editor,
    whole: bool,
    r: Seq<ChromeView>,
    s: Seq<ChromeView>,
)
    requires
        takes(e, 0),
        e.here().cursor < e.current().text().len(),
        !e.kill_ring.last_was_kill,
        e.performed(&f, KeyAction::KillLine(whole), r),
        f.performed(&g, KeyAction::Yank(None), s),
    ensures
        g.current().text() == e.current().text(),
{
    let t = e.current().text();
    let p = e.here().cursor as int;
    killing_a_line_kills_its_rest(e, f, whole, r);
    movement_laws::line_end_facts(t, p);
    let end = choose|end: int|
        p < end <= t.len() && #[trigger] shrunk(t, f.current().text(), p, end) && has_killed(
            e,
            f,
            t.subrange(p, end),
            false,
        );
    yanking_puts_a_kill_in(f, g, None, s);
    shrunk_then_grown(t, f.current().text(), g.current().text(), p, end);
}

/// Killing a word kills what a movement by a word passes over: forward, behind
/// the kill that it continues, and backward, in front of it.
#[verifier::rlimit(40)]
pub proof fn killing_a_word_kills_what_a_movement_passes(
    e: Editor,
    f: Editor,
    moved: Editor,
    r: Seq<ChromeView>,
    s: Seq<ChromeView>,
)
    requires
        takes(e, 0),
    ensures
        ({
            let t = e.current().text();
            let p = e.here().cursor as int;
            let q = moved.here().cursor as int;
            &&& e.performed(&f, KeyAction::DeleteWord, r) && e.performed(
                &moved,
                KeyAction::Cursor(CursorDirection::WordForward),
                s,
            ) ==> {
                &&& p <= q
                &&& shrunk(t, f.current().text(), p, q)
                &&& f.here().cursor == p
                &&& p < q ==> has_killed(e, f, t.subrange(p, q), false)
                &&& p == q ==> f.kill_ring == e.kill_ring
            }
            &&& e.performed(&f, KeyAction::BackspaceWord, r) && e.performed(
                &moved,
                KeyAction::Cursor(CursorDirection::WordBackward),
                s,
            ) ==> {
                &&& q <= p
                &&& shrunk(t, f.current().text(), q, p)
                &&& f.here().cursor == q
                &&& q < p ==> has_killed(e, f, t.subrange(q, p), true)
                &&& p == q ==> f.kill_ring == e.kill_ring
            }
        }),
{
    let t = e.current().text();
    let p = e.here().cursor as int;
    let q = moved.here().cursor as int;
    if e.performed(&moved, KeyAction::Cursor(CursorDirection::WordForward), s) {
        movement_laws::word_forward_passes_one_word(e, moved, false, s);
        movement_laws::arrives(e, moved, CursorDirection::WordForward, false, s);
        movement_laws::word_forward_passes(t, p);
        assert(q == buffer::word_forward(t, p));
        cutting_shrinks(t, p, q);
        cutting_shrinks(t, p, p);
        assert(undo::cut(t, p, p) =~= t);
    }
    if e.performed(&moved, KeyAction::Cursor(CursorDirection::WordBackward), s) {
        movement_laws::word_backward_passes_one_word(e, moved, false, s);
        movement_laws::arrives(e, moved, CursorDirection::WordBackward, false, s);
        movement_laws::word_backward_passes(t, p);
        assert(q == buffer::word_backward(t, p));
        cutting_shrinks(t, q, p);
        cutting_shrinks(t, p, p);
        assert(undo::cut(t, p, p) =~= t);
    }
}

// --- Undo and redo ---

/// What is typed at the start of a run of edits is taken back by undo, and the
/// cursor with it.
pub proof fn undo_takes_back_typing(
    e: Editor,
    f: Editor,
    g: Editor,
    c: char,
    r: Seq<ChromeView>,
    s: Seq<ChromeView>,
)
    requires
        takes(e, 1),
        e.current().undo_manager.pending@.len() == 0,
        e.performed(&f, KeyAction::AlphaNumeric(c), r),
        f.performed(&g, KeyAction::Undo, s),
    ensures
        g.current().text() == e.current().text(),
        g.here().cursor == e.here().cursor,
{
    let p = e.here().cursor as int;
    buffer::undo_restores_inserted(
        e.current(),
        f.current(),
        g.current(),
        p,
        seq![c],
        g.here().cursor as int,
    );
}

proof fn run_leads_back(states: Seq<Editor>, typed: Seq<char>, told: Seq<Seq<ChromeView>>, k: int)
    requires
        states.len() == typed.len() + 1,
        told.len() == typed.len(),
        0 <= k <= typed.len(),
        takes(states[0], typed.len() as int),
        states[0].current().undo_manager.pending@.len() == 0,
        forall|i: int|
            0 <= i < typed.len() ==> (#[trigger] states[i]).performed(
                &states[i + 1],
                KeyAction::AlphaNumeric(typed[i]),
                told[i],
            ),
    ensures
        takes(states[k], typed.len() - k),
        states[k].current().undo_manager.pending@.len() == k,
        undo::taken_back_seq(
            states[k].current().undo_manager.pending@,
            states[k].current().text(),
        ) == states[0].current().text(),
    decreases k,
{
    if k > 0 {
        run_leads_back(states, typed, told, k - 1);
        let e = states[k - 1];
        let f = states[k];
        assert(e.performed(&states[k - 1 + 1], KeyAction::AlphaNumeric(typed[k - 1]), told[k - 1]));
        typing_puts_a_character_in(e, f, typed[k - 1], told[k - 1]);
        let t = e.current().text();
        let p = e.here().cursor as int;
        let u = f.current().text();
        let run = f.current().undo_manager.pending@;
        assert(undo::cut(undo::spliced(t, p, seq![typed[k - 1]]), p, p + 1) =~= t);
        assert(undo::taken_back(run.last(), u) == t);
        assert(undo::taken_back_seq(run, u) == undo::taken_back_seq(run.drop_last(), t));
    }
}

/// All that is typed in one run is taken back by one undo.
pub proof fn undo_takes_back_the_whole_run(
    states: Seq<Editor>,
    typed: Seq<char>,
    told: Seq<Seq<ChromeView>>,
    g: Editor,
    s: Seq<ChromeView>,
)
    requires
        typed.len() > 0,
        states.len() == typed.len() + 1,
        told.len() == typed.len(),
        takes(states[0], typed.len() as int),
        states[0].current().undo_manager.pending@.len() == 0,
        forall|i: int|
            0 <= i < typed.len() ==> (#[trigger] states[i]).performed(
                &states[i + 1],
                KeyAction::AlphaNumeric(typed[i]),
                told[i],
            ),
        states.last().performed(&g, KeyAction::Undo, s),
    ensures
        g.current().text() == states[0].current().text(),
{
    let n = typed.len() as int;
    run_leads_back(states, typed, told, n);
    let f = states[n];
    let run = f.current().undo_manager.pending@;
    if n == 1 {
        assert(run.drop_last().len() == 0);
        assert(run.last() == run[0]);
        reveal_with_fuel(undo::taken_back_seq, 2);
    }
}

/// A movement ends a run of edits, so that an undo takes back only what was done
/// after it.
pub proof fn movement_ends_the_run(
    e: Editor,
    f: Editor,
    direction: CursorDirection,
    selecting: bool,
    r: Seq<ChromeView>,
)
    requires
        e.ready(),
        e.current().undo_manager.group_depth == 0,
        e.performed(&f, movement_laws::moving(direction, selecting), r),
    ensures
        f.current().undo_manager.pending@.len() == 0,
        f.current().text() == e.current().text(),
{
}

/// Redo makes again what undo took back.
pub proof fn redo_makes_again_what_undo_took_back(
    e: Editor,
    f: Editor,
    g: Editor,
    r: Seq<ChromeView>,
    s: Seq<ChromeView>,
)
    requires
        e.ready(),
        e.current().history_ok(),
        e.performed(&f, KeyAction::Undo, r),
        f.performed(&g, KeyAction::Redo, s),
    ensures
        e.current().undo_manager.pending@.len() + e.current().undo_manager.undo_stack@.len() > 0
            ==> g.current().text() == e.current().text(),
        e.current().undo_manager.pending@.len() + e.current().undo_manager.undo_stack@.len() == 0
            ==> f.current().text() == e.current().text() && f.here().cursor == e.here().cursor,
{
    if e.current().undo_manager.pending@.len() + e.current().undo_manager.undo_stack@.len() > 0 {
        buffer::redo_restores_undone(
            e.current(),
            f.current(),
            g.current(),
            f.here().cursor as int,
            g.here().cursor as int,
        );
    }
}

/// After an edit there is nothing that could be made again.
pub proof fn edits_end_redo(e: Editor, f: Editor, g: Editor, c: char, r: Seq<ChromeView>, s: Seq<ChromeView>)
    requires
        takes(e, 1),
        e.performed(&f, KeyAction::AlphaNumeric(c), r),
        f.performed(&g, KeyAction::Redo, s),
    ensures
        g.current().text() == f.current().text(),
        g.here().cursor == f.here().cursor,
{
}

// --- What is told ---

/// Whether what is told of a change of the text is true: outside the range it is
/// the same.
pub open spec fn told_truly(e: Editor, f: Editor, told: ChromeView) -> bool {
    told matches ChromeView::BufferChanged { buffer_id, start, old_end, new_end } ==> {
        let t = e.current().text();
        let u = f.current().text();
        &&& buffer_id == e.here().active_buffer
        &&& start <= old_end <= t.len()
        &&& start <= new_end <= u.len()
        &&& t.subrange(0, start as int) == u.subrange(0, start as int)
        &&& t.subrange(old_end as int, t.len() as int) == u.subrange(new_end as int, u.len() as int)
    }
}

/// What is told of typing and deleting is true: outside the range that is told
/// the text is the same, and the buffer, or a line of it, is to be drawn again.
pub proof fn reported_change_is_the_change(
    e: Editor,
    f: Editor,
    action: KeyAction,
    r: Seq<ChromeView>,
    i: int,
)
    requires
        takes(e, 1),
        action is AlphaNumeric || action is Enter || action is Tab || action is Backspace
            || action is Delete,
        e.performed(&f, action, r),
        f.current().text() != e.current().text(),
    ensures
        0 <= i < r.len() ==> told_truly(e, f, r[i]),
        exists|k: int| 0 <= k < r.len() && (#[trigger] r[k]) is BufferChanged,
        exists|k: int|
            0 <= k < r.len() && {
                ||| #[trigger] r[k] == ChromeView::MarkDirty(
                    DirtyRegion::Buffer { buffer_id: e.here().active_buffer },
                )
                ||| r[k] matches ChromeView::MarkDirty(
                    DirtyRegion::Line { buffer_id, .. },
                ) && buffer_id == e.here().active_buffer
            },
{
    let t = e.current().text();
    let u = f.current().text();
    let p = e.here().cursor as int;
    reveal_strlit("\n");
    reveal_strlit("\t");
    assert("\n"@.len() == 1 && "\t"@.len() == 1);
    if action is Backspace || action is Delete {
        let (a, b) = if action is Backspace {
            (p - 1, p)
        } else {
            (p, p + 1)
        };
        assert(0 <= a && b <= t.len());
        assert(u == undo::cut(t, a, b));
        assert(t.subrange(0, a) =~= u.subrange(0, a));
        assert(t.subrange(b, t.len() as int) =~= u.subrange(a, u.len() as int));
    } else {
        assert(t.subrange(0, p) =~= u.subrange(0, p));
        assert(t.subrange(p, t.len() as int) =~= u.subrange(p + 1, u.len() as int));
    }
    assert(r.len() == 3);
    assert(r[2] is BufferChanged);
    assert(r[1] is MarkDirty);
}

// --- Edits of the policy code ---

/// An edit that needs no right to write text leaves the text as it is.
pub proof fn edits_without_the_right_to_write_leave_the_text(
    e: Editor,
    f: Editor,
    edit: MicaNativeAction,
    key: KeyAction,
    r: Seq<ChromeView>,
)
    requires
        takes(e, 0),
        edit.needs() != Some(Capability::TextWrite),
        edit.key_action() == Some(key),
        e.performed(&f, key, r),
    ensures
        f.current().text() == e.current().text(),
{
    match edit {
        MicaNativeAction::Move { direction, selecting } => {
            movement_laws::movement_leaves_the_text(e, f, direction, selecting, r);
        },
        MicaNativeAction::CopyRegion => {
            if has_region(e) {
                copying_the_region_leaves_it(e, f, r);
            }
        },
        _ => {},
    }
}

/// An edit that puts nothing on the clipboard leaves the kills as they are.
pub proof fn edits_off_the_clipboard_leave_the_kills(
    e: Editor,
    f: Editor,
    edit: MicaNativeAction,
    key: KeyAction,
    r: Seq<ChromeView>,
)
    requires
        takes(e, 0),
        !(edit is KillLine || edit is KillRegion || edit is CopyRegion || edit is KillWord),
        edit.key_action() == Some(key),
        e.performed(&f, key, r),
    ensures
        f.kill_ring.texts() == e.kill_ring.texts(),
{
}

/// The edits on the region do what they are called: copying leaves the text,
/// killing takes the region out, and both put it on the kill ring; setting the
/// mark and moving on makes the region.
pub proof fn region_edits_do_what_they_are_called(
    e: Editor,
    f: Editor,
    edit: MicaNativeAction,
    key: KeyAction,
    r: Seq<ChromeView>,
)
    requires
        has_region(e),
        edit is CopyRegion || edit is KillRegion,
        edit.key_action() == Some(key),
        e.performed(&f, key, r),
    ensures
        has_killed(
            e,
            f,
            e.current().text().subrange(region_start(e), region_end(e)),
            false,
        ),
        edit is CopyRegion ==> f.current().text() == e.current().text(),
        edit is KillRegion ==> shrunk(
            e.current().text(),
            f.current().text(),
            region_start(e),
            region_end(e),
        ),
{
    if edit is CopyRegion {
        copying_the_region_leaves_it(e, f, r);
    } else {
        killing_the_region_moves_it_to_the_ring(e, f, r);
    }
}

/// The other edits do what they are called, too: what is typed goes in, what is
/// deleted goes out, undo takes back and redo makes again, the mark is set and
/// given up, and a movement goes where it is asked to.
pub proof fn edits_do_what_they_are_called(
    e: Editor,
    f: Editor,
    edit: MicaNativeAction,
    key: KeyAction,
    r: Seq<ChromeView>,
)
    requires
        takes(e, 1),
        edit.key_action() == Some(key),
        e.performed(&f, key, r),
    ensures
        ({
            let t = e.current().text();
            let u = f.current().text();
            let p = e.here().cursor as int;
            &&& edit is Enter ==> grown(t, u, p, seq!['\n'])
            &&& edit is Tab ==> grown(t, u, p, seq!['\t'])
            &&& edit is Backspace && p > 0 ==> shrunk(t, u, p - 1, p)
            &&& edit is Delete && p < t.len() ==> shrunk(t, u, p, p + 1)
            &&& edit is SetMark ==> f.current().mark == Some(e.here().cursor) && u == t
            &&& edit is Cancel ==> f.current().mark is None && u == t
            &&& edit is KillLine && p < t.len() ==> exists|end: int|
                p < end <= t.len() && #[trigger] shrunk(t, u, p, end) && has_killed(
                    e,
                    f,
                    t.subrange(p, end),
                    false,
                )
            &&& edit matches MicaNativeAction::Move { direction, selecting } ==> key
                == movement_laws::moving(direction, selecting)
        }),
        edit is Undo <==> key is Undo,
        edit is Redo <==> key is Redo,
        edit is Yank <==> key == KeyAction::Yank(None),
        edit is MarkWholeBuffer <==> key is MarkWholeBuffer,
{
    typing_puts_a_character_in(e, f, '\n', r);
    one_character_goes(e, f, r);
    mark_is_set_and_cleared(e, f, r);
    if edit is KillLine {
        killing_a_line_kills_its_rest(e, f, false, r);
        let t = e.current().text();
        let p = e.here().cursor as int;
        if p < t.len() {
            let end = choose|end: int|
                p < end <= t.len() && #[trigger] shrunk(t, f.current().text(), p, end)
                    && has_killed(e, f, t.subrange(p, end), false);
            assert(shrunk(t, f.current().text(), p, end));
        }
    }
}

// --- Counted deletions ---

/// Deleting and killing take out as many characters as they are told to: behind
/// the cursor, or in front of it for a negative number, where the cursor then is.
/// Where there are not as many the text stays. What is killed goes to the ring,
/// in front of a kill that it continues where it was taken backward.
pub proof fn as_many_characters_go_as_told(e: Editor, f: Editor, n: int, r: Seq<ChromeView>)
    requires
        takes(e, 0),
        n != 0,
        e.text_deleted(&f, ActionPosition::Cursor, n, r) || e.text_killed(
            &f,
            ActionPosition::Cursor,
            n,
            r,
        ),
    ensures
        ({
            let t = e.current().text();
            let u = f.current().text();
            let p = e.here().cursor as int;
            let from = if n < 0 {
                p + n
            } else {
                p
            };
            let to = if n < 0 {
                p
            } else {
                p + n
            };
            if 0 <= from && to <= t.len() {
                &&& shrunk(t, u, from, to)
                &&& f.here().cursor == from
                &&& e.text_killed(&f, ActionPosition::Cursor, n, r) ==> has_killed(
                    e,
                    f,
                    t.subrange(from, to),
                    n < 0,
                )
            } else {
                u == t && f.here().cursor == p
            }
        }),
{
    let t = e.current().text();
    let p = e.here().cursor as int;
    let from = if n < 0 {
        p + n
    } else {
        p
    };
    let to = if n < 0 {
        p
    } else {
        p + n
    };
    if 0 <= from && to <= t.len() {
        cutting_shrinks(t, from, to);
    }
}

// --- What is drawn anew ---

/// Whether something is told to be drawn anew in a buffer.
pub open spec fn draws_anew(told: ChromeView, id: BufferId) -> bool {
    told matches ChromeView::MarkDirty(region) && match region {
        DirtyRegion::Buffer { buffer_id } => buffer_id == id,
        DirtyRegion::Line { buffer_id, .. } => buffer_id == id,
        _ => false,
    }
}

proof fn insertion_draws(e: Editor, f: Editor, ins: Seq<char>, r: Seq<ChromeView>)
    requires
        e.text_inserted(&f, ins, ActionPosition::Cursor, r),
    ensures
        r.len() == 3,
        draws_anew(r[1], e.here().active_buffer),
{
}

proof fn deletion_draws(e: Editor, f: Editor, n: int, r: Seq<ChromeView>)
    requires
        takes(e, 0),
        n != 0,
        e.text_deleted(&f, ActionPosition::Cursor, n, r),
    ensures
        r.len() == 0 ==> f.current().text() == e.current().text() && f.here().cursor
            == e.here().cursor,
        r.len() > 0 ==> r.len() == 3 && draws_anew(r[1], e.here().active_buffer),
{
}

proof fn region_kill_draws(e: Editor, f: Editor, r: Seq<ChromeView>)
    requires
        takes(e, 0),
        e.region_killed(&f, r) || e.region_copied(&f, r),
    ensures
        r.len() < 2 ==> f.current().text() == e.current().text() && f.here().cursor
            == e.here().cursor,
        r.len() >= 2 ==> draws_anew(r[1], e.here().active_buffer),
{
}

proof fn history_draws(e: Editor, f: Editor, redo: bool, r: Seq<ChromeView>)
    requires
        takes(e, 0),
        e.history_walked(&f, redo, r),
    ensures
        r.len() == 1 ==> f.current().text() == e.current().text() && f.here().cursor
            == e.here().cursor,
        r.len() != 1 ==> r.len() == 2 && draws_anew(r[0], e.here().active_buffer),
{
}

/// Where an action changes the text, or moves the cursor, the buffer is drawn
/// anew, or the line that changed.
#[verifier::rlimit(40)]
pub proof fn changed_text_is_drawn_anew(e: Editor, f: Editor, action: KeyAction, r: Seq<ChromeView>)
    requires
        takes(e, 0),
        e.performed(&f, action, r),
        f.current().text() != e.current().text() || f.here().cursor != e.here().cursor,
    ensures
        exists|i: int| 0 <= i < r.len() && draws_anew(#[trigger] r[i], e.here().active_buffer),
{
    let shown = e.here().active_buffer;
    match action {
        KeyAction::AlphaNumeric(c) => {
            insertion_draws(e, f, seq![c], r);
        },
        KeyAction::Enter => {
            insertion_draws(e, f, "\n"@, r);
        },
        KeyAction::Tab => {
            insertion_draws(e, f, "\t"@, r);
        },
        KeyAction::Backspace => {
            deletion_draws(e, f, -1, r);
        },
        KeyAction::Delete => {
            deletion_draws(e, f, 1, r);
        },
        KeyAction::Yank(age) => {
            let n = match age {
                Some(n) => n as int,
                None => 0,
            };
            let texts = e.kill_ring.texts();
            if n < texts.len() {
                insertion_draws(e.with_taken(n), f, texts[texts.len() - 1 - n], r);
            }
        },
        KeyAction::KillRegion(_) => {
            region_kill_draws(e, f, r);
        },
        KeyAction::Undo => {
            history_draws(e, f, false, r);
            assert(draws_anew(r[0], shown));
        },
        KeyAction::Redo => {
            history_draws(e, f, true, r);
            assert(draws_anew(r[0], shown));
        },
        KeyAction::DeleteWord | KeyAction::BackspaceWord => {
            assert(draws_anew(r[0], shown));
        },
        KeyAction::KillLine(_) | KeyAction::Cursor(_) | KeyAction::CursorSelect(_) => {
            assert(draws_anew(r[1], shown));
        },
        _ => {},
    }
}

/// An action that is none on a text does nothing here.
pub proof fn other_actions_do_nothing(e: Editor, f: Editor, action: KeyAction, r: Seq<ChromeView>)
    requires
        e.performed(&f, action, r),
        action is Save || action is Quit || action is FindFile || action is CommandMode
            || action is SplitHorizontal || action is SplitVertical || action is SwitchWindow
            || action is DeleteWindow || action is DeleteOtherWindows || action is SwitchBuffer
            || action is KillBuffer || action is Unbound || action is ChordNext
            || action is Command,
    ensures
        f == e,
        r.len() == 0,
{
}

/// Setting the mark puts one end of the region at the cursor, so that the region
/// is empty until the cursor moves, and then lies between the two. The text, the
/// cursor and all other buffers stay.
pub proof fn region_reaches_from_the_mark(
    e: Editor,
    f: Editor,
    r: Seq<ChromeView>,
    to: int,
    other: BufferId,
)
    requires
        e.ready(),
        e.mark_set(&f, r),
        e.here().cursor <= e.current().text().len() <= usize::MAX,
        0 <= to <= e.current().text().len(),
        other != e.here().active_buffer,
    ensures
        f.current().text() == e.current().text(),
        f.here() == e.here(),
        f.kill_ring == e.kill_ring,
        f.buffers@[other] == e.buffers@[other],
        f.current().region(to) matches Some((a, b)) && a <= b && ((a == e.here().cursor && b == to)
            || (a == to && b == e.here().cursor)),
{
}

/// Clearing the mark leaves none, and no region, whether or not one was set. The
/// text, the cursor, the kills and all other buffers stay.
pub proof fn cleared_mark_leaves_no_region(
    e: Editor,
    f: Editor,
    r: Seq<ChromeView>,
    at: int,
    other: BufferId,
)
    requires
        e.ready(),
        e.mark_cleared_if_set(&f, r),
        other != e.here().active_buffer,
    ensures
        f.current().mark is None,
        f.current().region(at) is None,
        f.current().text() == e.current().text(),
        f.here() == e.here(),
        f.kill_ring == e.kill_ring,
        f.buffers@[other] == e.buffers@[other],
        e.current().mark is None ==> f.buffers@ == e.buffers@,
        e.current().mark is Some <==> r.contains(
            ChromeView::MarkDirty(DirtyRegion::Buffer { buffer_id: e.here().active_buffer }),
        ),
{
    if e.current().mark is Some {
        assert(r[1] == ChromeView::MarkDirty(
            DirtyRegion::Buffer { buffer_id: e.here().active_buffer },
        ));
    }
}

} // verus!
