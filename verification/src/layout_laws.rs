//! What the layout of the windows does with the space of the frame.

use vstd::arithmetic::power2;
use vstd::prelude::*;

use crate::editor;
use crate::editor::{Editor, Frame, Window, MIN_WINDOW_CHARS};
use crate::ids::WindowId;
use crate::window;
use crate::window::{SplitDirection, SplitRatio, WindowNode};

verus! {

/// Whether a window covers a cell of the screen.
pub open spec fn covers(w: Window, column: int, row: int) -> bool {
    &&& w.x <= column < w.x + w.width_chars
    &&& w.y <= row < w.y + w.height_chars
}

/// Whether a cell lies in an area.
pub open spec fn lies_in(column: int, row: int, x: int, y: int, width: int, height: int) -> bool {
    &&& x <= column < x + width
    &&& y <= row < y + height
}

/// Whether a tree divides an area into parts none of which is below the least
/// size.
pub open spec fn has_room(node: WindowNode, width: int, height: int) -> bool
    decreases node,
{
    match node {
        WindowNode::Leaf { .. } => width >= MIN_WINDOW_CHARS && height >= MIN_WINDOW_CHARS,
        WindowNode::Split { direction, ratio, first, second } => match direction {
            SplitDirection::Horizontal => {
                let part = ratio.share(height as u16);
                has_room(*first, width, part as int) && has_room(*second, width, height - part)
            },
            SplitDirection::Vertical => {
                let part = ratio.share(width as u16);
                has_room(*first, part as int, height) && has_room(*second, width - part, height)
            },
        },
    }
}

// --- Shares ---

/// A half is a half: the parts differ by one at most, and the second is not the
/// smaller one.
pub proof fn half_is_a_half(total: u16)
    ensures
        2 * SplitRatio::half_spec().share(total) <= total,
        total <= 2 * SplitRatio::half_spec().share(total) + 1,
{
    power2::lemma2_to64();
    let p = (total * 1) as nat;
    assert(window::rounding_unit(p) == 1);
    assert(p / 1 == p && p % 1 == 0);
    assert(window::rounded(p) == p);
}

/// A share is no more than the whole; nothing of it for the ratio 0 and all of it
/// for the ratio 1.
pub proof fn shares_lie_within_the_whole(ratio: SplitRatio, total: u16)
    ensures
        ratio.share(total) <= total,
        ratio.numer == 0 ==> ratio.share(total) == 0,
        ratio == (SplitRatio { numer: 1, shift: 0 }) ==> ratio.share(total) == total,
{
    power2::lemma2_to64();
    share_fits(ratio, total);
    if ratio.numer == 0 {
        assert(total * 0 == 0);
        assert(window::rounded(0) == 0);
        power2::lemma_pow2_pos(ratio.shift as nat);
        assert(0nat / power2::pow2(ratio.shift as nat) == 0) by (nonlinear_arith)
            requires
                power2::pow2(ratio.shift as nat) > 0,
        ;
    }
    if ratio == (SplitRatio { numer: 1, shift: 0 }) {
        let p = (total * 1) as nat;
        assert(window::rounding_unit(p) == 1);
        assert(p / 1 == p && p % 1 == 0);
        assert(window::rounded(p) == p);
    }
}

/// A share is the product with the ratio without its fraction, where the product
/// has so few digits that it is not rounded.
pub proof fn share_is_the_product(ratio: SplitRatio, total: u16)
    requires
        ratio.wf(),
        total * ratio.numer < window::SIGNIFICAND_LIMIT,
    ensures
        ratio.share(total) * power2::pow2(ratio.shift as nat) <= total * ratio.numer,
        total * ratio.numer < (ratio.share(total) + 1) * power2::pow2(ratio.shift as nat),
{
    let whole = power2::pow2(ratio.shift as nat) as int;
    power2::lemma_pow2_pos(ratio.shift as nat);
    assert(total * ratio.numer >= 0) by (nonlinear_arith)
        requires
            total >= 0,
            ratio.numer >= 0,
    ;
    let p = (total * ratio.numer) as nat;
    assert(window::rounding_unit(p) == 1);
    assert(p / 1 == p && p % 1 == 0);
    assert(window::rounded(p) == p);
    let part = p as int / whole;
    assert(part * whole <= p < (part + 1) * whole) by (nonlinear_arith)
        requires
            whole > 0,
            part == p as int / whole,
            p >= 0,
    ;
    assert(part <= total) by (nonlinear_arith)
        requires
            whole > 0,
            part * whole <= p,
            p == total * ratio.numer,
            ratio.numer <= whole,
            total >= 0,
    ;
    assert(part >= 0) by (nonlinear_arith)
        requires
            whole > 0,
            p < (part + 1) * whole,
            p >= 0,
    ;
}

proof fn share_fits(ratio: SplitRatio, total: u16)
    ensures
        ratio.share(total) <= total,
{
    let whole = power2::pow2(ratio.shift as nat);
    let p = window::rounded((total * ratio.numer) as nat);
    power2::lemma_pow2_pos(ratio.shift as nat);
    assert(p / whole >= 0) by (nonlinear_arith)
        requires
            p >= 0,
            whole > 0,
    ;
}

// --- Tiling ---

/// A layout tiles its area: each cell is covered by a window of the tree, and
/// where there is room for all windows, by one only, and no window covers a cell
/// outside.
pub proof fn layout_tiles_the_area(
    node: WindowNode,
    windows: Map<WindowId, Window>,
    x: u16,
    y: u16,
    width: u16,
    height: u16,
    column: int,
    row: int,
)
    requires
        node.leaves().no_duplicates(),
        forall|id: WindowId| #[trigger] node.leaves().contains(id) ==> windows.contains_key(id),
        x + width <= u16::MAX,
        y + height <= u16::MAX,
    ensures
        ({
            let after = editor::laid_out(node, windows, x, y, width, height);
            let inside = lies_in(column, row, x as int, y as int, width as int, height as int);
            &&& inside ==> exists|id: WindowId| #[trigger]
                node.leaves().contains(id) && covers(after[id], column, row)
            &&& has_room(node, width as int, height as int) ==> {
                &&& forall|id: WindowId| #[trigger]
                    node.leaves().contains(id) && covers(after[id], column, row) ==> inside
                &&& forall|a: WindowId, b: WindowId| #[trigger]
                    node.leaves().contains(a) && #[trigger] node.leaves().contains(b) && covers(
                        after[a],
                        column,
                        row,
                    ) && covers(after[b], column, row) ==> a == b
            }
        }),
    decreases node,
{
    let after = editor::laid_out(node, windows, x, y, width, height);
    let inside = lies_in(column, row, x as int, y as int, width as int, height as int);
    match node {
        WindowNode::Leaf { window_id } => {
            assert(node.leaves()[0] == window_id);
            assert(node.leaves().contains(window_id));
            assert(windows.contains_key(window_id));
            assert(after[window_id] == editor::placed(windows[window_id], x, y, width, height));
            assert forall|id: WindowId| #[trigger] node.leaves().contains(id) implies id
                == window_id by {}
            if inside {
                assert(covers(after[window_id], column, row));
            }
        },
        WindowNode::Split { direction, ratio, first, second } => {
            let a = first.leaves();
            let b = second.leaves();
            window::parts_of_distinct(a, b);
            assert forall|id: WindowId| node.leaves().contains(id) <==> a.contains(id)
                || b.contains(id) by {
                window::contains_of_sum(a, b, id);
            }
            assert forall|id: WindowId| #[trigger] a.contains(id) implies windows.contains_key(
                id,
            ) by {
                assert(node.leaves().contains(id));
            }
            let (w1, h1) = match direction {
                SplitDirection::Horizontal => (width, ratio.share(height)),
                SplitDirection::Vertical => (ratio.share(width), height),
            };
            share_fits(ratio, height);
            share_fits(ratio, width);
            let (x2, y2, w2, h2) = match direction {
                SplitDirection::Horizontal => (x, (y + h1) as u16, width, (height - h1) as u16),
                SplitDirection::Vertical => ((x + w1) as u16, y, (width - w1) as u16, height),
            };
            let mid = editor::laid_out(*first, windows, x, y, w1, h1);
            editor::layout_keeps_windows(*first, windows, x, y, w1, h1);
            assert forall|id: WindowId| #[trigger] b.contains(id) implies mid.contains_key(id) by {
                assert(node.leaves().contains(id));
            }
            layout_tiles_the_area(*first, windows, x, y, w1, h1, column, row);
            layout_tiles_the_area(*second, mid, x2, y2, w2, h2, column, row);
            editor::layout_keeps_windows(*second, mid, x2, y2, w2, h2);
            assert(after == editor::laid_out(*second, mid, x2, y2, w2, h2));
            assert forall|id: WindowId| #[trigger] a.contains(id) implies after[id] == mid[id] by {
                assert(windows.contains_key(id));
                assert(mid.contains_key(id));
                assert(!b.contains(id));
            }
            if inside {
                if lies_in(column, row, x as int, y as int, w1 as int, h1 as int) {
                    let id = choose|id: WindowId| #[trigger]
                        a.contains(id) && covers(mid[id], column, row);
                    assert(node.leaves().contains(id) && covers(after[id], column, row));
                } else {
                    assert(lies_in(column, row, x2 as int, y2 as int, w2 as int, h2 as int));
                    let id = choose|id: WindowId| #[trigger]
                        b.contains(id) && covers(after[id], column, row);
                    assert(node.leaves().contains(id) && covers(after[id], column, row));
                }
            }
        },
    }
}

/// The windows of the tree tile what the command windows leave of the frame: its
/// columns from the first to the last, and its rows below the command windows at
/// the top.
pub proof fn windows_tile_the_frame(
    frame: Frame,
    tree: WindowNode,
    windows: Map<WindowId, Window>,
    column: int,
    row: int,
)
    requires
        tree.leaves().no_duplicates(),
        forall|id: WindowId| #[trigger] tree.leaves().contains(id) ==> windows.contains_key(id),
        editor::command_rows(windows, true) <= u16::MAX,
        editor::command_rows(windows, false) <= frame.available_lines,
    ensures
        ({
            let after = editor::arranged(frame, tree, windows);
            let top = editor::command_rows(windows, true) as int;
            let rows = frame.available_lines - editor::command_rows(windows, false);
            let inside = 0 <= column < frame.available_columns && top <= row < top + rows;
            &&& top + rows <= frame.available_lines
            &&& inside ==> exists|id: WindowId| #[trigger]
                tree.leaves().contains(id) && covers(after[id], column, row)
            &&& has_room(tree, frame.available_columns as int, rows) ==> {
                &&& forall|id: WindowId| #[trigger]
                    tree.leaves().contains(id) && covers(after[id], column, row) ==> inside
                &&& forall|a: WindowId, b: WindowId| #[trigger]
                    tree.leaves().contains(a) && #[trigger] tree.leaves().contains(b) && covers(
                        after[a],
                        column,
                        row,
                    ) && covers(after[b], column, row) ==> a == b
            }
        }),
{
    editor::top_rows_at_most_all(windows);
    layout_tiles_the_area(
        tree,
        windows,
        0,
        editor::command_rows(windows, true) as u16,
        frame.available_columns,
        editor::rows_left(frame.available_lines, windows),
        column,
        row,
    );
}

/// No window is laid out below the least size.
pub proof fn windows_have_the_least_size(
    node: WindowNode,
    windows: Map<WindowId, Window>,
    x: u16,
    y: u16,
    width: u16,
    height: u16,
    id: WindowId,
)
    requires
        node.leaves().contains(id),
        windows.contains_key(id),
    ensures
        editor::laid_out(node, windows, x, y, width, height)[id].width_chars >= 4,
        editor::laid_out(node, windows, x, y, width, height)[id].height_chars >= 4,
    decreases node,
{
    match node {
        WindowNode::Leaf { window_id } => {
            assert(node.leaves()[0] == window_id);
        },
        WindowNode::Split { direction, ratio, first, second } => {
            window::contains_of_sum(first.leaves(), second.leaves(), id);
            let (w1, h1) = match direction {
                SplitDirection::Horizontal => (width, ratio.share(height)),
                SplitDirection::Vertical => (ratio.share(width), height),
            };
            let (x2, y2, w2, h2) = match direction {
                SplitDirection::Horizontal => (x, (y + h1) as u16, width, (height - h1) as u16),
                SplitDirection::Vertical => ((x + w1) as u16, y, (width - w1) as u16, height),
            };
            let mid = editor::laid_out(*first, windows, x, y, w1, h1);
            editor::layout_keeps_windows(*first, windows, x, y, w1, h1);
            editor::layout_keeps_windows(*second, mid, x2, y2, w2, h2);
            assert(mid.contains_key(id));
            if second.leaves().contains(id) {
                windows_have_the_least_size(*second, mid, x2, y2, w2, h2, id);
            } else {
                windows_have_the_least_size(*first, windows, x, y, w1, h1, id);
            }
        },
    }
}

// --- Splitting ---

/// The area of a window of a tree.
struct Area {
    x: int,
    y: int,
    width: int,
    height: int,
}

spec fn first_area(a: Area, direction: SplitDirection, ratio: SplitRatio) -> Area {
    match direction {
        SplitDirection::Horizontal => Area { height: ratio.share(a.height as u16) as int, ..a },
        SplitDirection::Vertical => Area { width: ratio.share(a.width as u16) as int, ..a },
    }
}

spec fn second_area(a: Area, direction: SplitDirection, ratio: SplitRatio) -> Area {
    match direction {
        SplitDirection::Horizontal => {
            let part = ratio.share(a.height as u16);
            Area { y: a.y + part, height: a.height - part, ..a }
        },
        SplitDirection::Vertical => {
            let part = ratio.share(a.width as u16);
            Area { x: a.x + part, width: a.width - part, ..a }
        },
    }
}

spec fn area_of(node: WindowNode, id: WindowId, a: Area) -> Area
    decreases node,
{
    match node {
        WindowNode::Leaf { .. } => a,
        WindowNode::Split { direction, ratio, first, second } => if first.leaves().contains(id) {
            area_of(*first, id, first_area(a, direction, ratio))
        } else {
            area_of(*second, id, second_area(a, direction, ratio))
        },
    }
}

spec fn on_grid(a: Area) -> bool {
    &&& 0 <= a.x && 0 <= a.y && 0 <= a.width && 0 <= a.height
    &&& a.x + a.width <= u16::MAX
    &&& a.y + a.height <= u16::MAX
}

proof fn area_is_on_grid(node: WindowNode, id: WindowId, a: Area)
    requires
        on_grid(a),
    ensures
        on_grid(area_of(node, id, a)),
    decreases node,
{
    match node {
        WindowNode::Leaf { .. } => {},
        WindowNode::Split { direction, ratio, first, second } => {
            share_fits(ratio, a.height as u16);
            share_fits(ratio, a.width as u16);
            area_is_on_grid(*first, id, first_area(a, direction, ratio));
            area_is_on_grid(*second, id, second_area(a, direction, ratio));
        },
    }
}

spec fn put_in(w: Window, a: Area) -> Window {
    editor::placed(w, a.x as u16, a.y as u16, a.width as u16, a.height as u16)
}

proof fn windows_get_their_areas(
    node: WindowNode,
    windows: Map<WindowId, Window>,
    a: Area,
    id: WindowId,
)
    requires
        node.leaves().no_duplicates(),
        node.leaves().contains(id),
        windows.contains_key(id),
        on_grid(a),
    ensures
        editor::laid_out(
            node,
            windows,
            a.x as u16,
            a.y as u16,
            a.width as u16,
            a.height as u16,
        )[id] == put_in(windows[id], area_of(node, id, a)),
    decreases node,
{
    match node {
        WindowNode::Leaf { window_id } => {
            assert(node.leaves()[0] == window_id);
        },
        WindowNode::Split { direction, ratio, first, second } => {
            window::contains_of_sum(first.leaves(), second.leaves(), id);
            window::parts_of_distinct(first.leaves(), second.leaves());
            share_fits(ratio, a.height as u16);
            share_fits(ratio, a.width as u16);
            let p = first_area(a, direction, ratio);
            let q = second_area(a, direction, ratio);
            let mid = editor::laid_out(
                *first,
                windows,
                p.x as u16,
                p.y as u16,
                p.width as u16,
                p.height as u16,
            );
            editor::layout_keeps_windows(
                *first,
                windows,
                p.x as u16,
                p.y as u16,
                p.width as u16,
                p.height as u16,
            );
            editor::layout_keeps_windows(
                *second,
                mid,
                q.x as u16,
                q.y as u16,
                q.width as u16,
                q.height as u16,
            );
            assert(mid.contains_key(id));
            assert(editor::laid_out(
                node,
                windows,
                a.x as u16,
                a.y as u16,
                a.width as u16,
                a.height as u16,
            ) == editor::laid_out(
                *second,
                mid,
                q.x as u16,
                q.y as u16,
                q.width as u16,
                q.height as u16,
            ));
            if first.leaves().contains(id) {
                windows_get_their_areas(*first, windows, p, id);
            } else {
                assert(mid[id] == windows[id]);
                windows_get_their_areas(*second, mid, q, id);
            }
        },
    }
}

proof fn split_divides_area(
    node: WindowNode,
    target: WindowId,
    added: WindowId,
    direction: SplitDirection,
    a: Area,
    id: WindowId,
)
    requires
        node.leaves().no_duplicates(),
        node.leaves().contains(target),
        !node.leaves().contains(added),
        node.leaves().contains(id) || id == added,
    ensures
        ({
            let split = node.with_split(target, added, direction);
            let half = SplitRatio::half_spec();
            let old_area = area_of(node, target, a);
            area_of(split, id, a) == if id == target {
                first_area(old_area, direction, half)
            } else if id == added {
                second_area(old_area, direction, half)
            } else {
                area_of(node, id, a)
            }
        }),
    decreases node,
{
    let split = node.with_split(target, added, direction);
    match node {
        WindowNode::Leaf { window_id } => {
            assert(node.leaves()[0] == window_id);
            let first = WindowNode::Leaf { window_id: target };
            let second = WindowNode::Leaf { window_id: added };
            assert(first.leaves()[0] == target);
            assert(first.leaves().contains(target));
            assert(!first.leaves().contains(added));
            assert(id == target || id == added);
            reveal_with_fuel(area_of, 3);
        },
        WindowNode::Split { direction: d, ratio, first, second } => {
            let p = first.leaves();
            let q = second.leaves();
            window::contains_of_sum(p, q, target);
            window::contains_of_sum(p, q, added);
            window::contains_of_sum(p, q, id);
            window::parts_of_distinct(p, q);
            window::split_adds_leaf(*first, target, added, direction);
            window::split_adds_leaf(*second, target, added, direction);
            let first_split = first.with_split(target, added, direction);
            let second_split = second.with_split(target, added, direction);
            assert(first_split.leaves().contains(id) <==> (p.contains(id) || (id == added
                && p.contains(target))));
            let fa = first_area(a, d, ratio);
            let sa = second_area(a, d, ratio);
            if p.contains(target) {
                if p.contains(id) || id == added {
                    split_divides_area(*first, target, added, direction, fa, id);
                } else {
                    unsplit_is_same(*second, target, added, direction);
                }
            } else {
                if q.contains(id) || id == added {
                    split_divides_area(*second, target, added, direction, sa, id);
                } else {
                    unsplit_is_same(*first, target, added, direction);
                }
            }
        },
    }
}

proof fn unsplit_is_same(
    node: WindowNode,
    target: WindowId,
    added: WindowId,
    direction: SplitDirection,
)
    requires
        !node.leaves().contains(target),
    ensures
        node.with_split(target, added, direction) == node,
    decreases node,
{
    match node {
        WindowNode::Leaf { window_id } => {
            assert(node.leaves()[0] == window_id);
        },
        WindowNode::Split { first, second, .. } => {
            window::contains_of_sum(first.leaves(), second.leaves(), target);
            unsplit_is_same(*first, target, added, direction);
            unsplit_is_same(*second, target, added, direction);
        },
    }
}

/// Whether an editor is in order: its tree fits its windows and holds no command
/// windows, they lie where the layout puts them, and the active one is in the
/// tree.
pub open spec fn is_laid_out(e: Editor) -> bool {
    &&& e.tree_ok()
    &&& forall|id: WindowId| #[trigger]
        e.window_tree.leaves().contains(id) ==> !e.windows@[id].is_command()
    &&& e.windows@.dom().finite()
    &&& e.windows@.contains_key(e.active_window)
    &&& !e.here().is_command()
    &&& editor::command_rows(e.windows@, true) <= u16::MAX
    &&& editor::command_rows(e.windows@, false) <= e.frame.available_lines
    &&& e.windows@ == editor::arranged(e.frame, e.window_tree, e.windows@)
}

proof fn normal_window_takes_no_rows(e: Editor, id: WindowId, top_only: bool)
    requires
        e.windows@.dom().finite(),
        !e.windows@.contains_key(id),
        !e.here().is_command(),
    ensures
        editor::command_rows(e.windows@.insert(id, e.here()), top_only) == editor::command_rows(
            e.windows@,
            top_only,
        ),
{
    let more = e.windows@.insert(id, e.here());
    editor::command_rows_add_up(more, top_only, id);
    assert(more.remove(id) =~= e.windows@);
}

spec fn whole_area(e: Editor) -> Area {
    Area {
        x: 0,
        y: editor::command_rows(e.windows@, true) as int,
        width: e.frame.available_columns as int,
        height: e.frame.available_lines - editor::command_rows(e.windows@, false),
    }
}

/// Whether `a` and `b` are two parts of a window, `b` below `a` or right of it,
/// that together take up its place and are of the same size but for one cell.
pub open spec fn are_halves(
    whole: Window,
    a: Window,
    b: Window,
    direction: SplitDirection,
) -> bool {
    match direction {
        SplitDirection::Horizontal => {
            &&& a.x == whole.x && b.x == whole.x
            &&& a.width_chars == whole.width_chars && b.width_chars == whole.width_chars
            &&& a.y == whole.y
            &&& b.y == a.y + a.height_chars
            &&& a.height_chars + b.height_chars == whole.height_chars
            &&& a.height_chars <= b.height_chars <= a.height_chars + 1
        },
        SplitDirection::Vertical => {
            &&& a.y == whole.y && b.y == whole.y
            &&& a.height_chars == whole.height_chars && b.height_chars == whole.height_chars
            &&& a.x == whole.x
            &&& b.x == a.x + a.width_chars
            &&& a.width_chars + b.width_chars == whole.width_chars
            &&& a.width_chars <= b.width_chars <= a.width_chars + 1
        },
    }
}

/// Splitting the active window divides its place in two halves, the new window
/// below or right of it; all other windows stay where they are, and the new one
/// shows the same place of the same buffer.
pub proof fn split_divides_the_window(
    e: Editor,
    f: Editor,
    id: WindowId,
    direction: SplitDirection,
)
    requires
        is_laid_out(e),
        e.split_into(&f, id, direction),
        direction == SplitDirection::Horizontal ==> e.here().height_chars >= 2
            * MIN_WINDOW_CHARS,
        direction == SplitDirection::Vertical ==> e.here().width_chars >= 2 * MIN_WINDOW_CHARS,
    ensures
        are_halves(e.here(), f.windows@[e.active_window], f.windows@[id], direction),
        f.active_window == e.active_window,
        f.windows@.dom() == e.windows@.dom().insert(id),
        f.windows@[id].active_buffer == e.here().active_buffer,
        f.windows@[id].cursor == e.here().cursor,
        f.windows@[e.active_window].active_buffer == e.here().active_buffer,
        f.windows@[e.active_window].cursor == e.here().cursor,
        forall|o: WindowId| #[trigger]
            e.windows@.contains_key(o) && o != e.active_window ==> f.windows@[o] == e.windows@[o],
{
    let a = whole_area(e);
    let more = e.windows@.insert(id, e.here());
    let target = e.active_window;
    editor::top_rows_at_most_all(e.windows@);
    normal_window_takes_no_rows(e, id, true);
    normal_window_takes_no_rows(e, id, false);
    if e.window_tree.leaves().contains(id) {
        assert(e.windows@.contains_key(id));
    }
    assert(e.window_tree.leaves().contains(target));
    window::split_adds_leaf(e.window_tree, target, id, direction);
    assert(f.window_tree.leaves().contains(id));
    assert(f.window_tree.leaves().contains(target));
    editor::layout_keeps_windows(
        f.window_tree,
        more,
        0,
        a.y as u16,
        a.width as u16,
        a.height as u16,
    );
    windows_get_their_areas(e.window_tree, e.windows@, a, target);
    windows_get_their_areas(f.window_tree, more, a, target);
    windows_get_their_areas(f.window_tree, more, a, id);
    split_divides_area(e.window_tree, target, id, direction, a, target);
    split_divides_area(e.window_tree, target, id, direction, a, id);
    area_is_on_grid(e.window_tree, target, a);
    let w = area_of(e.window_tree, target, a);
    half_is_a_half(w.width as u16);
    half_is_a_half(w.height as u16);
    assert(f.windows@.dom() =~= e.windows@.dom().insert(id));
    assert(more.contains_key(id) && more.contains_key(target));
    assert forall|o: WindowId| #[trigger]
        e.windows@.contains_key(o) && o != target implies f.windows@[o] == e.windows@[o] by {
        assert(more.contains_key(o));
        if e.window_tree.leaves().contains(o) {
            assert(f.window_tree.leaves().contains(o));
            windows_get_their_areas(e.window_tree, e.windows@, a, o);
            windows_get_their_areas(f.window_tree, more, a, o);
            split_divides_area(e.window_tree, target, id, direction, a, o);
        } else {
            assert(!f.window_tree.leaves().contains(o));
        }
    }
}

proof fn heir_of_split(
    node: WindowNode,
    target: WindowId,
    added: WindowId,
    direction: SplitDirection,
)
    requires
        node.leaves().no_duplicates(),
        node.leaves().contains(target),
        !node.leaves().contains(added),
    ensures
        node.with_split(target, added, direction).heir(added) == Some(target),
    decreases node,
{
    match node {
        WindowNode::Leaf { window_id } => {
            assert(node.leaves()[0] == window_id);
            let second = WindowNode::Leaf { window_id: added };
            assert(node != second);
        },
        WindowNode::Split { first, second, .. } => {
            let p = first.leaves();
            let q = second.leaves();
            window::contains_of_sum(p, q, target);
            window::contains_of_sum(p, q, added);
            window::parts_of_distinct(p, q);
            window::split_adds_leaf(*first, target, added, direction);
            window::split_adds_leaf(*second, target, added, direction);
            let first_split = first.with_split(target, added, direction);
            let second_split = second.with_split(target, added, direction);
            let lone = WindowNode::Leaf { window_id: added };
            assert(lone.leaves()[0] == added);
            assert(first_split.leaves().contains(added) <==> p.contains(target));
            if first_split == lone {
                assert(first_split.leaves().contains(added));
                assert(first_split.leaves().contains(target));
            }
            if second_split == lone {
                assert(second_split.leaves().contains(added));
                assert(second_split.leaves().contains(target));
            }
            if p.contains(target) {
                heir_of_split(*first, target, added, direction);
            } else {
                heir_of_split(*second, target, added, direction);
            }
        },
    }
}

/// Removing a window that was just split off gives back the windows as they
/// were, and the active one.
pub proof fn delete_undoes_split(
    e: Editor,
    f: Editor,
    g: Editor,
    id: WindowId,
    direction: SplitDirection,
)
    requires
        is_laid_out(e),
        e.split_into(&f, id, direction),
        (Editor { active_window: id, ..f }).active_deleted(&g),
    ensures
        g.windows@ == e.windows@,
        g.window_tree == e.window_tree,
        g.active_window == e.active_window,
        g.buffers == e.buffers,
{
    let a = whole_area(e);
    let more = e.windows@.insert(id, e.here());
    let rest = f.windows@.remove(id);
    let target = e.active_window;
    editor::top_rows_at_most_all(e.windows@);
    if e.window_tree.leaves().contains(id) {
        assert(e.windows@.contains_key(id));
    }
    assert(e.window_tree.leaves().contains(target));
    window::without_undoes_split(e.window_tree, target, id, direction);
    heir_of_split(e.window_tree, target, id, direction);
    window::split_adds_leaf(e.window_tree, target, id, direction);
    normal_window_takes_no_rows(e, id, true);
    normal_window_takes_no_rows(e, id, false);
    editor::layout_keeps_windows(
        f.window_tree,
        more,
        0,
        a.y as u16,
        a.width as u16,
        a.height as u16,
    );
    assert(rest.dom() =~= e.windows@.dom());
    // No command window is moved, so as many rows are left.
    assert forall|o: WindowId| #[trigger] e.windows@.contains_key(o) implies {
        &&& rest[o].active_buffer == e.windows@[o].active_buffer
        &&& rest[o].cursor == e.windows@[o].cursor
        &&& rest[o].window_type == e.windows@[o].window_type
        &&& !e.window_tree.leaves().contains(o) ==> rest[o] == e.windows@[o]
    } by {
        assert(more.contains_key(o));
        assert(f.window_tree.leaves().contains(o) <==> e.window_tree.leaves().contains(o));
    }
    assert forall|o: WindowId, top_only: bool| #[trigger]
        e.windows@.contains_key(o) implies #[trigger] editor::rows_taken(rest[o], top_only)
        == editor::rows_taken(e.windows@[o], top_only) by {}
    same_heights_take_the_same_rows(e.windows@, rest, true);
    same_heights_take_the_same_rows(e.windows@, rest, false);
    editor::layout_keeps_windows(
        e.window_tree,
        rest,
        0,
        a.y as u16,
        a.width as u16,
        a.height as u16,
    );
    assert(g.windows@ =~= e.windows@) by {
        assert forall|o: WindowId| #[trigger] e.windows@.contains_key(o) implies g.windows@[o]
            == e.windows@[o] by {
            assert(rest.contains_key(o));
            if e.window_tree.leaves().contains(o) {
                windows_get_their_areas(e.window_tree, e.windows@, a, o);
                windows_get_their_areas(e.window_tree, rest, a, o);
            }
        }
    }
}

proof fn same_heights_take_the_same_rows(
    a: Map<WindowId, Window>,
    b: Map<WindowId, Window>,
    top_only: bool,
)
    requires
        a.dom() == b.dom(),
        forall|o: WindowId| #[trigger]
            a.contains_key(o) ==> editor::rows_taken(a[o], top_only) == editor::rows_taken(
                b[o],
                top_only,
            ),
    ensures
        editor::command_rows(a, top_only) == editor::command_rows(b, top_only),
    decreases a.dom().len(),
{
    if a.dom().finite() && !a.dom().is_empty() {
        let id = a.dom().choose();
        assert(a.contains_key(id));
        same_heights_take_the_same_rows(a.remove(id), b.remove(id), top_only);
    }
}

// --- Ratios from numbers ---

/// The ratios of single-precision numbers between 0 and 1 grow as the numbers do:
/// one more in the exponent is twice the ratio, and each step of the fraction is
/// one part more.
pub proof fn ratios_grow_with_the_numbers(bits: u32)
    requires
        0x80_0000 <= bits,
        bits < 0x3e80_0000,
    ensures
        SplitRatio::of_float_bits((bits + 0x80_0000) as u32).numer == SplitRatio::of_float_bits(
            bits,
        ).numer,
        SplitRatio::of_float_bits((bits + 0x80_0000) as u32).shift + 1
            == SplitRatio::of_float_bits(bits).shift,
        (bits + 1) % 0x80_0000 != 0 ==> SplitRatio::of_float_bits((bits + 1) as u32).numer
            == SplitRatio::of_float_bits(bits).numer + 1 && SplitRatio::of_float_bits(
            (bits + 1) as u32,
        ).shift == SplitRatio::of_float_bits(bits).shift,
{
}

/// What is not a number between 0 and 1 counts as the nearest of the two, where
/// it is a number, and as a half where it is none. The number one half is a half.
pub proof fn other_numbers_count_as_the_nearest(bits: u32)
    ensures
        0x3f80_0000 <= bits < 0x7f80_0000 ==> SplitRatio::of_float_bits(bits).share(100) == 100,
        0x8000_0000 <= bits < 0xff80_0000 ==> SplitRatio::of_float_bits(bits).share(100) == 0,
        0x7f80_0000 <= bits < 0x8000_0000 || 0xff80_0000 <= bits ==> SplitRatio::of_float_bits(bits)
            == SplitRatio::half_spec(),
        2 * SplitRatio::of_float_bits(0x3f00_0000).numer == power2::pow2(
            SplitRatio::of_float_bits(0x3f00_0000).shift as nat,
        ),
{
    power2::lemma2_to64();
    assert(window::rounding_unit(100) == 1);
    assert(window::rounding_unit(0) == 1);
    assert(window::rounded(100) == 100);
    assert(window::rounded(0) == 0);
    assert(100nat / 1 == 100);
    assert(0nat / 1 == 0);
    if 0x3f80_0000 <= bits < 0x7f80_0000 {
        assert((bits / 0x80_0000) % 256 >= 127);
        assert(SplitRatio::of_float_bits(bits) == (SplitRatio { numer: 1, shift: 0 }));
    }
    if 0x8000_0000 <= bits < 0xff80_0000 {
        assert(SplitRatio::of_float_bits(bits) == (SplitRatio { numer: 0, shift: 0 }));
    }
}

} // verus!
