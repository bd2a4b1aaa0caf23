//! The editor: its frame, windows and buffers.

use vstd::prelude::*;
use vstd::string::*;

use crate::buffer::{Buffer, BufferInner};
use crate::file_watcher::FileWatcher;
use crate::ids::{BufferId, WindowId};
use crate::kill_ring::KillRing;
use crate::native_services::ClockReading;
use crate::renderer::DirtyRegion;
use crate::slots;
use crate::slots::{BufferSlots, WindowSlots};
use crate::text;
use crate::text::{char_count, decimal_string};

pub use crate::window::{
    CommandType, CommandWindowPosition, OpenType, SplitDirection, SplitRatio, Window, WindowNode,
    WindowType,
};

verus! {

/// How long an echo message stays, in milliseconds.
pub const ECHO_TIMEOUT_MILLIS: u64 = 3_000;

/// The most characters that the messages buffer keeps.
pub const MAX_MESSAGES_CHARS: usize = 65_536;

/// The most buffers that the buffer history keeps.
pub const MAX_BUFFER_HISTORY: usize = 20;

/// The least width and height of a window.
pub const MIN_WINDOW_CHARS: u16 = 4;

/// The whole screen, with its echo area.
#[derive(Debug, Clone, Copy, PartialEq, Eq, Structural)]
pub struct Frame {
    pub columns: u16,
    pub rows: u16,
    pub available_columns: u16,
    pub available_lines: u16,
}

impl Frame {
    pub fn new(columns: u16, rows: u16) -> (r: Self)
        ensures
            r == (Frame {
                columns,
                rows,
                available_columns: columns,
                available_lines: rows,
            }),
    {
        Frame { columns, rows, available_columns: columns, available_lines: rows }
    }
}

/// A drag with the mouse.
#[derive(Debug)]
pub struct MouseDragState {
    pub drag_type: DragType,
    pub start_pos: (u16, u16),
    /// The position that was handled last.
    pub last_pos: (u16, u16),
    pub current_pos: (u16, u16),
    pub target_window: Option<WindowId>,
    pub border_info: Option<BorderInfo>,
}

#[derive(Debug, Clone, Copy, PartialEq, Eq, Structural)]
pub enum DragType {
    WindowBorder,
    Other,
}

/// The border that is dragged.
#[derive(Debug)]
pub struct BorderInfo {
    pub is_vertical: bool,
    /// The way from the root of the window tree to the split: 0 for the first
    /// part, 1 for the second.
    pub split_node_path: Vec<usize>,
    pub original_ratio: SplitRatio,
}

/// Where an edit goes.
#[derive(Debug, Clone, Copy, PartialEq, Eq, Structural)]
pub enum ActionPosition {
    Cursor,
    Absolute(u16, u16),
    End,
}

impl ActionPosition {
    pub fn cursor() -> (r: Self)
        ensures
            r == ActionPosition::Cursor,
    {
        ActionPosition::Cursor
    }

    pub fn absolute(row: u16, col: u16) -> (r: Self)
        ensures
            r == ActionPosition::Absolute(row, col),
    {
        ActionPosition::Absolute(row, col)
    }

    pub fn end() -> (r: Self)
        ensures
            r == ActionPosition::End,
    {
        ActionPosition::End
    }

    pub fn start() -> (r: Self)
        ensures
            r == ActionPosition::Absolute(0, 0),
    {
        ActionPosition::Absolute(0, 0)
    }
}

/// What the surroundings of the editor have to do.
#[derive(Debug, Clone, PartialEq, Eq)]
pub enum ChromeAction {
    Save,
    Echo(String),
    MarkDirty(DirtyRegion),
    /// Characters from `start` up to `old_end` became those up to `new_end`.
    BufferChanged { buffer_id: BufferId, start: usize, old_end: usize, new_end: usize },
}

/// A chrome action as a mathematical value.
pub enum ChromeView {
    Save,
    Echo(Seq<char>),
    MarkDirty(DirtyRegion),
    BufferChanged { buffer_id: BufferId, start: usize, old_end: usize, new_end: usize },
}

impl View for ChromeAction {
    type V = ChromeView;

    open spec fn view(&self) -> ChromeView {
        match self {
            ChromeAction::Save => ChromeView::Save,
            ChromeAction::Echo(message) => ChromeView::Echo(message@),
            ChromeAction::MarkDirty(region) => ChromeView::MarkDirty(*region),
            ChromeAction::BufferChanged { buffer_id, start, old_end, new_end } =>
                ChromeView::BufferChanged {
                buffer_id: *buffer_id,
                start: *start,
                old_end: *old_end,
                new_end: *new_end,
            },
        }
    }
}

/// Chrome actions as mathematical values.
pub open spec fn chrome_views(actions: Seq<ChromeAction>) -> Seq<ChromeView> {
    actions.map_values(|a: ChromeAction| a@)
}

pub struct Editor {
    pub frame: Frame,
    pub buffers: BufferSlots,
    pub windows: WindowSlots,
    pub active_window: WindowId,
    /// How the frame is divided among the windows.
    pub window_tree: WindowNode,
    pub kill_ring: KillRing,
    /// The window that was active before a command window opened.
    pub previous_active_window: Option<WindowId>,
    /// The buffers that were shown, the latest first.
    pub buffer_history: Vec<BufferId>,
    pub echo_message: String,
    /// When the echo message was set.
    pub echo_message_time: Option<u64>,
    pub mouse_drag_state: Option<MouseDragState>,
    pub messages_buffer_id: Option<BufferId>,
    pub file_watcher: FileWatcher,
}

// --- Space for windows ---

/// The rows that a window takes from the others: its own for a command window,
/// or for one at the top only, if so asked.
pub open spec fn rows_taken(w: Window, top_only: bool) -> nat {
    match w.window_type {
        WindowType::Normal => 0,
        WindowType::Command { position, .. } => if top_only && position
            == CommandWindowPosition::Bottom {
            0
        } else {
            w.height_chars as nat
        },
    }
}

/// The rows that the command windows take; those at the top only, if so asked.
pub open spec fn command_rows(windows: Map<WindowId, Window>, top_only: bool) -> nat
    decreases windows.dom().len(),
{
    if !windows.dom().finite() || windows.dom().is_empty() {
        0
    } else {
        let id = windows.dom().choose();
        command_rows(windows.remove(id), top_only) + rows_taken(windows[id], top_only)
    }
}

/// Every window adds its rows, in whatever order they are counted.
pub proof fn command_rows_add_up(windows: Map<WindowId, Window>, top_only: bool, id: WindowId)
    requires
        windows.dom().finite(),
        windows.contains_key(id),
    ensures
        command_rows(windows, top_only) == command_rows(windows.remove(id), top_only)
            + rows_taken(windows[id], top_only),
    decreases windows.dom().len(),
{
    let c = windows.dom().choose();
    if c != id {
        let without_c = windows.remove(c);
        let without_id = windows.remove(id);
        command_rows_add_up(without_c, top_only, id);
        command_rows_add_up(without_id, top_only, c);
        assert(without_c.remove(id) =~= without_id.remove(c));
    }
}

/// The command windows at the top take no more rows than all of them.
pub proof fn top_rows_at_most_all(windows: Map<WindowId, Window>)
    ensures
        command_rows(windows, true) <= command_rows(windows, false),
    decreases windows.dom().len(),
{
    if windows.dom().finite() && !windows.dom().is_empty() {
        top_rows_at_most_all(windows.remove(windows.dom().choose()));
    }
}

/// A new window takes its rows.
proof fn rows_with_new(windows: Map<WindowId, Window>, id: WindowId, w: Window, top_only: bool)
    requires
        !windows.contains_key(id),
    ensures
        command_rows(windows.insert(id, w), top_only) <= command_rows(windows, top_only)
            + rows_taken(w, top_only),
{
    let more = windows.insert(id, w);
    if windows.dom().finite() {
        command_rows_add_up(more, top_only, id);
        assert(more.remove(id) =~= windows);
    } else {
        assert(!more.dom().finite()) by {
            if more.dom().finite() {
                assert(more.dom().remove(id) =~= windows.dom());
            }
        }
    }
}

/// The rows that normal windows have of `lines`.
pub open spec fn rows_left(lines: u16, windows: Map<WindowId, Window>) -> u16 {
    let taken = command_rows(windows, false);
    if taken <= lines {
        (lines - taken) as u16
    } else {
        0
    }
}

// --- Layout ---

/// `w` with the given place and size, and the least size at least.
pub open spec fn placed(w: Window, x: u16, y: u16, width: u16, height: u16) -> Window {
    Window {
        x,
        y,
        width_chars: if width >= MIN_WINDOW_CHARS {
            width
        } else {
            MIN_WINDOW_CHARS
        },
        height_chars: if height >= MIN_WINDOW_CHARS {
            height
        } else {
            MIN_WINDOW_CHARS
        },
        ..w
    }
}

/// The windows after the space at `x`, `y` was divided as `node` says.
pub open spec fn laid_out(
    node: WindowNode,
    windows: Map<WindowId, Window>,
    x: u16,
    y: u16,
    width: u16,
    height: u16,
) -> Map<WindowId, Window>
    decreases node,
{
    match node {
        WindowNode::Leaf { window_id } => if windows.contains_key(window_id) {
            windows.insert(window_id, placed(windows[window_id], x, y, width, height))
        } else {
            windows
        },
        WindowNode::Split { direction, ratio, first, second } => match direction {
            SplitDirection::Horizontal => {
                let h = ratio.share(height);
                laid_out(
                    *second,
                    laid_out(*first, windows, x, y, width, h),
                    x,
                    (y + h) as u16,
                    width,
                    (height - h) as u16,
                )
            },
            SplitDirection::Vertical => {
                let w = ratio.share(width);
                laid_out(
                    *second,
                    laid_out(*first, windows, x, y, w, height),
                    (x + w) as u16,
                    y,
                    (width - w) as u16,
                    height,
                )
            },
        },
    }
}

fn layout_node(
    node: &WindowNode,
    windows: &mut WindowSlots,
    x: u16,
    y: u16,
    width: u16,
    height: u16,
)
    requires
        node.ratios_ok(),
        x + width <= u16::MAX,
        y + height <= u16::MAX,
    ensures
        final(windows)@ == laid_out(*node, old(windows)@, x, y, width, height),
    decreases node,
{
    match node {
        WindowNode::Leaf { window_id } => {
            if let Some(w) = windows.get_mut(*window_id) {
                w.x = x;
                w.y = y;
                w.width_chars = if width >= MIN_WINDOW_CHARS {
                    width
                } else {
                    MIN_WINDOW_CHARS
                };
                w.height_chars = if height >= MIN_WINDOW_CHARS {
                    height
                } else {
                    MIN_WINDOW_CHARS
                };
            }
        },
        WindowNode::Split { direction, ratio, first, second } => match direction {
            SplitDirection::Horizontal => {
                let h = ratio.share_of(height);
                layout_node(first, windows, x, y, width, h);
                layout_node(second, windows, x, y + h, width, height - h);
            },
            SplitDirection::Vertical => {
                let w = ratio.share_of(width);
                layout_node(first, windows, x, y, w, height);
                layout_node(second, windows, x + w, y, width - w, height);
            },
        },
    }
}

/// The windows of a frame after they were laid out as `tree` says.
pub open spec fn arranged(
    frame: Frame,
    tree: WindowNode,
    windows: Map<WindowId, Window>,
) -> Map<WindowId, Window> {
    laid_out(
        tree,
        windows,
        0,
        command_rows(windows, true) as u16,
        frame.available_columns,
        rows_left(frame.available_lines, windows),
    )
}

/// Layout moves and sizes windows; which ones there are, and what they show,
/// stays.
pub proof fn layout_keeps_windows(
    node: WindowNode,
    windows: Map<WindowId, Window>,
    x: u16,
    y: u16,
    width: u16,
    height: u16,
)
    ensures
        laid_out(node, windows, x, y, width, height).dom() == windows.dom(),
        forall|id: WindowId| #[trigger]
            windows.contains_key(id) ==> {
                let w = laid_out(node, windows, x, y, width, height)[id];
                &&& w.active_buffer == windows[id].active_buffer
                &&& w.cursor == windows[id].cursor
                &&& w.window_type == windows[id].window_type
            },
        forall|id: WindowId| #[trigger]
            windows.contains_key(id) && !node.leaves().contains(id) ==> laid_out(
                node,
                windows,
                x,
                y,
                width,
                height,
            )[id] == windows[id],
    decreases node,
{
    match node {
        WindowNode::Leaf { window_id } => {
            assert(node.leaves()[0] == window_id);
            assert(laid_out(node, windows, x, y, width, height).dom() =~= windows.dom());
        },
        WindowNode::Split { direction, ratio, first, second } => {
            let (x2, y2, w1, h1, w2, h2) = match direction {
                SplitDirection::Horizontal => {
                    let h = ratio.share(height);
                    (x, (y + h) as u16, width, h, width, (height - h) as u16)
                },
                SplitDirection::Vertical => {
                    let w = ratio.share(width);
                    ((x + w) as u16, y, w, height, (width - w) as u16, height)
                },
            };
            let mid = laid_out(*first, windows, x, y, w1, h1);
            layout_keeps_windows(*first, windows, x, y, w1, h1);
            layout_keeps_windows(*second, mid, x2, y2, w2, h2);
            assert forall|id: WindowId| #[trigger]
                windows.contains_key(id) && !node.leaves().contains(id) implies laid_out(
                node,
                windows,
                x,
                y,
                width,
                height,
            )[id] == windows[id] by {
                assert(mid.contains_key(id));
                if first.leaves().contains(id) {
                    let i = choose|i: int| 0 <= i < first.leaves().len() && first.leaves()[i]
                        == id;
                    assert(node.leaves()[i] == id);
                }
                if second.leaves().contains(id) {
                    let i = choose|i: int| 0 <= i < second.leaves().len() && second.leaves()[i]
                        == id;
                    assert(node.leaves()[first.leaves().len() + i] == id);
                }
            }
            assert forall|id: WindowId| #[trigger] windows.contains_key(id) implies {
                let w = laid_out(node, windows, x, y, width, height)[id];
                &&& w.active_buffer == windows[id].active_buffer
                &&& w.cursor == windows[id].cursor
                &&& w.window_type == windows[id].window_type
            } by {
                assert(mid.contains_key(id));
            }
        },
    }
}

// --- Order on screen ---

/// Whether `a` comes before `b` or beside it: rows first, then columns.
pub open spec fn not_behind(a: Window, b: Window) -> bool {
    a.y < b.y || (a.y == b.y && a.x <= b.x)
}

/// `sorted` with `id` put behind the last window that is not behind it.
pub open spec fn put_on_screen(
    sorted: Seq<WindowId>,
    id: WindowId,
    windows: Map<WindowId, Window>,
) -> Seq<WindowId>
    decreases sorted.len(),
{
    if sorted.len() == 0 {
        seq![id]
    } else if not_behind(windows[sorted.last()], windows[id]) {
        sorted.push(id)
    } else {
        put_on_screen(sorted.drop_last(), id, windows).push(sorted.last())
    }
}

/// The windows `ids` from left to right and top to bottom; those at the same
/// place keep their order.
pub open spec fn on_screen(ids: Seq<WindowId>, windows: Map<WindowId, Window>) -> Seq<WindowId>
    decreases ids.len(),
{
    if ids.len() == 0 {
        seq![]
    } else {
        put_on_screen(on_screen(ids.drop_last(), windows), ids.last(), windows)
    }
}

proof fn put_on_screen_facts(
    sorted: Seq<WindowId>,
    id: WindowId,
    windows: Map<WindowId, Window>,
)
    ensures
        put_on_screen(sorted, id, windows).to_multiset() == sorted.to_multiset().insert(id),
        put_on_screen(sorted, id, windows).len() == sorted.len() + 1,
    decreases sorted.len(),
{
    broadcast use vstd::seq_lib::group_to_multiset_ensures;

    if sorted.len() == 0 {
        assert(seq![id] =~= sorted.push(id));
    } else if not_behind(windows[sorted.last()], windows[id]) {
    } else {
        put_on_screen_facts(sorted.drop_last(), id, windows);
        assert(sorted =~= sorted.drop_last().push(sorted.last()));
        assert(put_on_screen(sorted, id, windows).to_multiset()
            =~= sorted.to_multiset().insert(id));
    }
}

/// The order on screen holds the same windows.
pub proof fn on_screen_permutes(ids: Seq<WindowId>, windows: Map<WindowId, Window>)
    ensures
        on_screen(ids, windows).to_multiset() == ids.to_multiset(),
        on_screen(ids, windows).len() == ids.len(),
        forall|id: WindowId| #[trigger] on_screen(ids, windows).contains(id) <==> ids.contains(id),
    decreases ids.len(),
{
    broadcast use vstd::seq_lib::group_to_multiset_ensures;

    if ids.len() > 0 {
        on_screen_permutes(ids.drop_last(), windows);
        put_on_screen_facts(on_screen(ids.drop_last(), windows), ids.last(), windows);
        assert(ids =~= ids.drop_last().push(ids.last()));
    }
    let s = on_screen(ids, windows);
    assert forall|id: WindowId| #[trigger] s.contains(id) <==> ids.contains(id) by {
        assert(s.contains(id) <==> s.to_multiset().count(id) > 0);
        assert(ids.contains(id) <==> ids.to_multiset().count(id) > 0);
    }
}

/// The order on screen goes from left to right and top to bottom.
pub proof fn on_screen_is_sorted(ids: Seq<WindowId>, windows: Map<WindowId, Window>)
    ensures
        forall|i: int, j: int|
            0 <= i < j < on_screen(ids, windows).len() ==> not_behind(
                windows[#[trigger] on_screen(ids, windows)[i]],
                windows[#[trigger] on_screen(ids, windows)[j]],
            ),
    decreases ids.len(),
{
    if ids.len() > 0 {
        on_screen_is_sorted(ids.drop_last(), windows);
        put_on_screen_sorted(on_screen(ids.drop_last(), windows), ids.last(), windows);
    }
}

proof fn put_on_screen_sorted(
    sorted: Seq<WindowId>,
    id: WindowId,
    windows: Map<WindowId, Window>,
)
    requires
        forall|i: int, j: int|
            0 <= i < j < sorted.len() ==> not_behind(
                windows[#[trigger] sorted[i]],
                windows[#[trigger] sorted[j]],
            ),
    ensures
        forall|i: int, j: int|
            0 <= i < j < put_on_screen(sorted, id, windows).len() ==> not_behind(
                windows[#[trigger] put_on_screen(sorted, id, windows)[i]],
                windows[#[trigger] put_on_screen(sorted, id, windows)[j]],
            ),
        forall|k: int|
            0 <= k < put_on_screen(sorted, id, windows).len() ==> {
                let e = #[trigger] put_on_screen(sorted, id, windows)[k];
                e == id || sorted.contains(e)
            },
    decreases sorted.len(),
{
    let r = put_on_screen(sorted, id, windows);
    if sorted.len() > 0 {
        if not_behind(windows[sorted.last()], windows[id]) {
            assert forall|k: int| 0 <= k < r.len() implies {
                let e = #[trigger] r[k];
                e == id || sorted.contains(e)
            } by {
                if k < sorted.len() {
                    assert(sorted[k] == r[k]);
                }
            }
            assert forall|i: int, j: int| 0 <= i < j < r.len() implies not_behind(
                windows[#[trigger] r[i]],
                windows[#[trigger] r[j]],
            ) by {
                if j == sorted.len() {
                    assert(r[i] == sorted[i]);
                    assert(sorted[sorted.len() - 1] == sorted.last());
                } else {
                    assert(r[i] == sorted[i] && r[j] == sorted[j]);
                }
            }
        } else {
            let head = sorted.drop_last();
            assert forall|i: int, j: int| 0 <= i < j < head.len() implies not_behind(
                windows[#[trigger] head[i]],
                windows[#[trigger] head[j]],
            ) by {
                assert(head[i] == sorted[i] && head[j] == sorted[j]);
            }
            put_on_screen_sorted(head, id, windows);
            let p = put_on_screen(head, id, windows);
            assert forall|k: int| 0 <= k < r.len() implies {
                let e = #[trigger] r[k];
                e == id || sorted.contains(e)
            } by {
                if k < p.len() {
                    assert(r[k] == p[k]);
                    if p[k] != id {
                        let m = choose|m: int| 0 <= m < head.len() && head[m] == p[k];
                        assert(sorted[m] == p[k]);
                    }
                } else {
                    assert(r[k] == sorted[sorted.len() - 1]);
                }
            }
            assert forall|i: int, j: int| 0 <= i < j < r.len() implies not_behind(
                windows[#[trigger] r[i]],
                windows[#[trigger] r[j]],
            ) by {
                if j < p.len() {
                    assert(r[i] == p[i] && r[j] == p[j]);
                } else {
                    assert(r[i] == p[i]);
                    assert(r[j] == sorted.last());
                    if p[i] != id {
                        let m = choose|m: int| 0 <= m < head.len() && head[m] == p[i];
                        assert(sorted[m] == p[i]);
                        assert(sorted[sorted.len() - 1] == sorted.last());
                    }
                }
            }
        }
    }
}

// --- Buffer history ---

/// The buffers that are not `id`.
pub open spec fn other_than(id: BufferId) -> spec_fn(BufferId) -> bool {
    |h: BufferId| h != id
}

/// `history` with `id` in front, once, and at most so many entries.
pub open spec fn history_with(history: Seq<BufferId>, id: BufferId) -> Seq<BufferId> {
    let all = seq![id] + history.filter(other_than(id));
    if all.len() > MAX_BUFFER_HISTORY {
        all.take(MAX_BUFFER_HISTORY as int)
    } else {
        all
    }
}

pub(crate) fn without_buffer(history: &Vec<BufferId>, id: BufferId) -> (r: Vec<BufferId>)
    ensures
        r@ == history@.filter(other_than(id)),
{
    let mut r: Vec<BufferId> = Vec::new();
    let mut i: usize = 0;
    proof {
        reveal(Seq::filter);
    }
    while i < history.len()
        invariant
            i <= history@.len(),
            r@ == history@.take(i as int).filter(other_than(id)),
        decreases history.len() - i,
    {
        proof {
            reveal(Seq::filter);
            assert(history@.take(i + 1).drop_last() =~= history@.take(i as int));
        }
        if history[i] != id {
            r.push(history[i]);
        }
        i = i + 1;
    }
    assert(history@.take(i as int) =~= history@);
    r
}

// --- The editor ---

impl Editor {
    /// Whether the active window exists and shows a buffer that exists.
    pub open spec fn ready(&self) -> bool {
        &&& self.windows@.contains_key(self.active_window)
        &&& self.buffers@.contains_key(self.windows@[self.active_window].active_buffer)
    }

    /// The active window.
    pub open spec fn here(&self) -> Window {
        self.windows@[self.active_window]
    }

    /// Whether the window tree fits the windows: it holds each of its windows
    /// once, they all exist, and every window that is no command window is in
    /// it.
    pub open spec fn tree_ok(&self) -> bool {
        &&& self.window_tree.leaves().no_duplicates()
        &&& self.window_tree.ratios_ok()
        &&& forall|id: WindowId| #[trigger]
            self.window_tree.leaves().contains(id) ==> self.windows@.contains_key(id)
        &&& forall|id: WindowId| #[trigger]
            self.windows@.contains_key(id) && !self.windows@[id].is_command()
                ==> self.window_tree.leaves().contains(id)
    }

    /// The space for normal windows: column, row, width and height.
    pub fn get_available_window_area(&self) -> (r: (u16, u16, u16, u16))
        requires
            command_rows(self.windows@, true) <= u16::MAX,
        ensures
            r == (
                0u16,
                command_rows(self.windows@, true) as u16,
                self.frame.available_columns,
                rows_left(self.frame.available_lines, self.windows@),
            ),
            r.1 + r.3 <= u16::MAX,
    {
        let ids = self.windows.keys();
        let ghost all = ids@;
        let ghost ws = self.windows@;
        let ghost mut rest = ws;
        let mut y: u16 = 0;
        let mut height: u16 = self.frame.available_lines;
        let mut i: usize = 0;
        assert forall|id: WindowId| #[trigger] rest.contains_key(id) <==> exists|k: int|
            0 <= k < all.len() && all[k] == id by {
            assert(all.contains(id) <==> rest.contains_key(id));
        }
        while i < ids.len()
            invariant
                i <= ids@.len(),
                all == ids@,
                ws == self.windows@,
                self.windows.listed_by(all),
                all.no_duplicates(),
                command_rows(ws, true) <= u16::MAX,
                rest.dom().finite(),
                forall|id: WindowId| #[trigger]
                    rest.contains_key(id) <==> exists|k: int| i <= k < all.len() && all[k] == id,
                forall|id: WindowId| #[trigger] rest.contains_key(id) ==> rest[id] == ws[id],
                y + command_rows(rest, true) == command_rows(ws, true),
                height == ({
                    let so_far = command_rows(ws, false) - command_rows(rest, false);
                    if so_far <= self.frame.available_lines {
                        self.frame.available_lines - so_far
                    } else {
                        0
                    }
                }),
                command_rows(rest, false) <= command_rows(ws, false),
            decreases ids.len() - i,
        {
            let id = ids[i];
            let ghost before = rest;
            proof {
                assert(all.contains(all[i as int]));
                assert(all[i as int] == id);
                assert(rest.contains_key(id));
                command_rows_add_up(rest, true, id);
                command_rows_add_up(rest, false, id);
                rest = rest.remove(id);
            }
            match self.windows.get(id) {
                Some(w) => match w.window_type {
                    WindowType::Normal => (),
                    WindowType::Command { position, .. } => {
                        if position == CommandWindowPosition::Top {
                            y = y + w.height_chars;
                        }
                        height = height.saturating_sub(w.height_chars);
                    },
                },
                None => (),
            }
            i = i + 1;
            proof {
                assert forall|id2: WindowId| #[trigger]
                    rest.contains_key(id2) <==> exists|k: int|
                        i <= k < all.len() && all[k] == id2 by {
                    if rest.contains_key(id2) {
                        assert(before.contains_key(id2));
                        let k = choose|k: int| i - 1 <= k < all.len() && all[k] == id2;
                        assert(k != i - 1);
                        assert(i <= k < all.len() && all[k] == id2);
                    }
                    if exists|k: int| i <= k < all.len() && all[k] == id2 {
                        let k = choose|k: int| i <= k < all.len() && all[k] == id2;
                        assert(i - 1 <= k < all.len() && all[k] == id2);
                        assert(before.contains_key(id2));
                        assert(all[i - 1] != all[k]);
                    }
                }
            }
        }
        proof {
            assert(rest.dom() =~= Set::empty());
            top_rows_at_most_all(ws);
        }
        (0, y, self.frame.available_columns, height)
    }

    /// Gives every window of the tree its place and size.
    pub fn calculate_window_layout(&mut self)
        requires
            old(self).window_tree.ratios_ok(),
            command_rows(old(self).windows@, true) <= u16::MAX,
        ensures
            final(self).windows@ == arranged(
                old(self).frame,
                old(self).window_tree,
                old(self).windows@,
            ),
            *final(self) == (Editor { windows: final(self).windows, ..*old(self) }),
    {
        let (x, y, width, height) = self.get_available_window_area();
        layout_node(&self.window_tree, &mut self.windows, x, y, width, height);
    }

    /// Takes over a new size of the frame.
    pub fn handle_resize(&mut self, width: u16, height: u16)
        requires
            old(self).window_tree.ratios_ok(),
            command_rows(old(self).windows@, true) <= u16::MAX,
        ensures
            final(self).frame == (Frame {
                columns: width,
                rows: height,
                available_columns: width,
                available_lines: height,
            }),
            final(self).windows@ == arranged(
                final(self).frame,
                old(self).window_tree,
                old(self).windows@,
            ),
            *final(self) == (Editor {
                frame: final(self).frame,
                windows: final(self).windows,
                ..*old(self)
            }),
    {
        self.frame.columns = width;
        self.frame.rows = height;
        self.frame.available_columns = width;
        self.frame.available_lines = height;
        self.calculate_window_layout();
    }

    /// The windows from left to right and top to bottom.
    pub fn get_windows_in_spatial_order(&self) -> (r: Vec<WindowId>)
        ensures
            r@ == on_screen(self.windows.order(), self.windows@),
    {
        let ids = self.windows.keys();
        let ghost all = ids@;
        let mut sorted: Vec<WindowId> = Vec::new();
        let mut i: usize = 0;
        assert(all.take(0) =~= seq![]);
        while i < ids.len()
            invariant
                i <= ids@.len(),
                all == ids@,
                all == self.windows.order(),
                self.windows.listed_by(all),
                sorted@ == on_screen(all.take(i as int), self.windows@),
            decreases ids.len() - i,
        {
            proof {
                assert(all.contains(all[i as int]));
                assert(all.take(i + 1).drop_last() =~= all.take(i as int));
                on_screen_permutes(all.take(i as int), self.windows@);
                assert forall|k: int| 0 <= k < sorted@.len() implies self.windows@.contains_key(
                    #[trigger] sorted@[k],
                ) by {
                    assert(sorted@.contains(sorted@[k]));
                    let m = choose|m: int|
                        0 <= m < all.take(i as int).len() && all.take(i as int)[m] == sorted@[k];
                    assert(all[m] == sorted@[k]);
                    assert(all.contains(sorted@[k]));
                }
            }
            self.put_in_place(&mut sorted, ids[i]);
            i = i + 1;
        }
        assert(all.take(i as int) =~= all);
        sorted
    }

    fn put_in_place(&self, sorted: &mut Vec<WindowId>, id: WindowId)
        requires
            self.windows@.contains_key(id),
            forall|k: int|
                0 <= k < old(sorted)@.len() ==> self.windows@.contains_key(
                    #[trigger] old(sorted)@[k],
                ),
        ensures
            final(sorted)@ == put_on_screen(old(sorted)@, id, self.windows@),
    {
        let ghost before = sorted@;
        let ghost ws = self.windows@;
        let mut i: usize = sorted.len();
        assert(before.take(i as int) =~= before);
        assert(before.skip(i as int) =~= seq![]);
        assert(put_on_screen(before, id, ws) =~= put_on_screen(before.take(i as int), id, ws)
            + before.skip(i as int));
        while i > 0 && self.is_behind(sorted[i - 1], id)
            invariant
                i <= sorted@.len(),
                sorted@ == before,
                ws == self.windows@,
                ws.contains_key(id),
                forall|k: int| 0 <= k < before.len() ==> ws.contains_key(#[trigger] before[k]),
                put_on_screen(before, id, ws) == put_on_screen(before.take(i as int), id, ws)
                    + before.skip(i as int),
            decreases i,
        {
            proof {
                let t = before.take(i as int);
                assert(t.drop_last() =~= before.take(i - 1));
                assert(t.last() == before[i - 1]);
                assert(put_on_screen(t.drop_last(), id, ws).push(t.last()) + before.skip(i as int)
                    =~= put_on_screen(before.take(i - 1), id, ws) + before.skip(i - 1));
            }
            i = i - 1;
        }
        proof {
            let t = before.take(i as int);
            if i > 0 {
                assert(t.last() == before[i - 1]);
            }
            assert(put_on_screen(t, id, ws) =~= t.push(id));
        }
        sorted.insert(i, id);
        assert(sorted@ =~= before.take(i as int).push(id) + before.skip(i as int));
    }

    /// Whether window `a` lies behind window `b` on screen.
    fn is_behind(&self, a: WindowId, b: WindowId) -> (r: bool)
        requires
            self.windows@.contains_key(a),
            self.windows@.contains_key(b),
        ensures
            r == !not_behind(self.windows@[a], self.windows@[b]),
    {
        match (self.windows.get(a), self.windows.get(b)) {
            (Some(v), Some(w)) => !(v.y < w.y || (v.y == w.y && v.x <= w.x)),
            _ => false,
        }
    }

    /// Puts a buffer in front of the history.
    pub fn record_buffer_access(&mut self, buffer_id: BufferId)
        ensures
            final(self).buffer_history@ == history_with(old(self).buffer_history@, buffer_id),
            *final(self) == (Editor { buffer_history: final(self).buffer_history, ..*old(self) }),
    {
        let mut history = without_buffer(&self.buffer_history, buffer_id);
        history.insert(0, buffer_id);
        assert(history@ =~= seq![buffer_id] + old(self).buffer_history@.filter(
            other_than(buffer_id),
        ));
        if history.len() > MAX_BUFFER_HISTORY {
            history.truncate(MAX_BUFFER_HISTORY);
        }
        self.buffer_history = history;
    }

    /// Splits the active window into two, one above the other. Gives the new
    /// window.
    pub fn split_horizontal(&mut self) -> (id: WindowId)
        requires
            old(self).can_split(),
        ensures
            old(self).split_into(final(self), id, SplitDirection::Horizontal),
    {
        self.split_window(SplitDirection::Horizontal)
    }

    /// Splits the active window into two, side by side. Gives the new window.
    pub fn split_vertical(&mut self) -> (id: WindowId)
        requires
            old(self).can_split(),
        ensures
            old(self).split_into(final(self), id, SplitDirection::Vertical),
    {
        self.split_window(SplitDirection::Vertical)
    }

    /// Whether the active window can be split: it exists, there is room for one
    /// more window, and the command windows at the top, with a copy of the
    /// active window, fit on a screen.
    pub open spec fn can_split(&self) -> bool {
        &&& self.windows@.contains_key(self.active_window)
        &&& self.windows@.len() < u32::MAX - 1
        &&& self.window_tree.ratios_ok()
        &&& command_rows(self.windows@, true) + rows_taken(self.here(), true) <= u16::MAX
    }

    /// Whether `after` is this editor with the active window split, `id` being
    /// the new window, a copy of it.
    pub open spec fn split_into(
        &self,
        after: &Self,
        id: WindowId,
        direction: SplitDirection,
    ) -> bool {
        &&& !self.windows@.contains_key(id)
        &&& after.window_tree == self.window_tree.with_split(self.active_window, id, direction)
        &&& after.windows@ == arranged(
            self.frame,
            after.window_tree,
            self.windows@.insert(id, self.here()),
        )
        &&& *after == (Editor {
            windows: after.windows,
            window_tree: after.window_tree,
            ..*self
        })
    }

    fn split_window(&mut self, direction: SplitDirection) -> (id: WindowId)
        requires
            old(self).can_split(),
        ensures
            old(self).split_into(final(self), id, direction),
    {
        let ghost before = *self;
        let copy = match self.windows.get(self.active_window) {
            Some(w) => Some(*w),
            None => None,
        };
        let id = self.windows.insert(copy.unwrap());
        self.window_tree = self.window_tree.split_node(self.active_window, id, direction);
        proof {
            rows_with_new(before.windows@, id, before.here(), true);
            split_keeps_ratios(before.window_tree, before.active_window, id, direction);
        }
        self.calculate_window_layout();
        id
    }

    /// Makes the next window on screen the active one, and the first one after
    /// the last. Gives the active window.
    pub fn switch_window(&mut self) -> (id: WindowId)
        ensures
            id == old(self).next_window(),
            final(self).active_window == id,
            final(self).buffer_history@ == if old(self).windows@.len() <= 1 {
                old(self).buffer_history@
            } else {
                history_with(old(self).buffer_history@, old(self).windows@[id].active_buffer)
            },
            *final(self) == (Editor {
                active_window: id,
                buffer_history: final(self).buffer_history,
                ..*old(self)
            }),
    {
        if self.windows.len() <= 1 {
            return self.active_window;
        }
        let ids = self.get_windows_in_spatial_order();
        let ghost all = ids@;
        proof {
            on_screen_permutes(self.windows.order(), self.windows@);
        }
        let listed = self.windows.keys();
        proof {
            listed@.unique_seq_to_set();
            assert(listed@.to_set() =~= self.windows@.dom());
            assert(all.len() > 1);
        }
        let mut current: usize = 0;
        while current < ids.len() && ids[current] != self.active_window
            invariant
                current <= ids@.len(),
                ids@ == all,
                forall|k: int| 0 <= k < current ==> all[k] != self.active_window,
            decreases ids.len() - current,
        {
            current = current + 1;
        }
        let next: usize = if current < ids.len() - 1 {
            current + 1
        } else if current < ids.len() {
            0
        } else {
            1
        };
        proof {
            if current < all.len() {
                assert(all.contains(self.active_window));
                assert(place_of(all, self.active_window) == current) by {
                    place_of_is(all, self.active_window, current as int);
                }
            }
            assert(all.contains(all[next as int]));
            assert(listed@.contains(all[next as int]));
        }
        self.active_window = ids[next];
        match self.windows.get(self.active_window) {
            Some(w) => {
                let shown = w.active_buffer;
                self.record_buffer_access(shown);
            },
            None => (),
        }
        self.active_window
    }

    /// The window behind the active one on screen; the first one where that is
    /// the last.
    pub open spec fn next_window(&self) -> WindowId {
        let ids = on_screen(self.windows.order(), self.windows@);
        if self.windows@.len() <= 1 {
            self.active_window
        } else {
            let current = if ids.contains(self.active_window) {
                place_of(ids, self.active_window)
            } else {
                0
            };
            if current + 1 < ids.len() {
                ids[current + 1]
            } else {
                ids[0]
            }
        }
    }

    /// Removes the active window. Its space goes to its sibling, whose first
    /// window becomes the active one. The only window stays. Says whether a
    /// window went.
    pub fn delete_window(&mut self) -> (r: bool)
        requires
            old(self).can_delete_window(),
        ensures
            r == (old(self).windows@.len() > 1 && old(self).window_tree.leaves().contains(
                old(self).active_window,
            )),
            r ==> old(self).active_deleted(final(self)),
            !r ==> *final(self) == *old(self),
    {
        if self.windows.len() <= 1 {
            return false;
        }
        let ghost before = *self;
        let active = self.active_window;
        let (tree, deleted, heir) = self.window_tree.delete_node_with_selection(active);
        if !deleted {
            return false;
        }
        self.window_tree = tree;
        self.windows.remove(active);
        proof {
            crate::window::without_keeps_ratios(before.window_tree, active);
        }
        match heir {
            Some(id) => {
                self.active_window = id;
            },
            None => {
                match self.find_window(None) {
                    Some(id) => {
                        self.active_window = id;
                    },
                    None => (),
                }
            },
        }
        self.calculate_window_layout();
        true
    }

    /// Whether the active window can be removed, if it is not the only one: the
    /// tree does not hold it twice, and if it does hold it, the others can be
    /// laid out.
    pub open spec fn can_delete_window(&self) -> bool {
        self.windows@.len() > 1 ==> {
            let leaves = self.window_tree.leaves();
            &&& crate::window::holds_at_most_once(leaves, self.active_window)
            &&& leaves.contains(self.active_window) ==> {
                &&& self.window_tree.ratios_ok()
                &&& command_rows(self.windows@.remove(self.active_window), true) <= u16::MAX
            }
        }
    }

    /// Whether `after` is this editor without its active window.
    pub open spec fn active_deleted(&self, after: &Self) -> bool {
        let rest = self.windows@.remove(self.active_window);
        &&& after.window_tree == self.window_tree.without(self.active_window)
        &&& after.windows@ == arranged(self.frame, after.window_tree, rest)
        &&& match self.window_tree.heir(self.active_window) {
            Some(id) => after.active_window == id,
            None => first_slot(rest, None, Some(after.active_window)) || (first_slot(
                rest,
                None,
                None,
            ) && after.active_window == self.active_window),
        }
        &&& *after == (Editor {
            window_tree: after.window_tree,
            windows: after.windows,
            active_window: after.active_window,
            ..*self
        })
    }

    /// The window in the lowest slot: any, or the command windows or the
    /// others only.
    pub(crate) fn find_window(&self, command: Option<bool>) -> (r: Option<WindowId>)
        ensures
            first_slot(self.windows@, command, r),
    {
        let ids = self.windows.keys();
        let ghost bits = ids@.map_values(|id: WindowId| id@);
        let mut i: usize = 0;
        while i < ids.len()
            invariant
                i <= ids@.len(),
                self.windows.listed_by(ids@),
                bits == ids@.map_values(|id: WindowId| id@),
                forall|k: int| 0 <= k < i ==> !wanted(self.windows@[#[trigger] ids@[k]], command),
            decreases ids.len() - i,
        {
            let id = ids[i];
            assert(ids@.contains(ids@[i as int]));
            let found = match self.windows.get(id) {
                Some(w) => match command {
                    None => true,
                    Some(c) => c == w.is_command_window(),
                },
                None => false,
            };
            if found {
                proof {
                    assert forall|other: WindowId| #[trigger]
                        self.windows@.contains_key(other) && wanted(self.windows@[other], command)
                            && other != id implies slots::slot_index(id@) < slots::slot_index(
                        other@,
                    ) by {
                        assert(ids@.contains(other));
                        let k = choose|k: int| 0 <= k < ids@.len() && ids@[k] == other;
                        assert(k > i);
                        assert(bits[i as int] == id@ && bits[k] == other@);
                    }
                }
                return Some(id);
            }
            i = i + 1;
        }
        proof {
            assert forall|other: WindowId| #[trigger]
                self.windows@.contains_key(other) implies !wanted(
                self.windows@[other],
                command,
            ) by {
                assert(ids@.contains(other));
                let k = choose|k: int| 0 <= k < ids@.len() && ids@[k] == other;
                assert(!wanted(self.windows@[ids@[k]], command));
            }
        }
        None
    }

    /// Removes all windows but the active one, which gets the whole frame. Says
    /// whether there were others.
    pub fn delete_other_windows(&mut self) -> (r: bool)
        ensures
            r == (old(self).windows@.len() > 1),
            r ==> old(self).others_deleted(final(self)),
            !r ==> *final(self) == *old(self),
    {
        if self.windows.len() <= 1 {
            return false;
        }
        let ghost before = *self;
        let current = self.active_window;
        let ids = self.windows.keys();
        let ghost all = ids@;
        let mut i: usize = 0;
        assert forall|id: WindowId| #[trigger] self.windows@.contains_key(id) implies exists|k: int|
            0 <= k < all.len() && all[k] == id by {
            assert(all.contains(id));
        }
        while i < ids.len()
            invariant
                i <= ids@.len(),
                ids@ == all,
                current == before.active_window,
                before.windows.listed_by(all),
                *self == (Editor { windows: self.windows, ..before }),
                forall|id: WindowId| #[trigger]
                    self.windows@.contains_key(id) ==> before.windows@.contains_key(id)
                        && self.windows@[id] == before.windows@[id] && (id == current || exists|
                        k: int,
                    |
                        i <= k < all.len() && all[k] == id),
                before.windows@.contains_key(current) ==> self.windows@.contains_key(current)
                    && self.windows@[current] == before.windows@[current],
            decreases ids.len() - i,
        {
            let ghost mid = self.windows@;
            if ids[i] != current {
                self.windows.remove(ids[i]);
            }
            i = i + 1;
            proof {
                assert forall|id: WindowId| #[trigger] self.windows@.contains_key(id) implies id
                    == current || exists|k: int| i <= k < all.len() && all[k] == id by {
                    assert(mid.contains_key(id));
                    if id != current {
                        let k = choose|k: int| i - 1 <= k < all.len() && all[k] == id;
                        assert(k != i - 1);
                        assert(i <= k < all.len() && all[k] == id);
                    }
                }
            }
        }
        self.window_tree = WindowNode::new_leaf(current);
        let width = self.frame.available_columns;
        let height = self.frame.available_lines;
        if let Some(w) = self.windows.get_mut(current) {
            w.x = 0;
            w.y = 0;
            w.width_chars = width;
            w.height_chars = height;
        }
        assert(before.others_deleted(self)) by {
            if before.windows@.contains_key(current) {
                assert(self.windows@ =~= Map::<WindowId, Window>::empty().insert(
                    current,
                    self.windows@[current],
                ));
            } else {
                assert(self.windows@ =~= Map::<WindowId, Window>::empty());
            }
        }
        true
    }

    /// Whether `after` is this editor with the active window alone, over the
    /// whole frame.
    pub open spec fn others_deleted(&self, after: &Self) -> bool {
        let none = Map::<WindowId, Window>::empty();
        &&& after.window_tree == (WindowNode::Leaf { window_id: self.active_window })
        &&& after.windows@ == if self.windows@.contains_key(self.active_window) {
            none.insert(
                self.active_window,
                Window {
                    x: 0,
                    y: 0,
                    width_chars: self.frame.available_columns,
                    height_chars: self.frame.available_lines,
                    ..self.here()
                },
            )
        } else {
            none
        }
        &&& *after == (Editor {
            window_tree: after.window_tree,
            windows: after.windows,
            ..*self
        })
    }

    /// The command window, if there is one; of several, the one in the lowest
    /// slot.
    pub fn find_command_window(&self) -> (r: Option<WindowId>)
        ensures
            first_slot(self.windows@, Some(true), r),
    {
        self.find_window(Some(true))
    }

    /// Whether a command window shows the buffer.
    pub open spec fn in_command_window(&self, buffer_id: BufferId) -> bool {
        exists|id: WindowId| #[trigger]
            self.windows@.contains_key(id) && self.windows@[id].active_buffer == buffer_id
                && self.windows@[id].is_command()
    }

    /// Whether a command window shows the buffer.
    pub fn is_command_buffer(&self, buffer_id: BufferId) -> (r: bool)
        ensures
            r == self.in_command_window(buffer_id),
    {
        let ids = self.windows.keys();
        let mut i: usize = 0;
        while i < ids.len()
            invariant
                i <= ids@.len(),
                self.windows.listed_by(ids@),
                forall|k: int|
                    0 <= k < i ==> !({
                        let w = self.windows@[#[trigger] ids@[k]];
                        w.active_buffer == buffer_id && w.is_command()
                    }),
            decreases ids.len() - i,
        {
            assert(ids@.contains(ids@[i as int]));
            match self.windows.get(ids[i]) {
                Some(w) => {
                    if w.active_buffer == buffer_id && w.is_command_window() {
                        return true;
                    }
                },
                None => (),
            }
            i = i + 1;
        }
        assert forall|id: WindowId| #[trigger] self.windows@.contains_key(id) implies !(
        self.windows@[id].active_buffer == buffer_id && self.windows@[id].is_command()) by {
            assert(ids@.contains(id));
            let k = choose|k: int| 0 <= k < ids@.len() && ids@[k] == id;
            assert(self.windows@[ids@[k]] == self.windows@[id]);
        }
        false
    }

    /// The buffer shown latest that is not the current one, still exists and is
    /// in no command window.
    pub fn get_previous_buffer(&self, current_buffer_id: BufferId) -> (r: Option<BufferId>)
        ensures
            self.goes_back_to(current_buffer_id, r),
    {
        let mut i: usize = 0;
        while i < self.buffer_history.len()
            invariant
                i <= self.buffer_history@.len(),
                forall|k: int|
                    0 <= k < i ==> !self.can_go_back_to(
                        #[trigger] self.buffer_history@[k],
                        current_buffer_id,
                    ),
            decreases self.buffer_history.len() - i,
        {
            let id = self.buffer_history[i];
            if id != current_buffer_id && self.buffers.contains_key(id) && !self.is_command_buffer(
                id,
            ) {
                assert(self.buffer_history@[i as int] == id);
                return Some(id);
            }
            i = i + 1;
        }
        None
    }

    /// Whether `r` is the buffer shown latest to which one can go back from
    /// `current`.
    pub open spec fn goes_back_to(&self, current: BufferId, r: Option<BufferId>) -> bool {
        match r {
            None => forall|k: int|
                0 <= k < self.buffer_history@.len() ==> !self.can_go_back_to(
                    #[trigger] self.buffer_history@[k],
                    current,
                ),
            Some(id) => exists|k: int|
                #![trigger self.buffer_history@[k]]
                {
                    &&& 0 <= k < self.buffer_history@.len()
                    &&& self.buffer_history@[k] == id
                    &&& self.can_go_back_to(id, current)
                    &&& forall|j: int|
                        0 <= j < k ==> !self.can_go_back_to(
                            #[trigger] self.buffer_history@[j],
                            current,
                        )
                },
        }
    }

    /// Closes a command window: it goes, and so does its buffer. The window that
    /// was active before it opened becomes active again, or else a normal one.
    /// Says whether there was such a command window.
    pub fn close_command_window(&mut self, window_id: WindowId) -> (r: bool)
        requires
            old(self).can_close(window_id),
        ensures
            r == old(self).is_command_window(window_id),
            r ==> old(self).command_closed(final(self), window_id),
            final(self).buffers@.len() <= old(self).buffers@.len(),
            !r ==> *final(self) == *old(self),
    {
        let (command, shown) = match self.windows.get(window_id) {
            Some(w) => (w.is_command_window(), w.active_buffer),
            None => return false,
        };
        if !command {
            return false;
        }
        self.windows.remove(window_id);
        self.buffers.remove(shown);
        let back = match self.previous_active_window {
            Some(id) => self.windows.contains_key(id),
            None => false,
        };
        if back {
            self.active_window = self.previous_active_window.unwrap();
        } else {
            match self.find_window(Some(false)) {
                Some(id) => {
                    self.active_window = id;
                },
                None => (),
            }
        }
        self.previous_active_window = None;
        match self.windows.get(self.active_window) {
            Some(w) => {
                let restored = w.active_buffer;
                self.record_buffer_access(restored);
            },
            None => (),
        }
        self.calculate_window_layout();
        true
    }

    /// Whether `id` is a command window.
    pub open spec fn is_command_window(&self, id: WindowId) -> bool {
        self.windows@.contains_key(id) && self.windows@[id].is_command()
    }

    /// Whether `id` can be closed: if it is a command window, another window is
    /// there to become active, and the others can be laid out.
    pub open spec fn can_close(&self, id: WindowId) -> bool {
        self.is_command_window(id) ==> {
            let rest = self.windows@.remove(id);
            &&& self.window_tree.ratios_ok()
            &&& command_rows(rest, true) <= u16::MAX
            &&& (self.previous_active_window matches Some(p) && rest.contains_key(p))
                || !first_slot(rest, Some(false), None) || rest.contains_key(self.active_window)
        }
    }

    /// Whether `after` is this editor with the command window `id` closed.
    pub open spec fn command_closed(&self, after: &Self, id: WindowId) -> bool {
        let rest = self.windows@.remove(id);
        let back = self.previous_active_window matches Some(p) && rest.contains_key(p);
        &&& after.buffers@ == self.buffers@.remove(self.windows@[id].active_buffer)
        &&& after.windows@ == arranged(self.frame, self.window_tree, rest)
        &&& if back {
            after.active_window == self.previous_active_window->0
        } else {
            ||| first_slot(rest, Some(false), Some(after.active_window))
            ||| first_slot(rest, Some(false), None) && after.active_window == self.active_window
        }
        &&& after.previous_active_window is None
        &&& after.buffer_history@ == history_with(
            self.buffer_history@,
            rest[after.active_window].active_buffer,
        )
        &&& *after == (Editor {
            buffers: after.buffers,
            windows: after.windows,
            active_window: after.active_window,
            previous_active_window: None,
            buffer_history: after.buffer_history,
            ..*self
        })
    }

    /// Opens a prompt: a command window at the bottom, over a buffer of its own.
    pub fn create_mica_prompt_window(
        &mut self,
        command_type: CommandType,
        height: u16,
        content: String,
        cursor: usize,
    ) -> (id: WindowId)
        requires
            old(self).buffers@.len() < u32::MAX - 1,
            old(self).windows@.len() < u32::MAX - 1,
            old(self).window_tree.ratios_ok(),
            command_rows(old(self).windows@, true) <= u16::MAX,
        ensures
            old(self).prompt_opened(final(self), command_type, height, content@, cursor, id),
    {
        let ghost before = *self;
        let buffer = new_buffer("*Mica Prompt*".to_owned(), content.as_str(), false);
        let shown = self.buffers.insert(buffer);
        let length = char_count(content.as_str());
        let window = Window {
            x: 0,
            y: self.frame.available_lines.saturating_sub(height),
            width_chars: self.frame.available_columns,
            height_chars: height,
            active_buffer: shown,
            cursor: if cursor <= length {
                cursor
            } else {
                length
            },
            window_type: WindowType::Command {
                position: CommandWindowPosition::Bottom,
                command_type,
            },
        };
        let id = self.windows.insert(window);
        self.previous_active_window = Some(self.active_window);
        self.active_window = id;
        proof {
            rows_with_new(before.windows@, id, window, true);
            layout_keeps_windows(
                self.window_tree,
                self.windows@,
                0,
                command_rows(self.windows@, true) as u16,
                self.frame.available_columns,
                rows_left(self.frame.available_lines, self.windows@),
            );
            assert(self.windows@.contains_key(id));
        }
        self.calculate_window_layout();
        id
    }

    /// Whether `after` is this editor with the prompt `id` open.
    pub open spec fn prompt_opened(
        &self,
        after: &Self,
        command_type: CommandType,
        height: u16,
        content: Seq<char>,
        cursor: usize,
        id: WindowId,
    ) -> bool {
        let frame = self.frame;
        let shown = after.windows@[id].active_buffer;
        let window = Window {
            x: 0,
            y: if height <= frame.available_lines {
                (frame.available_lines - height) as u16
            } else {
                0
            },
            width_chars: frame.available_columns,
            height_chars: height,
            active_buffer: shown,
            cursor: if cursor <= content.len() {
                cursor
            } else {
                content.len() as usize
            },
            window_type: WindowType::Command {
                position: CommandWindowPosition::Bottom,
                command_type,
            },
        };
        &&& !self.windows@.contains_key(id)
        &&& after.windows@ == arranged(frame, self.window_tree, self.windows@.insert(id, window))
        &&& !self.buffers@.contains_key(shown)
        &&& after.buffers@ == self.buffers@.insert(shown, after.buffers@[shown])
        &&& is_new_buffer(after.buffers@[shown], "*Mica Prompt*"@, content, false)
        &&& *after == (Editor {
            buffers: after.buffers,
            windows: after.windows,
            previous_active_window: Some(self.active_window),
            active_window: id,
            ..*self
        })
    }

    /// Gives the prompt new text. The prompt is the command window that
    /// `find_command_window` finds.
    pub fn update_mica_prompt_window(&mut self, content: &str, cursor: usize) -> (r: Option<
        WindowId,
    >)
        requires
            forall|id: WindowId| #[trigger]
                first_slot(old(self).windows@, Some(true), Some(id)) ==> old(
                    self,
                ).buffers@.contains_key(old(self).windows@[id].active_buffer),
        ensures
            first_slot(old(self).windows@, Some(true), r),
            r is None ==> *final(self) == *old(self),
            r matches Some(id) ==> {
                let w = old(self).windows@[id];
                let b0 = old(self).buffers@[w.active_buffer];
                let b1 = final(self).buffers@[w.active_buffer];
                &&& final(self).windows@ == old(self).windows@.insert(
                    id,
                    Window {
                        cursor: if cursor <= content@.len() {
                            cursor
                        } else {
                            content@.len() as usize
                        },
                        ..w
                    },
                )
                &&& final(self).buffers@ == old(self).buffers@.insert(w.active_buffer, b1)
                &&& b1.inner.text() == content@
                &&& b1.inner == (BufferInner { buffer: b1.inner.buffer, ..b0.inner })
                &&& *final(self) == (Editor {
                    buffers: final(self).buffers,
                    windows: final(self).windows,
                    ..*old(self)
                })
            },
    {
        let id = match self.find_command_window() {
            Some(id) => id,
            None => return None,
        };
        let length = char_count(content);
        let shown = match self.windows.get(id) {
            Some(w) => w.active_buffer,
            None => return None,
        };
        if let Some(b) = self.buffers.get_mut(shown) {
            b.load_str(content);
        }
        if let Some(w) = self.windows.get_mut(id) {
            w.cursor = if cursor <= length {
                cursor
            } else {
                length
            };
        }
        Some(id)
    }

    /// Gives the messages buffer, which is made when it is asked for first.
    pub fn get_messages_buffer(&mut self) -> (id: BufferId)
        requires
            old(self).messages_buffer_id is None ==> old(self).buffers@.len() < u32::MAX - 1,
        ensures
            old(self).with_messages_buffer(final(self), id),
    {
        match self.messages_buffer_id {
            Some(id) => id,
            None => {
                let buffer = new_buffer("*Messages*".to_owned(), MESSAGES_INTRO, false);
                let id = self.buffers.insert(buffer);
                self.messages_buffer_id = Some(id);
                id
            },
        }
    }

    /// Whether `after` is this editor with a messages buffer, `id`.
    pub open spec fn with_messages_buffer(&self, after: &Self, id: BufferId) -> bool {
        match self.messages_buffer_id {
            Some(m) => id == m && *after == *self,
            None => {
                &&& !self.buffers@.contains_key(id)
                &&& after.buffers@ == self.buffers@.insert(id, after.buffers@[id])
                &&& is_new_buffer(
                    after.buffers@[id],
                    "*Messages*"@,
                    MESSAGES_INTRO@,
                    false,
                )
                &&& *after == (Editor {
                    buffers: after.buffers,
                    messages_buffer_id: Some(id),
                    ..*self
                })
            },
        }
    }

    /// Appends a message, with the time, to the messages buffer, of which the
    /// latest part is kept.
    pub fn add_message_to_buffer(&mut self, message: String, at: ClockReading)
        requires
            old(self).messages_buffer_id is None ==> old(self).buffers@.len() < u32::MAX - 1,
        ensures
            old(self).message_added(final(self), message@, at),
    {
        let id = self.get_messages_buffer();
        let ghost mid = *self;
        let mut line = "[".to_owned();
        line.append(decimal_string(at.unix_secs).as_str());
        line.append("] ");
        line.append(message.as_str());
        line.append("\n");
        let ghost text = message_line(message@, at);
        assert(line@ =~= text);
        if let Some(b) = self.buffers.get_mut(id) {
            let end = b.buffer_len_chars();
            let ghost before = b.inner;
            b.insert_pos(line, end);
            let ghost with_line = b.inner;
            assert(with_line.text() =~= before.text() + text);
            let length = b.buffer_len_chars();
            if length > MAX_MESSAGES_CHARS {
                b.delete_region_range(0, length - MAX_MESSAGES_CHARS);
                assert(with_line.deleted(&b.inner, 0, length - MAX_MESSAGES_CHARS));
                assert(b.inner.text() =~= with_line.text().skip(length - MAX_MESSAGES_CHARS));
            }
            assert(line_appended(before, b.inner, text));
        }
        assert(old(self).message_added(self, message@, at)) by {
            assert(old(self).with_messages_buffer(&mid, id));
            assert(added_to(mid, *self, id, text));
        }
    }

    /// Whether `after` is this editor with a message added to its messages
    /// buffer.
    pub open spec fn message_added(&self, after: &Self, message: Seq<char>, at: ClockReading) -> bool {
        exists|mid: Editor, id: BufferId|
            #![trigger added_to(mid, *after, id, message_line(message, at))]
            {
                &&& self.with_messages_buffer(&mid, id)
                &&& added_to(mid, *after, id, message_line(message, at))
            }
    }

    /// Adds a buffer with a name and a text.
    pub fn create_buffer(&mut self, buffer_name: String, initial_content: String) -> (id: BufferId)
        requires
            old(self).buffers@.len() < u32::MAX - 1,
        ensures
            !old(self).buffers@.contains_key(id),
            final(self).buffers@ == old(self).buffers@.insert(id, final(self).buffers@[id]),
            is_new_buffer(final(self).buffers@[id], buffer_name@, initial_content@, false),
            *final(self) == (Editor { buffers: final(self).buffers, ..*old(self) }),
    {
        let buffer = new_buffer(buffer_name, initial_content.as_str(), false);
        self.buffers.insert(buffer)
    }

    /// Shows a message in the echo area and keeps it in the messages buffer.
    pub fn set_echo_message(&mut self, message: String, at: ClockReading)
        requires
            old(self).messages_buffer_id is None ==> old(self).buffers@.len() < u32::MAX - 1,
        ensures
            old(self).echo_set(final(self), message@, at),
    {
        self.echo_message = message.clone();
        self.echo_message_time = Some(at.millis);
        let ghost mid = *self;
        self.add_message_to_buffer(message, at);
        assert(mid == (Editor {
            echo_message: mid.echo_message,
            echo_message_time: Some(at.millis),
            ..*old(self)
        }));
    }

    /// Whether `after` is this editor with a message in the echo area, kept in
    /// the messages buffer.
    pub open spec fn echo_set(&self, after: &Self, message: Seq<char>, at: ClockReading) -> bool {
        let mid = Editor {
            echo_message: after.echo_message,
            echo_message_time: Some(at.millis),
            ..*self
        };
        &&& after.echo_message@ == message
        &&& mid.message_added(after, message, at)
    }

    /// Empties the echo area.
    pub fn clear_echo_message(&mut self)
        ensures
            final(self).echo_message@ == Seq::<char>::empty(),
            *final(self) == (Editor {
                echo_message: final(self).echo_message,
                echo_message_time: None,
                ..*old(self)
            }),
    {
        self.echo_message = String::new();
        self.echo_message_time = None;
    }

    /// Whether `after` is this editor once the age of the message in the echo area
    /// was looked at, and `r` says whether the message was removed.
    pub open spec fn echo_checked(&self, after: &Self, now: u64, r: bool) -> bool {
        &&& r == (self.echo_message_time matches Some(set) && now - set >= ECHO_TIMEOUT_MILLIS)
        &&& r ==> {
            &&& after.echo_message@ == Seq::<char>::empty()
            &&& *after == (Editor {
                echo_message: after.echo_message,
                echo_message_time: None,
                ..*self
            })
        }
        &&& !r ==> *after == *self
    }

    /// Empties the echo area where its message has been there long enough. Says
    /// whether it did.
    pub fn check_and_clear_expired_echo(&mut self, now: u64) -> (r: bool)
        ensures
            old(self).echo_checked(final(self), now, r),
    {
        match self.echo_message_time {
            Some(set) => {
                if now >= set && now - set >= ECHO_TIMEOUT_MILLIS {
                    self.clear_echo_message();
                    return true;
                }
                false
            },
            None => false,
        }
    }

    /// Whether `id` is a buffer to go back to from `current`.
    pub open spec fn can_go_back_to(&self, id: BufferId, current: BufferId) -> bool {
        &&& id != current
        &&& self.buffers@.contains_key(id)
        &&& !self.in_command_window(id)
    }
}

/// What the messages buffer starts with.
pub const MESSAGES_INTRO: &'static str = "Messages buffer - echo messages and logs will appear here.\n\n";

/// A buffer with a name and a text, and no history.
pub(crate) fn new_buffer(object: String, content: &str, gutter: bool) -> (b: Buffer)
    ensures
        is_new_buffer(b, object@, content@, gutter),
{
    let mut b = Buffer::new(&[]);
    b.set_object(object);
    b.load_str(content);
    b.set_show_gutter(gutter);
    b
}

/// Whether `b` is a buffer with the given name and text that nothing was done
/// to.
pub open spec fn is_new_buffer(
    b: Buffer,
    object: Seq<char>,
    text: Seq<char>,
    gutter: bool,
) -> bool {
    &&& b.inner.object@ == object
    &&& b.inner.text() == text
    &&& b.inner.modes@.len() == 0
    &&& b.inner.mark is None
    &&& !b.inner.transient_mark
    &&& b.inner.spans@.len() == 0
    &&& b.inner.major_mode is None
    &&& b.inner.show_gutter == gutter
    &&& b.inner.undo_manager.is_blank()
    &&& b.inner.undo_manager.group_depth == 0
    &&& b.inner.history_ok()
}

/// A message as the messages buffer holds it.
pub open spec fn message_line(message: Seq<char>, at: ClockReading) -> Seq<char> {
    "["@ + text::decimal(at.unix_secs as nat) + "] "@ + message + "\n"@
}

/// Whether `after` is the messages buffer `before` with a line at its end and
/// without what is too much at its start.
pub open spec fn line_appended(before: BufferInner, after: BufferInner, line: Seq<char>) -> bool {
    let all = before.text() + line;
    &&& after.text() == if all.len() > MAX_MESSAGES_CHARS {
        all.skip(all.len() - MAX_MESSAGES_CHARS)
    } else {
        all
    }
    &&& before.same_settings(&after)
    &&& before.same_mark(&after)
    &&& before.history_ok() ==> after.history_ok()
}

/// Whether `after` is `before` with a line added to the buffer `id`, if it
/// exists.
pub open spec fn added_to(before: Editor, after: Editor, id: BufferId, line: Seq<char>) -> bool {
    &&& after.buffers@ == if before.buffers@.contains_key(id) {
        before.buffers@.insert(id, after.buffers@[id])
    } else {
        before.buffers@
    }
    &&& before.buffers@.contains_key(id) ==> line_appended(
        before.buffers@[id].inner,
        after.buffers@[id].inner,
        line,
    )
    &&& after == (Editor { buffers: after.buffers, ..before })
}

/// Whether a window is asked for: any, or a command window or none.
pub open spec fn wanted(w: Window, command: Option<bool>) -> bool {
    match command {
        None => true,
        Some(c) => c == w.is_command(),
    }
}

/// Whether `found` is the window in the lowest slot of those asked for, or
/// nothing where there are none.
pub open spec fn first_slot(
    windows: Map<WindowId, Window>,
    command: Option<bool>,
    found: Option<WindowId>,
) -> bool {
    match found {
        None => forall|id: WindowId| #[trigger]
            windows.contains_key(id) ==> !wanted(windows[id], command),
        Some(id) => {
            &&& windows.contains_key(id)
            &&& wanted(windows[id], command)
            &&& forall|other: WindowId| #[trigger]
                windows.contains_key(other) && wanted(windows[other], command) && other != id
                    ==> slots::slot_index(id@) < slots::slot_index(other@)
        },
    }
}

/// The first place of `id` in `ids`.
pub open spec fn place_of(ids: Seq<WindowId>, id: WindowId) -> int
    decreases ids.len(),
{
    if ids.len() == 0 || ids[0] == id {
        0
    } else {
        1 + place_of(ids.drop_first(), id)
    }
}

proof fn place_of_is(ids: Seq<WindowId>, id: WindowId, k: int)
    requires
        0 <= k < ids.len(),
        ids[k] == id,
        forall|j: int| 0 <= j < k ==> ids[j] != id,
    ensures
        place_of(ids, id) == k,
    decreases k,
{
    if k > 0 {
        let rest = ids.drop_first();
        assert(rest[k - 1] == id);
        assert forall|j: int| 0 <= j < k - 1 implies rest[j] != id by {
            assert(rest[j] == ids[j + 1]);
        }
        place_of_is(rest, id, k - 1);
    }
}

proof fn split_keeps_ratios(
    node: WindowNode,
    target: WindowId,
    added: WindowId,
    direction: SplitDirection,
)
    requires
        node.ratios_ok(),
    ensures
        node.with_split(target, added, direction).ratios_ok(),
    decreases node,
{
    match node {
        WindowNode::Leaf { window_id } => {
            vstd::arithmetic::power2::lemma2_to64();
            reveal_with_fuel(WindowNode::ratios_ok, 3);
        },
        WindowNode::Split { first, second, .. } => {
            split_keeps_ratios(*first, target, added, direction);
            split_keeps_ratios(*second, target, added, direction);
        },
    }
}

/// Splitting a window keeps the window tree in step with the windows.
pub proof fn split_keeps_tree(
    before: Editor,
    after: Editor,
    id: WindowId,
    direction: SplitDirection,
)
    requires
        before.tree_ok(),
        before.windows@.contains_key(before.active_window),
        before.split_into(&after, id, direction),
    ensures
        after.tree_ok(),
        after.windows@.contains_key(id),
        after.windows@.contains_key(after.active_window),
{
    let all = before.windows@.insert(id, before.here());
    if before.window_tree.leaves().contains(id) {
        assert(before.windows@.contains_key(id));
    }
    crate::window::split_adds_leaf(before.window_tree, before.active_window, id, direction);
    layout_keeps_windows(
        after.window_tree,
        all,
        0,
        command_rows(all, true) as u16,
        before.frame.available_columns,
        rows_left(before.frame.available_lines, all),
    );
    assert forall|w: WindowId| #[trigger]
        after.window_tree.leaves().contains(w) implies after.windows@.contains_key(w) by {
        if before.window_tree.leaves().contains(w) {
            assert(before.windows@.contains_key(w));
        }
        assert(all.contains_key(w));
    }
    assert forall|w: WindowId| #[trigger]
        after.windows@.contains_key(w)
            && !after.windows@[w].is_command() implies after.window_tree.leaves().contains(w) by {
        assert(all.contains_key(w));
        if w == id {
            assert(before.windows@.contains_key(before.active_window));
        } else {
            assert(before.windows@.contains_key(w));
        }
    }
    assert(all.contains_key(id));
    assert(all.contains_key(before.active_window));
}

/// Removing a window keeps the window tree in step with the windows, and the
/// active window is one of them. The tree must hold another window.
pub proof fn delete_keeps_tree(before: Editor, after: Editor)
    requires
        before.tree_ok(),
        before.window_tree.leaves().contains(before.active_window),
        before.window_tree != (WindowNode::Leaf { window_id: before.active_window }),
        before.active_deleted(&after),
    ensures
        after.tree_ok(),
        after.windows@.contains_key(after.active_window),
        after.window_tree.leaves().contains(after.active_window),
        !after.windows@.contains_key(before.active_window),
{
    let gone = before.active_window;
    let rest = before.windows@.remove(gone);
    crate::window::without_removes_leaf(before.window_tree, gone);
    crate::window::without_keeps_ratios(before.window_tree, gone);
    crate::window::heir_is_other_leaf(before.window_tree, gone);
    layout_keeps_windows(
        after.window_tree,
        rest,
        0,
        command_rows(rest, true) as u16,
        before.frame.available_columns,
        rows_left(before.frame.available_lines, rest),
    );
    assert forall|w: WindowId| #[trigger]
        after.window_tree.leaves().contains(w) implies after.windows@.contains_key(w) by {
        assert(before.window_tree.leaves().contains(w));
        assert(before.windows@.contains_key(w));
        assert(rest.contains_key(w));
    }
    assert forall|w: WindowId| #[trigger]
        after.windows@.contains_key(w)
            && !after.windows@[w].is_command() implies after.window_tree.leaves().contains(w) by {
        assert(rest.contains_key(w));
        assert(before.windows@.contains_key(w));
    }
    assert(before.window_tree.without(gone).leaves().contains(after.active_window));
}

/// Keeping one window keeps the window tree in step with the windows.
pub proof fn delete_others_keeps_tree(before: Editor, after: Editor)
    requires
        before.windows@.contains_key(before.active_window),
        before.others_deleted(&after),
    ensures
        after.tree_ok(),
        after.windows@.contains_key(after.active_window),
{
    assert(after.window_tree.leaves()[0] == before.active_window);
    assert forall|w: WindowId| #[trigger]
        after.window_tree.leaves().contains(w) implies after.windows@.contains_key(w) by {}
}

/// The buffer history starts with the buffer recorded last, names no buffer
/// twice and stays short.
pub proof fn history_holds_latest_once(history: Seq<BufferId>, id: BufferId)
    requires
        history.no_duplicates(),
    ensures
        history_with(history, id).len() > 0,
        history_with(history, id)[0] == id,
        history_with(history, id).no_duplicates(),
        history_with(history, id).len() <= MAX_BUFFER_HISTORY,
{
    let rest = history.filter(other_than(id));
    filter_keeps_distinct(history, id);
    let all = seq![id] + rest;
    assert forall|i: int, j: int| 0 <= i < all.len() && 0 <= j < all.len() && i != j implies all[i]
        != all[j] by {
        if i > 0 && j > 0 {
            assert(all[i] == rest[i - 1] && all[j] == rest[j - 1]);
        } else if i == 0 {
            assert(all[j] == rest[j - 1]);
            assert(rest.contains(rest[j - 1]));
        } else {
            assert(all[i] == rest[i - 1]);
            assert(rest.contains(rest[i - 1]));
        }
    }
}

proof fn filter_keeps_distinct(history: Seq<BufferId>, id: BufferId)
    requires
        history.no_duplicates(),
    ensures
        history.filter(other_than(id)).no_duplicates(),
        forall|h: BufferId| #[trigger]
            history.filter(other_than(id)).contains(h) ==> history.contains(h) && h != id,
    decreases history.len(),
{
    reveal(Seq::filter);
    if history.len() > 0 {
        let head = history.drop_last();
        let rest = head.filter(other_than(id));
        let last = history.last();
        filter_keeps_distinct(head, id);
        let all = history.filter(other_than(id));
        assert forall|h: BufferId| #[trigger] all.contains(h) implies history.contains(h) && h
            != id by {
            let k = choose|k: int| 0 <= k < all.len() && all[k] == h;
            if k < rest.len() {
                assert(rest[k] == h);
                assert(rest.contains(h));
                let m = choose|m: int| 0 <= m < head.len() && head[m] == h;
                assert(history[m] == h);
            } else {
                assert(h == last);
                assert(history[history.len() - 1] == h);
            }
        }
        if last != id {
            assert forall|i: int, j: int|
                0 <= i < all.len() && 0 <= j < all.len() && i != j implies all[i] != all[j] by {
                if i < rest.len() && j < rest.len() {
                    assert(rest[i] != rest[j]);
                } else {
                    let k = if i < rest.len() {
                        i
                    } else {
                        j
                    };
                    assert(rest.contains(rest[k]));
                    let m = choose|m: int| 0 <= m < head.len() && head[m] == rest[k];
                    assert(history[m] != history[history.len() - 1]);
                }
            }
        }
    }
}

/// The messages buffer stays bounded, and it ends with the latest message.
pub proof fn messages_keep_recent_tail(before: BufferInner, after: BufferInner, line: Seq<char>)
    requires
        line_appended(before, after, line),
    ensures
        after.text().len() <= MAX_MESSAGES_CHARS,
        line.len() <= MAX_MESSAGES_CHARS ==> after.text().skip(after.text().len() - line.len())
            == line,
{
    let all = before.text() + line;
    if line.len() <= MAX_MESSAGES_CHARS {
        assert(after.text().skip(after.text().len() - line.len()) =~= line);
    }
}

/// The windows on screen are those that there are, each once.
proof fn on_screen_is_complete(slots: WindowSlots)
    requires
        slots.listed_by(slots.order()),
    ensures
        on_screen(slots.order(), slots@).len() == slots@.len(),
        on_screen(slots.order(), slots@).no_duplicates(),
        forall|w: WindowId| #[trigger]
            slots@.contains_key(w) ==> on_screen(slots.order(), slots@).contains(w),
{
    let order = slots.order();
    let ids = on_screen(order, slots@);
    slots.order_is(order);
    on_screen_permutes(order, slots@);
    order.unique_seq_to_set();
    assert(order.to_set() =~= slots@.dom());
    assert(ids.no_duplicates()) by {
        order.lemma_multiset_has_no_duplicates();
        ids.lemma_multiset_has_no_duplicates_conv();
    }
}

/// `k` places behind `p` in a list of `n`, starting again behind its end.
pub open spec fn round_from(p: int, k: int, n: int) -> int {
    if p + k < n {
        p + k
    } else {
        p + k - n
    }
}

proof fn next_on_screen(e: Editor, k: int)
    requires
        e.windows.listed_by(e.windows.order()),
        0 <= k < on_screen(e.windows.order(), e.windows@).len(),
        e.active_window == on_screen(e.windows.order(), e.windows@)[k],
    ensures
        ({
            let ids = on_screen(e.windows.order(), e.windows@);
            e.next_window() == ids[round_from(k, 1, ids.len() as int)]
        }),
{
    let ids = on_screen(e.windows.order(), e.windows@);
    on_screen_is_complete(e.windows);
    place_of_is(ids, ids[k], k);
    assert(ids.contains(ids[k]));
}

/// Whether each of these editors is the one before with the next window active.
pub open spec fn switched(states: Seq<Editor>) -> bool {
    &&& states.len() > 0
    &&& forall|i: int|
        0 <= i < states.len() ==> (#[trigger] states[i]).windows == states[0].windows
    &&& forall|i: int|
        1 <= i < states.len() ==> (#[trigger] states[i]).active_window == states[i
            - 1].next_window()
}

proof fn switched_place(states: Seq<Editor>, p: int, i: int)
    requires
        switched(states),
        states[0].windows.listed_by(states[0].windows.order()),
        states.len() == states[0].windows@.len() + 1,
        0 <= p < on_screen(states[0].windows.order(), states[0].windows@).len(),
        states[0].active_window == on_screen(states[0].windows.order(), states[0].windows@)[p],
        0 <= i < states.len(),
    ensures
        ({
            let ids = on_screen(states[0].windows.order(), states[0].windows@);
            states[i].active_window == ids[round_from(p, i, ids.len() as int)]
        }),
    decreases i,
{
    on_screen_is_complete(states[0].windows);
    if i > 0 {
        let n = states[0].windows@.len() as int;
        switched_place(states, p, i - 1);
        next_on_screen(states[i - 1], round_from(p, i - 1, n));
    }
}

/// Switching goes round: after as many switches as there are windows the first
/// window is active again, and every window was active in between.
pub proof fn switching_goes_round(states: Seq<Editor>)
    requires
        switched(states),
        states.len() == states[0].windows@.len() + 1,
        states[0].windows@.contains_key(states[0].active_window),
        states[0].windows.listed_by(states[0].windows.order()),
    ensures
        states.last().active_window == states[0].active_window,
        forall|w: WindowId| #[trigger]
            states[0].windows@.contains_key(w) ==> exists|i: int|
                0 <= i < states.len() && (#[trigger] states[i]).active_window == w,
{
    let ids = on_screen(states[0].windows.order(), states[0].windows@);
    let n = ids.len() as int;
    on_screen_is_complete(states[0].windows);
    assert(ids.contains(states[0].active_window));
    let p = choose|k: int| 0 <= k < ids.len() && ids[k] == states[0].active_window;
    switched_place(states, p, n);
    assert forall|w: WindowId| #[trigger] states[0].windows@.contains_key(w) implies exists|i: int|
        0 <= i < states.len() && (#[trigger] states[i]).active_window == w by {
        assert(ids.contains(w));
        let q = choose|k: int| 0 <= k < ids.len() && ids[k] == w;
        let i = if q >= p {
            q - p
        } else {
            q - p + n
        };
        switched_place(states, p, i);
        assert(states[i].active_window == w);
    }
}

} // verus!
