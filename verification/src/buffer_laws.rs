//! What becomes of the buffers and of the windows that show them.

use vstd::prelude::*;
use vstd::string::*;

use crate::editor;
use crate::editor::{ChromeView, CommandType, Editor, OpenType, MAX_BUFFER_HISTORY};
use crate::file_watcher::WatchOutcome;
use crate::ids::{BufferId, WindowId};
use crate::native_services::ClockReading;
use crate::opening::OpenPlan;
use crate::visiting;

verus! {

// --- Switching and killing ---

/// After a switch the active window shows the buffer, from its start, and the
/// history begins with it. The other windows, the buffers and what is watched
/// stay.
pub proof fn switching_shows_the_buffer(
    e: Editor,
    f: Editor,
    id: BufferId,
    unwatch_error: Option<Seq<char>>,
    at: ClockReading,
    r: Seq<ChromeView>,
)
    requires
        e.selection_made(&f, id, false, unwatch_error, at, r),
        e.buffers@.contains_key(id),
        !e.in_command_window(id),
    ensures
        f.active_window == e.active_window,
        f.windows@.contains_key(f.active_window),
        f.windows@[f.active_window].active_buffer == id,
        f.windows@[f.active_window].cursor == 0,
        forall|w: WindowId| #[trigger]
            e.windows@.contains_key(w) && w != e.active_window ==> f.windows@.contains_key(w)
                && f.windows@[w] == e.windows@[w],
        f.buffers@ == e.buffers@,
        f.file_watcher == e.file_watcher,
        f.window_tree == e.window_tree,
        f.buffer_history@.len() > 0,
        f.buffer_history@[0] == id,
{
}

/// A killed buffer is gone: it is no buffer any more, no window shows it, it is
/// not watched, and the history does not lead back to it. No window goes with it,
/// and all other buffers stay, but for the one that holds the messages.
pub proof fn killed_buffer_is_gone(
    e: Editor,
    f: Editor,
    id: BufferId,
    other: BufferId,
    unwatch_error: Option<Seq<char>>,
    at: ClockReading,
    r: Seq<ChromeView>,
)
    requires
        e.selection_made(&f, id, true, unwatch_error, at, r),
        e.buffers@.contains_key(id),
        !e.in_command_window(id),
        e.buffers@.contains_key(other),
        other != id,
    ensures
        !f.buffers@.contains_key(id),
        !visiting::shown_in(f.windows@, id),
        !f.file_watcher.sync_states@.contains_key(id@),
        !f.buffer_history@.contains(id),
        f.windows@.dom() == e.windows@.dom(),
        f.active_window == e.active_window,
        f.window_tree == e.window_tree,
        forall|w: WindowId| #[trigger]
            e.windows@.contains_key(w) ==> if e.windows@[w].active_buffer != id {
                f.windows@[w] == e.windows@[w]
            } else {
                e.buffers@.contains_key(f.windows@[w].active_buffer) && f.windows@[w].cursor == 0
            },
        forall|b: BufferId| #[trigger]
            e.buffers@.contains_key(b) && b != id && e.messages_buffer_id != Some(b) ==> {
                f.buffers@.contains_key(b) && f.buffers@[b] == e.buffers@[b]
            },
{
    let found = choose|found: Option<BufferId>| #[trigger]
        visiting::first_other(e.buffers@, id, found) && match found {
            None => f == e && r == seq![ChromeView::Echo("Cannot kill the only buffer"@)],
            Some(to) => e.buffer_killed(&f, id, to, unwatch_error, at) && r == seq![
                ChromeView::Echo("Killed buffer: "@ + e.buffers@[id].inner.object@),
                ChromeView::MarkDirty(crate::renderer::DirtyRegion::FullScreen),
            ],
        };
    let to = found->0;
    assert(e.buffer_killed(&f, id, to, unwatch_error, at));
    let name = e.buffers@[id].inner.object@;
    let prefix = "Killed "@ + name + "; watcher cleanup failed: "@;
    let (u, m) = choose|u: Editor, m: Editor| #[trigger]
        visiting::trouble_told(u, m, prefix, unwatch_error, at) && {
            &&& u.windows@ == visiting::all_with_instead(e.windows@, id, to)
            &&& e.file_watcher.left_alone(&u.file_watcher, id)
            &&& u == (Editor { windows: u.windows, file_watcher: u.file_watcher, ..e })
            &&& f.buffers@ == m.buffers@.remove(id)
            &&& f.buffer_history@ == editor::history_with(
                m.buffer_history@.filter(editor::other_than(id)),
                to,
            )
            &&& f == (Editor { buffers: f.buffers, buffer_history: f.buffer_history, ..m })
        };
    if unwatch_error is Some {
        echo_leaves_the_rest(u, m, prefix + unwatch_error->0, at);
    }
    assert(m.windows == u.windows && m.file_watcher == u.file_watcher);
    assert(f.windows@ == visiting::all_with_instead(e.windows@, id, to));
    assert(f.windows@.dom() =~= e.windows@.dom());
    let rest = m.buffer_history@.filter(editor::other_than(id));
    rest_is_other(m.buffer_history@, id);
    rest_is_other(rest, to);
    history_is_what_was_shown(rest, to);
    if f.buffer_history@.contains(id) {
        let k = choose|k: int| 0 <= k < f.buffer_history@.len() && f.buffer_history@[k] == id;
        assert(k > 0);
        assert(rest.contains(f.buffer_history@[k]));
    }
}

/// The only buffer is not killed.
pub proof fn only_buffer_stays(
    e: Editor,
    f: Editor,
    id: BufferId,
    unwatch_error: Option<Seq<char>>,
    at: ClockReading,
    r: Seq<ChromeView>,
)
    requires
        e.selection_made(&f, id, true, unwatch_error, at, r),
        forall|b: BufferId| #[trigger] e.buffers@.contains_key(b) ==> b == id,
    ensures
        f == e,
{
}

// --- The history ---

proof fn rest_is_other(history: Seq<BufferId>, id: BufferId)
    ensures
        !history.filter(editor::other_than(id)).contains(id),
        forall|b: BufferId| #[trigger]
            history.filter(editor::other_than(id)).contains(b) ==> history.contains(b),
        forall|b: BufferId| #[trigger]
            history.contains(b) && b != id ==> history.filter(editor::other_than(id)).contains(b),
        history.filter(editor::other_than(id)).len() <= history.len(),
    decreases history.len(),
{
    reveal(Seq::filter);
    if history.len() > 0 {
        let init = history.drop_last();
        rest_is_other(init, id);
        let kept = history.filter(editor::other_than(id));
        let kept_init = init.filter(editor::other_than(id));
        assert forall|b: BufferId| #[trigger] kept.contains(b) implies b != id && history.contains(
            b,
        ) by {
            let k = choose|k: int| 0 <= k < kept.len() && kept[k] == b;
            if k < kept_init.len() {
                assert(kept_init[k] == b);
                assert(kept_init.contains(b));
                assert(init.contains(b));
                let j = choose|j: int| 0 <= j < init.len() && init[j] == b;
                assert(history[j] == b);
            } else {
                assert(history[history.len() - 1] == b);
            }
        }
        assert forall|b: BufferId| #[trigger] history.contains(b) && b != id implies kept.contains(
            b,
        ) by {
            let k = choose|k: int| 0 <= k < history.len() && history[k] == b;
            if k < init.len() {
                assert(init[k] == b);
                assert(init.contains(b));
                assert(kept_init.contains(b));
                let j = choose|j: int| 0 <= j < kept_init.len() && kept_init[j] == b;
                assert(kept[j] == b);
            } else {
                assert(kept[kept.len() - 1] == b);
            }
        }
    }
}

/// A buffer that is shown comes first in the history, and once. Nothing comes in
/// but it, and nothing goes but what has no room.
pub proof fn history_is_what_was_shown(history: Seq<BufferId>, id: BufferId)
    ensures
        editor::history_with(history, id).len() > 0,
        editor::history_with(history, id)[0] == id,
        editor::history_with(history, id).len() <= MAX_BUFFER_HISTORY,
        forall|k: int|
            0 < k < editor::history_with(history, id).len() ==> #[trigger] editor::history_with(
                history,
                id,
            )[k] != id && history.contains(editor::history_with(history, id)[k]),
        history.len() < MAX_BUFFER_HISTORY ==> forall|b: BufferId| #[trigger]
            history.contains(b) ==> editor::history_with(history, id).contains(b),
{
    let kept = history.filter(editor::other_than(id));
    let after = editor::history_with(history, id);
    rest_is_other(history, id);
    assert forall|k: int| 0 < k < after.len() implies #[trigger] after[k] != id && history.contains(
        after[k],
    ) by {
        assert(after[k] == kept[k - 1]);
        assert(kept.contains(kept[k - 1]));
    }
    if history.len() < MAX_BUFFER_HISTORY {
        assert forall|b: BufferId| #[trigger] history.contains(b) implies after.contains(b) by {
            if b == id {
                assert(after[0] == b);
            } else {
                assert(kept.contains(b));
                let j = choose|j: int| 0 <= j < kept.len() && kept[j] == b;
                assert(after[j + 1] == b);
            }
        }
    }
}

/// Of two buffers in the history, the one that was shown later stays in front of
/// the other.
pub proof fn history_keeps_its_order(history: Seq<BufferId>, id: BufferId, i: int, j: int)
    requires
        0 < i < j < editor::history_with(history, id).len(),
    ensures
        exists|p: int, q: int|
            #![trigger history[p], history[q]]
            0 <= p < q < history.len() && history[p] == editor::history_with(history, id)[i]
                && history[q] == editor::history_with(history, id)[j],
{
    let kept = history.filter(editor::other_than(id));
    assert(editor::history_with(history, id)[i] == kept[i - 1]);
    assert(editor::history_with(history, id)[j] == kept[j - 1]);
    rest_keeps_order(history, id, i - 1, j - 1);
}

proof fn rest_keeps_order(history: Seq<BufferId>, id: BufferId, i: int, j: int)
    requires
        0 <= i < j < history.filter(editor::other_than(id)).len(),
    ensures
        exists|p: int, q: int|
            #![trigger history[p], history[q]]
            0 <= p < q < history.len() && history[p] == history.filter(editor::other_than(id))[i]
                && history[q] == history.filter(editor::other_than(id))[j],
    decreases history.len(),
{
    reveal(Seq::filter);
    let init = history.drop_last();
    let kept = history.filter(editor::other_than(id));
    let kept_init = init.filter(editor::other_than(id));
    if j < kept_init.len() {
        rest_keeps_order(init, id, i, j);
        let (p, q) = choose|p: int, q: int|
            #![trigger init[p], init[q]]
            0 <= p < q < init.len() && init[p] == kept_init[i] && init[q] == kept_init[j];
        assert(history[p] == kept[i] && history[q] == kept[j]);
    } else {
        rest_is_other(init, id);
        assert(kept_init.contains(kept_init[i]));
        assert(init.contains(kept_init[i]));
        let p = choose|p: int| 0 <= p < init.len() && init[p] == kept_init[i];
        let q = history.len() - 1;
        assert(history[p] == kept[i] && history[q] == kept[j]);
    }
}

/// From a buffer, one goes back to the one that was shown before it.
pub proof fn going_back_undoes_a_switch(
    e: Editor,
    history: Seq<BufferId>,
    first: BufferId,
    second: BufferId,
    r: Option<BufferId>,
)
    requires
        e.buffer_history@ == editor::history_with(editor::history_with(history, first), second),
        first != second,
        e.buffers@.contains_key(first),
        !e.in_command_window(first),
        e.goes_back_to(second, r),
    ensures
        r == Some(first),
{
    reveal(Seq::filter);
    let before = editor::history_with(history, first);
    let kept = before.filter(editor::other_than(second));
    history_is_what_was_shown(history, first);
    first_stays_first(before, second);
    assert(e.buffer_history@[0] == second);
    assert(e.buffer_history@[1] == first);
    assert(e.can_go_back_to(first, second));
    assert(!e.can_go_back_to(second, second));
}

proof fn first_stays_first(history: Seq<BufferId>, id: BufferId)
    requires
        history.len() > 0,
        history[0] != id,
    ensures
        history.filter(editor::other_than(id)).len() > 0,
        history.filter(editor::other_than(id))[0] == history[0],
    decreases history.len(),
{
    reveal(Seq::filter);
    let init = history.drop_last();
    if init.len() > 0 {
        first_stays_first(init, id);
    } else {
        assert(init.filter(editor::other_than(id)) =~= seq![]);
    }
}

/// One goes back to a buffer that was shown, exists, is in no command window and
/// is not the one that one comes from.
pub proof fn one_goes_back_to_a_buffer(e: Editor, current: BufferId, r: Option<BufferId>)
    requires
        e.goes_back_to(current, r),
    ensures
        r matches Some(b) ==> {
            &&& b != current
            &&& e.buffers@.contains_key(b)
            &&& e.buffer_history@.contains(b)
            &&& forall|w: WindowId| #[trigger]
                e.windows@.contains_key(w) && e.windows@[w].active_buffer == b
                    ==> !(e.windows@[w].window_type is Command)
        },
{
}

// --- Messages ---

proof fn echo_leaves_the_rest(e: Editor, f: Editor, message: Seq<char>, at: ClockReading)
    requires
        e.echo_set(&f, message, at),
    ensures
        f.windows == e.windows,
        f.file_watcher == e.file_watcher,
        f.active_window == e.active_window,
        f.window_tree == e.window_tree,
        f.buffer_history == e.buffer_history,
        forall|b: BufferId| #[trigger]
            e.buffers@.contains_key(b) && e.messages_buffer_id != Some(b)
                ==> f.buffers@.contains_key(b) && f.buffers@[b] == e.buffers@[b],
{
    let start = Editor {
        echo_message: f.echo_message,
        echo_message_time: Some(at.millis),
        ..e
    };
    let line = editor::message_line(message, at);
    let (mid, id) = choose|mid: Editor, id: BufferId|
        #![trigger editor::added_to(mid, f, id, line)]
        start.with_messages_buffer(&mid, id) && editor::added_to(mid, f, id, line);
    assert(start.with_messages_buffer(&mid, id) && editor::added_to(mid, f, id, line));
}

/// A message is shown, from when it came, and the messages buffer ends with it,
/// as a line of its own. No other buffer and no window changes.
pub proof fn messages_are_shown_and_kept(e: Editor, f: Editor, message: Seq<char>, at: ClockReading)
    requires
        e.echo_set(&f, message, at),
        message.len() < editor::MAX_MESSAGES_CHARS,
        e.messages_buffer_id matches Some(m) ==> e.buffers@.contains_key(m),
    ensures
        f.echo_message@ == message,
        f.echo_message_time == Some(at.millis),
        f.windows == e.windows,
        f.active_window == e.active_window,
        f.messages_buffer_id matches Some(m) && f.buffers@.contains_key(m) && (message.push(
            '\n',
        )).is_suffix_of(f.buffers@[m].text()),
        forall|b: BufferId| #[trigger]
            e.buffers@.contains_key(b) && f.messages_buffer_id != Some(b)
                ==> f.buffers@.contains_key(b) && f.buffers@[b] == e.buffers@[b],
{
    let start = Editor {
        echo_message: f.echo_message,
        echo_message_time: Some(at.millis),
        ..e
    };
    let line = editor::message_line(message, at);
    let (mid, id) = choose|mid: Editor, id: BufferId|
        #![trigger editor::added_to(mid, f, id, line)]
        start.with_messages_buffer(&mid, id) && editor::added_to(mid, f, id, line);
    assert(start.with_messages_buffer(&mid, id) && editor::added_to(mid, f, id, line));
    reveal_strlit("\n");
    let all = mid.buffers@[id].text() + line;
    let text = f.buffers@[id].text();
    let end = message.push('\n');
    let head = "["@ + crate::text::decimal(at.unix_secs as nat) + "] "@;
    assert(line =~= head + end);
    assert(text.len() >= end.len());
    assert(text.subrange(text.len() - end.len(), text.len() as int) =~= end);
}

/// What the messages buffer held before a message stays in front of it, up to
/// where there is no more room.
pub proof fn earlier_messages_stay(
    e: Editor,
    f: Editor,
    message: Seq<char>,
    at: ClockReading,
    m: BufferId,
)
    requires
        e.echo_set(&f, message, at),
        e.messages_buffer_id == Some(m),
        e.buffers@.contains_key(m),
    ensures
        f.buffers@[m].text().len() <= editor::MAX_MESSAGES_CHARS,
        f.buffers@[m].text().len() < editor::MAX_MESSAGES_CHARS ==> e.buffers@[m].text().is_prefix_of(
            f.buffers@[m].text(),
        ),
{
    let start = Editor {
        echo_message: f.echo_message,
        echo_message_time: Some(at.millis),
        ..e
    };
    let line = editor::message_line(message, at);
    let (mid, id) = choose|mid: Editor, id: BufferId|
        #![trigger editor::added_to(mid, f, id, line)]
        start.with_messages_buffer(&mid, id) && editor::added_to(mid, f, id, line);
    assert(start.with_messages_buffer(&mid, id) && editor::added_to(mid, f, id, line));
    let t0 = e.buffers@[m].text();
    let all = t0 + line;
    assert(all.subrange(0, t0.len() as int) =~= t0);
}

// --- Opening files ---

/// An opened file has a buffer of its own, with the file's name and text, which
/// the window shows from its start. The other windows stay.
pub proof fn opening_shows_the_file(
    e: Editor,
    f: Editor,
    path: Seq<char>,
    file_path: Seq<char>,
    open_type: OpenType,
    content: Option<Seq<char>>,
    watched: WatchOutcome,
    unwatch_error: Option<Seq<char>>,
    now: u64,
    r: Seq<ChromeView>,
    w: WindowId,
)
    requires
        e.file_shown(
            &f,
            path,
            file_path,
            open_type,
            content,
            watched,
            unwatch_error,
            now,
            r,
        ),
        e.windows@.contains_key(w),
        e.previous_active_window == Some(w) || e.previous_active_window is None && e.active_window
            == w,
    ensures
        ({
            let b = f.windows@[w].active_buffer;
            &&& f.windows@.contains_key(w)
            &&& f.windows@[w].cursor == 0
            &&& !e.buffers@.contains_key(b)
            &&& f.buffers@.contains_key(b)
            &&& f.buffers@[b].inner.object@ == path
            &&& content is Some ==> f.buffers@[b].text() == content->0
            &&& content is None ==> f.buffers@[b].text().len() == 0
            &&& content is Some && watched is Started ==> f.file_watcher.sync_states@.contains_key(b@)
                && f.file_watcher.sync_states@[b@].base_content@ == f.buffers@[b].text()
                && f.file_watcher.sync_states@[b@].file_path@ == file_path
        }),
        forall|o: WindowId| #[trigger]
            e.windows@.contains_key(o) && o != w ==> f.windows@.contains_key(o) && f.windows@[o]
                == e.windows@[o],
        f.active_window == e.active_window,
{
    let b = f.windows@[w].active_buffer;
    let replaced = e.buffer_to_replace(open_type);
    assert(e.window_to_open() == w);
    if let Some(o) = replaced {
        assert(f.windows@.contains_key(w));
        assert(visiting::shown_in(f.windows@, b));
        BufferId::same_bits(o, b);
    }
}

/// A file opened anew takes no buffer away, and a visited one at most the one
/// that the window showed, where no other window shows it.
pub proof fn opening_takes_only_the_visited_buffer(
    e: Editor,
    f: Editor,
    path: Seq<char>,
    file_path: Seq<char>,
    open_type: OpenType,
    content: Option<Seq<char>>,
    watched: WatchOutcome,
    unwatch_error: Option<Seq<char>>,
    now: u64,
    r: Seq<ChromeView>,
    w: WindowId,
    b: BufferId,
)
    requires
        e.file_shown(
            &f,
            path,
            file_path,
            open_type,
            content,
            watched,
            unwatch_error,
            now,
            r,
        ),
        e.windows@.contains_key(w),
        e.previous_active_window == Some(w) || e.previous_active_window is None && e.active_window
            == w,
        e.buffers@.contains_key(b),
    ensures
        f.buffers@.contains_key(b) ==> f.buffers@[b] == e.buffers@[b],
        !f.buffers@.contains_key(b) ==> {
            &&& open_type == OpenType::Visit
            &&& e.windows@[w].active_buffer == b
            &&& !(e.windows@[w].window_type is Command)
            &&& forall|o: WindowId| #[trigger]
                e.windows@.contains_key(o) && o != w ==> e.windows@[o].active_buffer != b
        },
        open_type == OpenType::Visit && e.windows@[w].active_buffer == b && (forall|o: WindowId|
            #[trigger]
            e.windows@.contains_key(o) ==> e.windows@[o].active_buffer == b ==> o == w
                && !(e.windows@[o].window_type is Command)) ==> !f.buffers@.contains_key(b),
{
    assert(e.window_to_open() == w);
    let opened = f.windows@[w].active_buffer;
    assert(opened != b);
    if !f.buffers@.contains_key(b) {
        assert(!visiting::shown_in(f.windows@, b));
        assert(!e.in_command_window(b));
        assert forall|o: WindowId| #[trigger]
            e.windows@.contains_key(o) && o != w implies e.windows@[o].active_buffer != b by {
            assert(f.windows@.contains_key(o));
        }
    }
    if open_type == OpenType::Visit && e.windows@[w].active_buffer == b && (forall|o: WindowId|
        #[trigger]
        e.windows@.contains_key(o) ==> e.windows@[o].active_buffer == b ==> o == w && !(
        e.windows@[o].window_type is Command)) {
        assert(!e.in_command_window(b));
        if visiting::shown_in(f.windows@, b) {
            let k = choose|k: WindowId| #[trigger]
                f.windows@.contains_key(k) && f.windows@[k].active_buffer == b;
            assert(e.windows@.contains_key(k));
        }
    }
}

/// What is planned before a file is opened is what happens: the file opens in the
/// planned window, and the buffer that is to go is the one that goes.
pub proof fn opening_goes_as_planned(
    e: Editor,
    f: Editor,
    path: Seq<char>,
    file_path: Seq<char>,
    open_type: OpenType,
    content: Option<Seq<char>>,
    watched: WatchOutcome,
    unwatch_error: Option<Seq<char>>,
    now: u64,
    r: Seq<ChromeView>,
    plan: OpenPlan,
    b: BufferId,
)
    requires
        e.planned(open_type, plan),
        e.file_shown(
            &f,
            path,
            file_path,
            open_type,
            content,
            watched,
            unwatch_error,
            now,
            r,
        ),
        e.buffers@.contains_key(b),
    ensures
        plan.window matches Some(w) ==> {
            &&& f.windows@.contains_key(w)
            &&& !e.buffers@.contains_key(f.windows@[w].active_buffer)
            &&& plan.leaving == Some(b) <==> !f.buffers@.contains_key(b)
        },
        plan.window is None ==> f == e,
{
    if let Some(w) = plan.window {
        assert(w == e.window_to_open());
        let rest = e.windows@.remove(w);
        assert(visiting::shown_in(rest, b) <==> visiting::shown_in(f.windows@, b)) by {
            let opened = f.windows@[w].active_buffer;
            if visiting::shown_in(rest, b) {
                let k = choose|k: WindowId| #[trigger]
                    rest.contains_key(k) && rest[k].active_buffer == b;
                assert(f.windows@.contains_key(k) && f.windows@[k] == e.windows@[k]);
            }
            if visiting::shown_in(f.windows@, b) {
                let k = choose|k: WindowId| #[trigger]
                    f.windows@.contains_key(k) && f.windows@[k].active_buffer == b;
                assert(opened != b);
                assert(rest.contains_key(k));
            }
        }
    }
}

// --- Prompts ---

/// An open prompt is the active window, at the bottom of the frame, and shows
/// its text in a buffer of its own.
pub proof fn prompts_show_their_text(
    e: Editor,
    f: Editor,
    command_type: CommandType,
    height: u16,
    content: Seq<char>,
    cursor: usize,
    id: WindowId,
)
    requires
        e.prompt_opened(&f, command_type, height, content, cursor, id),
        !e.window_tree.leaves().contains(id),
        content.len() <= usize::MAX,
    ensures
        f.active_window == id,
        f.windows@.contains_key(id),
        f.windows@[id].window_type is Command,
        f.windows@[id].height_chars == height,
        height <= e.frame.available_lines ==> f.windows@[id].y + height == e.frame.available_lines,
        f.windows@[id].width_chars == e.frame.available_columns,
        f.windows@[id].cursor <= content.len(),
        cursor <= content.len() ==> f.windows@[id].cursor == cursor,
        f.buffers@.contains_key(f.windows@[id].active_buffer),
        f.buffers@[f.windows@[id].active_buffer].text() == content,
        forall|b: BufferId| #[trigger]
            e.buffers@.contains_key(b) ==> f.buffers@.contains_key(b) && f.buffers@[b]
                == e.buffers@[b] && f.windows@[id].active_buffer != b,
{
    opened_windows_stay(e, f, command_type, height, content, cursor, id);
}

proof fn opened_windows_stay(
    e: Editor,
    f: Editor,
    command_type: CommandType,
    height: u16,
    content: Seq<char>,
    cursor: usize,
    id: WindowId,
)
    requires
        e.prompt_opened(&f, command_type, height, content, cursor, id),
    ensures
        f.windows@.dom() == e.windows@.dom().insert(id),
        f.windows@[id].window_type is Command,
        f.windows@[id].cursor == if cursor <= content.len() {
            cursor
        } else {
            content.len() as usize
        },
        !e.window_tree.leaves().contains(id) ==> f.windows@[id].height_chars == height
            && f.windows@[id].width_chars == e.frame.available_columns && f.windows@[id].y == if height
            <= e.frame.available_lines {
            e.frame.available_lines - height
        } else {
            0
        },
        forall|w: WindowId| #[trigger]
            e.windows@.contains_key(w) ==> {
                &&& f.windows@[w].active_buffer == e.windows@[w].active_buffer
                &&& f.windows@[w].cursor == e.windows@[w].cursor
                &&& f.windows@[w].window_type == e.windows@[w].window_type
            },
{
    let frame = e.frame;
    let shown = f.windows@[id].active_buffer;
    let window = editor::Window {
        x: 0,
        y: if height <= frame.available_lines {
            (frame.available_lines - height) as u16
        } else {
            0
        },
        width_chars: frame.available_columns,
        height_chars: height,
        active_buffer: shown,
        cursor: if cursor <= content.len() {
            cursor
        } else {
            content.len() as usize
        },
        window_type: editor::WindowType::Command {
            position: editor::CommandWindowPosition::Bottom,
            command_type,
        },
    };
    let all = e.windows@.insert(id, window);
    editor::layout_keeps_windows(
        e.window_tree,
        all,
        0,
        editor::command_rows(all, true) as u16,
        frame.available_columns,
        editor::rows_left(frame.available_lines, all),
    );
    assert(all.dom() =~= e.windows@.dom().insert(id));
    assert(all.contains_key(id));
    assert forall|w: WindowId| #[trigger] e.windows@.contains_key(w) implies {
        &&& f.windows@[w].active_buffer == e.windows@[w].active_buffer
        &&& f.windows@[w].cursor == e.windows@[w].cursor
        &&& f.windows@[w].window_type == e.windows@[w].window_type
    } by {
        assert(all.contains_key(w));
        assert(all[w] == e.windows@[w]);
    }
}

/// Closing a prompt takes back its opening: the window that was active is active
/// again, and the windows, what they show, and the buffers are what they were.
pub proof fn closing_takes_back_opening(
    e: Editor,
    f: Editor,
    g: Editor,
    command_type: CommandType,
    height: u16,
    content: Seq<char>,
    cursor: usize,
    id: WindowId,
)
    requires
        e.prompt_opened(&f, command_type, height, content, cursor, id),
        f.command_closed(&g, id),
        e.windows@.contains_key(e.active_window),
    ensures
        g.active_window == e.active_window,
        g.previous_active_window is None,
        g.buffers@ == e.buffers@,
        g.window_tree == e.window_tree,
        g.windows@.dom() == e.windows@.dom(),
        forall|w: WindowId| #[trigger]
            e.windows@.contains_key(w) ==> {
                &&& g.windows@[w].active_buffer == e.windows@[w].active_buffer
                &&& g.windows@[w].cursor == e.windows@[w].cursor
                &&& g.windows@[w].window_type == e.windows@[w].window_type
            },
{
    opened_windows_stay(e, f, command_type, height, content, cursor, id);
    let rest = f.windows@.remove(id);
    editor::layout_keeps_windows(
        f.window_tree,
        rest,
        0,
        editor::command_rows(rest, true) as u16,
        f.frame.available_columns,
        editor::rows_left(f.frame.available_lines, rest),
    );
    assert(rest.dom() =~= e.windows@.dom());
    assert(rest.contains_key(e.active_window));
    assert(g.buffers@ =~= e.buffers@);
    assert forall|w: WindowId| #[trigger] e.windows@.contains_key(w) implies {
        &&& g.windows@[w].active_buffer == e.windows@[w].active_buffer
        &&& g.windows@[w].cursor == e.windows@[w].cursor
        &&& g.windows@[w].window_type == e.windows@[w].window_type
    } by {
        assert(rest.contains_key(w));
    }
}

// --- One window alone ---

/// When the other windows go, the active one fills the frame and shows what it
/// showed. No buffer goes.
pub proof fn one_window_fills_the_frame(e: Editor, f: Editor)
    requires
        e.others_deleted(&f),
        e.windows@.contains_key(e.active_window),
    ensures
        f.active_window == e.active_window,
        forall|w: WindowId| #[trigger] f.windows@.contains_key(w) <==> w == e.active_window,
        f.window_tree.leaves() == seq![e.active_window],
        f.buffers@ == e.buffers@,
        f.here().active_buffer == e.here().active_buffer,
        f.here().cursor == e.here().cursor,
        f.here().x == 0 && f.here().y == 0,
        f.here().width_chars == e.frame.available_columns,
        f.here().height_chars == e.frame.available_lines,
{
    assert(f.window_tree.leaves() =~= seq![e.active_window]);
}

/// A message stays in the echo area for three seconds: looked at before, it is
/// still there; looked at from then on, it is gone, and nothing else with it.
/// Looked at once more, there is nothing to remove.
pub proof fn messages_go_after_three_seconds(
    e: Editor,
    f: Editor,
    g: Editor,
    message: Seq<char>,
    at: ClockReading,
    now: u64,
    gone: bool,
    later: u64,
    h: Editor,
    again: bool,
)
    requires
        e.echo_set(&f, message, at),
        message.len() < editor::MAX_MESSAGES_CHARS,
        e.messages_buffer_id matches Some(m) ==> e.buffers@.contains_key(m),
        f.echo_checked(&g, now, gone),
        g.echo_checked(&h, later, again),
    ensures
        gone == (at.millis + 3000 <= now),
        gone ==> g.echo_message@.len() == 0 && !again && h == g,
        !gone ==> g == f && g.echo_message@ == message,
        g.buffers == f.buffers,
        g.windows == f.windows,
        g.active_window == f.active_window,
        g.kill_ring == f.kill_ring,
{
    messages_are_shown_and_kept(e, f, message, at);
}

} // verus!
