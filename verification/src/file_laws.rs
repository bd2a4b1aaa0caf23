//! What becomes of unsaved edits when the file of a buffer changes on disk.

use vstd::prelude::*;

use crate::editor::{ChromeView, Editor};
use crate::file_watcher;
use crate::file_watcher::{DiffLineView, DiffTag, LineChangeView, MergeResult};
use crate::ids::BufferId;
use crate::merge_laws;
use crate::text;
use crate::visiting;
use crate::visiting::SeenChange;

verus! {

// --- Lines of a text ---

/// Whether `line` stands at `p` from the start of a line to its end.
pub open spec fn stands_at(t: Seq<char>, line: Seq<char>, p: int) -> bool {
    &&& text::found_at(t, line, p)
    &&& p == 0 || t[p - 1] == '\n'
    &&& p + line.len() == t.len() || t[p + line.len()] == '\n'
}

/// Whether `line` is a line of a text.
pub open spec fn stands_in(t: Seq<char>, line: Seq<char>) -> bool {
    exists|p: int| #[trigger] stands_at(t, line, p)
}

/// Whether a text has line feeds only to end its lines.
pub open spec fn is_plain(t: Seq<char>) -> bool {
    !t.contains('\r')
}

proof fn ended_lines_stand(s: Seq<char>, start: int, pos: int, line: Seq<char>)
    requires
        is_plain(s),
        0 <= start <= pos <= s.len(),
        start == 0 || s[start - 1] == '\n',
        text::ended_lines(s, start, pos).contains(line),
    ensures
        stands_in(s, line),
    decreases s.len() - pos,
{
    if pos >= s.len() {
        assert(line == s.subrange(start, s.len() as int));
        assert(stands_at(s, line, start));
    } else if s[pos] == '\n' {
        let whole = s.subrange(start, pos);
        if whole.len() > 0 {
            assert(whole.last() == s[pos - 1]);
            assert(s.contains(s[pos - 1]));
        }
        let rest = text::ended_lines(s, pos + 1, pos + 1);
        let all = seq![whole] + rest;
        let i = all.index_of(line);
        if i == 0 {
            assert(stands_at(s, line, start));
        } else {
            assert(rest[i - 1] == line);
            ended_lines_stand(s, pos + 1, pos + 1, line);
        }
    } else {
        ended_lines_stand(s, start, pos + 1, line);
    }
}

proof fn standing_line_ends(s: Seq<char>, start: int, pos: int, p: int, line: Seq<char>)
    requires
        is_plain(s),
        0 <= start <= pos <= p,
        line.len() > 0,
        !line.contains('\n'),
        stands_at(s, line, p),
        forall|k: int| start <= k < pos ==> s[k] != '\n',
    ensures
        text::ended_lines(s, start, pos).contains(line),
    decreases p - pos,
{
    let end = p + line.len();
    if pos < p {
        if s[pos] == '\n' {
            standing_line_ends(s, pos + 1, pos + 1, p, line);
            let rest = text::ended_lines(s, pos + 1, pos + 1);
            let whole = text::without_cr(s.subrange(start, pos));
            assert((seq![whole] + rest)[1 + rest.index_of(line)] == line);
        } else {
            standing_line_ends(s, start, pos + 1, p, line);
        }
    } else {
        if start < p {
            assert(s[p - 1] != '\n');
        }
        assert(s.subrange(p, end) == line);
        merge_laws::lines_pass_over(s, p, p, end);
        if end == s.len() {
            assert(text::ended_lines(s, p, end)[0] == line);
        } else {
            assert(line.last() == s[end - 1]);
            assert(s.contains(s[end - 1]));
            assert(text::without_cr(line) == line);
            assert(text::ended_lines(s, p, end)[0] == line);
        }
    }
}

/// What stands in a text from the start of a line to its end is one of its lines,
/// and the other way round.
pub proof fn lines_are_what_stands_in_the_text(t: Seq<char>, line: Seq<char>)
    requires
        is_plain(t),
        line.len() > 0,
        !line.contains('\n'),
    ensures
        text::lines_of(t).contains(line) <==> stands_in(t, line),
{
    if text::lines_of(t).contains(line) {
        ended_lines_stand(t, 0, 0, line);
    }
    if stands_in(t, line) {
        let p = choose|p: int| #[trigger] stands_at(t, line, p);
        standing_line_ends(t, 0, 0, p, line);
    }
}

proof fn joined_lines_stand(parts: Seq<Seq<char>>, line: Seq<char>)
    requires
        parts.contains(line),
    ensures
        stands_in(text::joined(parts, seq!['\n']), line),
        stands_in(text::joined(parts, seq!['\n']).push('\n'), line),
    decreases parts.len(),
{
    let sep = seq!['\n'];
    let all = text::joined(parts, sep);
    let i = parts.index_of(line);
    if parts.len() == 1 {
        assert(all.subrange(0, all.len() as int) =~= line);
        assert(stands_at(all, line, 0));
    } else {
        let front = text::joined(parts.drop_last(), sep);
        if i == parts.len() - 1 {
            let at = (front + sep).len() as int;
            assert(all.subrange(at, at + line.len()) =~= line);
            assert(stands_at(all, line, at));
        } else {
            assert(parts.drop_last()[i] == line);
            joined_lines_stand(parts.drop_last(), line);
            let at = choose|at: int| #[trigger] stands_at(front, line, at);
            assert(all.subrange(at, at + line.len()) =~= front.subrange(at, at + line.len()));
            if at + line.len() == front.len() {
                assert(all[front.len() as int] == '\n');
            }
            assert(stands_at(all, line, at));
        }
    }
    let at = choose|at: int| #[trigger] stands_at(all, line, at);
    let more = all.push('\n');
    assert(more.subrange(at, at + line.len()) =~= all.subrange(at, at + line.len()));
    assert(stands_at(more, line, at));
}

// --- Lines of a difference ---

proof fn line_that_came_is_gathered(diff: Seq<DiffLineView>, i: int)
    requires
        0 <= i < diff.len(),
        diff[i].tag == DiffTag::Insert,
    ensures
        exists|k: int, j: int|
            {
                &&& 0 <= k < file_watcher::changes_of(diff).len()
                &&& 0 <= j < file_watcher::changes_of(diff)[k].new_lines.len()
                &&& #[trigger] file_watcher::changes_of(diff)[k].new_lines[j] == diff[i].value
            },
    decreases diff.len(),
{
    let g = file_watcher::gathered(diff.drop_last());
    let h = file_watcher::gathered(diff);
    let before = file_watcher::changes_of(diff.drop_last());
    let after = file_watcher::changes_of(diff);
    if i == diff.len() - 1 {
        let k = after.len() - 1;
        let j = after[k].new_lines.len() - 1;
        assert(after[k].new_lines[j] == diff[i].value);
    } else {
        line_that_came_is_gathered(diff.drop_last(), i);
        let (k, j) = choose|k: int, j: int|
            {
                &&& 0 <= k < before.len()
                &&& 0 <= j < before[k].new_lines.len()
                &&& #[trigger] before[k].new_lines[j] == diff[i].value
            };
        assert(after[k].new_lines[j] == diff[i].value);
    }
}

proof fn side_line(diff: Seq<DiffLineView>, line: Seq<char>)
    requires
        file_watcher::lines_without(diff, DiffTag::Delete).contains(line),
        !file_watcher::lines_without(diff, DiffTag::Insert).contains(line),
    ensures
        exists|i: int|
            0 <= i < diff.len() && (#[trigger] diff[i]).tag == DiffTag::Insert
                && text::without_newlines(diff[i].value) == line,
    decreases diff.len(),
{
    let news = file_watcher::pieces_without(diff, DiffTag::Delete);
    let olds = file_watcher::pieces_without(diff, DiffTag::Insert);
    let new_lines = file_watcher::lines_without(diff, DiffTag::Delete);
    let old_lines = file_watcher::lines_without(diff, DiffTag::Insert);
    let k = new_lines.index_of(line);
    let d = diff.last();
    let front = diff.drop_last();
    if d.tag != DiffTag::Delete && k == new_lines.len() - 1 {
        if d.tag == DiffTag::Equal {
            assert(old_lines[old_lines.len() - 1] == line);
        }
        assert(diff[diff.len() - 1].tag == DiffTag::Insert);
    } else {
        let front_new = file_watcher::lines_without(front, DiffTag::Delete);
        let front_old = file_watcher::lines_without(front, DiffTag::Insert);
        assert(front_new[k] == line);
        if front_old.contains(line) {
            assert(old_lines[front_old.index_of(line)] == line);
        }
        side_line(front, line);
        let i = choose|i: int|
            0 <= i < front.len() && (#[trigger] front[i]).tag == DiffTag::Insert
                && text::without_newlines(front[i].value) == line;
        assert(diff[i] == front[i]);
    }
}

proof fn ended_like_stands(base: Seq<char>, lines: Seq<Seq<char>>, line: Seq<char>)
    requires
        lines.contains(line),
    ensures
        stands_in(file_watcher::ended_like(base, lines), line),
{
    joined_lines_stand(lines, line);
}

proof fn merged_text_has_new_line(
    base: Seq<char>,
    local: Seq<char>,
    external: Seq<char>,
    m: MergeResult,
    line: Seq<char>,
    ours: bool,
)
    requires
        m is Merged,
        file_watcher::merge_outcome(base, local, external, m),
        merge_laws::sides_have_lines(base, local, external),
        !text::lines_of(base).contains(line),
        text::lines_of(
            if ours {
                local
            } else {
                external
            },
        ).contains(line),
    ensures
        stands_in(m->Merged_content@, line),
{
    let side = if ours {
        local
    } else {
        external
    };
    let diff = file_watcher::line_diff(base, side);
    let changes = file_watcher::changes_of(diff);
    let all = merge_laws::both_sides(base, local, external);
    side_line(diff, line);
    let i = choose|i: int|
        0 <= i < diff.len() && (#[trigger] diff[i]).tag == DiffTag::Insert
            && text::without_newlines(diff[i].value) == line;
    line_that_came_is_gathered(diff, i);
    let (k, j) = choose|k: int, j: int|
        {
            &&& 0 <= k < changes.len()
            &&& 0 <= j < changes[k].new_lines.len()
            &&& #[trigger] changes[k].new_lines[j] == diff[i].value
        };
    let c = changes[k];
    if ours {
        assert(all[k] == c);
    } else {
        assert(all[file_watcher::changes_of(file_watcher::line_diff(base, local)).len() + k] == c);
    }
    assert(all.contains(c));
    merge_laws::merge_is_separate(base, local, external);
    merge_laws::merge_makes_all_changes_at_once(base, local, external, m);
    merge_laws::fresh_from(all, c);
    let lines = text::lines_of(base);
    let fresh = file_watcher::bare_lines(c.new_lines);
    let here = merge_laws::line_after(lines, all, c.start_line);
    assert(fresh[j] == line);
    assert(here[j] == line);
    merge_laws::spliced_holds(lines, all, c.start_line as nat, lines.len() + 1, line);
    ended_like_stands(base, merge_laws::spliced(lines, all), line);
}

proof fn marked_text_has_line(
    base: Seq<char>,
    local: Seq<char>,
    external: Seq<char>,
    m: MergeResult,
    line: Seq<char>,
)
    requires
        m is MergedWithConflicts,
        file_watcher::merge_outcome(base, local, external, m),
        file_watcher::has_lines_of(file_watcher::line_diff(local, external), local, external),
        text::lines_of(local).contains(line) || text::lines_of(external).contains(line),
    ensures
        stands_in(m->MergedWithConflicts_content@, line),
{
    let diff = file_watcher::line_diff(local, external);
    let i = if text::lines_of(local).contains(line) {
        merge_laws::side_line_is_in(diff, DiffTag::Insert, line)
    } else {
        merge_laws::side_line_is_in(diff, DiffTag::Delete, line)
    };
    merge_laws::marked_lines_hold(diff, i);
    joined_lines_stand(file_watcher::conflicts_in(diff).closed().lines, line);
}

// --- One change on disk ---

/// What the file of a buffer held when it and the buffer last agreed.
pub open spec fn base_of(e: Editor, id: BufferId) -> Seq<char> {
    e.file_watcher.sync_states@[id@].base_content@
}

/// Whether a buffer is there and its file watched.
pub open spec fn is_watched(e: Editor, id: BufferId) -> bool {
    e.buffers@.contains_key(id) && e.file_watcher.sync_states@.contains_key(id@)
}

/// After a change on disk that altered the buffer, what is noted of the file is
/// what it holds now; and where the buffer stayed as it was, that or what was
/// noted before.
pub proof fn base_is_what_the_disk_holds(
    e: Editor,
    f: Editor,
    change: SeenChange,
    now: u64,
    r: Seq<ChromeView>,
)
    requires
        is_watched(e, change.event.buffer_id),
        change.content is Ok,
        e.change_seen(&f, change, now, r),
    ensures
        ({
            let id = change.event.buffer_id;
            let on_disk = change.content->Ok_0@;
            &&& is_watched(f, id)
            &&& f.buffers@[id].text() != e.buffers@[id].text() ==> base_of(f, id) == on_disk
            &&& base_of(f, id) == on_disk || base_of(f, id) == base_of(e, id)
            &&& f.file_watcher.sync_states@[id@].file_path
                == e.file_watcher.sync_states@[id@].file_path
        }),
{
}

/// A change of the file of one buffer leaves all others alone, and all windows.
pub proof fn other_buffers_stay(
    e: Editor,
    f: Editor,
    change: SeenChange,
    now: u64,
    r: Seq<ChromeView>,
    other: BufferId,
)
    requires
        e.change_seen(&f, change, now, r),
        other != change.event.buffer_id,
        other@ != change.event.buffer_id@,
    ensures
        f.buffers@.contains_key(other) == e.buffers@.contains_key(other),
        f.buffers@[other] == e.buffers@[other],
        f.file_watcher.sync_states@.contains_key(other@)
            == e.file_watcher.sync_states@.contains_key(other@),
        f.file_watcher.sync_states@[other@] == e.file_watcher.sync_states@[other@],
        f.windows == e.windows,
        f.active_window == e.active_window,
        f.kill_ring == e.kill_ring,
{
}

/// Where a change of its file gives a buffer another text, this is told: of that
/// buffer, from its start, up to where its text ended before and ends now.
pub proof fn replaced_text_is_told(
    e: Editor,
    f: Editor,
    change: SeenChange,
    now: u64,
    r: Seq<ChromeView>,
)
    requires
        e.change_seen(&f, change, now, r),
        f.buffers@[change.event.buffer_id].text() != e.buffers@[change.event.buffer_id].text(),
        e.buffers@[change.event.buffer_id].text().len() <= usize::MAX,
        f.buffers@[change.event.buffer_id].text().len() <= usize::MAX,
    ensures
        exists|i: int|
            0 <= i < r.len() && (#[trigger] r[i] matches ChromeView::BufferChanged {
                buffer_id,
                start,
                old_end,
                new_end,
            } && buffer_id == change.event.buffer_id && start == 0 && old_end
                == e.buffers@[buffer_id].text().len() && new_end
                == f.buffers@[buffer_id].text().len()),
        forall|i: int|
            0 <= i < r.len() ==> (#[trigger] r[i] matches ChromeView::BufferChanged {
                buffer_id,
                ..
            } ==> buffer_id == change.event.buffer_id),
{
    assert(r.len() == 3);
    assert(r[2] is BufferChanged);
}

/// A buffer without unsaved edits holds what the disk does after a change there.
/// Where the disk holds what was noted of it, or cannot be read, or no such file
/// is watched, nothing changes.
pub proof fn clean_buffer_follows_the_disk(
    e: Editor,
    f: Editor,
    change: SeenChange,
    now: u64,
    r: Seq<ChromeView>,
)
    requires
        e.change_seen(&f, change, now, r),
    ensures
        ({
            let id = change.event.buffer_id;
            &&& !is_watched(e, id) ==> f == e
            &&& change.content is Err ==> f == e && r.len() == 1
            &&& is_watched(e, id) && change.content is Ok ==> {
                let on_disk = change.content->Ok_0@;
                &&& e.buffers@[id].text() == base_of(e, id) && on_disk != base_of(e, id) ==> {
                    &&& f.buffers@[id].text() == on_disk
                    &&& base_of(f, id) == on_disk
                }
                &&& on_disk == base_of(e, id) ==> f == e
                &&& on_disk == e.buffers@[id].text() ==> f.buffers@[id].text() == on_disk
            }
        }),
{
}

/// A line that was written here and not saved is still in the buffer after a
/// change on disk, whatever that was.
pub proof fn unsaved_line_stays(
    e: Editor,
    f: Editor,
    change: SeenChange,
    now: u64,
    r: Seq<ChromeView>,
    line: Seq<char>,
)
    requires
        ({
            let id = change.event.buffer_id;
            &&& is_watched(e, id)
            &&& change.content is Ok
            &&& e.change_seen(&f, change, now, r)
            &&& is_plain(base_of(e, id))
            &&& is_plain(e.buffers@[id].text())
            &&& is_plain(change.content->Ok_0@)
            &&& line.len() > 0
            &&& !line.contains('\n')
            &&& stands_in(e.buffers@[id].text(), line)
            &&& !stands_in(base_of(e, id), line)
        }),
    ensures
        stands_in(f.buffers@[change.event.buffer_id].text(), line),
{
    let id = change.event.buffer_id;
    let base = base_of(e, id);
    let local = e.buffers@[id].text();
    let external = change.content->Ok_0@;
    lines_are_what_stands_in_the_text(base, line);
    lines_are_what_stands_in_the_text(local, line);
    let m = choose|m: MergeResult| #[trigger]
        file_watcher::merge_outcome(base, local, external, m)
            && file_watcher::differences_hold(base, local, external, m) && e.merge_applied(
            &f,
            id,
            external,
            m,
            now,
            r,
        );
    if m is Merged {
        merged_text_has_new_line(base, local, external, m, line, true);
    } else if m is MergedWithConflicts {
        marked_text_has_line(base, local, external, m, line);
    }
}

/// A line that came on disk is in the buffer afterwards, whatever was written
/// here.
pub proof fn line_from_disk_comes_in(
    e: Editor,
    f: Editor,
    change: SeenChange,
    now: u64,
    r: Seq<ChromeView>,
    line: Seq<char>,
)
    requires
        ({
            let id = change.event.buffer_id;
            &&& is_watched(e, id)
            &&& change.content is Ok
            &&& e.change_seen(&f, change, now, r)
            &&& is_plain(base_of(e, id))
            &&& is_plain(e.buffers@[id].text())
            &&& is_plain(change.content->Ok_0@)
            &&& line.len() > 0
            &&& !line.contains('\n')
            &&& stands_in(change.content->Ok_0@, line)
            &&& !stands_in(base_of(e, id), line)
        }),
    ensures
        stands_in(f.buffers@[change.event.buffer_id].text(), line),
{
    let id = change.event.buffer_id;
    let base = base_of(e, id);
    let local = e.buffers@[id].text();
    let external = change.content->Ok_0@;
    lines_are_what_stands_in_the_text(base, line);
    lines_are_what_stands_in_the_text(external, line);
    let m = choose|m: MergeResult| #[trigger]
        file_watcher::merge_outcome(base, local, external, m)
            && file_watcher::differences_hold(base, local, external, m) && e.merge_applied(
            &f,
            id,
            external,
            m,
            now,
            r,
        );
    if m is Merged {
        merged_text_has_new_line(base, local, external, m, line, false);
    } else if m is MergedWithConflicts {
        marked_text_has_line(base, local, external, m, line);
    }
}

// --- Many changes on disk ---

/// Whether a change gives the file of a buffer a content without the line.
pub open spec fn lacks(change: SeenChange, id: BufferId, line: Seq<char>) -> bool {
    change.event.buffer_id == id && change.content is Ok ==> {
        &&& is_plain(change.content->Ok_0@)
        &&& !stands_in(change.content->Ok_0@, line)
    }
}

proof fn unsaved_line_outlives(
    states: Seq<Editor>,
    told: Seq<Seq<ChromeView>>,
    changes: Seq<SeenChange>,
    now: u64,
    id: BufferId,
    line: Seq<char>,
    k: int,
)
    requires
        visiting::leads_through(states, told, changes, now),
        0 <= k <= changes.len(),
        is_watched(states[0], id),
        is_plain(base_of(states[0], id)),
        forall|i: int| 0 <= i < states.len() ==> is_plain((#[trigger] states[i]).buffers@[id].text()),
        forall|i: int| 0 <= i < changes.len() ==> lacks(#[trigger] changes[i], id, line),
        forall|i: int|
            0 <= i < changes.len() ==> (#[trigger] changes[i]).event.buffer_id == id
                || changes[i].event.buffer_id@ != id@,
        line.len() > 0,
        !line.contains('\n'),
        stands_in(states[0].buffers@[id].text(), line),
        !stands_in(base_of(states[0], id), line),
    ensures
        is_watched(states[k], id),
        is_plain(base_of(states[k], id)),
        stands_in(states[k].buffers@[id].text(), line),
        !stands_in(base_of(states[k], id), line),
    decreases k,
{
    if k > 0 {
        unsaved_line_outlives(states, told, changes, now, id, line, k - 1);
        let e = states[k - 1];
        let f = states[k];
        let change = changes[k - 1];
        assert(e.change_seen(&f, change, now, told[k - 1]));
        assert(lacks(change, id, line));
        assert(is_plain(e.buffers@[id].text()));
        if change.event.buffer_id == id {
            if change.content is Ok {
                unsaved_line_stays(e, f, change, now, told[k - 1], line);
                base_is_what_the_disk_holds(e, f, change, now, told[k - 1]);
            }
        } else {
            other_buffers_stay(e, f, change, now, told[k - 1], id);
        }
    }
}

/// A line that was written here and not saved, and that the disk never held, is
/// still in the buffer after any number of changes on disk.
pub proof fn unsaved_line_outlives_all_changes(
    states: Seq<Editor>,
    told: Seq<Seq<ChromeView>>,
    changes: Seq<SeenChange>,
    now: u64,
    id: BufferId,
    line: Seq<char>,
)
    requires
        visiting::leads_through(states, told, changes, now),
        is_watched(states[0], id),
        is_plain(base_of(states[0], id)),
        forall|i: int| 0 <= i < states.len() ==> is_plain((#[trigger] states[i]).buffers@[id].text()),
        forall|i: int| 0 <= i < changes.len() ==> lacks(#[trigger] changes[i], id, line),
        forall|i: int|
            0 <= i < changes.len() ==> (#[trigger] changes[i]).event.buffer_id == id
                || changes[i].event.buffer_id@ != id@,
        line.len() > 0,
        !line.contains('\n'),
        stands_in(states[0].buffers@[id].text(), line),
        !stands_in(base_of(states[0], id), line),
    ensures
        stands_in(states.last().buffers@[id].text(), line),
{
    unsaved_line_outlives(states, told, changes, now, id, line, changes.len() as int);
}

// --- Conflicts ---

/// A part of a text with marked conflicts: a line of both sides, or the lines in
/// whose place each side has its own.
pub enum Part {
    Both(Seq<char>),
    Conflict { local: Seq<Seq<char>>, external: Seq<Seq<char>> },
}

/// The lines of one side.
pub open spec fn side_of(parts: Seq<Part>, ours: bool) -> Seq<Seq<char>>
    decreases parts.len(),
{
    if parts.len() == 0 {
        seq![]
    } else {
        side_of(parts.drop_last(), ours) + match parts.last() {
            Part::Both(line) => seq![line],
            Part::Conflict { local, external } => if ours {
                local
            } else {
                external
            },
        }
    }
}

/// The lines with the conflicts between their markers.
pub open spec fn marked(parts: Seq<Part>) -> Seq<Seq<char>>
    decreases parts.len(),
{
    if parts.len() == 0 {
        seq![]
    } else {
        marked(parts.drop_last()) + match parts.last() {
            Part::Both(line) => seq![line],
            Part::Conflict { local, external } => seq!["<<<<<<< LOCAL"@] + local + seq!["======="@]
                + external + seq![">>>>>>> EXTERNAL"@],
        }
    }
}

/// How many conflicts there are.
pub open spec fn conflicts(parts: Seq<Part>) -> nat
    decreases parts.len(),
{
    if parts.len() == 0 {
        0
    } else {
        conflicts(parts.drop_last()) + if parts.last() is Conflict {
            1nat
        } else {
            0nat
        }
    }
}

proof fn difference_has_parts(diff: Seq<DiffLineView>) -> (parts: Seq<Part>)
    ensures
        ({
            let c = file_watcher::conflicts_in(diff);
            &&& c.lines == marked(parts)
            &&& c.count == conflicts(parts)
            &&& !c.open ==> c.local.len() == 0 && c.external.len() == 0
            &&& file_watcher::lines_without(diff, DiffTag::Insert) == side_of(parts, true)
                + c.local
            &&& file_watcher::lines_without(diff, DiffTag::Delete) == side_of(parts, false)
                + c.external
        }),
    decreases diff.len(),
{
    if diff.len() == 0 {
        let parts = Seq::<Part>::empty();
        let none = Seq::<Seq<char>>::empty();
        assert(none + none =~= none);
        assert(file_watcher::lines_without(diff, DiffTag::Insert) =~= Seq::<Seq<char>>::empty());
        assert(file_watcher::lines_without(diff, DiffTag::Delete) =~= Seq::<Seq<char>>::empty());
        parts
    } else {
        let front = diff.drop_last();
        let before = difference_has_parts(front);
        let c = file_watcher::conflicts_in(front);
        let d = diff.last();
        let line = text::without_newlines(d.value);
        let olds = file_watcher::lines_without(front, DiffTag::Insert);
        let news = file_watcher::lines_without(front, DiffTag::Delete);
        match d.tag {
            DiffTag::Equal => {
                let closed = if c.open {
                    before.push(Part::Conflict { local: c.local, external: c.external })
                } else {
                    before
                };
                if c.open {
                    assert(closed.drop_last() =~= before);
                }
                assert(marked(closed) =~= c.closed().lines);
                assert(side_of(closed, true) =~= olds);
                assert(side_of(closed, false) =~= news);
                let parts = closed.push(Part::Both(line));
                assert(parts.drop_last() =~= closed);
                let after = file_watcher::conflicts_in(diff);
                assert(marked(parts) =~= after.lines);
                assert(file_watcher::lines_without(diff, DiffTag::Insert) =~= olds.push(line));
                assert(file_watcher::lines_without(diff, DiffTag::Delete) =~= news.push(line));
                assert(after.local.len() == 0 && after.external.len() == 0);
                assert(olds.push(line) =~= side_of(parts, true) + after.local);
                assert(news.push(line) =~= side_of(parts, false) + after.external);
                assert(conflicts(closed) == c.closed().count);
                assert(parts.last() == Part::Both(line));
                assert(conflicts(parts) == conflicts(closed));
                parts
            },
            DiffTag::Delete => {
                assert(file_watcher::lines_without(diff, DiffTag::Insert) =~= olds.push(line));
                assert(file_watcher::lines_without(diff, DiffTag::Delete) =~= news);
                assert(olds.push(line) =~= side_of(before, true) + c.local.push(line));
                assert(file_watcher::conflicts_in(diff) == c.with(d));
                before
            },
            DiffTag::Insert => {
                assert(file_watcher::lines_without(diff, DiffTag::Insert) =~= olds);
                assert(file_watcher::lines_without(diff, DiffTag::Delete) =~= news.push(line));
                assert(news.push(line) =~= side_of(before, false) + c.external.push(line));
                assert(file_watcher::conflicts_in(diff) == c.with(d));
                before
            },
        }
    }
}

/// Whether a text is made of parts that are the lines of both sides, and marks
/// so many conflicts.
pub open spec fn marks_conflicts_of(
    parts: Seq<Part>,
    content: Seq<char>,
    local: Seq<char>,
    external: Seq<char>,
    count: int,
) -> bool {
    &&& content == text::joined(marked(parts), seq!['\n'])
    &&& text::lines_of(local) == side_of(parts, true)
    &&& text::lines_of(external) == side_of(parts, false)
    &&& count == conflicts(parts)
}

/// Marked conflicts show the lines of the buffer first, as the local ones, and
/// then those of the disk; taking one side of each gives back that side.
pub proof fn conflicts_show_both_sides(
    base: Seq<char>,
    local: Seq<char>,
    external: Seq<char>,
    m: MergeResult,
)
    requires
        file_watcher::merge_outcome(base, local, external, m),
        file_watcher::differences_hold(base, local, external, m),
        is_plain(local),
        is_plain(external),
    ensures
        m matches MergeResult::MergedWithConflicts { content, conflict_count } ==> exists|
            parts: Seq<Part>,
        | #[trigger]
            marks_conflicts_of(parts, content@, local, external, conflict_count as int),
{
    if m is MergedWithConflicts {
        let diff = file_watcher::line_diff(local, external);
        let c = file_watcher::conflicts_in(diff);
        let before = difference_has_parts(diff);
        let parts = if c.open {
            before.push(Part::Conflict { local: c.local, external: c.external })
        } else {
            before
        };
        if c.open {
            assert(parts.drop_last() =~= before);
        }
        assert(marked(parts) =~= c.closed().lines);
        assert(side_of(parts, true) =~= text::lines_of(local));
        assert(side_of(parts, false) =~= text::lines_of(external));
        assert(marks_conflicts_of(
            parts,
            m->MergedWithConflicts_content@,
            local,
            external,
            m->conflict_count as int,
        ));
    }
}

/// Whether a change takes up a line, before it is made or afterwards.
pub open spec fn takes_up(c: LineChangeView, line: int) -> bool {
    ||| c.start_line <= line < c.end_line
    ||| c.start_line <= line < c.start_line + c.new_lines.len()
}

/// Two changes are in conflict exactly where there is a line that both take up.
pub proof fn overlap_is_a_common_line(a: LineChangeView, b: LineChangeView)
    requires
        exists|line: int| takes_up(a, line),
        exists|line: int| takes_up(b, line),
    ensures
        file_watcher::overlapping(a, b) <==> exists|line: int| #[trigger]
            takes_up(a, line) && #[trigger] takes_up(b, line),
{
    if file_watcher::overlapping(a, b) {
        let line = if a.start_line >= b.start_line {
            a.start_line
        } else {
            b.start_line
        };
        assert(takes_up(a, line) && takes_up(b, line));
    }
}

/// A merge without conflicts ends with a line feed if the base does.
pub proof fn merge_keeps_the_last_line_feed(
    base: Seq<char>,
    local: Seq<char>,
    external: Seq<char>,
    m: MergeResult,
)
    requires
        file_watcher::merge_outcome(base, local, external, m),
        base.len() > 0,
        base.last() == '\n',
    ensures
        m matches MergeResult::Merged { content, .. } ==> content@.len() > 0 && content@.last()
            == '\n',
{
}

/// Two lists of changes conflict where a change of the one and a change of the
/// other take up a line in common, whichever list comes first.
pub proof fn lists_conflict_at_common_lines(
    xs: Seq<LineChangeView>,
    ys: Seq<LineChangeView>,
    i: int,
    j: int,
    line: int,
)
    ensures
        file_watcher::any_overlap(xs, ys) == file_watcher::any_overlap(ys, xs),
        0 <= i < xs.len() && 0 <= j < ys.len() && takes_up(xs[i], line) && takes_up(ys[j], line)
            ==> file_watcher::any_overlap(xs, ys),
{
    if file_watcher::any_overlap(xs, ys) {
        let (k, m) = choose|k: int, m: int|
            0 <= k < xs.len() && 0 <= m < ys.len() && file_watcher::overlapping(
                #[trigger] xs[k],
                #[trigger] ys[m],
            );
        assert(file_watcher::overlapping(ys[m], xs[k]));
    }
    if file_watcher::any_overlap(ys, xs) {
        let (k, m) = choose|k: int, m: int|
            0 <= k < ys.len() && 0 <= m < xs.len() && file_watcher::overlapping(
                #[trigger] ys[k],
                #[trigger] xs[m],
            );
        assert(file_watcher::overlapping(xs[m], ys[k]));
    }
}

} // verus!
