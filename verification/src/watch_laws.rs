//! Which files are watched, and which of their changes matter.

use vstd::prelude::*;

use crate::file_watcher;
use crate::file_watcher::{
    BufferSyncState, FileChangeEvent, FileWatcher, WatchOutcome, WatchedPath,
};
use crate::ids::BufferId;

verus! {

proof fn others_are_found(paths: Seq<WatchedPath>, path: Seq<char>, other: Seq<char>)
    requires
        other != path,
    ensures
        file_watcher::watched_buffer(file_watcher::other_paths(paths, path), other)
            == file_watcher::watched_buffer(paths, other),
    decreases paths.len(),
{
    if paths.len() > 0 {
        let rest = file_watcher::other_paths(paths.drop_last(), path);
        others_are_found(paths.drop_last(), path, other);
        if paths.last().file_path@ != path {
            assert(rest.push(paths.last()).drop_last() =~= rest);
        }
    }
}

/// A watched file is found by its path, and what the buffer held when the watch
/// began is noted. All other files are found as before.
pub proof fn watched_files_are_found(
    before: FileWatcher,
    after: FileWatcher,
    id: BufferId,
    path: Seq<char>,
    content: Seq<char>,
    now: u64,
    other: Seq<char>,
    key: u64,
)
    requires
        before.tried(&after, id, path, content, now, WatchOutcome::Started),
    ensures
        file_watcher::watched_buffer(after.paths@, path) == Some(id),
        other != path ==> file_watcher::watched_buffer(after.paths@, other)
            == file_watcher::watched_buffer(before.paths@, other),
        after.sync_states@.contains_key(id@),
        after.sync_states@[id@].base_content@ == content,
        after.sync_states@[id@].file_path@ == path,
        !after.sync_states@[id@].ignores(now),
        key != id@ ==> after.sync_states@.contains_key(key) == before.sync_states@.contains_key(key)
            && after.sync_states@[key] == before.sync_states@[key],
{
    let rest = file_watcher::other_paths(before.paths@, path);
    assert(after.paths@.drop_last() =~= rest);
    if other != path {
        others_are_found(before.paths@, path, other);
    }
}

/// A file that is left alone is not found any more, and nothing is noted of it.
/// All other files are found as before.
pub proof fn files_left_alone_are_not_found(
    before: FileWatcher,
    after: FileWatcher,
    id: BufferId,
    other: Seq<char>,
    key: u64,
)
    requires
        before.left_alone(&after, id),
        before.sync_states@.contains_key(id@),
    ensures
        ({
            let path = before.sync_states@[id@].file_path@;
            &&& file_watcher::watched_buffer(after.paths@, path) is None
            &&& other != path ==> file_watcher::watched_buffer(after.paths@, other)
                == file_watcher::watched_buffer(before.paths@, other)
        }),
        !after.sync_states@.contains_key(id@),
        key != id@ ==> after.sync_states@.contains_key(key) == before.sync_states@.contains_key(key)
            && after.sync_states@[key] == before.sync_states@[key],
{
    let path = before.sync_states@[id@].file_path@;
    file_watcher::other_paths_forget(before.paths@, path);
    if other != path {
        others_are_found(before.paths@, path, other);
    }
}

/// To leave a file alone takes back the watch on it.
pub proof fn leaving_alone_takes_back_watching(
    before: FileWatcher,
    watched: FileWatcher,
    after: FileWatcher,
    id: BufferId,
    path: Seq<char>,
    content: Seq<char>,
    now: u64,
    other: Seq<char>,
)
    requires
        before.tried(&watched, id, path, content, now, WatchOutcome::Started),
        watched.left_alone(&after, id),
        file_watcher::watched_buffer(before.paths@, path) is None,
        !before.sync_states@.contains_key(id@),
    ensures
        file_watcher::watched_buffer(after.paths@, other) == file_watcher::watched_buffer(
            before.paths@,
            other,
        ),
        after.sync_states@ == before.sync_states@,
{
    watched_files_are_found(before, watched, id, path, content, now, other, id@);
    files_left_alone_are_not_found(watched, after, id, other, id@);
    assert(after.sync_states@ =~= before.sync_states@);
}

/// The changes that matter are those of watched buffers that are not ignored at
/// the time: none of them is lost, and no other comes in.
pub proof fn changes_that_matter_are_kept(
    events: Seq<FileChangeEvent>,
    states: Map<u64, BufferSyncState>,
    now: u64,
    e: FileChangeEvent,
)
    ensures
        file_watcher::relevant(events, states, now).contains(e) <==> events.contains(e)
            && states.contains_key(e.buffer_id@) && !(
        states[e.buffer_id@].ignore_until matches Some(until) && now < until),
        file_watcher::relevant(events, states, now).len() <= events.len(),
    decreases events.len(),
{
    if events.len() > 0 {
        let init = events.drop_last();
        let now_kept = file_watcher::relevant(events, states, now);
        let before = file_watcher::relevant(init, states, now);
        changes_that_matter_are_kept(init, states, now, e);
        if now_kept.contains(e) {
            let k = choose|k: int| 0 <= k < now_kept.len() && now_kept[k] == e;
            if k < before.len() {
                assert(before[k] == e);
                let j = choose|j: int| 0 <= j < init.len() && init[j] == e;
                assert(events[j] == e);
            } else {
                assert(events[events.len() - 1] == e);
            }
        }
        if events.contains(e) && states.contains_key(e.buffer_id@)
            && !states[e.buffer_id@].ignores(now) {
            let j = choose|j: int| 0 <= j < events.len() && events[j] == e;
            if j < init.len() {
                assert(init[j] == e);
                let k = choose|k: int| 0 <= k < before.len() && before[k] == e;
                assert(now_kept[k] == e);
            } else {
                assert(now_kept[now_kept.len() - 1] == e);
            }
        }
    }
}

/// What the disk holds is noted for the buffer of the file, and for no other.
pub proof fn noted_base_is_what_the_disk_holds(
    before: FileWatcher,
    after: FileWatcher,
    id: BufferId,
    content: Seq<char>,
    now: u64,
    key: u64,
)
    requires
        before.base_noted(&after, id, content, now),
        before.sync_states@.contains_key(id@),
    ensures
        after.sync_states@.contains_key(id@),
        after.sync_states@[id@].base_content@ == content,
        after.sync_states@[id@].file_path == before.sync_states@[id@].file_path,
        after.sync_states@[id@].ignore_until == before.sync_states@[id@].ignore_until,
        key != id@ ==> after.sync_states@.contains_key(key) == before.sync_states@.contains_key(key)
            && after.sync_states@[key] == before.sync_states@[key],
{
}

/// From when a buffer is about to be saved, the changes of its file are ignored
/// for half a second, and not longer. What is watched, and what the file held,
/// stays; so does all that is known of other buffers.
pub proof fn own_saves_are_ignored_for_a_while(
    before: FileWatcher,
    after: FileWatcher,
    id: BufferId,
    now: u64,
    later: u64,
    other: u64,
)
    requires
        now + file_watcher::SAVE_GRACE_MILLIS <= u64::MAX,
        before.saving_marked(&after, id, now),
        other != id@,
    ensures
        before.sync_states@.contains_key(id@) ==> after.sync_states@[id@].ignores(later) == (later
            < now + 500),
        after.paths == before.paths,
        after.active == before.active,
        after.sync_states@.dom() =~= before.sync_states@.dom(),
        before.sync_states@.contains_key(id@) ==> {
            &&& after.sync_states@[id@].base_content == before.sync_states@[id@].base_content
            &&& after.sync_states@[id@].file_path == before.sync_states@[id@].file_path
            &&& after.sync_states@[id@].base_timestamp == before.sync_states@[id@].base_timestamp
        },
        after.sync_states@[other] == before.sync_states@[other],
{
}

} // verus!
