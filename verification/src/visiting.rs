//! Buffers and files in the windows of the editor.

use vstd::prelude::*;
use vstd::string::*;

use crate::buffer;
use crate::buffer::{Buffer, BufferInner};
use crate::editor;
use crate::editor::{ChromeAction, ChromeView, Editor, OpenType, Window};
use crate::file_watcher;
use crate::file_watcher::{
    merge_changes, FileChangeEvent, FileWatcher, MergeResult, WatchOutcome,
};
use crate::ids::{BufferId, WindowId};
use crate::native_services::ClockReading;
use crate::renderer::DirtyRegion;
use crate::text::{char_count, concat2, decimal_string};
use crate::{slots, text, undo};

verus! {

/// Whether `found` is the buffer in the lowest slot of those that are not `id`,
/// or nothing where there are none.
pub open spec fn first_other(
    buffers: Map<BufferId, Buffer>,
    id: BufferId,
    found: Option<BufferId>,
) -> bool {
    match found {
        None => forall|other: BufferId| #[trigger] buffers.contains_key(other) ==> other == id,
        Some(to) => {
            &&& buffers.contains_key(to)
            &&& to != id
            &&& forall|other: BufferId| #[trigger]
                buffers.contains_key(other) && other != id && other != to ==> slots::slot_index(
                    to@,
                ) < slots::slot_index(other@)
        },
    }
}

/// The window `w`, with the buffer `to` in place of `id`.
pub open spec fn with_instead(w: Window, id: BufferId, to: BufferId) -> Window {
    if w.active_buffer == id {
        Window { active_buffer: to, cursor: 0, ..w }
    } else {
        w
    }
}

/// The windows, with the buffer `to` in place of `id`.
pub open spec fn all_with_instead(
    windows: Map<WindowId, Window>,
    id: BufferId,
    to: BufferId,
) -> Map<WindowId, Window> {
    Map::new(|k: WindowId| windows.contains_key(k), |k: WindowId| with_instead(windows[k], id, to))
}

/// Whether a window shows the buffer.
pub open spec fn shown_in(windows: Map<WindowId, Window>, id: BufferId) -> bool {
    exists|k: WindowId| #[trigger] windows.contains_key(k) && windows[k].active_buffer == id
}

/// Whether `e` is the editor `u` after it was told of trouble, if there was
/// any.
pub open spec fn trouble_told(
    u: Editor,
    e: Editor,
    prefix: Seq<char>,
    trouble: Option<Seq<char>>,
    at: ClockReading,
) -> bool {
    match trouble {
        None => e == u,
        Some(what) => u.echo_set(&e, prefix + what, at),
    }
}

/// A text that may be missing.
pub open spec fn view_of(s: Option<String>) -> Option<Seq<char>> {
    match s {
        None => None,
        Some(s) => Some(s@),
    }
}

impl Editor {
    /// Whether the prompt can be closed, if there is one.
    pub open spec fn can_close_prompt(&self) -> bool {
        forall|id: WindowId| #[trigger]
            editor::first_slot(self.windows@, Some(true), Some(id)) ==> self.can_close(id)
    }

    /// Whether `after` is this editor with its prompt closed, if there is one.
    pub open spec fn prompt_closed(&self, after: &Self) -> bool {
        exists|found: Option<WindowId>| #[trigger]
            editor::first_slot(self.windows@, Some(true), found) && match found {
                None => *after == *self,
                Some(id) => self.command_closed(after, id),
            }
    }

    /// Whether a command window is open.
    pub open spec fn has_prompt(&self) -> bool {
        !editor::first_slot(self.windows@, Some(true), None)
    }

    fn close_prompt(&mut self) -> (r: bool)
        requires
            old(self).can_close_prompt(),
        ensures
            old(self).prompt_closed(final(self)),
            r == old(self).has_prompt(),
            !r ==> *final(self) == *old(self),
            final(self).buffers@.len() <= old(self).buffers@.len(),
            r ==> final(self).windows@.contains_key(final(self).active_window),
            r ==> final(self).previous_active_window is None,
            final(self).messages_buffer_id == old(self).messages_buffer_id,
    {
        let ghost before = *self;
        match self.find_command_window() {
            None => false,
            Some(id) => {
                assert(before.can_close(id));
                assert(before.windows@.contains_key(id));
                self.close_command_window(id);
                proof {
                    let rest = before.windows@.remove(id);
                    editor::layout_keeps_windows(
                        before.window_tree,
                        rest,
                        0,
                        editor::command_rows(rest, true) as u16,
                        before.frame.available_columns,
                        editor::rows_left(before.frame.available_lines, rest),
                    );
                }
                true
            },
        }
    }

    /// The buffer in the lowest slot but `id`.
    fn other_buffer(&self, id: BufferId) -> (r: Option<BufferId>)
        ensures
            first_other(self.buffers@, id, r),
    {
        let ids = self.buffers.keys();
        let ghost bits = ids@.map_values(|b: BufferId| b@);
        let mut i: usize = 0;
        while i < ids.len()
            invariant
                i <= ids@.len(),
                self.buffers.listed_by(ids@),
                bits == ids@.map_values(|b: BufferId| b@),
                forall|k: int| 0 <= k < i ==> #[trigger] ids@[k] == id,
            decreases ids.len() - i,
        {
            let to = ids[i];
            assert(ids@.contains(ids@[i as int]));
            if to != id {
                proof {
                    assert forall|other: BufferId| #[trigger]
                        self.buffers@.contains_key(other) && other != id && other
                            != to implies slots::slot_index(to@) < slots::slot_index(other@) by {
                        assert(ids@.contains(other));
                        let k = choose|k: int| 0 <= k < ids@.len() && ids@[k] == other;
                        assert(k > i);
                        assert(bits[i as int] == to@ && bits[k] == other@);
                    }
                }
                return Some(to);
            }
            i = i + 1;
        }
        proof {
            assert forall|other: BufferId| #[trigger] self.buffers@.contains_key(other) implies other
                == id by {
                assert(ids@.contains(other));
                let k = choose|k: int| 0 <= k < ids@.len() && ids@[k] == other;
                assert(ids@[k] == id);
            }
        }
        None
    }

    /// Shows the buffer `to` wherever `id` is shown.
    fn show_instead(&mut self, id: BufferId, to: BufferId)
        ensures
            final(self).windows@ == all_with_instead(old(self).windows@, id, to),
            *final(self) == (Editor { windows: final(self).windows, ..*old(self) }),
    {
        let ghost before = *self;
        let ids = self.windows.keys();
        let mut i: usize = 0;
        while i < ids.len()
            invariant
                i <= ids@.len(),
                before.windows.listed_by(ids@),
                ids@.no_duplicates(),
                *self == (Editor { windows: self.windows, ..before }),
                self.windows@.dom() == before.windows@.dom(),
                forall|k: int|
                    0 <= k < i ==> self.windows@[#[trigger] ids@[k]] == with_instead(
                        before.windows@[ids@[k]],
                        id,
                        to,
                    ),
                forall|k: int|
                    i <= k < ids@.len() ==> self.windows@[#[trigger] ids@[k]]
                        == before.windows@[ids@[k]],
            decreases ids.len() - i,
        {
            let ghost mid = self.windows@;
            assert(ids@.contains(ids@[i as int]));
            if let Some(w) = self.windows.get_mut(ids[i]) {
                if w.active_buffer == id {
                    w.active_buffer = to;
                    w.cursor = 0;
                }
            }
            assert(self.windows@.dom() =~= before.windows@.dom());
            i = i + 1;
        }
        let ghost wanted = all_with_instead(before.windows@, id, to);
        assert forall|k: WindowId| #[trigger] self.windows@.contains_key(k) implies self.windows@[k]
            == wanted[k] by {
            assert(before.windows@.contains_key(k));
            assert(ids@.contains(k));
            let j = choose|j: int| 0 <= j < ids@.len() && ids@[j] == k;
            assert(self.windows@[ids@[j]] == with_instead(before.windows@[ids@[j]], id, to));
        }
        assert(self.windows@ =~= wanted);
    }

    /// Whether `after` is this editor without the buffer `id`, in whose place
    /// `to` is shown.
    pub open spec fn buffer_killed(
        &self,
        after: &Self,
        id: BufferId,
        to: BufferId,
        unwatch_error: Option<Seq<char>>,
        at: ClockReading,
    ) -> bool {
        let name = self.buffers@[id].inner.object@;
        let prefix = "Killed "@ + name + "; watcher cleanup failed: "@;
        exists|u: Editor, e: Editor| #[trigger]
            trouble_told(u, e, prefix, unwatch_error, at) && {
                &&& u.windows@ == all_with_instead(self.windows@, id, to)
                &&& self.file_watcher.left_alone(&u.file_watcher, id)
                &&& u == (Editor { windows: u.windows, file_watcher: u.file_watcher, ..*self })
                &&& after.buffers@ == e.buffers@.remove(id)
                &&& after.buffer_history@ == editor::history_with(
                    e.buffer_history@.filter(editor::other_than(id)),
                    to,
                )
                &&& *after == (Editor {
                    buffers: after.buffers,
                    buffer_history: after.buffer_history,
                    ..e
                })
            }
    }

    /// Whether `after` is this editor, which has no prompt, with a buffer shown
    /// in the active window or killed, and `r` what is to be done about it.
    pub open spec fn selection_made(
        &self,
        after: &Self,
        id: BufferId,
        kill: bool,
        unwatch_error: Option<Seq<char>>,
        at: ClockReading,
        r: Seq<ChromeView>,
    ) -> bool {
        let name = self.buffers@[id].inner.object@;
        if !self.buffers@.contains_key(id) || self.in_command_window(id) {
            *after == *self && r == seq![ChromeView::Echo("Buffer no longer exists"@)]
        } else if !kill {
            &&& after.windows@ == self.windows@.insert(
                self.active_window,
                Window { active_buffer: id, cursor: 0, ..self.here() },
            )
            &&& after.buffer_history@ == editor::history_with(self.buffer_history@, id)
            &&& *after == (Editor {
                windows: after.windows,
                buffer_history: after.buffer_history,
                ..*self
            })
            &&& r == seq![
                ChromeView::Echo("Switched to buffer: "@ + name),
                ChromeView::MarkDirty(DirtyRegion::FullScreen),
            ]
        } else {
            exists|other: Option<BufferId>| #[trigger]
                first_other(self.buffers@, id, other) && match other {
                    None => *after == *self && r == seq![
                        ChromeView::Echo("Cannot kill the only buffer"@),
                    ],
                    Some(to) => self.buffer_killed(after, id, to, unwatch_error, at) && r == seq![
                        ChromeView::Echo("Killed buffer: "@ + name),
                        ChromeView::MarkDirty(DirtyRegion::FullScreen),
                    ],
                }
        }
    }

    /// Closes the prompt, if there is one, and shows a buffer in the active
    /// window or kills it. `unwatch_error` is what went wrong when the watch on
    /// the file of a killed buffer ended.
    pub fn select_mica_buffer(
        &mut self,
        buffer_id: BufferId,
        kill: bool,
        unwatch_error: Option<String>,
        at: ClockReading,
    ) -> (r: Vec<ChromeAction>)
        requires
            old(self).can_close_prompt(),
            !kill && !old(self).has_prompt() && old(self).buffers@.contains_key(buffer_id)
                ==> old(self).windows@.contains_key(old(self).active_window),
            old(self).messages_buffer_id is None ==> old(self).buffers@.len() < u32::MAX - 1,
        ensures
            exists|mid: Editor| #[trigger]
                old(self).prompt_closed(&mid) && mid.selection_made(
                    final(self),
                    buffer_id,
                    kill,
                    view_of(unwatch_error),
                    at,
                    editor::chrome_views(r@),
                ),
    {
        self.close_prompt();
        self.make_selection(buffer_id, kill, unwatch_error, at)
    }

    fn make_selection(
        &mut self,
        buffer_id: BufferId,
        kill: bool,
        unwatch_error: Option<String>,
        at: ClockReading,
    ) -> (r: Vec<ChromeAction>)
        requires
            !kill && old(self).buffers@.contains_key(buffer_id)
                ==> old(self).windows@.contains_key(old(self).active_window),
            old(self).messages_buffer_id is None ==> old(self).buffers@.len() < u32::MAX - 1,
        ensures
            old(self).selection_made(
                final(self),
                buffer_id,
                kill,
                view_of(unwatch_error),
                at,
                editor::chrome_views(r@),
            ),
    {
        let ghost before = *self;
        if !self.buffers.contains_key(buffer_id) || self.is_command_buffer(buffer_id) {
            let r = vec![ChromeAction::Echo("Buffer no longer exists".to_owned())];
            assert(editor::chrome_views(r@) =~= seq![
                ChromeView::Echo("Buffer no longer exists"@),
            ]);
            return r;
        }
        let name = match self.buffers.get(buffer_id) {
            Some(b) => b.object(),
            None => String::new(),
        };
        if !kill {
            let active = self.active_window;
            if let Some(w) = self.windows.get_mut(active) {
                w.active_buffer = buffer_id;
                w.cursor = 0;
            }
            self.record_buffer_access(buffer_id);
            let r = vec![
                ChromeAction::Echo(concat2("Switched to buffer: ", name.as_str())),
                ChromeAction::MarkDirty(DirtyRegion::FullScreen),
            ];
            assert(editor::chrome_views(r@) =~= seq![
                ChromeView::Echo("Switched to buffer: "@ + name@),
                ChromeView::MarkDirty(DirtyRegion::FullScreen),
            ]);
            return r;
        }
        let other = self.other_buffer(buffer_id);
        assert(first_other(before.buffers@, buffer_id, other));
        let to = match other {
            Some(to) => to,
            None => {
                let r = vec![ChromeAction::Echo("Cannot kill the only buffer".to_owned())];
                assert(editor::chrome_views(r@) =~= seq![
                    ChromeView::Echo("Cannot kill the only buffer"@),
                ]);
                return r;
            },
        };
        self.show_instead(buffer_id, to);
        self.file_watcher.unwatch_file(buffer_id);
        let ghost u = *self;
        let ghost prefix = "Killed "@ + name@ + "; watcher cleanup failed: "@;
        match &unwatch_error {
            Some(what) => {
                let mut message = concat2("Killed ", name.as_str());
                message.append("; watcher cleanup failed: ");
                message.append(what.as_str());
                assert(message@ =~= prefix + what@);
                self.set_echo_message(message, at);
            },
            None => (),
        }
        let ghost e = *self;
        assert(trouble_told(u, e, prefix, view_of(unwatch_error), at));
        self.buffers.remove(buffer_id);
        self.buffer_history = editor::without_buffer(&self.buffer_history, buffer_id);
        self.record_buffer_access(to);
        assert(before.buffer_killed(self, buffer_id, to, view_of(unwatch_error), at));
        let r = vec![
            ChromeAction::Echo(concat2("Killed buffer: ", name.as_str())),
            ChromeAction::MarkDirty(DirtyRegion::FullScreen),
        ];
        assert(editor::chrome_views(r@) =~= seq![
            ChromeView::Echo("Killed buffer: "@ + name@),
            ChromeView::MarkDirty(DirtyRegion::FullScreen),
        ]);
        r
    }

    // --- Opening files ---

    /// The window in which a file opens: the one that was active before a
    /// command window opened, if it still exists, else the active one.
    pub open spec fn window_to_open(&self) -> WindowId {
        match self.previous_active_window {
            Some(p) if self.windows@.contains_key(p) => p,
            _ => self.active_window,
        }
    }

    /// The buffer that a visited file replaces.
    pub open spec fn buffer_to_replace(&self, open_type: OpenType) -> Option<BufferId> {
        let shown = self.windows@[self.window_to_open()].active_buffer;
        if open_type == OpenType::Visit && !self.in_command_window(shown) {
            Some(shown)
        } else {
            None
        }
    }

    /// Whether `after` is this editor, which has no prompt, with a file opened,
    /// and `r` what is to be done about it.
    pub open spec fn file_shown(
        &self,
        after: &Self,
        path: Seq<char>,
        file_path: Seq<char>,
        open_type: OpenType,
        content: Option<Seq<char>>,
        watched: WatchOutcome,
        unwatch_error: Option<Seq<char>>,
        now: u64,
        r: Seq<ChromeView>,
    ) -> bool {
        let window = self.window_to_open();
        let w = self.windows@[window];
        if !self.windows@.contains_key(window) {
            *after == *self && r == seq![
                ChromeView::Echo("Error opening file: Window no longer exists"@),
            ]
        } else {
            let opened = after.windows@[window].active_buffer;
            let replaced = self.buffer_to_replace(open_type);
            let goes = replaced matches Some(b) && !shown_in(after.windows@, b);
            let with_opened = self.buffers@.insert(opened, after.buffers@[opened]);
            &&& !self.buffers@.contains_key(opened)
            &&& after.windows@ == self.windows@.insert(
                window,
                Window { active_buffer: opened, cursor: 0, ..w },
            )
            &&& after.buffers@ == if goes {
                with_opened.remove(replaced->0)
            } else {
                with_opened
            }
            &&& editor::is_new_buffer(
                after.buffers@[opened],
                path,
                match content {
                    Some(t) => t,
                    None => Seq::<char>::empty(),
                },
                content is Some,
            )
            &&& exists|fw: FileWatcher| #[trigger]
                watch_tried(self.file_watcher, fw, opened, file_path, content, now, watched)
                    && watch_ended(fw, after.file_watcher, replaced, goes)
            &&& *after == (Editor {
                windows: after.windows,
                buffers: after.buffers,
                file_watcher: after.file_watcher,
                ..*self
            })
            &&& r == seq![ChromeView::Echo("Opened: "@ + path)] + told_of(
                "Opened "@ + path + ", but failed to watch it: "@,
                if content is Some {
                    watched.error()
                } else {
                    None
                },
            ) + told_of(
                "Replaced buffer, but failed to stop watching it: "@,
                if goes {
                    unwatch_error
                } else {
                    None
                },
            ) + seq![ChromeView::MarkDirty(DirtyRegion::FullScreen)]
        }
    }

    /// Whether a window shows the buffer.
    fn is_shown(&self, buffer_id: BufferId) -> (r: bool)
        ensures
            r == shown_in(self.windows@, buffer_id),
    {
        let ids = self.windows.keys();
        let mut i: usize = 0;
        while i < ids.len()
            invariant
                i <= ids@.len(),
                self.windows.listed_by(ids@),
                forall|k: int|
                    0 <= k < i ==> self.windows@[#[trigger] ids@[k]].active_buffer != buffer_id,
            decreases ids.len() - i,
        {
            assert(ids@.contains(ids@[i as int]));
            match self.windows.get(ids[i]) {
                Some(w) => {
                    if w.active_buffer == buffer_id {
                        return true;
                    }
                },
                None => (),
            }
            i = i + 1;
        }
        assert forall|k: WindowId| #[trigger]
            self.windows@.contains_key(k) implies self.windows@[k].active_buffer != buffer_id by {
            assert(ids@.contains(k));
            let j = choose|j: int| 0 <= j < ids@.len() && ids@[j] == k;
            assert(self.windows@[ids@[j]].active_buffer != buffer_id);
        }
        false
    }

    /// Closes the prompt, if there is one, and opens a file in a window.
    /// `content` is what it holds, if it exists, and `file_path` the path under
    /// which it is watched. `watched` is what came of the
    /// attempt to have it watched, and `unwatch_error` what went wrong when the
    /// watch on the file of a replaced buffer ended.
    pub fn open_mica_file(
        &mut self,
        path: String,
        file_path: &str,
        open_type: OpenType,
        content: Option<String>,
        watched: WatchOutcome,
        unwatch_error: Option<String>,
        now: u64,
    ) -> (r: Vec<ChromeAction>)
        requires
            old(self).can_close_prompt(),
            open_type == OpenType::Visit && !old(self).has_prompt()
                ==> old(self).windows@.contains_key(old(self).window_to_open()),
            old(self).buffers@.len() < u32::MAX - 1,
        ensures
            exists|mid: Editor, told: Seq<ChromeView>| #[trigger]
                mid.file_shown(
                    final(self),
                    path@,
                    file_path@,
                    open_type,
                    view_of(content),
                    watched,
                    view_of(unwatch_error),
                    now,
                    told,
                ) && old(self).prompt_closed(&mid) && editor::chrome_views(r@) == (
                if old(self).has_prompt() {
                    seq![ChromeView::MarkDirty(DirtyRegion::FullScreen)]
                } else {
                    Seq::<ChromeView>::empty()
                }) + told,
    {
        let mut actions: Vec<ChromeAction> = Vec::new();
        if self.close_prompt() {
            actions.push(ChromeAction::MarkDirty(DirtyRegion::FullScreen));
        }
        let ghost mid = *self;
        let ghost first = editor::chrome_views(actions@);
        proof {
            assert(first =~= if old(self).has_prompt() {
                seq![ChromeView::MarkDirty(DirtyRegion::FullScreen)]
            } else {
                Seq::<ChromeView>::empty()
            });
        }
        let more = self.show_file(path, file_path, open_type, content, watched, unwatch_error, now);
        let ghost told = editor::chrome_views(more@);
        let ghost had = actions@;
        let mut more = more;
        actions.append(&mut more);
        proof {
            assert(editor::chrome_views(actions@) =~= first + told);
            assert(mid.file_shown(
                self,
                path@,
                file_path@,
                open_type,
                view_of(content),
                watched,
                view_of(unwatch_error),
                now,
                told,
            ));
        }
        actions
    }

    fn show_file(
        &mut self,
        path: String,
        file_path: &str,
        open_type: OpenType,
        content: Option<String>,
        watched: WatchOutcome,
        unwatch_error: Option<String>,
        now: u64,
    ) -> (r: Vec<ChromeAction>)
        requires
            old(self).buffers@.len() < u32::MAX - 1,
        ensures
            old(self).file_shown(
                final(self),
                path@,
                file_path@,
                open_type,
                view_of(content),
                watched,
                view_of(unwatch_error),
                now,
                editor::chrome_views(r@),
            ),
    {
        let ghost before = *self;
        let back = match self.previous_active_window {
            Some(p) => self.windows.contains_key(p),
            None => false,
        };
        let window = if back {
            self.previous_active_window.unwrap()
        } else {
            self.active_window
        };
        let shown = match self.windows.get(window) {
            Some(w) => w.active_buffer,
            None => {
                let r = vec![
                    ChromeAction::Echo("Error opening file: Window no longer exists".to_owned()),
                ];
                assert(editor::chrome_views(r@) =~= seq![
                    ChromeView::Echo("Error opening file: Window no longer exists"@),
                ]);
                return r;
            },
        };
        let replaced = if open_type == OpenType::Visit && !self.is_command_buffer(shown) {
            Some(shown)
        } else {
            None
        };
        let buffer = editor::new_buffer(
            path.clone(),
            match &content {
                Some(t) => t.as_str(),
                None => "",
            },
            content.is_some(),
        );
        proof {
            reveal_strlit("");
            assert(""@ =~= Seq::<char>::empty());
        }
        let opened = self.buffers.insert(buffer);
        if let Some(w) = self.windows.get_mut(window) {
            w.active_buffer = opened;
            w.cursor = 0;
        }
        let mut actions: Vec<ChromeAction> = Vec::new();
        actions.push(ChromeAction::Echo(concat2("Opened: ", path.as_str())));
        let ghost first = seq![ChromeView::Echo("Opened: "@ + path@)];
        assert(editor::chrome_views(actions@) =~= first);
        let ghost watch_trouble = if content is Some {
            watched.error()
        } else {
            None
        };
        let ghost watch_prefix = "Opened "@ + path@ + ", but failed to watch it: "@;
        if let Some(t) = &content {
            match self.file_watcher.try_watch(opened, file_path, t.clone(), now, watched) {
                Some(e) => {
                    let mut message = concat2("Opened ", path.as_str());
                    message.append(", but failed to watch it: ");
                    message.append(e.as_str());
                    assert(message@ =~= watch_prefix + e@);
                    actions.push(ChromeAction::Echo(message));
                },
                None => (),
            }
        }
        let ghost fw = self.file_watcher;
        let ghost second = first + told_of(watch_prefix, watch_trouble);
        assert(editor::chrome_views(actions@) =~= second);
        assert(watch_tried(
            before.file_watcher,
            fw,
            opened,
            file_path@,
            view_of(content),
            now,
            watched,
        ));
        let goes = match replaced {
            Some(b) => !self.is_shown(b),
            None => false,
        };
        if goes {
            let b = replaced.unwrap();
            assert(self.windows@.contains_key(window));
            self.file_watcher.unwatch_file(b);
            self.buffers.remove(b);
            match &unwatch_error {
                Some(e) => {
                    actions.push(
                        ChromeAction::Echo(
                            concat2(
                                "Replaced buffer, but failed to stop watching it: ",
                                e.as_str(),
                            ),
                        ),
                    );
                },
                None => (),
            }
        }
        let ghost third = second + told_of(
            "Replaced buffer, but failed to stop watching it: "@,
            if goes {
                view_of(unwatch_error)
            } else {
                None
            },
        );
        assert(editor::chrome_views(actions@) =~= third);
        assert(watch_ended(fw, self.file_watcher, replaced, goes));
        actions.push(ChromeAction::MarkDirty(DirtyRegion::FullScreen));
        assert(editor::chrome_views(actions@) =~= third + seq![
            ChromeView::MarkDirty(DirtyRegion::FullScreen),
        ]);
        actions
    }

    // --- Watching files ---

    /// Has the file of a buffer watched.
    pub fn watch_buffer(
        &mut self,
        buffer_id: BufferId,
        file_path: &str,
        watched: WatchOutcome,
        at: ClockReading,
    )
        requires
            old(self).messages_buffer_id is None ==> old(self).buffers@.len() < u32::MAX - 1,
        ensures
            !old(self).buffers@.contains_key(buffer_id) ==> *final(self) == *old(self),
            old(self).buffers@.contains_key(buffer_id) ==> exists|u: Editor|
                #[trigger] trouble_told(
                    u,
                    *final(self),
                    "Warning: Failed to watch file: "@,
                    watched.error(),
                    at,
                ) && u == (Editor { file_watcher: u.file_watcher, ..*old(self) })
                    && old(self).file_watcher.tried(
                    &u.file_watcher,
                    buffer_id,
                    file_path@,
                    old(self).buffers@[buffer_id].text(),
                    at.millis,
                    watched,
                ),
    {
        let content = match self.buffers.get(buffer_id) {
            Some(b) => b.content(),
            None => return,
        };
        let trouble = self.file_watcher.try_watch(
            buffer_id,
            file_path,
            content,
            at.millis,
            watched,
        );
        let ghost u = *self;
        match trouble {
            Some(e) => {
                let message = concat2("Warning: Failed to watch file: ", e.as_str());
                self.set_echo_message(message, at);
            },
            None => (),
        }
        assert(trouble_told(
            u,
            *self,
            "Warning: Failed to watch file: "@,
            watched.error(),
            at,
        ));
    }

    /// Has the file of a buffer left alone. `error` is what went wrong when the
    /// watch ended.
    pub fn unwatch_buffer(&mut self, buffer_id: BufferId, error: Option<String>, at: ClockReading)
        requires
            old(self).messages_buffer_id is None ==> old(self).buffers@.len() < u32::MAX - 1,
        ensures
            exists|u: Editor| #[trigger]
                trouble_told(
                    u,
                    *final(self),
                    "Warning: Failed to stop watching file: "@,
                    view_of(error),
                    at,
                ) && u == (Editor { file_watcher: u.file_watcher, ..*old(self) })
                    && old(self).file_watcher.left_alone(&u.file_watcher, buffer_id),
    {
        self.file_watcher.unwatch_file(buffer_id);
        let ghost u = *self;
        match &error {
            Some(e) => {
                let message = concat2("Warning: Failed to stop watching file: ", e.as_str());
                self.set_echo_message(message, at);
            },
            None => (),
        }
        assert(trouble_told(
            u,
            *self,
            "Warning: Failed to stop watching file: "@,
            view_of(error),
            at,
        ));
    }

    /// Forgets all watched files. Gives what went wrong when the watches ended.
    pub fn shutdown_native_work(&mut self, errors: Vec<String>) -> (r: Vec<String>)
        ensures
            r == errors,
            !final(self).file_watcher.active,
            final(self).file_watcher.paths@.len() == 0,
            final(self).file_watcher.sync_states@ == Map::<
                u64,
                file_watcher::BufferSyncState,
            >::empty(),
            *final(self) == (Editor { file_watcher: final(self).file_watcher, ..*old(self) }),
    {
        self.file_watcher.shutdown();
        errors
    }

    /// Ignores the changes that a save of a buffer is about to make.
    pub fn mark_buffer_saving(&mut self, buffer_id: BufferId, now: u64)
        requires
            now + file_watcher::SAVE_GRACE_MILLIS <= u64::MAX,
        ensures
            old(self).file_watcher.saving_marked(&final(self).file_watcher, buffer_id, now),
            *final(self) == (Editor { file_watcher: final(self).file_watcher, ..*old(self) }),
    {
        self.file_watcher.mark_saving(buffer_id, now);
    }

    /// Notes that the file of a buffer holds what the buffer does.
    pub fn update_buffer_base(&mut self, buffer_id: BufferId, now: u64)
        ensures
            *final(self) == (Editor { file_watcher: final(self).file_watcher, ..*old(self) }),
            if old(self).buffers@.contains_key(buffer_id) {
                old(self).file_watcher.base_noted(
                    &final(self).file_watcher,
                    buffer_id,
                    old(self).buffers@[buffer_id].text(),
                    now,
                )
            } else {
                final(self).file_watcher == old(self).file_watcher
            },
    {
        match self.buffers.get(buffer_id) {
            Some(b) => {
                let content = b.content();
                self.file_watcher.update_base(buffer_id, content, now);
            },
            None => (),
        }
    }

    // --- Changes from outside ---

    /// Whether `after` is this editor after a merge of what a file holds now
    /// into a buffer, and `r` what is to be done about it.
    pub open spec fn merge_applied(
        &self,
        after: &Self,
        id: BufferId,
        on_disk: Seq<char>,
        m: MergeResult,
        now: u64,
        r: Seq<ChromeView>,
    ) -> bool {
        match m {
            MergeResult::NoChange => *after == *self && r == Seq::<ChromeView>::empty(),
            MergeResult::CleanReload(content) => self.taken_over(
                after,
                id,
                content@,
                content@,
                "Reloaded from disk"@,
                now,
                r,
            ),
            MergeResult::Merged { content, message } => self.taken_over(
                after,
                id,
                content@,
                on_disk,
                message@,
                now,
                r,
            ),
            MergeResult::MergedWithConflicts { content, conflict_count } => self.taken_over(
                after,
                id,
                content@,
                on_disk,
                "Merged with "@ + text::decimal(conflict_count as nat)
                    + " conflict(s) - see <<<<<<< markers"@,
                now,
                r,
            ),
            MergeResult::LocalPreserved { new_base, message } => {
                &&& self.file_watcher.base_noted(&after.file_watcher, id, new_base@, now)
                &&& *after == (Editor { file_watcher: after.file_watcher, ..*self })
                &&& r == seq![ChromeView::Echo(message@)]
            },
        }
    }

    /// Whether `after` is this editor with the text of a buffer replaced, what
    /// the file holds noted, and `r` what is to be done about it.
    pub open spec fn taken_over(
        &self,
        after: &Self,
        id: BufferId,
        content: Seq<char>,
        on_disk: Seq<char>,
        message: Seq<char>,
        now: u64,
        r: Seq<ChromeView>,
    ) -> bool {
        &&& text_replaced(self.buffers@[id].inner, after.buffers@[id].inner, content)
        &&& after.buffers@ == self.buffers@.insert(id, after.buffers@[id])
        &&& self.file_watcher.base_noted(&after.file_watcher, id, on_disk, now)
        &&& *after == (Editor {
            buffers: after.buffers,
            file_watcher: after.file_watcher,
            ..*self
        })
        &&& r == seq![
            ChromeView::Echo(message),
            ChromeView::MarkDirty(DirtyRegion::Buffer { buffer_id: id }),
            ChromeView::BufferChanged {
                buffer_id: id,
                start: 0,
                old_end: self.buffers@[id].text().len() as usize,
                new_end: content.len() as usize,
            },
        ]
    }

    /// Whether `after` is this editor after a change of a file was seen, and `r`
    /// what is to be done about it.
    pub open spec fn change_seen(
        &self,
        after: &Self,
        change: SeenChange,
        now: u64,
        r: Seq<ChromeView>,
    ) -> bool {
        let id = change.event.buffer_id;
        match change.content {
            Err(e) => *after == *self && r == seq![
                ChromeView::Echo(
                    "External file change unavailable for "@ + change.event.file_path@ + ": "@ + e@,
                ),
            ],
            Ok(on_disk) => if self.buffers@.contains_key(id)
                && self.file_watcher.sync_states@.contains_key(id@) {
                exists|m: MergeResult| #[trigger]
                    file_watcher::merge_outcome(
                        self.file_watcher.sync_states@[id@].base_content@,
                        self.buffers@[id].text(),
                        on_disk@,
                        m,
                    ) && file_watcher::differences_hold(
                        self.file_watcher.sync_states@[id@].base_content@,
                        self.buffers@[id].text(),
                        on_disk@,
                        m,
                    ) && self.merge_applied(after, id, on_disk@, m, now, r)
            } else {
                *after == *self && r == Seq::<ChromeView>::empty()
            },
        }
    }

    /// Takes a change of a file into its buffer.
    pub fn apply_file_change(&mut self, change: SeenChange, now: u64) -> (r: Vec<ChromeAction>)
        ensures
            old(self).change_seen(final(self), change, now, editor::chrome_views(r@)),
    {
        let ghost before = *self;
        let id = change.event.buffer_id;
        let on_disk = match &change.content {
            Ok(t) => t.clone(),
            Err(e) => {
                let mut message = concat2(
                    "External file change unavailable for ",
                    change.event.file_path.as_str(),
                );
                message.append(": ");
                message.append(e.as_str());
                let r = vec![ChromeAction::Echo(message)];
                assert(editor::chrome_views(r@) =~= seq![ChromeView::Echo(message@)]);
                return r;
            },
        };
        let local = match self.buffers.get(id) {
            Some(b) => b.content(),
            None => {
                let r: Vec<ChromeAction> = Vec::new();
                assert(editor::chrome_views(r@) =~= Seq::<ChromeView>::empty());
                return r;
            },
        };
        let base = match self.file_watcher.get_sync_state(id) {
            Some(state) => state.base_content.clone(),
            None => {
                let r: Vec<ChromeAction> = Vec::new();
                assert(editor::chrome_views(r@) =~= Seq::<ChromeView>::empty());
                return r;
            },
        };
        let m = merge_changes(base.as_str(), local.as_str(), on_disk.as_str());
        let ghost outcome = m;
        assert(file_watcher::merge_outcome(
            before.file_watcher.sync_states@[id@].base_content@,
            before.buffers@[id].text(),
            on_disk@,
            outcome,
        ));
        match m {
            MergeResult::NoChange => {
                let r: Vec<ChromeAction> = Vec::new();
                assert(editor::chrome_views(r@) =~= Seq::<ChromeView>::empty());
                r
            },
            MergeResult::CleanReload(content) => {
                let note = content.clone();
                self.take_over(id, content, note, "Reloaded from disk".to_owned(), now)
            },
            MergeResult::Merged { content, message } => self.take_over(
                id,
                content,
                on_disk,
                message,
                now,
            ),
            MergeResult::MergedWithConflicts { content, conflict_count } => {
                let mut message = concat2(
                    "Merged with ",
                    decimal_string(conflict_count as u64).as_str(),
                );
                message.append(" conflict(s) - see <<<<<<< markers");
                self.take_over(id, content, on_disk, message, now)
            },
            MergeResult::LocalPreserved { new_base, message } => {
                self.file_watcher.update_base(id, new_base, now);
                let r = vec![ChromeAction::Echo(message)];
                assert(editor::chrome_views(r@) =~= seq![ChromeView::Echo(message@)]);
                r
            },
        }
    }

    fn take_over(
        &mut self,
        id: BufferId,
        content: String,
        on_disk: String,
        message: String,
        now: u64,
    ) -> (r: Vec<ChromeAction>)
        requires
            old(self).buffers@.contains_key(id),
        ensures
            old(self).taken_over(
                final(self),
                id,
                content@,
                on_disk@,
                message@,
                now,
                editor::chrome_views(r@),
            ),
    {
        let new_end = char_count(content.as_str());
        let mut old_end: usize = 0;
        if let Some(b) = self.buffers.get_mut(id) {
            old_end = replace_text(b, content);
        }
        self.file_watcher.update_base(id, on_disk, now);
        let r = vec![
            ChromeAction::Echo(message),
            ChromeAction::MarkDirty(DirtyRegion::Buffer { buffer_id: id }),
            ChromeAction::BufferChanged { buffer_id: id, start: 0, old_end, new_end },
        ];
        assert(editor::chrome_views(r@) =~= seq![
            ChromeView::Echo(message@),
            ChromeView::MarkDirty(DirtyRegion::Buffer { buffer_id: id }),
            ChromeView::BufferChanged { buffer_id: id, start: 0, old_end, new_end },
        ]);
        r
    }

    /// Takes changes of files into their buffers, in order. `backend_error` is
    /// what went wrong with the watching itself.
    pub fn poll_file_changes(
        &mut self,
        backend_error: Option<String>,
        changes: Vec<SeenChange>,
        now: u64,
    ) -> (r: Vec<ChromeAction>)
        ensures
            exists|told: Seq<ChromeView>| #[trigger]
                changes_seen(*old(self), *final(self), changes@, now, told)
                    && editor::chrome_views(r@) == told_of(
                    "File watcher backend failed: "@,
                    view_of(backend_error),
                ) + told,
    {
        let ghost before = *self;
        let mut actions: Vec<ChromeAction> = Vec::new();
        match &backend_error {
            Some(e) => {
                actions.push(
                    ChromeAction::Echo(concat2("File watcher backend failed: ", e.as_str())),
                );
            },
            None => (),
        }
        let ghost first = told_of("File watcher backend failed: "@, view_of(backend_error));
        assert(editor::chrome_views(actions@) =~= first);
        let ghost all = changes@;
        let ghost mut states = seq![before];
        let ghost mut told = Seq::<Seq<ChromeView>>::empty();
        assert(editor::chrome_views(actions@) =~= first + told.flatten_alt());
        let mut waiting = changes;
        let mut queue: Vec<SeenChange> = Vec::new();
        reverse_into(&mut waiting, &mut queue);
        assert(all.take(0) =~= seq![]);
        loop
            invariant
                queue@.len() <= all.len(),
                queue@ == all.skip(all.len() - queue@.len()).reverse(),
                leads_through(states, told, all.take(all.len() - queue@.len()), now),
                states[0] == before,
                states.last() == *self,
                editor::chrome_views(actions@) == first + told.flatten_alt(),
            ensures
                queue@.len() == 0,
            decreases queue@.len(),
        {
            let ghost k = all.len() - queue@.len();
            match queue.pop() {
                None => {
                    break;
                },
                Some(change) => {
                    assert(change == all[k]);
                    let mut more = self.apply_file_change(change, now);
                    let ghost more_told = editor::chrome_views(more@);
                    let ghost had = actions@;
                    actions.append(&mut more);
                    proof {
                        let before_states = states;
                        let before_told = told;
                        states = states.push(*self);
                        told = told.push(more_told);
                        assert(told.drop_last() =~= before_told);
                        assert(editor::chrome_views(actions@) =~= editor::chrome_views(had)
                            + more_told);
                        assert(editor::chrome_views(actions@) =~= first + told.flatten_alt());
                        assert forall|i: int| 0 <= i < k + 1 implies (
                        #[trigger] states[i]).change_seen(
                            &states[i + 1],
                            all.take(k + 1)[i],
                            now,
                            told[i],
                        ) by {
                            if i < k {
                                assert(states[i] == before_states[i]);
                                assert(states[i + 1] == before_states[i + 1]);
                                assert(all.take(k)[i] == all.take(k + 1)[i]);
                                assert(before_told[i] == told[i]);
                            }
                        }
                        assert(queue@ =~= all.skip(k + 1).reverse());
                    }
                },
            }
        }
        assert(all.take(all.len() as int) =~= all);
        assert(changes_seen(before, *self, all, now, told.flatten_alt()));
        actions
    }
}

/// A change of a file and what the file holds now, or why it cannot be read.
#[derive(Debug)]
pub struct SeenChange {
    pub event: FileChangeEvent,
    pub content: Result<String, String>,
}

/// Whether changes of files lead through these editors, each telling what is to
/// be done.
pub open spec fn leads_through(
    states: Seq<Editor>,
    told: Seq<Seq<ChromeView>>,
    changes: Seq<SeenChange>,
    now: u64,
) -> bool {
    &&& states.len() == changes.len() + 1
    &&& told.len() == changes.len()
    &&& forall|i: int|
        0 <= i < changes.len() ==> (#[trigger] states[i]).change_seen(
            &states[i + 1],
            changes[i],
            now,
            told[i],
        )
}

/// Whether `after` is the editor `before` after changes of files were seen one
/// by one, and `r` what is to be done about them.
pub open spec fn changes_seen(
    before: Editor,
    after: Editor,
    changes: Seq<SeenChange>,
    now: u64,
    r: Seq<ChromeView>,
) -> bool {
    exists|states: Seq<Editor>, told: Seq<Seq<ChromeView>>|
        {
            &&& #[trigger] leads_through(states, told, changes, now)
            &&& states[0] == before
            &&& states.last() == after
            &&& r == told.flatten_alt()
        }
}

/// Moves all of `from` to `to`, the last one first.
fn reverse_into(from: &mut Vec<SeenChange>, to: &mut Vec<SeenChange>)
    requires
        old(to)@.len() == 0,
    ensures
        final(from)@.len() == 0,
        final(to)@ == old(from)@.reverse(),
{
    let ghost all = from@;
    loop
        invariant
            from@.len() <= all.len(),
            from@ == all.take(from@.len() as int),
            to@ == all.skip(from@.len() as int).reverse(),
        ensures
            from@.len() == 0,
        decreases from@.len(),
    {
        let ghost n = from@.len();
        match from.pop() {
            None => {
                break;
            },
            Some(change) => {
                to.push(change);
                assert(to@ =~= all.skip(n - 1).reverse());
            },
        }
    }
    assert(to@ =~= all.reverse());
}

/// The steps by which the text of a buffer is replaced: a group opens, the old
/// text goes if there is any, the new text comes, and the group closes.
pub open spec fn replaced_through(
    b0: BufferInner,
    opened: BufferInner,
    emptied: BufferInner,
    filled: BufferInner,
    b1: BufferInner,
    content: Seq<char>,
) -> bool {
    &&& buffer::group_begun(b0.undo_manager, opened.undo_manager)
    &&& b0.history_ok() ==> opened.history_ok()
    &&& opened == (BufferInner { undo_manager: opened.undo_manager, ..b0 })
    &&& if b0.text().len() > 0 {
        opened.deleted(&emptied, 0, b0.text().len() as int) && opened.same_mark(&emptied)
    } else {
        emptied == opened
    }
    &&& emptied.inserted(&filled, 0, content)
    &&& emptied.same_mark(&filled)
    &&& buffer::group_ended(filled.undo_manager, b1.undo_manager)
    &&& filled.history_ok() ==> b1.history_ok()
    &&& b1 == (BufferInner { undo_manager: b1.undo_manager, ..filled })
}

/// Whether `b1` is the buffer `b0` with its text replaced, in one group.
pub open spec fn text_replaced(b0: BufferInner, b1: BufferInner, content: Seq<char>) -> bool {
    &&& b1.text() == content
    &&& exists|opened: BufferInner, emptied: BufferInner, filled: BufferInner| #[trigger]
        replaced_through(b0, opened, emptied, filled, b1, content)
}

/// Replaces the text of a buffer, in one group. Gives how long the text was.
fn replace_text(b: &mut Buffer, content: String) -> (old_end: usize)
    ensures
        text_replaced(old(b).inner, final(b).inner, content@),
        old_end == old(b).text().len(),
{
    let ghost b0 = b.inner;
    b.begin_undo_group();
    let ghost opened = b.inner;
    let old_end = b.buffer_len_chars();
    if old_end > 0 {
        b.delete_region_range(0, old_end);
    }
    let ghost emptied = b.inner;
    assert(emptied.text() =~= Seq::<char>::empty());
    b.insert_pos(content, 0);
    let ghost filled = b.inner;
    assert(filled.text() =~= content@);
    b.end_undo_group();
    assert(replaced_through(b0, opened, emptied, filled, b.inner, content@));
    old_end
}

/// An echo of trouble, if there was any.
pub open spec fn told_of(prefix: Seq<char>, trouble: Option<Seq<char>>) -> Seq<ChromeView> {
    match trouble {
        Some(what) => seq![ChromeView::Echo(prefix + what)],
        None => seq![],
    }
}

/// Whether `after` is the watcher after an opened file was to be watched, which
/// it is where it exists.
pub open spec fn watch_tried(
    before: FileWatcher,
    after: FileWatcher,
    id: BufferId,
    path: Seq<char>,
    content: Option<Seq<char>>,
    now: u64,
    watched: WatchOutcome,
) -> bool {
    match content {
        Some(t) => before.tried(&after, id, path, t, now, watched),
        None => after == before,
    }
}

/// Whether `after` is the watcher after the file of a replaced buffer is left
/// alone, if the buffer goes.
pub open spec fn watch_ended(
    before: FileWatcher,
    after: FileWatcher,
    replaced: Option<BufferId>,
    goes: bool,
) -> bool {
    if goes {
        before.left_alone(&after, replaced->0)
    } else {
        after == before
    }
}

/// What a reload or a merge replaced is given back by one undo.
pub proof fn undo_restores_replaced(
    before: BufferInner,
    replaced: BufferInner,
    after: BufferInner,
    content: Seq<char>,
    cursor: int,
)
    requires
        before.undo_manager.group_depth == 0,
        text_replaced(before, replaced, content),
        replaced.undone(&after, cursor),
    ensures
        after.text() == before.text(),
{
    let t = before.text();
    let (opened, emptied, filled) = choose|
        opened: BufferInner,
        emptied: BufferInner,
        filled: BufferInner,
    | #[trigger] replaced_through(before, opened, emptied, filled, replaced, content);
    let run = filled.undo_manager.pending@;
    let nothing = Seq::<char>::empty();
    assert(opened.undo_manager.pending@.len() == 0);
    assert(undo::cut(content, 0, content.len() as int) =~= nothing);
    if t.len() > 0 {
        assert(run.len() == 2);
        assert(run.drop_last().len() == 1);
        assert(run.drop_last() == emptied.undo_manager.pending@);
        assert(run.drop_last().last() == emptied.undo_manager.pending@.last());
        assert(t.subrange(0, t.len() as int) =~= t);
        assert(undo::spliced(nothing, 0, t) =~= t);
        reveal_with_fuel(undo::taken_back_seq, 3);
        assert(undo::taken_back_seq(run, content) == t);
    } else {
        assert(run.len() == 1);
        assert(run[0] == run.last());
        assert(t =~= nothing);
    }
}

} // verus!
