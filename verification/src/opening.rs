//! Where a file opens, and which buffer goes for it.

use vstd::prelude::*;

use crate::editor;
use crate::editor::{Editor, OpenType};
use crate::ids::{BufferId, WindowId};
use crate::visiting;
use crate::window::Window;

verus! {

/// Where a file opens, and which buffer goes.
#[derive(Debug, Clone, Copy, PartialEq, Eq, Structural)]
pub struct OpenPlan {
    /// The window in which the file opens, if it is there.
    pub window: Option<WindowId>,
    pub leaving: Option<BufferId>,
}

/// The windows without the prompt.
pub open spec fn without_prompt(
    windows: Map<WindowId, Window>,
    prompt: Option<WindowId>,
) -> Map<WindowId, Window> {
    match prompt {
        Some(id) => windows.remove(id),
        None => windows,
    }
}

impl Editor {
    /// The buffer that goes when a file is opened: one that the file replaces and
    /// that no other window shows.
    pub open spec fn buffer_leaving(&self, open_type: OpenType) -> Option<BufferId> {
        let w = self.window_to_open();
        match self.buffer_to_replace(open_type) {
            Some(b) if !visiting::shown_in(self.windows@.remove(w), b) => Some(b),
            _ => None,
        }
    }

    /// Whether `plan` says where a file opens in this editor, which has no
    /// prompt, and which buffer goes.
    pub open spec fn planned(&self, open_type: OpenType, plan: OpenPlan) -> bool {
        if self.windows@.contains_key(self.window_to_open()) {
            &&& plan.window == Some(self.window_to_open())
            &&& plan.leaving == self.buffer_leaving(open_type)
        } else {
            plan.window is None && plan.leaving is None
        }
    }

    /// Where a file opens once the prompt is closed, and which buffer goes. This
    /// comes before the file is watched and the watch on another ends.
    pub fn plan_open(&self, open_type: OpenType) -> (plan: OpenPlan)
        ensures
            forall|mid: Editor| #[trigger] self.prompt_closed(&mid) ==> mid.planned(
                open_type,
                plan,
            ),
    {
        let prompt = self.find_command_window();
        let back = match self.previous_active_window {
            Some(p) => self.windows.contains_key(p) && Some(p) != prompt,
            None => false,
        };
        let window = if back {
            self.previous_active_window.unwrap()
        } else if prompt.is_none() {
            self.active_window
        } else {
            match self.find_window(Some(false)) {
                Some(id) => id,
                None => self.active_window,
            }
        };
        let shown = match self.windows.get(window) {
            Some(w) if Some(window) != prompt => w.active_buffer,
            _ => {
                let plan = OpenPlan { window: None, leaving: None };
                proof {
                    assert forall|mid: Editor| #[trigger] self.prompt_closed(&mid) implies mid.planned(
                        open_type,
                        plan,
                    ) by {
                        same_place(*self, mid, prompt, window);
                    }
                }
                return plan;
            },
        };
        let mut goes = open_type == OpenType::Visit;
        let ids = self.windows.keys();
        let ghost rest = without_prompt(self.windows@, prompt);
        let mut i: usize = 0;
        while i < ids.len()
            invariant
                i <= ids@.len(),
                self.windows.listed_by(ids@),
                rest == without_prompt(self.windows@, prompt),
                goes <==> open_type == OpenType::Visit && forall|k: int|
                    0 <= k < i && rest.contains_key(#[trigger] ids@[k]) ==> !keeps(
                        rest,
                        ids@[k],
                        window,
                        shown,
                    ),
            decreases ids.len() - i,
        {
            assert(ids@.contains(ids@[i as int]));
            if Some(ids[i]) != prompt {
                match self.windows.get(ids[i]) {
                    Some(w) => {
                        let same = ids[i] == window;
                        if (same && w.is_command_window()) || (!same && w.active_buffer == shown) {
                            assert(keeps(rest, ids@[i as int], window, shown));
                            goes = false;
                        }
                    },
                    None => (),
                }
            }
            i = i + 1;
        }
        let plan = OpenPlan {
            window: Some(window),
            leaving: if goes {
                Some(shown)
            } else {
                None
            },
        };
        proof {
            assert forall|k: WindowId| #[trigger] rest.contains_key(k) implies ids@.contains(k) by {
                assert(self.windows@.contains_key(k));
            }
            if goes {
                assert forall|k: WindowId| #[trigger] rest.contains_key(k) implies !keeps(
                    rest,
                    k,
                    window,
                    shown,
                ) by {
                    assert(ids@.contains(k));
                    let j = choose|j: int| 0 <= j < ids@.len() && ids@[j] == k;
                    assert(!keeps(rest, ids@[j], window, shown));
                }
            }
            assert forall|mid: Editor| #[trigger] self.prompt_closed(&mid) implies mid.planned(
                open_type,
                plan,
            ) by {
                same_place(*self, mid, prompt, window);
                plan_is_right(mid, rest, window, shown, open_type, plan);
            }
        }
        plan
    }
}

/// Whether a window keeps a buffer from being replaced by a file in the window
/// `window`: another one that shows it, or that window if it is for commands.
spec fn keeps(
    windows: Map<WindowId, Window>,
    id: WindowId,
    window: WindowId,
    shown: BufferId,
) -> bool {
    if id == window {
        windows[id].is_command()
    } else {
        windows[id].active_buffer == shown
    }
}

proof fn one_first_slot(
    windows: Map<WindowId, Window>,
    command: Option<bool>,
    a: Option<WindowId>,
    b: Option<WindowId>,
)
    requires
        editor::first_slot(windows, command, a),
        editor::first_slot(windows, command, b),
    ensures
        a == b,
{
    match (a, b) {
        (Some(x), Some(y)) => {
            assert(windows.contains_key(x));
            assert(windows.contains_key(y));
        },
        (Some(x), None) => {
            assert(windows.contains_key(x));
        },
        (None, Some(y)) => {
            assert(windows.contains_key(y));
        },
        (None, None) => {},
    }
}

/// Where a file opens once the prompt is closed.
proof fn same_place(before: Editor, mid: Editor, prompt: Option<WindowId>, window: WindowId)
    requires
        before.prompt_closed(&mid),
        editor::first_slot(before.windows@, Some(true), prompt),
        ({
            let back = before.previous_active_window matches Some(p) && before.windows@.contains_key(
                p,
            ) && Some(p) != prompt;
            if back {
                Some(window) == before.previous_active_window
            } else if prompt is None {
                window == before.active_window
            } else {
                editor::first_slot(before.windows@, Some(false), Some(window)) || (
                editor::first_slot(before.windows@, Some(false), None) && window
                    == before.active_window)
            }
        }),
    ensures
        ({
            let rest = without_prompt(before.windows@, prompt);
            &&& mid.window_to_open() == window
            &&& mid.windows@.dom() == rest.dom()
            &&& forall|k: WindowId| #[trigger]
                rest.contains_key(k) ==> mid.windows@[k].active_buffer == rest[k].active_buffer
                    && mid.windows@[k].window_type == rest[k].window_type
        }),
{
    let found = choose|found: Option<WindowId>| #[trigger]
        editor::first_slot(before.windows@, Some(true), found) && match found {
            None => mid == before,
            Some(id) => before.command_closed(&mid, id),
        };
    one_first_slot(before.windows@, Some(true), prompt, found);
    match prompt {
        None => {},
        Some(id) => {
            let rest = before.windows@.remove(id);
            editor::layout_keeps_windows(
                before.window_tree,
                rest,
                0,
                editor::command_rows(rest, true) as u16,
                before.frame.available_columns,
                editor::rows_left(before.frame.available_lines, rest),
            );
            let back = before.previous_active_window matches Some(p) && rest.contains_key(p);
            if !back {
                assert(before.windows@[id].is_command());
                assert forall|found: Option<WindowId>| #[trigger]
                    editor::first_slot(rest, Some(false), found) implies editor::first_slot(
                    before.windows@,
                    Some(false),
                    found,
                ) by {
                    assert forall|k: WindowId| #[trigger]
                        before.windows@.contains_key(k) && editor::wanted(
                            before.windows@[k],
                            Some(false),
                        ) implies rest.contains_key(k) by {}
                }
                if editor::first_slot(rest, Some(false), Some(mid.active_window)) {
                    if editor::first_slot(before.windows@, Some(false), Some(window)) {
                        one_first_slot(
                            before.windows@,
                            Some(false),
                            Some(window),
                            Some(mid.active_window),
                        );
                    } else {
                        one_first_slot(
                            before.windows@,
                            Some(false),
                            None,
                            Some(mid.active_window),
                        );
                    }
                } else {
                    if editor::first_slot(before.windows@, Some(false), Some(window)) {
                        one_first_slot(before.windows@, Some(false), Some(window), None);
                    }
                }
            }
        },
    }
}

proof fn plan_is_right(
    mid: Editor,
    rest: Map<WindowId, Window>,
    window: WindowId,
    shown: BufferId,
    open_type: OpenType,
    plan: OpenPlan,
)
    requires
        mid.window_to_open() == window,
        rest.contains_key(window),
        rest[window].active_buffer == shown,
        mid.windows@.dom() == rest.dom(),
        forall|k: WindowId| #[trigger]
            rest.contains_key(k) ==> mid.windows@[k].active_buffer == rest[k].active_buffer
                && mid.windows@[k].window_type == rest[k].window_type,
        plan.window == Some(window),
        plan.leaving == if open_type == OpenType::Visit && forall|k: WindowId| #[trigger]
            rest.contains_key(k) ==> !keeps(rest, k, window, shown) {
            Some(shown)
        } else {
            None
        },
    ensures
        mid.planned(open_type, plan),
{
    assert(mid.windows@.contains_key(window));
    let others = mid.windows@.remove(window);
    if open_type == OpenType::Visit {
        if plan.leaving is Some {
            assert(!mid.in_command_window(shown)) by {
                if mid.in_command_window(shown) {
                    let k = choose|k: WindowId| #[trigger]
                        mid.windows@.contains_key(k) && mid.windows@[k].active_buffer == shown
                            && mid.windows@[k].is_command();
                    assert(rest.contains_key(k));
                    assert(keeps(rest, k, window, shown));
                }
            }
            assert(!visiting::shown_in(others, shown)) by {
                if visiting::shown_in(others, shown) {
                    let k = choose|k: WindowId| #[trigger]
                        others.contains_key(k) && others[k].active_buffer == shown;
                    assert(rest.contains_key(k));
                    assert(keeps(rest, k, window, shown));
                }
            }
        } else {
            let k = choose|k: WindowId| #[trigger]
                rest.contains_key(k) && keeps(rest, k, window, shown);
            assert(mid.windows@.contains_key(k));
            if k != window {
                assert(others.contains_key(k));
                assert(visiting::shown_in(others, shown));
            } else {
                assert(mid.in_command_window(shown));
            }
        }
    }
}

} // verus!
