//! The prompt in which a buffer is chosen.

use vstd::prelude::*;
use vstd::string::*;

use crate::ids::BufferId;
use crate::keys::KeyAction;
use crate::mode;
use crate::mode::{consume_one, ActionPosition, Mode, ModeAction, ModeActionView, ModeResult, ModeResultView};
use crate::selection_menu;
use crate::selection_menu::{holds_filter, MenuItem, SelectionMenu, DEFAULT_VISIBLE_ITEMS};

verus! {

/// What is done with the chosen buffer.
#[derive(Debug, Clone, Copy, PartialEq, Eq, Structural)]
pub enum BufferSwitchPurpose {
    /// It is shown.
    Switch,
    /// It is killed.
    Kill,
}

/// A buffer in the menu.
#[derive(Debug, Clone)]
pub struct BufferItem {
    pub buffer_id: BufferId,
    pub name: String,
}

impl MenuItem for BufferItem {
    open spec fn display(&self) -> Seq<char> {
        self.name@
    }

    open spec fn is_left(&self, filter: Seq<char>) -> bool {
        selection_menu::fits(self.name@, filter)
    }

    fn display_text(&self) -> (r: String) {
        self.name.clone()
    }

    fn matches_filter(&self, filter: &str) -> (r: bool) {
        holds_filter(self.name.as_str(), filter)
    }
}

/// The state of the prompt.
pub struct BufferSwitchMode {
    pub menu: SelectionMenu<BufferItem>,
    /// The buffer in which the menu is shown.
    pub buffer_id: Option<BufferId>,
    pub purpose: BufferSwitchPurpose,
}

/// The menu items for a list of buffers with their names.
pub open spec fn items_for(list: Seq<(BufferId, String)>) -> Seq<BufferItem> {
    list.map_values(|e: (BufferId, String)| BufferItem { buffer_id: e.0, name: e.1 })
}

fn to_items(list: Vec<(BufferId, String)>) -> (r: Vec<BufferItem>)
    ensures
        r@ == items_for(list@),
{
    let ghost all = items_for(list@);
    let mut r: Vec<BufferItem> = Vec::new();
    let mut i: usize = 0;
    assert(r@ =~= all.take(0));
    while i < list.len()
        invariant
            i <= list@.len(),
            all == items_for(list@),
            r@ == all.take(i as int),
        decreases list.len() - i,
    {
        let item = BufferItem { buffer_id: list[i].0, name: list[i].1.clone() };
        r.push(item);
        assert(all.take(i + 1) =~= all.take(i as int).push(all[i as int]));
        i = i + 1;
    }
    assert(all.take(i as int) =~= all);
    r
}

impl BufferSwitchMode {
    /// A prompt to show a buffer.
    pub fn new() -> (r: Self)
        ensures
            r.purpose == BufferSwitchPurpose::Switch,
            r.is_blank(),
    {
        Self::new_with_purpose(BufferSwitchPurpose::Switch)
    }

    /// Whether the prompt has no buffers.
    pub open spec fn is_blank(&self) -> bool {
        &&& self.buffer_id is None
        &&& self.menu.items() == Seq::<BufferItem>::empty()
        &&& self.menu.shown() == Seq::<BufferItem>::empty()
        &&& self.menu.input@ == Seq::<char>::empty()
        &&& self.menu.selected_index == 0
        &&& self.menu.scroll_offset == 0
        &&& self.menu.max_visible_items == DEFAULT_VISIBLE_ITEMS
    }

    /// A prompt for a purpose.
    pub fn new_with_purpose(purpose: BufferSwitchPurpose) -> (r: Self)
        ensures
            r.purpose == purpose,
            r.is_blank(),
    {
        BufferSwitchMode {
            menu: SelectionMenu::new(DEFAULT_VISIBLE_ITEMS),
            buffer_id: None,
            purpose,
        }
    }

    /// Whether `after` is this prompt with buffers to choose from.
    pub open spec fn filled(
        &self,
        after: &Self,
        buffer_id: BufferId,
        list: Seq<(BufferId, String)>,
    ) -> bool {
        &&& after.buffer_id == Some(buffer_id)
        &&& after.purpose == self.purpose
        &&& after.menu.items() == items_for(list)
        &&& after.menu.shown() == items_for(list)
        &&& after.menu.input@ == Seq::<char>::empty()
        &&& after.menu.max_visible_items == self.menu.max_visible_items
    }

    /// Takes over a buffer and the buffers to choose from.
    pub fn init_with_buffer(&mut self, buffer_id: BufferId, buffer_list: Vec<(BufferId, String)>)
        ensures
            old(self).filled(final(self), buffer_id, buffer_list@),
            final(self).menu.at_first(),
    {
        self.buffer_id = Some(buffer_id);
        let items = to_items(buffer_list);
        self.menu.init_with_items(items);
    }

    /// Takes over a buffer and the buffers to choose from, with one of them
    /// selected.
    pub fn init_with_buffer_and_preselect(
        &mut self,
        buffer_id: BufferId,
        buffer_list: Vec<(BufferId, String)>,
        current_buffer_id: BufferId,
    )
        ensures
            old(self).filled(final(self), buffer_id, buffer_list@),
            final(self).menu.selected_index == first_of(buffer_list@, current_buffer_id),
            final(self).menu.scroll_offset == selection_menu::centered(
                buffer_list@.len(),
                old(self).menu.max_visible_items as nat,
                0,
            ),
    {
        self.buffer_id = Some(buffer_id);
        let ghost list = buffer_list@;
        let items = to_items(buffer_list);
        self.menu.init_with_items(items);
        let mut found: Option<usize> = None;
        let shown = self.menu.get_filtered_items();
        let mut i: usize = 0;
        while i < shown.len() && found.is_none()
            invariant
                i <= shown@.len() == list.len(),
                forall|k: int|
                    0 <= k < shown@.len() ==> (#[trigger] shown@[k]).buffer_id == list[k].0,
                match found {
                    None => forall|k: int| 0 <= k < i ==> (#[trigger] list[k]).0 != current_buffer_id,
                    Some(p) => {
                        &&& p < list.len()
                        &&& list[p as int].0 == current_buffer_id
                        &&& forall|k: int| 0 <= k < p ==> (#[trigger] list[k]).0 != current_buffer_id
                    },
                },
            decreases shown.len() - i,
        {
            if shown[i].buffer_id == current_buffer_id {
                found = Some(i);
            }
            i = i + 1;
        }
        proof {
            match found {
                Some(p) => {
                    first_of_is(list, current_buffer_id, p as int);
                },
                None => {
                    first_of_none(list, current_buffer_id);
                },
            }
        }
        if let Some(p) = found {
            self.menu.selected_index = p;
        }
    }

    /// What the prompt looks like.
    pub fn generate_buffer_content(&self) -> (r: String)
        ensures
            r@ == self.menu.content(None),
    {
        self.menu.generate_buffer_content(None)
    }

    /// The selected buffer.
    pub open spec fn choice(&self) -> Option<BufferId> {
        if self.menu.selected_index < self.menu.shown().len() {
            Some(self.menu.shown()[self.menu.selected_index as int].buffer_id)
        } else {
            None
        }
    }

    /// The selected buffer.
    pub fn get_selected_buffer(&self) -> (r: Option<BufferId>)
        ensures
            r == self.choice(),
    {
        match self.menu.get_selected_item() {
            Some(item) => Some(item.buffer_id),
            None => None,
        }
    }

    /// What a key comes to, where `after` is the prompt after it.
    pub open spec fn result(&self, after: &Self, action: KeyAction) -> ModeResultView {
        if self.menu.handles(action) {
            ModeResultView::Consumed(
                seq![
                    ModeActionView::ClearText,
                    ModeActionView::InsertText(
                        ActionPosition::Absolute(0, 0),
                        after.menu.content(None),
                    ),
                ],
            )
        } else if action is Enter {
            match self.choice() {
                Some(id) => mode::one(
                    if self.purpose == BufferSwitchPurpose::Switch {
                        ModeActionView::SwitchToBuffer(id)
                    } else {
                        ModeActionView::KillBuffer(id)
                    },
                ),
                None => ModeResultView::Ignored,
            }
        } else {
            ModeResultView::Ignored
        }
    }
}

/// The first place of a buffer in a list, or 0 where it is not in it.
pub open spec fn first_of(list: Seq<(BufferId, String)>, id: BufferId) -> int {
    match place_in(list, id) {
        Some(p) => p,
        None => 0,
    }
}

/// The first place of a buffer in a list.
pub open spec fn place_in(list: Seq<(BufferId, String)>, id: BufferId) -> Option<int>
    decreases list.len(),
{
    if list.len() == 0 {
        None
    } else {
        match place_in(list.drop_last(), id) {
            Some(p) => Some(p),
            None => if list.last().0 == id {
                Some(list.len() - 1)
            } else {
                None
            },
        }
    }
}

proof fn first_of_none(list: Seq<(BufferId, String)>, id: BufferId)
    requires
        forall|k: int| 0 <= k < list.len() ==> (#[trigger] list[k]).0 != id,
    ensures
        place_in(list, id) is None,
    decreases list.len(),
{
    if list.len() > 0 {
        assert forall|k: int| 0 <= k < list.drop_last().len() implies (
        #[trigger] list.drop_last()[k]).0 != id by {
            assert(list[k].0 != id);
        }
        assert(list[list.len() - 1].0 != id);
        first_of_none(list.drop_last(), id);
    }
}

proof fn first_of_is(list: Seq<(BufferId, String)>, id: BufferId, p: int)
    requires
        0 <= p < list.len(),
        list[p].0 == id,
        forall|k: int| 0 <= k < p ==> (#[trigger] list[k]).0 != id,
    ensures
        place_in(list, id) == Some(p),
    decreases list.len(),
{
    let head = list.drop_last();
    assert forall|k: int| 0 <= k < p && k < head.len() implies (#[trigger] head[k]).0 != id by {
        assert(list[k].0 != id);
    }
    if p < list.len() - 1 {
        first_of_is(head, id, p);
    } else {
        first_of_none(head, id);
    }
}

impl Default for BufferSwitchMode {
    fn default() -> (r: Self)
        ensures
            r.purpose == BufferSwitchPurpose::Switch,
            r.is_blank(),
    {
        Self::new()
    }
}

impl Mode for BufferSwitchMode {
    fn name(&self) -> (r: &str)
        ensures
            r@ == "buffer-switch"@,
    {
        "buffer-switch"
    }

    fn perform(&mut self, action: &KeyAction) -> (r: ModeResult)
        ensures
            old(self).menu.handled(&final(self).menu, *action),
            final(self).buffer_id == old(self).buffer_id,
            final(self).purpose == old(self).purpose,
            r@ == old(self).result(final(self), *action),
    {
        if self.menu.handle_key_action(action) {
            let actions = self.menu.generate_update_actions(None);
            assert(mode::action_views(actions@) == seq![
                ModeActionView::ClearText,
                ModeActionView::InsertText(
                    ActionPosition::Absolute(0, 0),
                    self.menu.content(None),
                ),
            ]);
            return ModeResult::Consumed(actions);
        }
        match action {
            KeyAction::Enter => match self.get_selected_buffer() {
                Some(id) => consume_one(
                    match self.purpose {
                        BufferSwitchPurpose::Switch => ModeAction::SwitchToBuffer(id),
                        BufferSwitchPurpose::Kill => ModeAction::KillBuffer(id),
                    },
                ),
                None => ModeResult::Ignored,
            },
            _ => ModeResult::Ignored,
        }
    }
}

} // verus!
