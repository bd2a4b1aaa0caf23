//! Menus from which an item is chosen by typing a part of its text.

use vstd::prelude::*;
use vstd::string::*;

use crate::keys::{CursorDirection, KeyAction};
use crate::mode;
use crate::mode::{ActionPosition, ModeAction, ModeActionView};
use crate::text;
use crate::text::{str_contains, to_lowercase, without_last};

verus! {

/// How many items a menu shows unless told otherwise.
pub const DEFAULT_VISIBLE_ITEMS: usize = 8;

/// Whether an item with this text is left when a menu is filtered: it holds the
/// filter, whatever the case of the letters.
pub open spec fn fits(display: Seq<char>, filter: Seq<char>) -> bool {
    text::holds(text::lowercase(display), text::lowercase(filter))
}

/// Whether a text holds a filter, whatever the case of the letters.
pub fn holds_filter(display: &str, filter: &str) -> (r: bool)
    ensures
        r == fits(display@, filter@),
{
    let a = to_lowercase(display);
    let b = to_lowercase(filter);
    str_contains(a.as_str(), b.as_str())
}

/// An item of a menu.
pub trait MenuItem: Clone {
    /// The text of the item.
    spec fn display(&self) -> Seq<char>;

    /// Whether the item is left under a filter.
    spec fn is_left(&self, filter: Seq<char>) -> bool;

    fn display_text(&self) -> (r: String)
        ensures
            r@ == self.display(),
    ;

    /// Whether the item is left under a filter. Most items are where their text
    /// holds it, as `holds_filter` says.
    fn matches_filter(&self, filter: &str) -> (r: bool)
        ensures
            r == self.is_left(filter@),
    ;
}

/// Where the visible part of a list starts so that the selection is in its
/// middle, as far as the ends of the list allow.
pub open spec fn centered(total: nat, visible: nat, selected: nat) -> nat {
    let half = visible / 2;
    if total <= visible {
        0
    } else if selected < half {
        0
    } else if selected >= total - half {
        (total - visible) as nat
    } else {
        (selected - half) as nat
    }
}

/// Where the visible part of a list starts.
pub(crate) fn center(total: usize, visible: usize, selected: usize) -> (r: usize)
    ensures
        r == centered(total as nat, visible as nat, selected as nat),
{
    let half = visible / 2;
    if total <= visible {
        0
    } else if selected < half {
        0
    } else if selected >= total - half {
        total - visible
    } else {
        selected - half
    }
}

/// A selection is visible where the list is centered on it.
pub proof fn centered_shows_selection(total: nat, visible: nat, selected: nat)
    requires
        selected < total,
        visible >= 1,
    ensures
        centered(total, visible, selected) <= selected < centered(total, visible, selected)
            + visible,
        total > visible ==> centered(total, visible, selected) + visible <= total,
{
}

/// The visible part of a list that starts at `offset`.
pub open spec fn visible_part(
    items: Seq<Seq<char>>,
    offset: nat,
    visible: nat,
) -> Seq<Seq<char>> {
    let start = if offset <= items.len() {
        offset as int
    } else {
        items.len() as int
    };
    let end = if start + visible <= items.len() {
        start + visible
    } else {
        items.len() as int
    };
    items.subrange(start, end)
}

/// The place of the selection in the visible part, if it is in it.
pub open spec fn visible_selection(
    total: nat,
    offset: nat,
    visible: nat,
    selected: nat,
) -> Option<usize> {
    if total > 0 && offset <= selected < offset + visible {
        Some((selected - offset) as usize)
    } else {
        None
    }
}

/// The lines of a menu: an item each, the selected one marked.
pub open spec fn menu_lines(items: Seq<Seq<char>>, selected: Option<usize>) -> Seq<char>
    decreases items.len(),
{
    if items.len() == 0 {
        seq![]
    } else {
        let mark = if selected == Some((items.len() - 1) as usize) {
            "> "@
        } else {
            "  "@
        };
        menu_lines(items.drop_last(), selected) + mark + items.last() + "\n"@
    }
}

/// Appends the lines of a menu.
pub(crate) fn push_menu_lines(content: &mut String, items: &Vec<String>, selected: Option<usize>)
    ensures
        final(content)@ == old(content)@ + menu_lines(text::views(items@), selected),
{
    let ghost before = content@;
    let ghost all = text::views(items@);
    let mut i: usize = 0;
    assert(all.take(0) =~= seq![]);
    assert(before + menu_lines(all.take(0), selected) =~= before);
    while i < items.len()
        invariant
            i <= items@.len(),
            all == text::views(items@),
            content@ == before + menu_lines(all.take(i as int), selected),
        decreases items.len() - i,
    {
        let is_selected = match selected {
            Some(s) => s == i,
            None => false,
        };
        let ghost mid = content@;
        proof {
            assert(all.take(i + 1).drop_last() =~= all.take(i as int));
            assert(all.take(i + 1).last() == items@[i as int]@);
        }
        if is_selected {
            content.append("> ");
        } else {
            content.append("  ");
        }
        content.append(items[i].as_str());
        content.append("\n");
        assert(content@ =~= before + menu_lines(all.take(i + 1), selected));
        i = i + 1;
    }
    assert(all.take(i as int) =~= all);
}

/// The visible part of a list, as strings of its own.
pub(crate) fn copy_visible(items: &Vec<String>, offset: usize, visible: usize) -> (r: Vec<String>)
    ensures
        text::views(r@) == visible_part(text::views(items@), offset as nat, visible as nat),
{
    let total = items.len();
    let start: usize = if offset <= total {
        offset
    } else {
        total
    };
    let end: usize = if visible <= total - start {
        start + visible
    } else {
        total
    };
    let ghost part = visible_part(text::views(items@), offset as nat, visible as nat);
    let mut r: Vec<String> = Vec::new();
    let mut i: usize = start;
    assert(text::views(r@) =~= part.take(0));
    while i < end
        invariant
            start <= i <= end <= total == items@.len(),
            part == text::views(items@).subrange(start as int, end as int),
            text::views(r@) == part.take(i - start),
        decreases end - i,
    {
        let ghost before = r@;
        r.push(items[i].clone());
        assert(text::views(r@) =~= text::views(before).push(items@[i as int]@));
        assert(part.take(i + 1 - start) =~= part.take(i - start).push(part[i - start]));
        i = i + 1;
    }
    assert(part.take(end - start) =~= part);
    r
}

/// A menu: items, a filter, and a selection among the items that are left.
pub struct SelectionMenu<T: MenuItem> {
    /// What has been typed to filter the items.
    pub input: String,
    pub all_items: Vec<T>,
    /// The places of the items that are left.
    pub left: Vec<usize>,
    /// The place of the selected item among those that are left.
    pub selected_index: usize,
    /// How many items are shown at once.
    pub max_visible_items: usize,
    /// The place of the first item that is shown.
    pub scroll_offset: usize,
}

/// The items at the given places.
pub open spec fn items_at<T>(items: Seq<T>, places: Seq<usize>) -> Seq<T>
    decreases places.len(),
{
    if places.len() == 0 {
        seq![]
    } else if places.last() < items.len() {
        items_at(items, places.drop_last()).push(items[places.last() as int])
    } else {
        items_at(items, places.drop_last())
    }
}

/// The items that are left under a filter, in order.
pub open spec fn fitting<T: MenuItem>(items: Seq<T>, filter: Seq<char>) -> Seq<T>
    decreases items.len(),
{
    if items.len() == 0 {
        seq![]
    } else if filter.len() == 0 || items.last().is_left(filter) {
        fitting(items.drop_last(), filter).push(items.last())
    } else {
        fitting(items.drop_last(), filter)
    }
}

/// The texts of items.
pub open spec fn displays<T: MenuItem>(items: Seq<T>) -> Seq<Seq<char>> {
    items.map_values(|item: T| item.display())
}

/// Under an empty filter all items are left.
pub proof fn empty_filter_leaves_all<T: MenuItem>(items: Seq<T>)
    ensures
        fitting(items, Seq::<char>::empty()) == items,
    decreases items.len(),
{
    if items.len() > 0 {
        empty_filter_leaves_all(items.drop_last());
        assert(items =~= items.drop_last().push(items.last()));
    } else {
        assert(items =~= seq![]);
    }
}

impl<T: MenuItem> SelectionMenu<T> {
    /// All items.
    pub open spec fn items(&self) -> Seq<T> {
        self.all_items@
    }

    /// The items that are left under the filter.
    pub open spec fn shown(&self) -> Seq<T> {
        items_at(self.all_items@, self.left@)
    }

    /// Whether the first item that is left is selected and the list starts
    /// where that is visible.
    pub open spec fn at_first(&self) -> bool {
        &&& self.selected_index == 0
        &&& self.scroll_offset == centered(self.shown().len(), self.max_visible_items as nat, 0)
    }

    /// Whether the menu is as it was but for selection and scrolling, with the
    /// list centered on the selection.
    pub open spec fn selected(&self, after: &Self, index: int) -> bool {
        &&& after.items() == self.items()
        &&& after.shown() == self.shown()
        &&& after.input == self.input
        &&& after.max_visible_items == self.max_visible_items
        &&& after.selected_index == index
        &&& after.scroll_offset == centered(
            self.shown().len(),
            self.max_visible_items as nat,
            index as nat,
        )
    }

    /// Whether the menu has the item below selected, and the first one after the
    /// last. Without items it is as it was.
    pub open spec fn cycled(&self, after: &Self) -> bool {
        let total = self.shown().len() as int;
        if total > 0 {
            self.selected(after, (self.selected_index + 1) % total)
        } else {
            *after == *self
        }
    }

    /// Whether the menu has a filter, and the items that it leaves.
    pub open spec fn filtered(&self, after: &Self, filter: Seq<char>) -> bool {
        &&& after.items() == self.items()
        &&& after.input@ == filter
        &&& after.max_visible_items == self.max_visible_items
        &&& after.shown() == fitting(self.items(), filter)
        &&& after.at_first()
    }

    /// A menu without items.
    pub fn new(max_visible_items: usize) -> (r: Self)
        ensures
            r.items() == Seq::<T>::empty(),
            r.shown() == Seq::<T>::empty(),
            r.input@ == Seq::<char>::empty(),
            r.selected_index == 0,
            r.scroll_offset == 0,
            r.max_visible_items == max_visible_items,
    {
        let r = SelectionMenu {
            input: String::new(),
            all_items: Vec::new(),
            left: Vec::new(),
            selected_index: 0,
            max_visible_items,
            scroll_offset: 0,
        };
        assert(r.items() =~= Seq::<T>::empty());
        r
    }

    /// Takes over items, all of which are left.
    pub fn init_with_items(&mut self, items: Vec<T>)
        ensures
            final(self).items() == items@,
            final(self).shown() == items@,
            final(self).input@ == Seq::<char>::empty(),
            final(self).max_visible_items == old(self).max_visible_items,
            final(self).at_first(),
    {
        self.input = String::new();
        self.all_items = items;
        self.update_filtered_items();
        proof {
            assert(self.input@ =~= Seq::<char>::empty());
            empty_filter_leaves_all(items@);
        }
    }

    /// Adds a character to the filter.
    pub fn add_filter_char(&mut self, c: char)
        ensures
            old(self).filtered(final(self), old(self).input@.push(c)),
    {
        self.input.push(c);
        self.update_filtered_items();
    }

    /// Takes the last character from the filter. Says whether there was one.
    pub fn remove_filter_char(&mut self) -> (r: bool)
        ensures
            r == (old(self).input@.len() > 0),
            r ==> old(self).filtered(final(self), old(self).input@.drop_last()),
            !r ==> *final(self) == *old(self),
    {
        if self.input.as_str().is_empty() {
            return false;
        }
        self.input = without_last(self.input.as_str());
        self.update_filtered_items();
        true
    }

    /// Selects the item above. Says whether there is one.
    pub fn move_selection_up(&mut self) -> (r: bool)
        ensures
            r == (old(self).shown().len() > 0 && old(self).selected_index > 0),
            r ==> old(self).selected(final(self), old(self).selected_index - 1),
            !r ==> *final(self) == *old(self),
    {
        if self.len() > 0 && self.selected_index > 0 {
            self.selected_index = self.selected_index - 1;
            self.update_scroll_to_center();
            true
        } else {
            false
        }
    }

    /// Selects the item below. Says whether there is one.
    pub fn move_selection_down(&mut self) -> (r: bool)
        ensures
            r == (old(self).selected_index + 1 < old(self).shown().len()),
            r ==> old(self).selected(final(self), old(self).selected_index + 1),
            !r ==> *final(self) == *old(self),
    {
        let total = self.len();
        if total > 0 && self.selected_index < total - 1 {
            self.selected_index = self.selected_index + 1;
            self.update_scroll_to_center();
            true
        } else {
            false
        }
    }

    /// Selects the item below, and the first one after the last. Says whether
    /// there are any.
    pub fn cycle_selection(&mut self) -> (r: bool)
        requires
            old(self).shown().len() > 0 ==> old(self).selected_index < usize::MAX,
        ensures
            r == (old(self).shown().len() > 0),
            old(self).cycled(final(self)),
    {
        let total = self.len();
        if total > 0 {
            self.selected_index = (self.selected_index + 1) % total;
            self.update_scroll_to_center();
            true
        } else {
            false
        }
    }

    /// The selected item.
    pub fn get_selected_item(&self) -> (r: Option<&T>)
        ensures
            match r {
                Some(item) => self.selected_index < self.shown().len() && *item
                    == self.shown()[self.selected_index as int],
                None => self.selected_index >= self.shown().len(),
            },
    {
        let shown = self.get_filtered_items();
        if self.selected_index < shown.len() {
            Some(shown[self.selected_index])
        } else {
            None
        }
    }

    /// The items that are left.
    pub fn get_filtered_items(&self) -> (r: Vec<&T>)
        ensures
            r@.len() == self.shown().len(),
            forall|i: int| 0 <= i < r@.len() ==> *(#[trigger] r@[i]) == self.shown()[i],
    {
        let mut r: Vec<&T> = Vec::new();
        let mut i: usize = 0;
        assert(self.left@.take(0) =~= seq![]);
        while i < self.left.len()
            invariant
                i <= self.left@.len(),
                r@.len() == items_at(self.all_items@, self.left@.take(i as int)).len(),
                forall|k: int|
                    0 <= k < r@.len() ==> *(#[trigger] r@[k]) == items_at(
                        self.all_items@,
                        self.left@.take(i as int),
                    )[k],
            decreases self.left.len() - i,
        {
            assert(self.left@.take(i + 1).drop_last() =~= self.left@.take(i as int));
            assert(self.left@.take(i + 1).last() == self.left@[i as int]);
            if self.left[i] < self.all_items.len() {
                r.push(&self.all_items[self.left[i]]);
            }
            i = i + 1;
        }
        assert(self.left@.take(i as int) =~= self.left@);
        r
    }

    pub fn is_empty(&self) -> (r: bool)
        ensures
            r == (self.shown().len() == 0),
    {
        self.len() == 0
    }

    /// How many items are left.
    pub fn len(&self) -> (r: usize)
        ensures
            r == self.shown().len(),
    {
        self.get_filtered_items().len()
    }

    /// What the menu looks like.
    pub open spec fn content(&self, header: Option<Seq<char>>) -> Seq<char> {
        (match header {
            Some(h) => h + "\n"@,
            None => seq![],
        }) + (if self.input@.len() > 0 {
            self.input@ + "\n"@
        } else {
            seq![]
        }) + menu_lines(
            visible_part(
                displays(self.shown()),
                self.scroll_offset as nat,
                self.max_visible_items as nat,
            ),
            visible_selection(
                self.shown().len(),
                self.scroll_offset as nat,
                self.max_visible_items as nat,
                self.selected_index as nat,
            ),
        )
    }

    /// What the menu looks like: a header, the filter, and the visible items.
    pub fn generate_buffer_content(&self, header: Option<&str>) -> (r: String)
        ensures
            r@ == self.content(
                match header {
                    Some(h) => Some(h@),
                    None => None,
                },
            ),
    {
        let mut content = String::new();
        let ghost head: Seq<char> = match header {
            Some(h) => h@ + "\n"@,
            None => seq![],
        };
        if let Some(h) = header {
            content.append(h);
            content.append("\n");
        }
        assert(content@ =~= head);
        let ghost typed: Seq<char> = if self.input@.len() > 0 {
            self.input@ + "\n"@
        } else {
            seq![]
        };
        if !self.input.as_str().is_empty() {
            content.append(self.input.as_str());
            content.append("\n");
        }
        assert(content@ =~= head + typed);
        let texts = self.texts();
        let visible = copy_visible(&texts, self.scroll_offset, self.max_visible_items);
        let selected = self.visible_selection_index();
        push_menu_lines(&mut content, &visible, selected);
        content
    }

    /// The texts of the items that are left.
    fn texts(&self) -> (r: Vec<String>)
        ensures
            text::views(r@) == displays(self.shown()),
    {
        let items = self.get_filtered_items();
        let ghost all = displays(self.shown());
        let mut r: Vec<String> = Vec::new();
        let mut i: usize = 0;
        assert(text::views(r@) =~= all.take(0));
        while i < items.len()
            invariant
                i <= items@.len() == self.shown().len(),
                all == displays(self.shown()),
                forall|k: int| 0 <= k < items@.len() ==> *(#[trigger] items@[k]) == self.shown()[k],
                text::views(r@) == all.take(i as int),
            decreases items.len() - i,
        {
            let ghost before = r@;
            let s = items[i].display_text();
            assert(s@ == all[i as int]);
            r.push(s);
            assert(text::views(r@) =~= text::views(before).push(all[i as int]));
            assert(all.take(i + 1) =~= all.take(i as int).push(all[i as int]));
            i = i + 1;
        }
        assert(all.take(i as int) =~= all);
        r
    }

    /// Whether the menu has to do with a key.
    pub open spec fn handles(&self, action: KeyAction) -> bool {
        match action {
            KeyAction::AlphaNumeric(_) => true,
            KeyAction::Backspace => self.input@.len() > 0,
            KeyAction::Cursor(CursorDirection::Up) => true,
            KeyAction::Cursor(CursorDirection::Down) => true,
            KeyAction::Tab => true,
            _ => false,
        }
    }

    /// Whether `after` is this menu after a key.
    pub open spec fn handled(&self, after: &Self, action: KeyAction) -> bool {
        let total = self.shown().len() as int;
        match action {
            KeyAction::AlphaNumeric(c) => self.filtered(after, self.input@.push(c)),
            KeyAction::Backspace => if self.input@.len() > 0 {
                self.filtered(after, self.input@.drop_last())
            } else {
                *after == *self
            },
            KeyAction::Cursor(CursorDirection::Up) => if total > 0 && self.selected_index > 0 {
                self.selected(after, self.selected_index - 1)
            } else {
                *after == *self
            },
            KeyAction::Cursor(CursorDirection::Down) => if self.selected_index + 1 < total {
                self.selected(after, self.selected_index + 1)
            } else {
                *after == *self
            },
            KeyAction::Tab => if total > 0 && self.selected_index < usize::MAX {
                self.selected(after, (self.selected_index + 1) % total)
            } else {
                *after == *self
            },
            _ => *after == *self,
        }
    }

    /// Does what a key does in every menu. Says whether the menu has to do with
    /// it.
    pub fn handle_key_action(&mut self, action: &KeyAction) -> (r: bool)
        ensures
            r == old(self).handles(*action),
            old(self).handled(final(self), *action),
    {
        match action {
            KeyAction::AlphaNumeric(c) => {
                self.add_filter_char(*c);
                true
            },
            KeyAction::Backspace => self.remove_filter_char(),
            KeyAction::Cursor(direction) => match direction {
                CursorDirection::Up => {
                    self.move_selection_up();
                    true
                },
                CursorDirection::Down => {
                    self.move_selection_down();
                    true
                },
                _ => false,
            },
            KeyAction::Tab => {
                if self.selected_index < usize::MAX {
                    self.cycle_selection();
                }
                true
            },
            _ => false,
        }
    }

    /// The actions that show the menu in its buffer.
    pub fn generate_update_actions(&self, header: Option<&str>) -> (r: Vec<ModeAction>)
        ensures
            mode::action_views(r@) == seq![
                ModeActionView::ClearText,
                ModeActionView::InsertText(
                    ActionPosition::Absolute(0, 0),
                    self.content(
                        match header {
                            Some(h) => Some(h@),
                            None => None,
                        },
                    ),
                ),
            ],
    {
        let content = self.generate_buffer_content(header);
        let r = vec![
            ModeAction::ClearText,
            ModeAction::InsertText(ActionPosition::start(), content),
        ];
        assert(mode::action_views(r@) =~= seq![
            ModeActionView::ClearText,
            ModeActionView::InsertText(ActionPosition::Absolute(0, 0), content@),
        ]);
        r
    }

    /// Finds the items that are left and selects the first one.
    fn update_filtered_items(&mut self)
        ensures
            final(self).all_items == old(self).all_items,
            final(self).input == old(self).input,
            final(self).max_visible_items == old(self).max_visible_items,
            final(self).shown() == fitting(old(self).all_items@, old(self).input@),
            final(self).at_first(),
    {
        let mut left: Vec<usize> = Vec::new();
        let mut i: usize = 0;
        let ghost items = self.all_items@;
        assert(items.take(0) =~= seq![]);
        let total = self.all_items.len();
        while i < total
            invariant
                i <= total == self.all_items@.len(),
                items == self.all_items@,
                *self == *old(self),
                items_at(items, left@) == fitting(items.take(i as int), self.input@),
            decreases total - i,
        {
            proof {
                assert(items.take(i + 1).drop_last() =~= items.take(i as int));
                assert(items.take(i + 1).last() == items[i as int]);
            }
            if self.input.as_str().is_empty() || self.all_items[i].matches_filter(
                self.input.as_str(),
            ) {
                let ghost before = left@;
                left.push(i);
                assert(left@.drop_last() =~= before);
            }
            i = i + 1;
        }
        assert(items.take(i as int) =~= items);
        self.left = left;
        self.selected_index = 0;
        self.scroll_offset = 0;
        self.update_scroll_to_center();
    }

    /// Centers the list on the selection.
    fn update_scroll_to_center(&mut self)
        ensures
            *final(self) == (SelectionMenu {
                scroll_offset: centered(
                    old(self).shown().len(),
                    old(self).max_visible_items as nat,
                    old(self).selected_index as nat,
                ) as usize,
                ..*old(self)
            }),
            final(self).scroll_offset == centered(
                old(self).shown().len(),
                old(self).max_visible_items as nat,
                old(self).selected_index as nat,
            ),
    {
        let total = self.len();
        self.scroll_offset = center(total, self.max_visible_items, self.selected_index);
    }

    /// The place of the selection among the visible items.
    fn visible_selection_index(&self) -> (r: Option<usize>)
        ensures
            r == visible_selection(
                self.shown().len(),
                self.scroll_offset as nat,
                self.max_visible_items as nat,
                self.selected_index as nat,
            ),
    {
        if self.is_empty() {
            return None;
        }
        if self.selected_index >= self.scroll_offset && self.selected_index - self.scroll_offset
            < self.max_visible_items {
            Some(self.selected_index - self.scroll_offset)
        } else {
            None
        }
    }
}

impl<T: MenuItem> Default for SelectionMenu<T> {
    fn default() -> (r: Self)
        ensures
            r.items() == Seq::<T>::empty(),
            r.shown() == Seq::<T>::empty(),
            r.input@ == Seq::<char>::empty(),
            r.selected_index == 0,
            r.scroll_offset == 0,
            r.max_visible_items == DEFAULT_VISIBLE_ITEMS,
    {
        Self::new(DEFAULT_VISIBLE_ITEMS)
    }
}

proof fn cycles_count<T: MenuItem>(menus: Seq<SelectionMenu<T>>, k: int)
    requires
        0 <= k < menus.len(),
        0 < menus[0].shown().len(),
        menus[0].selected_index < menus[0].shown().len(),
        k <= menus[0].shown().len(),
        forall|i: int| 0 <= i < menus.len() - 1 ==> (#[trigger] menus[i]).cycled(&menus[i + 1]),
    ensures
        menus[k].items() == menus[0].items(),
        menus[k].shown() == menus[0].shown(),
        menus[k].input == menus[0].input,
        menus[k].selected_index == if menus[0].selected_index + k < menus[0].shown().len() {
            menus[0].selected_index + k
        } else {
            menus[0].selected_index + k - menus[0].shown().len()
        },
    decreases k,
{
    if k > 0 {
        cycles_count(menus, k - 1);
        assert(menus[k - 1].cycled(&menus[k - 1 + 1]));
        let total = menus[0].shown().len() as int;
        let next = menus[k - 1].selected_index + 1;
        if next < total {
            vstd::arithmetic::div_mod::lemma_small_mod(next as nat, total as nat);
        } else {
            assert(next == total);
            vstd::arithmetic::div_mod::lemma_mod_self_0(total);
        }
    }
}

/// Cycling leads back: after as many cycles as there are items the same item is
/// selected, and the items and the filter are as they were all the while.
pub proof fn cycling_leads_back<T: MenuItem>(menus: Seq<SelectionMenu<T>>)
    requires
        menus.len() > 0,
        menus.len() == menus[0].shown().len() + 1,
        menus[0].shown().len() > 0 ==> menus[0].selected_index < menus[0].shown().len(),
        forall|i: int| 0 <= i < menus.len() - 1 ==> (#[trigger] menus[i]).cycled(&menus[i + 1]),
    ensures
        menus.last().selected_index == menus[0].selected_index,
        forall|i: int|
            0 <= i < menus.len() ==> (#[trigger] menus[i]).items() == menus[0].items()
                && menus[i].shown() == menus[0].shown() && menus[i].input == menus[0].input,
{
    let total = menus[0].shown().len() as int;
    if total > 0 {
        assert forall|i: int| 0 <= i < menus.len() implies (#[trigger] menus[i]).items()
            == menus[0].items() && menus[i].shown() == menus[0].shown() && menus[i].input
            == menus[0].input by {
            cycles_count(menus, i);
        }
        cycles_count(menus, total);
    }
}

} // verus!
