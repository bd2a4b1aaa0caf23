//! What menus show and select, and how names are completed.

use vstd::prelude::*;
use vstd::string::*;

use crate::buffer_switch_mode;
use crate::buffer_switch_mode::{BufferSwitchMode, BufferSwitchPurpose};
use crate::command_mode;
use crate::command_mode::CommandMode;
use crate::command_registry;
use crate::ids::BufferId;
use crate::keys::{CursorDirection, KeyAction};
use crate::mode::{ModeActionView, ModeResultView};
use crate::selection_menu;
use crate::selection_menu::{MenuItem, SelectionMenu};
use crate::text;

verus! {

// --- What is left ---

/// Under a filter just the items are left that fit it.
pub proof fn items_left_are_those_that_fit<T: MenuItem>(items: Seq<T>, filter: Seq<char>, item: T)
    ensures
        selection_menu::fitting(items, filter).contains(item) <==> items.contains(item) && (
        filter.len() == 0 || item.is_left(filter)),
    decreases items.len(),
{
    if items.len() > 0 {
        let init = items.drop_last();
        let now = selection_menu::fitting(items, filter);
        let before = selection_menu::fitting(init, filter);
        items_left_are_those_that_fit(init, filter, item);
        if now.contains(item) {
            let k = choose|k: int| 0 <= k < now.len() && now[k] == item;
            if k < before.len() {
                assert(before[k] == item);
                let j = choose|j: int| 0 <= j < init.len() && init[j] == item;
                assert(items[j] == item);
            } else {
                assert(items[items.len() - 1] == item);
            }
        }
        if items.contains(item) && (filter.len() == 0 || item.is_left(filter)) {
            let j = choose|j: int| 0 <= j < items.len() && items[j] == item;
            if j < init.len() {
                assert(init[j] == item);
                let k = choose|k: int| 0 <= k < before.len() && before[k] == item;
                assert(now[k] == item);
            } else {
                assert(now[now.len() - 1] == item);
            }
        }
    }
}

/// The items that are left keep their order.
pub proof fn items_left_keep_their_order<T: MenuItem>(
    items: Seq<T>,
    filter: Seq<char>,
    i: int,
    j: int,
)
    requires
        0 <= i < j < selection_menu::fitting(items, filter).len(),
    ensures
        exists|p: int, q: int|
            #![trigger items[p], items[q]]
            0 <= p < q < items.len() && items[p] == selection_menu::fitting(items, filter)[i]
                && items[q] == selection_menu::fitting(items, filter)[j],
    decreases items.len(),
{
    let init = items.drop_last();
    let now = selection_menu::fitting(items, filter);
    let before = selection_menu::fitting(init, filter);
    if j < before.len() {
        items_left_keep_their_order(init, filter, i, j);
        let (p, q) = choose|p: int, q: int|
            #![trigger init[p], init[q]]
            0 <= p < q < init.len() && init[p] == before[i] && init[q] == before[j];
        assert(items[p] == now[i] && items[q] == now[j]);
    } else {
        items_left_are_those_that_fit(init, filter, before[i]);
        assert(before.contains(before[i]));
        let p = choose|p: int| 0 <= p < init.len() && init[p] == before[i];
        let q = items.len() - 1;
        assert(items[p] == now[i] && items[q] == now[j]);
    }
}

/// The names that complete a prefix are those that begin with it, whatever the
/// case.
pub proof fn completions_begin_with_the_prefix(
    names: Seq<Seq<char>>,
    prefix: Seq<char>,
    name: Seq<char>,
)
    ensures
        command_registry::completions(names, prefix).contains(name) <==> names.contains(name)
            && text::lowercase(prefix).is_prefix_of(text::lowercase(name)),
    decreases names.len(),
{
    if names.len() > 0 {
        let init = names.drop_last();
        let now = command_registry::completions(names, prefix);
        let before = command_registry::completions(init, prefix);
        completions_begin_with_the_prefix(init, prefix, name);
        if now.contains(name) {
            let k = choose|k: int| 0 <= k < now.len() && now[k] == name;
            if k < before.len() {
                assert(before[k] == name);
                let j = choose|j: int| 0 <= j < init.len() && init[j] == name;
                assert(names[j] == name);
            } else {
                assert(names[names.len() - 1] == name);
            }
        }
        if names.contains(name) && text::lowercase(prefix).is_prefix_of(text::lowercase(name)) {
            let j = choose|j: int| 0 <= j < names.len() && names[j] == name;
            if j < init.len() {
                assert(init[j] == name);
                let k = choose|k: int| 0 <= k < before.len() && before[k] == name;
                assert(now[k] == name);
            } else {
                assert(now[now.len() - 1] == name);
            }
        }
    }
}

// --- Where the selection goes ---

/// Down, the selection goes to the item below, and stays at the last; up, it
/// goes to the item above, and stays at the first.
pub proof fn selection_goes_from_item_to_item<T: MenuItem>(
    m: SelectionMenu<T>,
    n: SelectionMenu<T>,
)
    requires
        m.selected_index < m.shown().len(),
    ensures
        m.handled(&n, KeyAction::Cursor(CursorDirection::Down)) ==> n.shown() == m.shown()
            && n.selected_index == if m.selected_index + 1 == m.shown().len() {
            m.selected_index as int
        } else {
            m.selected_index + 1
        },
        m.handled(&n, KeyAction::Cursor(CursorDirection::Up)) ==> n.shown() == m.shown()
            && n.selected_index == if m.selected_index == 0 {
            0
        } else {
            m.selected_index - 1
        },
{
}

/// Up takes back down.
pub proof fn up_takes_back_down<T: MenuItem>(
    m: SelectionMenu<T>,
    down: SelectionMenu<T>,
    up: SelectionMenu<T>,
)
    requires
        m.selected_index + 1 < m.shown().len(),
        m.handled(&down, KeyAction::Cursor(CursorDirection::Down)),
        down.handled(&up, KeyAction::Cursor(CursorDirection::Up)),
    ensures
        up.selected_index == m.selected_index,
        up.shown() == m.shown(),
        up.input == m.input,
{
}

/// A selected item is one of those that are visible, at the place that is
/// marked.
pub proof fn selected_item_is_visible<T: MenuItem>(
    m: SelectionMenu<T>,
    n: SelectionMenu<T>,
    index: int,
)
    requires
        m.selected(&n, index),
        0 <= index < m.shown().len() <= usize::MAX,
        m.max_visible_items >= 1,
    ensures
        selection_menu::visible_selection(
            n.shown().len(),
            n.scroll_offset as nat,
            n.max_visible_items as nat,
            n.selected_index as nat,
        ) matches Some(k) && ({
            let part = selection_menu::visible_part(
                selection_menu::displays(n.shown()),
                n.scroll_offset as nat,
                n.max_visible_items as nat,
            );
            &&& k < part.len() <= m.max_visible_items
            &&& part[k as int] == m.shown()[index].display()
        }),
{
    selection_menu::centered_shows_selection(
        m.shown().len(),
        m.max_visible_items as nat,
        index as nat,
    );
}

/// Backspace takes back a typed character: the same items are left as before,
/// where those were the ones that fit.
pub proof fn backspace_takes_back_typing<T: MenuItem>(
    m: SelectionMenu<T>,
    n: SelectionMenu<T>,
    o: SelectionMenu<T>,
    c: char,
)
    requires
        m.handled(&n, KeyAction::AlphaNumeric(c)),
        n.handled(&o, KeyAction::Backspace),
        m.shown() == selection_menu::fitting(m.items(), m.input@),
    ensures
        n.input@.len() == m.input@.len() + 1,
        n.input@[m.input@.len() as int] == c,
        m.input@.is_prefix_of(n.input@),
        o.input@ == m.input@,
        o.shown() == m.shown(),
{
    assert(n.input@.drop_last() =~= m.input@);
}

// --- How a menu looks ---

/// How many characters texts have together.
pub open spec fn letters(items: Seq<Seq<char>>) -> nat
    decreases items.len(),
{
    if items.len() == 0 {
        0
    } else {
        letters(items.drop_last()) + items.last().len()
    }
}

proof fn lines_are_as_long(items: Seq<Seq<char>>, selected: Option<usize>)
    ensures
        selection_menu::menu_lines(items, selected).len() == letters(items) + 3 * items.len(),
    decreases items.len(),
{
    reveal_strlit("> ");
    reveal_strlit("  ");
    reveal_strlit("\n");
    if items.len() > 0 {
        lines_are_as_long(items.drop_last(), selected);
    }
}

/// Each item has a line of its own, with a mark, its text and a line feed. The
/// mark shows the selected item, and no other.
pub proof fn each_item_has_a_line(items: Seq<Seq<char>>, selected: Option<usize>, k: int)
    requires
        0 <= k < items.len() <= usize::MAX,
    ensures
        ({
            let all = selection_menu::menu_lines(items, selected);
            let at = letters(items.take(k)) + 3 * k;
            let n = items[k].len();
            &&& at + n + 3 <= all.len()
            &&& all[at] == (if selected == Some(k as usize) {
                '>'
            } else {
                ' '
            })
            &&& all[at + 1] == ' '
            &&& all.subrange(at + 2, at + 2 + n) == items[k]
            &&& all[at + 2 + n] == '\n'
        }),
    decreases items.len(),
{
    reveal_strlit("> ");
    reveal_strlit("  ");
    reveal_strlit("\n");
    let init = items.drop_last();
    let all = selection_menu::menu_lines(items, selected);
    let front = selection_menu::menu_lines(init, selected);
    let at = letters(items.take(k)) + 3 * k;
    let n = items[k].len();
    lines_are_as_long(init, selected);
    lines_are_as_long(items, selected);
    if k < init.len() {
        each_item_has_a_line(init, selected, k);
        assert(init.take(k) =~= items.take(k));
        assert(init[k] == items[k]);
        assert(all.subrange(at + 2, at + 2 + n) =~= front.subrange(at + 2, at + 2 + n));
    } else {
        assert(items.take(k) =~= init);
        assert(all.subrange(at + 2, at + 2 + n) =~= items[k]);
    }
}

// --- Completion ---

/// Whether two names agree in their first `n` characters, whatever the case.
pub open spec fn agree(a: Seq<char>, b: Seq<char>, n: nat) -> bool {
    &&& n <= a.len()
    &&& n <= b.len()
    &&& forall|i: int|
        0 <= i < n ==> text::char_lowercase(#[trigger] a[i]) == text::char_lowercase(b[i])
}

proof fn common_prefix_is_where_they_agree(a: Seq<char>, b: Seq<char>)
    ensures
        agree(a, b, command_mode::common_prefix(a, b)),
        !agree(a, b, command_mode::common_prefix(a, b) + 1),
    decreases a.len(),
{
    let n = command_mode::common_prefix(a, b);
    if a.len() > 0 && b.len() > 0 && text::char_lowercase(a[0]) == text::char_lowercase(b[0]) {
        let c = a.drop_first();
        let d = b.drop_first();
        common_prefix_is_where_they_agree(c, d);
        assert forall|i: int| 0 <= i < n implies text::char_lowercase(#[trigger] a[i])
            == text::char_lowercase(b[i]) by {
            if i > 0 {
                assert(c[i - 1] == a[i] && d[i - 1] == b[i]);
            }
        }
        if agree(a, b, n + 1) {
            assert forall|i: int| 0 <= i < n implies text::char_lowercase(#[trigger] c[i])
                == text::char_lowercase(d[i]) by {
                assert(a[i + 1] == c[i]);
            }
            assert(agree(c, d, n));
        }
    } else if agree(a, b, 1) {
        assert(text::char_lowercase(a[0]) == text::char_lowercase(b[0]));
    }
}

/// What a name has in common with others is what it has in common with each of
/// them, and it is no more than with some.
pub proof fn common_part_is_common_to_all(first: Seq<char>, others: Seq<Seq<char>>, k: int)
    requires
        0 <= k < others.len(),
    ensures
        agree(first, others[k], command_mode::common_with_all(first, others)),
        command_mode::common_with_all(first, others) <= first.len(),
        command_mode::common_with_all(first, others) < first.len() ==> exists|j: int|
            0 <= j < others.len() && !agree(
                first,
                #[trigger] others[j],
                command_mode::common_with_all(first, others) + 1,
            ),
    decreases others.len(),
{
    let init = others.drop_last();
    let n = command_mode::common_with_all(first, init);
    let all = command_mode::common_with_all(first, others);
    let last = others.len() - 1;
    common_prefix_is_where_they_agree(first, others[last]);
    if init.len() > 0 {
        let i = if k < init.len() {
            k
        } else {
            0
        };
        common_part_is_common_to_all(first, init, i);
        if n < first.len() {
            let j = choose|j: int| 0 <= j < init.len() && !agree(first, #[trigger] init[j], n + 1);
            assert(others[j] == init[j]);
        }
        assert(init[i] == others[i]);
    }
    if all < n {
        assert(!agree(first, others[last], all + 1));
    }
}

/// A completed input is the longest start that all names have, and it is not
/// shorter than what was typed.
pub proof fn completion_is_what_all_names_share(m: CommandMode, n: CommandMode, k: int)
    requires
        m.typed(&n, KeyAction::Tab),
        n.input@ != m.input@,
        0 <= k < m.matches@.len(),
    ensures
        m.matches@.len() > 1,
        agree(n.input@, m.matches@[k]@, n.input@.len()),
        text::utf8_len(n.input@) > text::utf8_len(m.input@),
        n.input@.is_prefix_of(m.matches@[0]@),
        n.input@.len() < m.matches@[0]@.len() ==> exists|j: int|
            0 < j < m.matches@.len() && !agree(
                m.matches@[0]@,
                #[trigger] m.matches@[j]@,
                n.input@.len() + 1,
            ),
{
    let names = text::views(m.matches@);
    let others = names.drop_first();
    assert(names.len() == m.matches@.len());
    assert(names[0] == m.matches@[0]@);
    common_part_is_common_to_all(
        names[0],
        others,
        if k > 0 {
            k - 1
        } else {
            0
        },
    );
    let all = command_mode::common_with_all(names[0], others);
    assert(n.input@ == names[0].take(all as int));
    if k > 0 {
        assert(others[k - 1] == m.matches@[k]@);
    }
    if all < names[0].len() {
        let j = choose|j: int| 0 <= j < others.len() && !agree(names[0], #[trigger] others[j], all + 1);
        assert(others[j] == m.matches@[j + 1]@);
    }
}

/// The selected command is the one that is run.
pub proof fn selected_command_is_run(m: CommandMode, n: CommandMode, r: ModeResultView, k: usize)
    requires
        m.typed(&n, KeyAction::Enter),
        r == m.result(&n, KeyAction::Enter),
        m.selected_index == k,
        k < m.matches@.len(),
    ensures
        r == ModeResultView::Consumed(seq![ModeActionView::ExecuteCommand(m.matches@[k as int]@)]),
        n == m,
{
}

/// Up takes back down among the commands, too.
pub proof fn up_takes_back_down_among_commands(m: CommandMode, down: CommandMode, up: CommandMode)
    requires
        m.selected_index + 1 < m.matches@.len(),
        m.typed(&down, KeyAction::Cursor(CursorDirection::Down)),
        down.typed(&up, KeyAction::Cursor(CursorDirection::Up)),
    ensures
        down.selected_index == m.selected_index + 1,
        up.selected_index == m.selected_index,
        up.matches == m.matches,
        up.input == m.input,
{
    assert(m.matches.len() == m.matches@.len());
}

/// What is typed at the prompt is at its end, and the names left are those that
/// begin with all of it.
pub proof fn typing_narrows_the_commands(
    m: CommandMode,
    n: CommandMode,
    o: CommandMode,
    c: char,
    name: Seq<char>,
)
    requires
        m.typed(&n, KeyAction::AlphaNumeric(c)),
        n.typed(&o, KeyAction::Backspace),
    ensures
        n.input@.len() == m.input@.len() + 1,
        n.input@[m.input@.len() as int] == c,
        o.input@ == m.input@,
        text::views(n.matches@).contains(name) <==> text::views(m.all_commands@).contains(name)
            && text::lowercase(n.input@).is_prefix_of(text::lowercase(name)),
        n.selected_index == 0,
{
    assert(n.input@.drop_last() =~= m.input@);
    completions_begin_with_the_prefix(text::views(m.all_commands@), n.input@, name);
}

// --- Choosing a buffer ---

/// A prompt to switch shows the chosen buffer, and one to kill kills it. The
/// chosen one is the selected one of those that are left.
pub proof fn chosen_buffer_is_shown_or_killed(
    m: BufferSwitchMode,
    n: BufferSwitchMode,
    r: ModeResultView,
    k: usize,
)
    requires
        r == m.result(&n, KeyAction::Enter),
        m.menu.selected_index == k,
        k < m.menu.shown().len(),
    ensures
        m.purpose == BufferSwitchPurpose::Switch <==> r == ModeResultView::Consumed(
            seq![ModeActionView::SwitchToBuffer(m.menu.shown()[k as int].buffer_id)],
        ),
        m.purpose == BufferSwitchPurpose::Kill <==> r == ModeResultView::Consumed(
            seq![ModeActionView::KillBuffer(m.menu.shown()[k as int].buffer_id)],
        ),
{
    let id = m.menu.shown()[k as int].buffer_id;
    let switch = seq![ModeActionView::SwitchToBuffer(id)];
    let kill = seq![ModeActionView::KillBuffer(id)];
    assert(switch[0] != kill[0]);
    assert(switch != kill);
}

/// The current buffer is the one that is selected first, where it is in the
/// list.
pub proof fn current_buffer_is_preselected(list: Seq<(BufferId, String)>, id: BufferId, k: int)
    requires
        0 <= k < list.len(),
        list[k].0 == id,
    ensures
        0 <= buffer_switch_mode::first_of(list, id) <= k,
        list[buffer_switch_mode::first_of(list, id)].0 == id,
        forall|j: int|
            0 <= j < buffer_switch_mode::first_of(list, id) ==> (#[trigger] list[j]).0 != id,
    decreases list.len(),
{
    let init = list.drop_last();
    if k < init.len() {
        assert(init[k] == list[k]);
        current_buffer_is_preselected(init, id, k);
        place_is_in_range(init, id, k);
        let p = buffer_switch_mode::first_of(init, id);
        assert(init[p] == list[p]);
        assert forall|j: int| 0 <= j < p implies (#[trigger] list[j]).0 != id by {
            assert(init[j] == list[j]);
        }
    } else if buffer_switch_mode::place_in(init, id) is Some {
        let p = buffer_switch_mode::place_in(init, id)->0;
        place_holds(init, id);
        assert(init[p] == list[p]);
        current_buffer_is_preselected(init, id, p);
        assert forall|j: int| 0 <= j < p implies (#[trigger] list[j]).0 != id by {
            assert(init[j] == list[j]);
        }
    } else {
        assert forall|j: int| 0 <= j < k implies (#[trigger] list[j]).0 != id by {
            if list[j].0 == id {
                assert(init[j] == list[j]);
                place_is_in_range(init, id, j);
            }
        }
    }
}

proof fn place_is_in_range(list: Seq<(BufferId, String)>, id: BufferId, k: int)
    requires
        0 <= k < list.len(),
        list[k].0 == id,
    ensures
        buffer_switch_mode::place_in(list, id) is Some,
    decreases list.len(),
{
    let init = list.drop_last();
    if k < init.len() {
        assert(init[k] == list[k]);
        place_is_in_range(init, id, k);
    }
}

proof fn place_holds(list: Seq<(BufferId, String)>, id: BufferId)
    requires
        buffer_switch_mode::place_in(list, id) is Some,
    ensures
        0 <= buffer_switch_mode::place_in(list, id)->0 < list.len(),
        list[buffer_switch_mode::place_in(list, id)->0].0 == id,
    decreases list.len(),
{
    let init = list.drop_last();
    if list.len() > 0 && buffer_switch_mode::place_in(init, id) is Some {
        place_holds(init, id);
    }
}

/// The marked place among the commands that are shown is that of the selected
/// one. No place is marked where the selected one is out of sight.
pub proof fn marked_command_is_the_selected(m: CommandMode)
    requires
        m.selected_index < m.matches@.len() <= usize::MAX,
    ensures
        ({
            let part = selection_menu::visible_part(
                text::views(m.matches@),
                m.completion_scroll_offset as nat,
                m.max_visible_completions as nat,
            );
            let name = m.matches@[m.selected_index as int]@;
            &&& m.visible_place() matches Some(k) ==> k < part.len() && part[k as int] == name
            &&& m.visible_place() is None ==> m.selected_index < m.completion_scroll_offset
                || m.selected_index >= m.completion_scroll_offset + part.len()
        }),
{
}

} // verus!
