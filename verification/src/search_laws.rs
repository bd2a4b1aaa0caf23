//! What a search finds, and where it goes.

use vstd::prelude::*;

use crate::isearch_mode;
use crate::isearch_mode::{IsearchMode, SearchDirection};
use crate::keys::{CursorDirection, KeyAction};
use crate::mode::{ModeActionView, ModeResultView};
use crate::text;

verus! {

/// Whether the lower case of each character is one character.
pub open spec fn keeps_its_length(s: Seq<char>) -> bool {
    forall|i: int| 0 <= i < s.len() ==> (#[trigger] text::char_lowercase(s[i])).len() == 1
}

/// The place, from byte to byte, of the `n` characters at `at`.
pub open spec fn place_at(content: Seq<char>, at: int, n: int) -> (usize, usize) {
    (
        text::utf8_len(content.take(at)) as usize,
        text::utf8_len(content.take(at + n)) as usize,
    )
}

/// Whether a term stands at a character of a text, whatever the case.
pub open spec fn stands_at(content: Seq<char>, term: Seq<char>, at: int) -> bool {
    text::found_at(text::lowercase(content), text::lowercase(term), at)
}

// --- What is found ---

proof fn lowered_is_as_long(s: Seq<char>)
    requires
        keeps_its_length(s),
    ensures
        isearch_mode::lowered_len(s) == s.len(),
    decreases s.len(),
{
    if s.len() > 0 {
        let init = s.drop_last();
        assert forall|i: int| 0 <= i < init.len() implies (#[trigger] text::char_lowercase(
            init[i],
        )).len() == 1 by {
            assert(init[i] == s[i]);
        }
        lowered_is_as_long(init);
        assert(text::char_lowercase(s[s.len() - 1]).len() == 1);
    }
}

proof fn before_is_itself(s: Seq<char>, k: int, at: int)
    requires
        keeps_its_length(s),
        0 <= k <= at <= s.len(),
    ensures
        isearch_mode::chars_before(s, k, at) == at,
    decreases s.len() - k,
{
    if k < s.len() {
        part_keeps_its_length(s, k + 1);
        lowered_is_as_long(s.take(k + 1));
        if k < at {
            before_is_itself(s, k + 1, at);
        }
    }
}

proof fn reaching_is_itself(s: Seq<char>, k: int, at: int)
    requires
        keeps_its_length(s),
        0 <= k <= at <= s.len(),
    ensures
        isearch_mode::chars_reaching(s, k, at) == at,
    decreases s.len() - k,
{
    part_keeps_its_length(s, k);
    lowered_is_as_long(s.take(k));
    if k < at {
        reaching_is_itself(s, k + 1, at);
    }
}

proof fn part_keeps_its_length(s: Seq<char>, k: int)
    requires
        keeps_its_length(s),
        0 <= k <= s.len(),
    ensures
        keeps_its_length(s.take(k)),
{
    assert forall|i: int| 0 <= i < s.take(k).len() implies (#[trigger] text::char_lowercase(
        s.take(k)[i],
    )).len() == 1 by {
        assert(s.take(k)[i] == s[i]);
    }
}

/// Wherever the term stands, the place is found.
pub proof fn every_place_is_found(content: Seq<char>, term: Seq<char>, at: int)
    requires
        keeps_its_length(content),
        text::lowercase(content).len() == content.len(),
        term.len() > 0,
        text::lowercase(term).len() > 0,
        stands_at(content, term, at),
    ensures
        isearch_mode::places_of(content, term).contains(
            place_at(content, at, text::lowercase(term).len() as int),
        ),
{
    found_upto(content, text::lowercase(term), text::lowercase(content).len() as int, at);
}

proof fn found_upto(content: Seq<char>, part: Seq<char>, upto: int, at: int)
    requires
        keeps_its_length(content),
        text::lowercase(content).len() == content.len(),
        0 <= at < upto,
        text::found_at(text::lowercase(content), part, at),
    ensures
        isearch_mode::places_upto(content, part, upto).contains(
            place_at(content, at, part.len() as int),
        ),
    decreases upto,
{
    let places = isearch_mode::places_upto(content, part, upto);
    let before = isearch_mode::places_upto(content, part, upto - 1);
    if at == upto - 1 {
        before_is_itself(content, 0, at);
        reaching_is_itself(content, at, at + part.len());
        assert(places[places.len() - 1] == place_at(content, at, part.len() as int));
    } else {
        found_upto(content, part, upto - 1, at);
        let k = choose|k: int|
            0 <= k < before.len() && before[k] == place_at(content, at, part.len() as int);
        assert(places[k] == before[k]);
    }
}

/// Whatever is found is a place where the term stands.
pub proof fn found_places_hold_the_term(content: Seq<char>, term: Seq<char>, k: int) -> (at: int)
    requires
        keeps_its_length(content),
        text::lowercase(content).len() == content.len(),
        0 <= k < isearch_mode::places_of(content, term).len(),
    ensures
        stands_at(content, term, at),
        isearch_mode::places_of(content, term)[k] == place_at(
            content,
            at,
            text::lowercase(term).len() as int,
        ),
{
    holds_upto(content, text::lowercase(term), text::lowercase(content).len() as int, k)
}

proof fn holds_upto(content: Seq<char>, part: Seq<char>, upto: int, k: int) -> (at: int)
    requires
        keeps_its_length(content),
        text::lowercase(content).len() == content.len(),
        0 <= k < isearch_mode::places_upto(content, part, upto).len(),
    ensures
        0 <= at < upto,
        text::found_at(text::lowercase(content), part, at),
        isearch_mode::places_upto(content, part, upto)[k] == place_at(
            content,
            at,
            part.len() as int,
        ),
    decreases upto,
{
    let before = isearch_mode::places_upto(content, part, upto - 1);
    if k < before.len() {
        holds_upto(content, part, upto - 1, k)
    } else {
        before_is_itself(content, 0, upto - 1);
        reaching_is_itself(content, upto - 1, upto - 1 + part.len());
        upto - 1
    }
}

/// The places are found in the order in which they stand.
pub proof fn places_are_in_order(content: Seq<char>, term: Seq<char>, i: int, j: int)
    requires
        keeps_its_length(content),
        text::lowercase(content).len() == content.len(),
        text::utf8_len(content) <= usize::MAX,
        0 <= i < j < isearch_mode::places_of(content, term).len(),
    ensures
        isearch_mode::places_of(content, term)[i].0 < isearch_mode::places_of(content, term)[j].0,
{
    let part = text::lowercase(term);
    ordered_upto(content, part, text::lowercase(content).len() as int, i, j);
}

proof fn ordered_upto(content: Seq<char>, part: Seq<char>, upto: int, i: int, j: int)
    requires
        keeps_its_length(content),
        text::lowercase(content).len() == content.len(),
        text::utf8_len(content) <= usize::MAX,
        upto <= content.len(),
        0 <= i < j < isearch_mode::places_upto(content, part, upto).len(),
    ensures
        isearch_mode::places_upto(content, part, upto)[i].0 < isearch_mode::places_upto(
            content,
            part,
            upto,
        )[j].0,
    decreases upto,
{
    let before = isearch_mode::places_upto(content, part, upto - 1);
    if j < before.len() {
        ordered_upto(content, part, upto - 1, i, j);
    } else {
        let at = holds_upto(content, part, upto - 1, i);
        before_is_itself(content, 0, upto - 1);
        bytes_grow(content, at, upto - 1);
        bytes_grow(content, upto - 1, content.len() as int);
        assert(content.take(content.len() as int) =~= content);
    }
}

proof fn bytes_grow(s: Seq<char>, i: int, j: int)
    requires
        0 <= i <= j <= s.len(),
    ensures
        text::utf8_len(s.take(i)) + (j - i) <= text::utf8_len(s.take(j)),
    decreases j,
{
    if i < j {
        bytes_grow(s, i, j - 1);
        assert(s.take(j).drop_last() =~= s.take(j - 1));
    }
}

// --- Where a search goes ---

/// A key leaves alone what is searched and where the search began.
pub proof fn search_keeps_its_origin(
    m: IsearchMode,
    n: IsearchMode,
    action: KeyAction,
    r: ModeResultView,
)
    requires
        m.performed(&n, action, r),
    ensures
        n.origin() == m.origin(),
        n.buffer() == m.buffer(),
        n.window() == m.window(),
        n.searched_text() == m.searched_text(),
{
}

/// A search that goes on goes to the place behind, and from the last one to the
/// first; back, it goes to the place in front, and from the first one to the
/// last.
pub proof fn search_goes_from_place_to_place(
    m: IsearchMode,
    n: IsearchMode,
    r: ModeResultView,
    i: usize,
)
    requires
        m.current() == Some(i),
        i < m.found().len() <= usize::MAX,
    ensures
        m.performed(&n, KeyAction::Cursor(CursorDirection::Down), r) ==> n.found() == m.found()
            && n.current() == Some(
            if i + 1 < m.found().len() {
                (i + 1) as usize
            } else {
                0
            },
        ),
        m.performed(&n, KeyAction::Cursor(CursorDirection::Up), r) ==> n.found() == m.found()
            && n.current() == Some(
            if i > 0 {
                (i - 1) as usize
            } else {
                (m.found().len() - 1) as usize
            },
        ),
{
    let total = m.found().len() as int;
    if i + 1 < total {
        vstd::arithmetic::div_mod::lemma_small_mod((i + 1) as nat, total as nat);
    } else {
        vstd::arithmetic::div_mod::lemma_mod_self_0(total);
    }
}

/// Going on and going back take each other back.
pub proof fn going_back_takes_back_going_on(
    m: IsearchMode,
    on: IsearchMode,
    back: IsearchMode,
    r1: ModeResultView,
    r2: ModeResultView,
    i: usize,
    backward_first: bool,
)
    requires
        m.current() == Some(i),
        i < m.found().len() <= usize::MAX,
        m.performed(
            &on,
            KeyAction::Cursor(
                if backward_first {
                    CursorDirection::Up
                } else {
                    CursorDirection::Down
                },
            ),
            r1,
        ),
        on.performed(
            &back,
            KeyAction::Cursor(
                if backward_first {
                    CursorDirection::Down
                } else {
                    CursorDirection::Up
                },
            ),
            r2,
        ),
    ensures
        back.current() == m.current(),
        back.found() == m.found(),
        back.term() == m.term(),
{
    search_goes_from_place_to_place(m, on, r1, i);
    search_goes_from_place_to_place(on, back, r2, on.current()->0);
}

/// A typed character goes to the end of the term, and the next backspace takes
/// it away. The search then finds what it would have found without either.
pub proof fn backspace_takes_back_a_typed_character(
    m: IsearchMode,
    n: IsearchMode,
    o: IsearchMode,
    c: char,
    r1: ModeResultView,
    r2: ModeResultView,
)
    requires
        m.performed(&n, KeyAction::AlphaNumeric(c), r1),
        n.performed(&o, KeyAction::Backspace, r2),
    ensures
        n.term().len() == m.term().len() + 1,
        n.term()[m.term().len() as int] == c,
        m.term().is_prefix_of(n.term()),
        o.term() == m.term(),
        m.found_all() ==> o.found() == m.found(),
        o.heading() == m.heading(),
{
    assert(n.term().drop_last() =~= m.term());
}

/// A forward search is at the first place that does not lie in front of where it
/// began, a backward one at the last that does, as far as there are any.
pub proof fn search_begins_where_it_was_started(
    m: IsearchMode,
    n: IsearchMode,
    c: char,
    r: ModeResultView,
    j: int,
)
    requires
        m.performed(&n, KeyAction::AlphaNumeric(c), r),
        0 <= j < n.found().len(),
    ensures
        n.current() matches Some(k) && k < n.found().len() && {
            let from = isearch_mode::byte_of(m.searched_text(), m.origin() as int);
            let at = n.found()[k as int].0;
            let there = n.found()[j].0;
            &&& m.heading() == SearchDirection::Forward && there >= from ==> at >= from && k <= j
            &&& m.heading() == SearchDirection::Backward && there < from ==> at < from && k >= j
        },
{
}

/// After each character the searched window is told of the places that were
/// found, and of the one where the search is.
pub proof fn found_places_are_told(m: IsearchMode, n: IsearchMode, c: char, r: ModeResultView)
    requires
        m.performed(&n, KeyAction::AlphaNumeric(c), r),
    ensures
        r matches ModeResultView::Consumed(actions) && actions.last()
            matches ModeActionView::UpdateIsearch {
            target_buffer_id,
            target_window_id,
            matches,
            current_match,
        } && target_buffer_id == m.buffer() && target_window_id == m.window() && matches
            == n.found() && current_match == n.current(),
{
}

/// A search that is given up leads back to where it began, and one that is
/// accepted hands over its term.
pub proof fn search_ends_as_asked(m: IsearchMode, n: IsearchMode, r: ModeResultView)
    ensures
        m.performed(&n, KeyAction::Cancel, r) || m.performed(&n, KeyAction::Escape, r) ==> r
            == ModeResultView::Consumed(
            seq![
                ModeActionView::CancelIsearch {
                    target_buffer_id: m.buffer(),
                    target_window_id: m.window(),
                    original_cursor: m.origin(),
                },
            ],
        ),
        m.performed(&n, KeyAction::Enter, r) ==> r == ModeResultView::Consumed(
            seq![
                ModeActionView::AcceptIsearch {
                    target_buffer_id: m.buffer(),
                    search_term: m.term(),
                },
            ],
        ),
{
}

} // verus!
