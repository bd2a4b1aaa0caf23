//! Searching while one types.

use vstd::prelude::*;
use vstd::string::*;

use crate::buffer::Buffer;
use crate::ids::{BufferId, WindowId};
use crate::keys::{CursorDirection, KeyAction};
use crate::mode;
use crate::mode::{
    consume_one, ActionPosition, Mode, ModeAction, ModeActionView, ModeResult, ModeResultView,
};
use crate::text;
use crate::text::{
    byte_len, char_byte_len, char_count, char_to_lowercase, decimal_string, is_found_at,
    str_chars, str_eq, to_lowercase, without_last,
};

verus! {

#[derive(Debug, Clone, Copy, PartialEq, Eq, Structural)]
pub enum SearchDirection {
    Forward,
    Backward,
}

/// How many characters the characters of `s` are in lower case, each by itself.
pub open spec fn lowered_len(s: Seq<char>) -> nat
    decreases s.len(),
{
    if s.len() == 0 {
        0
    } else {
        lowered_len(s.drop_last()) + text::char_lowercase(s.last()).len()
    }
}

/// How many characters of `s`, of which `k` are known, are over before the
/// character `at` of its lower case.
pub open spec fn chars_before(s: Seq<char>, k: int, at: int) -> int
    decreases s.len() - k,
{
    if k < s.len() && lowered_len(s.take(k + 1)) <= at {
        chars_before(s, k + 1, at)
    } else {
        k
    }
}

/// How many characters of `s`, `k` at least, it takes to reach the character
/// `at` of its lower case.
pub open spec fn chars_reaching(s: Seq<char>, k: int, at: int) -> int
    decreases s.len() - k,
{
    if k < s.len() && lowered_len(s.take(k)) < at {
        chars_reaching(s, k + 1, at)
    } else {
        k
    }
}

/// Where in `content`, from byte to byte, the characters stand that have the
/// characters from `start` up to `end` in lower case.
pub open spec fn bytes_behind(content: Seq<char>, start: int, end: int) -> (usize, usize) {
    let from = chars_before(content, 0, start);
    let to = chars_reaching(content, from, end);
    (text::utf8_len(content.take(from)) as usize, text::utf8_len(content.take(to)) as usize)
}

/// The places in `content` where `part` stands among the first `upto`
/// characters of its lower case.
pub open spec fn places_upto(content: Seq<char>, part: Seq<char>, upto: int) -> Seq<
    (usize, usize),
>
    decreases upto,
{
    if upto <= 0 {
        seq![]
    } else {
        let before = places_upto(content, part, upto - 1);
        if text::found_at(text::lowercase(content), part, upto - 1) {
            before.push(bytes_behind(content, upto - 1, upto - 1 + part.len()))
        } else {
            before
        }
    }
}

/// The places of `term` in `content`, from byte to byte, whatever the case of
/// the letters. An empty term is nowhere.
pub open spec fn places_of(content: Seq<char>, term: Seq<char>) -> Seq<(usize, usize)> {
    if term.len() == 0 {
        seq![]
    } else {
        places_upto(content, text::lowercase(term), text::lowercase(content).len() as int)
    }
}

/// The byte at which a character starts, or the end.
pub open spec fn byte_of(s: Seq<char>, char_pos: int) -> nat {
    if 0 <= char_pos < s.len() {
        text::utf8_len(s.take(char_pos))
    } else {
        text::utf8_len(s)
    }
}

/// The place from which a search goes on: forward the first one at or behind
/// the byte `from`, or else the first; backward the last one in front of it, or
/// else the last.
pub open spec fn nearest(
    places: Seq<(usize, usize)>,
    from: nat,
    direction: SearchDirection,
    k: usize,
) -> bool {
    &&& k < places.len()
    &&& match direction {
        SearchDirection::Forward => {
            ||| {
                &&& places[k as int].0 >= from
                &&& forall|j: int| 0 <= j < k ==> (#[trigger] places[j]).0 < from
            }
            ||| {
                &&& k == 0
                &&& forall|j: int| 0 <= j < places.len() ==> (#[trigger] places[j]).0 < from
            }
        },
        SearchDirection::Backward => {
            ||| {
                &&& places[k as int].0 < from
                &&& forall|j: int| k < j < places.len() ==> (#[trigger] places[j]).0 >= from
            }
            ||| {
                &&& k == places.len() - 1
                &&& forall|j: int| 0 <= j < places.len() ==> (#[trigger] places[j]).0 >= from
            }
        },
    }
}

/// The state of a search.
pub struct IsearchMode {
    search_term: String,
    direction: SearchDirection,
    /// Where the term was found, from byte to byte.
    matches: Vec<(usize, usize)>,
    /// The place of the current one.
    current_match_index: Option<usize>,
    /// Where the cursor was when the search began.
    original_cursor: usize,
    target_buffer_id: BufferId,
    target_window_id: WindowId,
    /// What the searched buffer holds.
    target_content: String,
}

impl IsearchMode {
    #[verifier::type_invariant]
    spec fn current_exists(&self) -> bool {
        self.current_match_index matches Some(i) ==> i < self.matches@.len()
    }

    pub closed spec fn term(&self) -> Seq<char> {
        self.search_term@
    }

    pub closed spec fn heading(&self) -> SearchDirection {
        self.direction
    }

    pub closed spec fn found(&self) -> Seq<(usize, usize)> {
        self.matches@
    }

    pub closed spec fn current(&self) -> Option<usize> {
        self.current_match_index
    }

    pub closed spec fn origin(&self) -> usize {
        self.original_cursor
    }

    pub closed spec fn buffer(&self) -> BufferId {
        self.target_buffer_id
    }

    pub closed spec fn window(&self) -> WindowId {
        self.target_window_id
    }

    pub closed spec fn searched_text(&self) -> Seq<char> {
        self.target_content@
    }

    /// Whether `after` searches for the same buffer from the same place.
    pub open spec fn same_target(&self, after: &Self) -> bool {
        &&& after.origin() == self.origin()
        &&& after.buffer() == self.buffer()
        &&& after.window() == self.window()
        &&& after.searched_text() == self.searched_text()
    }

    /// Whether the search has found the places of its term, and is at the one
    /// that is nearest to where it began.
    pub open spec fn found_all(&self) -> bool {
        &&& self.found() == places_of(self.searched_text(), self.term())
        &&& match self.current() {
            None => self.found().len() == 0,
            Some(k) => nearest(
                self.found(),
                byte_of(self.searched_text(), self.origin() as int),
                self.heading(),
                k,
            ),
        }
    }

    /// Starts a search in a buffer, for the term of an earlier search if there
    /// is one.
    pub fn new(
        direction: SearchDirection,
        target_buffer_id: BufferId,
        target_window_id: WindowId,
        original_cursor: usize,
        target_buffer: &Buffer,
        previous_search: Option<String>,
    ) -> (r: Self)
        ensures
            r.term() == match previous_search {
                Some(s) => s@,
                None => Seq::<char>::empty(),
            },
            r.heading() == direction,
            r.origin() == original_cursor,
            r.buffer() == target_buffer_id,
            r.window() == target_window_id,
            r.searched_text() == target_buffer.text(),
            r.found_all(),
    {
        let mut r = IsearchMode {
            search_term: match previous_search {
                Some(s) => s,
                None => String::new(),
            },
            direction,
            matches: Vec::new(),
            current_match_index: None,
            original_cursor,
            target_buffer_id,
            target_window_id,
            target_content: target_buffer.content(),
        };
        r.find_matches();
        r
    }

    /// Whether `after` is this search over another text. The places found stay
    /// until the term changes.
    pub open spec fn over(&self, after: &Self, text: Seq<char>) -> bool {
        &&& after.searched_text() == text
        &&& after.term() == self.term()
        &&& after.heading() == self.heading()
        &&& after.found() == self.found()
        &&& after.current() == self.current()
        &&& after.origin() == self.origin()
        &&& after.buffer() == self.buffer()
        &&& after.window() == self.window()
    }

    /// Takes what the searched buffer holds now. This comes before each key, so
    /// that a search goes through the text as it is then.
    pub fn take_text(&mut self, target_buffer: &Buffer)
        ensures
            old(self).over(final(self), target_buffer.text()),
    {
        proof {
            use_type_invariant(&*self);
        }
        self.target_content = target_buffer.content();
    }

    pub fn search_term(&self) -> (r: &str)
        ensures
            r@ == self.term(),
    {
        self.search_term.as_str()
    }

    pub fn matches(&self) -> (r: &[(usize, usize)])
        ensures
            r@ == self.found(),
    {
        self.matches.as_slice()
    }

    pub fn current_match_index(&self) -> (r: Option<usize>)
        ensures
            r == self.current(),
            r matches Some(i) ==> i < self.found().len(),
    {
        proof {
            use_type_invariant(self);
        }
        self.current_match_index
    }

    pub fn target_buffer_id(&self) -> (r: BufferId)
        ensures
            r == self.buffer(),
    {
        self.target_buffer_id
    }

    pub fn target_window_id(&self) -> (r: WindowId)
        ensures
            r == self.window(),
    {
        self.target_window_id
    }

    /// What the prompt looks like.
    pub open spec fn content(&self) -> Seq<char> {
        let total = text::decimal(self.found().len());
        let name = match self.heading() {
            SearchDirection::Forward => "I-search"@,
            SearchDirection::Backward => "I-search backward"@,
        };
        let info = if self.term().len() == 0 {
            Seq::<char>::empty()
        } else if self.found().len() == 0 {
            " [no match]"@
        } else {
            match self.current() {
                Some(i) => " ["@ + text::decimal((i + 1) as nat) + "/"@ + total + "]"@,
                None => " [0/"@ + total + "]"@,
            }
        };
        name + ": "@ + self.term() + info
    }

    /// What the prompt looks like.
    pub fn generate_buffer_content(&self) -> (r: String)
        ensures
            r@ == self.content(),
    {
        proof {
            use_type_invariant(self);
        }
        let mut r = match self.direction {
            SearchDirection::Forward => "I-search".to_owned(),
            SearchDirection::Backward => "I-search backward".to_owned(),
        };
        r.append(": ");
        r.append(self.search_term.as_str());
        if self.search_term.as_str().is_empty() {
            assert(r@ =~= self.content());
            return r;
        }
        let total = self.matches.len();
        if total == 0 {
            r.append(" [no match]");
            return r;
        }
        let ghost start = r@;
        match self.current_match_index {
            Some(i) => {
                r.append(" [");
                r.append(decimal_string((i + 1) as u64).as_str());
                r.append("/");
            },
            None => {
                r.append(" [0/");
            },
        }
        r.append(decimal_string(total as u64).as_str());
        r.append("]");
        assert(r@ =~= self.content());
        r
    }

    /// Finds the places of the term.
    fn find_matches(&mut self)
        ensures
            final(self).term() == old(self).term(),
            final(self).heading() == old(self).heading(),
            old(self).same_target(final(self)),
            final(self).found_all(),
    {
        self.current_match_index = None;
        self.matches = Vec::new();
        if self.search_term.as_str().is_empty() {
            return;
        }
        let part = to_lowercase(self.search_term.as_str());
        let places = find_places(self.target_content.as_str(), part.as_str());
        self.matches = places;
        if self.matches.len() > 0 {
            let k = self.find_nearest_match();
            self.current_match_index = Some(k);
        }
    }

    /// The place from which the search goes on.
    fn find_nearest_match(&self) -> (k: usize)
        requires
            self.found().len() > 0,
        ensures
            nearest(
                self.found(),
                byte_of(self.searched_text(), self.origin() as int),
                self.heading(),
                k,
            ),
    {
        let from = char_to_byte_pos(self.target_content.as_str(), self.original_cursor);
        let total = self.matches.len();
        match self.direction {
            SearchDirection::Forward => {
                let mut i: usize = 0;
                while i < total
                    invariant
                        i <= total == self.matches@.len(),
                        from == byte_of(self.target_content@, self.original_cursor as int),
                        self.direction == SearchDirection::Forward,
                        forall|j: int| 0 <= j < i ==> (#[trigger] self.matches@[j]).0 < from,
                    decreases total - i,
                {
                    if self.matches[i].0 >= from {
                        return i;
                    }
                    i = i + 1;
                }
                0
            },
            SearchDirection::Backward => {
                let mut i: usize = total;
                while i > 0
                    invariant
                        i <= total == self.matches@.len(),
                        from == byte_of(self.target_content@, self.original_cursor as int),
                        self.direction == SearchDirection::Backward,
                        forall|j: int|
                            i <= j < total ==> (#[trigger] self.matches@[j]).0 >= from,
                    decreases i,
                {
                    i = i - 1;
                    if self.matches[i].0 < from {
                        return i;
                    }
                }
                total - 1
            },
        }
    }

    /// Whether `after` is this search, at another place.
    pub open spec fn stepped(&self, after: &Self, direction: SearchDirection) -> bool {
        let total = self.found().len() as int;
        &&& self.same_target(after)
        &&& after.term() == self.term()
        &&& after.found() == self.found()
        &&& after.heading() == direction
        &&& after.current() == if total == 0 {
            self.current()
        } else {
            match (direction, self.current()) {
                (SearchDirection::Forward, Some(i)) => Some(((i + 1) % total) as usize),
                (SearchDirection::Forward, None) => Some(0),
                (SearchDirection::Backward, Some(i)) => if i == 0 {
                    Some((total - 1) as usize)
                } else {
                    Some((i - 1) as usize)
                },
                (SearchDirection::Backward, None) => Some((total - 1) as usize),
            }
        }
    }

    /// Goes to the next place.
    fn next_match(&mut self)
        ensures
            old(self).stepped(final(self), SearchDirection::Forward),
    {
        proof {
            use_type_invariant(&*self);
        }
        self.direction = SearchDirection::Forward;
        let total = self.matches.len();
        if total == 0 {
            return;
        }
        self.current_match_index = match self.current_match_index {
            Some(i) => Some((i + 1) % total),
            None => Some(0),
        };
    }

    /// Goes to the place before.
    fn prev_match(&mut self)
        ensures
            old(self).stepped(final(self), SearchDirection::Backward),
    {
        proof {
            use_type_invariant(&*self);
        }
        self.direction = SearchDirection::Backward;
        let total = self.matches.len();
        if total == 0 {
            return;
        }
        self.current_match_index = match self.current_match_index {
            Some(i) => if i == 0 {
                Some(total - 1)
            } else {
                Some(i - 1)
            },
            None => Some(total - 1),
        };
    }

    /// The action that shows where the search is.
    pub open spec fn update_view(&self) -> ModeActionView {
        ModeActionView::UpdateIsearch {
            target_buffer_id: self.buffer(),
            target_window_id: self.window(),
            matches: self.found(),
            current_match: self.current(),
        }
    }

    fn build_update_action(&self) -> (r: ModeAction)
        ensures
            r@ == self.update_view(),
    {
        ModeAction::UpdateIsearch {
            target_buffer_id: self.target_buffer_id,
            target_window_id: self.target_window_id,
            matches: copy_places(&self.matches),
            current_match: self.current_match_index,
        }
    }

    /// The actions that show the prompt and where the search is.
    pub open spec fn redrawn(&self) -> ModeResultView {
        ModeResultView::Consumed(
            seq![
                ModeActionView::ClearText,
                ModeActionView::InsertText(ActionPosition::Absolute(0, 0), self.content()),
                self.update_view(),
            ],
        )
    }

    fn redraw(&self) -> (r: ModeResult)
        ensures
            r@ == self.redrawn(),
    {
        let content = self.generate_buffer_content();
        let update = self.build_update_action();
        let actions = vec![
            ModeAction::ClearText,
            ModeAction::InsertText(ActionPosition::start(), content),
            update,
        ];
        assert(mode::action_views(actions@) =~= seq![
            ModeActionView::ClearText,
            ModeActionView::InsertText(ActionPosition::Absolute(0, 0), content@),
            update@,
        ]);
        ModeResult::Consumed(actions)
    }

    /// Whether `after` is this search for another term.
    pub open spec fn sought(&self, after: &Self, term: Seq<char>) -> bool {
        &&& self.same_target(after)
        &&& after.heading() == self.heading()
        &&& after.term() == term
        &&& after.found_all()
    }

    /// Whether the search is as it was.
    pub open spec fn same(&self, after: &Self) -> bool {
        &&& self.same_target(after)
        &&& after.heading() == self.heading()
        &&& after.term() == self.term()
        &&& after.found() == self.found()
        &&& after.current() == self.current()
    }

    /// Whether `after` is this search after a key, and `r` what that comes to.
    pub open spec fn performed(&self, after: &Self, action: KeyAction, r: ModeResultView) -> bool {
        match action {
            KeyAction::AlphaNumeric(c) => self.sought(after, self.term().push(c)) && r
                == after.redrawn(),
            KeyAction::Backspace => if self.term().len() > 0 {
                self.sought(after, self.term().drop_last()) && r == after.redrawn()
            } else {
                self.same(after) && r == ModeResultView::Ignored
            },
            KeyAction::Cursor(CursorDirection::Down) => self.stepped(
                after,
                SearchDirection::Forward,
            ) && r == after.redrawn(),
            KeyAction::Cursor(CursorDirection::Up) => self.stepped(
                after,
                SearchDirection::Backward,
            ) && r == after.redrawn(),
            KeyAction::Enter => self.same(after) && r == mode::one(
                ModeActionView::AcceptIsearch {
                    target_buffer_id: self.buffer(),
                    search_term: self.term(),
                },
            ),
            KeyAction::Escape | KeyAction::Cancel => self.same(after) && r == mode::one(
                ModeActionView::CancelIsearch {
                    target_buffer_id: self.buffer(),
                    target_window_id: self.window(),
                    original_cursor: self.origin(),
                },
            ),
            KeyAction::Command(name) => if name@ == "isearch-forward"@ {
                self.stepped(after, SearchDirection::Forward) && r == after.redrawn()
            } else if name@ == "isearch-backward"@ {
                self.stepped(after, SearchDirection::Backward) && r == after.redrawn()
            } else {
                self.same(after) && r == ModeResultView::Ignored
            },
            _ => self.same(after) && r == ModeResultView::Ignored,
        }
    }

    /// Performs a key on the searched buffer as it is now.
    pub fn perform_in(&mut self, target_buffer: &Buffer, action: &KeyAction) -> (r: ModeResult)
        ensures
            exists|now: Self| #[trigger]
                old(self).over(&now, target_buffer.text()) && now.performed(
                    final(self),
                    *action,
                    r@,
                ),
    {
        self.take_text(target_buffer);
        let ghost now = *self;
        let r = self.perform(action);
        assert(old(self).over(&now, target_buffer.text()));
        r
    }

    fn cancel(&self) -> (r: ModeResult)
        ensures
            r@ == mode::one(
                ModeActionView::CancelIsearch {
                    target_buffer_id: self.buffer(),
                    target_window_id: self.window(),
                    original_cursor: self.origin(),
                },
            ),
    {
        consume_one(
            ModeAction::CancelIsearch {
                target_buffer_id: self.target_buffer_id,
                target_window_id: self.target_window_id,
                original_cursor: self.original_cursor,
            },
        )
    }
}

impl Mode for IsearchMode {
    fn name(&self) -> (r: &str)
        ensures
            r@ == "isearch"@,
    {
        "isearch"
    }

    fn perform(&mut self, action: &KeyAction) -> (r: ModeResult)
        ensures
            old(self).performed(final(self), *action, r@),
    {
        proof {
            use_type_invariant(&*self);
        }
        match action {
            KeyAction::AlphaNumeric(c) => {
                let mut term = self.search_term.clone();
                term.push(*c);
                self.search_term = term;
                self.find_matches();
                self.redraw()
            },
            KeyAction::Backspace => {
                if self.search_term.as_str().is_empty() {
                    return ModeResult::Ignored;
                }
                self.search_term = without_last(self.search_term.as_str());
                self.find_matches();
                self.redraw()
            },
            KeyAction::Cursor(direction) => match direction {
                CursorDirection::Down => {
                    self.next_match();
                    self.redraw()
                },
                CursorDirection::Up => {
                    self.prev_match();
                    self.redraw()
                },
                _ => ModeResult::Ignored,
            },
            KeyAction::Enter => consume_one(
                ModeAction::AcceptIsearch {
                    target_buffer_id: self.target_buffer_id,
                    search_term: self.search_term.clone(),
                },
            ),
            KeyAction::Escape => self.cancel(),
            KeyAction::Cancel => self.cancel(),
            KeyAction::Command(name) => {
                if str_eq(name.as_str(), "isearch-forward") {
                    self.next_match();
                    self.redraw()
                } else if str_eq(name.as_str(), "isearch-backward") {
                    self.prev_match();
                    self.redraw()
                } else {
                    ModeResult::Ignored
                }
            },
            _ => ModeResult::Ignored,
        }
    }
}

fn copy_places(places: &Vec<(usize, usize)>) -> (r: Vec<(usize, usize)>)
    ensures
        r@ == places@,
{
    let mut r: Vec<(usize, usize)> = Vec::new();
    let mut i: usize = 0;
    while i < places.len()
        invariant
            i <= places@.len(),
            r@ == places@.take(i as int),
        decreases places.len() - i,
    {
        r.push(places[i]);
        i = i + 1;
    }
    assert(places@.take(i as int) =~= places@);
    r
}

proof fn chars_before_range(s: Seq<char>, k: int, at: int)
    requires
        0 <= k <= s.len(),
    ensures
        k <= chars_before(s, k, at) <= s.len(),
    decreases s.len() - k,
{
    if k < s.len() && lowered_len(s.take(k + 1)) <= at {
        chars_before_range(s, k + 1, at);
    }
}

proof fn chars_reaching_range(s: Seq<char>, k: int, at: int)
    requires
        0 <= k <= s.len(),
    ensures
        k <= chars_reaching(s, k, at) <= s.len(),
    decreases s.len() - k,
{
    if k < s.len() && lowered_len(s.take(k)) < at {
        chars_reaching_range(s, k + 1, at);
    }
}

/// Every place that a search finds lies in the searched text.
pub proof fn places_are_in_text(content: Seq<char>, term: Seq<char>, k: int)
    requires
        0 <= k < places_of(content, term).len(),
        text::utf8_len(content) <= usize::MAX,
    ensures
        places_of(content, term)[k].0 <= places_of(content, term)[k].1 <= text::utf8_len(content),
{
    places_upto_are_in_text(
        content,
        text::lowercase(term),
        text::lowercase(content).len() as int,
        k,
    );
}

proof fn places_upto_are_in_text(content: Seq<char>, part: Seq<char>, upto: int, k: int)
    requires
        0 <= k < places_upto(content, part, upto).len(),
        text::utf8_len(content) <= usize::MAX,
    ensures
        places_upto(content, part, upto)[k].0 <= places_upto(content, part, upto)[k].1
            <= text::utf8_len(content),
    decreases upto,
{
    let before = places_upto(content, part, upto - 1);
    if k < before.len() {
        places_upto_are_in_text(content, part, upto - 1, k);
    } else {
        let from = chars_before(content, 0, upto - 1);
        let to = chars_reaching(content, from, upto - 1 + part.len());
        chars_before_range(content, 0, upto - 1);
        chars_reaching_range(content, from, upto - 1 + part.len());
        text::utf8_len_prefix(content, to);
        text::utf8_len_prefix(content.take(to), from);
        assert(content.take(to).take(from) =~= content.take(from));
    }
}

/// What is over before a character is over before a later one too.
proof fn chars_before_go_on(s: Seq<char>, k: int, at: int, later: int)
    requires
        0 <= k <= s.len(),
        at <= later,
    ensures
        chars_before(s, k, later) == chars_before(s, chars_before(s, k, at), later),
    decreases s.len() - k,
{
    if k < s.len() && lowered_len(s.take(k + 1)) <= at {
        chars_before_go_on(s, k + 1, at, later);
    }
}

proof fn one_char_more(s: Seq<char>, k: int)
    requires
        0 <= k < s.len(),
    ensures
        lowered_len(s.take(k + 1)) == lowered_len(s.take(k)) + text::char_lowercase(s[k]).len(),
        text::utf8_len(s.take(k + 1)) == text::utf8_len(s.take(k)) + text::char_width(s[k]),
        text::utf8_len(s.take(k + 1)) <= text::utf8_len(s),
{
    assert(s.take(k + 1).drop_last() =~= s.take(k));
    assert(s.take(k + 1).last() == s[k]);
    text::utf8_len_prefix(s, k + 1);
}

/// How many characters each start of `chars` is in lower case, and how many
/// bytes it takes.
fn starts(content: &str, chars: &Vec<char>) -> (r: Vec<(u128, usize)>)
    requires
        chars@ == content@,
    ensures
        r@.len() == chars@.len() + 1,
        forall|k: int|
            0 <= k <= chars@.len() ==> (#[trigger] r@[k]).0 == lowered_len(chars@.take(k))
                && r@[k].1 == text::utf8_len(chars@.take(k)),
{
    let total = byte_len(content);
    let mut r: Vec<(u128, usize)> = Vec::new();
    let mut lowered: u128 = 0;
    let mut bytes: usize = 0;
    r.push((0, 0));
    let mut i: usize = 0;
    assert(chars@.take(0) =~= seq![]);
    while i < chars.len()
        invariant
            i <= chars@.len(),
            r@.len() == i + 1,
            total == text::utf8_len(chars@),
            lowered == lowered_len(chars@.take(i as int)),
            lowered <= i * usize::MAX,
            bytes == text::utf8_len(chars@.take(i as int)),
            forall|k: int|
                0 <= k <= i ==> (#[trigger] r@[k]).0 == lowered_len(chars@.take(k)) && r@[k].1
                    == text::utf8_len(chars@.take(k)),
        decreases chars.len() - i,
    {
        let own = char_to_lowercase(chars[i]);
        let length = char_count(own.as_str());
        proof {
            one_char_more(chars@, i as int);
            assert((i + 1) * usize::MAX == i * usize::MAX + usize::MAX) by (nonlinear_arith);
            assert((i + 1) * usize::MAX <= u128::MAX) by (nonlinear_arith)
                requires
                    i + 1 <= usize::MAX,
            ;
        }
        lowered = lowered + length as u128;
        bytes = bytes + char_byte_len(chars[i]);
        r.push((lowered, bytes));
        i = i + 1;
    }
    r
}

/// The places of `part`, which is in lower case, in `content`.
fn find_places(content: &str, part: &str) -> (r: Vec<(usize, usize)>)
    ensures
        r@ == places_upto(content@, part@, text::lowercase(content@).len() as int),
{
    let chars = str_chars(content);
    let lower_text = to_lowercase(content);
    let lower = str_chars(lower_text.as_str());
    let wanted = str_chars(part);
    let known = starts(content, &chars);
    let n = chars.len();
    let mut r: Vec<(usize, usize)> = Vec::new();
    let mut from: usize = 0;
    let mut i: usize = 0;
    while i < lower.len()
        invariant
            i <= lower@.len(),
            n == chars@.len(),
            chars@ == content@,
            lower@ == text::lowercase(content@),
            wanted@ == part@,
            known@.len() == n + 1,
            forall|k: int|
                0 <= k <= n ==> (#[trigger] known@[k]).0 == lowered_len(content@.take(k))
                    && known@[k].1 == text::utf8_len(content@.take(k)),
            from <= n,
            chars_before(content@, 0, i as int) == chars_before(content@, from as int, i as int),
            r@ == places_upto(content@, part@, i as int),
        decreases lower.len() - i,
    {
        while from < n && known[from + 1].0 <= i as u128
            invariant
                i < lower@.len(),
                n == content@.len(),
                known@.len() == n + 1,
                forall|k: int|
                    0 <= k <= n ==> (#[trigger] known@[k]).0 == lowered_len(content@.take(k))
                        && known@[k].1 == text::utf8_len(content@.take(k)),
                from <= n,
                chars_before(content@, 0, i as int) == chars_before(
                    content@,
                    from as int,
                    i as int,
                ),
            decreases n - from,
        {
            from = from + 1;
        }
        assert(from == chars_before(content@, 0, i as int));
        if is_found_at(&lower, &wanted, i) {
            let end: u128 = i as u128 + wanted.len() as u128;
            let mut to: usize = from;
            while to < n && known[to].0 < end
                invariant
                    n == content@.len(),
                    known@.len() == n + 1,
                    forall|k: int|
                        0 <= k <= n ==> (#[trigger] known@[k]).0 == lowered_len(content@.take(k))
                            && known@[k].1 == text::utf8_len(content@.take(k)),
                    from <= to <= n,
                    chars_reaching(content@, from as int, end as int) == chars_reaching(
                        content@,
                        to as int,
                        end as int,
                    ),
                decreases n - to,
            {
                to = to + 1;
            }
            r.push((known[from].1, known[to].1));
        }
        proof {
            chars_before_go_on(content@, 0, i as int, i + 1);
        }
        i = i + 1;
    }
    r
}

/// The byte at which a character starts, or the end.
fn char_to_byte_pos(s: &str, char_pos: usize) -> (r: usize)
    ensures
        r == byte_of(s@, char_pos as int),
{
    let chars = str_chars(s);
    let total = byte_len(s);
    if char_pos >= chars.len() {
        return total;
    }
    let mut at: usize = 0;
    let mut i: usize = 0;
    assert(s@.take(0) =~= seq![]);
    while i < char_pos
        invariant
            i <= char_pos < chars@.len(),
            chars@ == s@,
            total == text::utf8_len(s@),
            at == text::utf8_len(s@.take(i as int)),
        decreases char_pos - i,
    {
        proof {
            assert(s@.take(i + 1).drop_last() =~= s@.take(i as int));
            assert(s@.take(i + 1).last() == s@[i as int]);
            text::utf8_len_prefix(s@, i + 1);
        }
        at = at + char_byte_len(chars[i]);
        i = i + 1;
    }
    at
}

/// How many characters there are in front of a byte at which one starts. Behind
/// the end, how many there are.
pub fn byte_to_char_pos(s: &str, byte_pos: usize) -> (r: usize)
    requires
        byte_pos >= text::utf8_len(s@) || exists|k: int|
            0 <= k <= s@.len() && #[trigger] text::utf8_len(s@.take(k)) == byte_pos,
    ensures
        r <= s@.len(),
        if byte_pos >= text::utf8_len(s@) {
            r == s@.len()
        } else {
            text::utf8_len(s@.take(r as int)) == byte_pos
        },
{
    let chars = str_chars(s);
    let total = byte_len(s);
    if byte_pos >= total {
        return chars.len();
    }
    let ghost k = choose|k: int|
        0 <= k <= s@.len() && #[trigger] text::utf8_len(s@.take(k)) == byte_pos;
    let mut at: usize = 0;
    let mut i: usize = 0;
    assert(s@.take(0) =~= seq![]);
    assert(s@.take(s@.len() as int) =~= s@);
    while at < byte_pos
        invariant
            i <= k < s@.len(),
            chars@ == s@,
            total == text::utf8_len(s@),
            at == text::utf8_len(s@.take(i as int)),
            at <= byte_pos,
            text::utf8_len(s@.take(k)) == byte_pos,
        decreases k - i,
    {
        proof {
            assert(s@.take(i + 1).drop_last() =~= s@.take(i as int));
            assert(s@.take(i + 1).last() == s@[i as int]);
            text::utf8_len_prefix(s@, i + 1);
            assert(i != k);
            text::utf8_len_prefix(s@.take(k), i + 1);
            assert(s@.take(k).take(i + 1) =~= s@.take(i + 1));
        }
        at = at + char_byte_len(chars[i]);
        i = i + 1;
    }
    i
}

} // verus!
