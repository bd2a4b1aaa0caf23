//! The kill ring: the texts that were cut or copied, to be pasted again.

use vstd::prelude::*;
use vstd::string::*;

verus! {

/// The number of entries that a kill ring keeps unless told otherwise.
pub const DEFAULT_KILLS: usize = 60;

/// A ring of killed texts. Kills that follow each other at once make one entry.
#[derive(Debug, Clone)]
pub struct KillRing {
    /// The entries, the latest last.
    pub entries: Vec<String>,
    /// How many entries are kept.
    pub max_size: usize,
    /// The entry that was yanked last.
    pub current_index: usize,
    /// Whether the last operation was a kill.
    pub last_was_kill: bool,
}

impl KillRing {
    /// The killed texts, the latest last.
    pub open spec fn texts(&self) -> Seq<Seq<char>> {
        self.entries@.map_values(|s: String| s@)
    }

    pub open spec fn wf(&self) -> bool {
        &&& 1 <= self.max_size
        &&& self.entries@.len() <= self.max_size
        &&& self.entries@.len() > 0 ==> self.current_index < self.entries@.len()
    }

    /// Whether the next kill joins the latest entry.
    pub open spec fn joins(&self) -> bool {
        self.last_was_kill && self.entries@.len() > 0
    }

    /// The texts of this ring with a new entry, the oldest one gone where there
    /// is no room.
    pub open spec fn texts_with(&self, text: Seq<char>) -> Seq<Seq<char>> {
        if self.texts().len() < self.max_size {
            self.texts().push(text)
        } else {
            self.texts().push(text).drop_first()
        }
    }

    /// A ring of the default size.
    pub fn new() -> (ring: Self)
        ensures
            ring.wf(),
            ring.texts().len() == 0,
            ring.max_size == DEFAULT_KILLS,
            ring.current_index == 0,
            !ring.last_was_kill,
    {
        Self::with_capacity(DEFAULT_KILLS)
    }

    /// A ring that keeps `max_size` entries, and at least one.
    pub fn with_capacity(max_size: usize) -> (ring: Self)
        ensures
            ring.wf(),
            ring.texts().len() == 0,
            ring.max_size == if max_size >= 1 {
                max_size
            } else {
                1
            },
            ring.current_index == 0,
            !ring.last_was_kill,
    {
        KillRing {
            entries: Vec::new(),
            max_size: if max_size >= 1 {
                max_size
            } else {
                1
            },
            current_index: 0,
            last_was_kill: false,
        }
    }

    /// Whether `after` is this ring after `text` was killed, where `joined` is
    /// what the latest entry becomes if the kill joins it.
    pub open spec fn killed(&self, after: &Self, text: Seq<char>, joined: Seq<char>) -> bool {
        if text.len() == 0 {
            *after == *self
        } else {
            &&& after.wf()
            &&& after.texts() == if self.joins() {
                self.texts().update(self.texts().len() - 1, joined)
            } else {
                self.texts_with(text)
            }
            &&& after.current_index == after.entries@.len() - 1
            &&& after.last_was_kill
            &&& after.max_size == self.max_size
        }
    }

    /// Adds a killed text: behind the latest entry where the last operation was
    /// a kill, else as a new entry. An empty text is nothing.
    pub fn kill(&mut self, text: String)
        requires
            old(self).wf(),
        ensures
            final(self).wf(),
            old(self).killed(final(self), text@, old(self).texts().last() + text@),
    {
        if text.as_str().is_empty() {
            return;
        }
        if self.last_was_kill && self.entries.len() > 0 {
            let ghost before = *self;
            match self.entries.pop() {
                Some(latest) => {
                    let mut joined = latest;
                    joined.append(text.as_str());
                    self.entries.push(joined);
                },
                None => (),
            }
            self.current_index = self.entries.len() - 1;
            self.last_was_kill = true;
            assert(self.texts() =~= before.texts().update(
                before.texts().len() - 1,
                before.texts().last() + text@,
            ));
        } else {
            self.add_entry(text);
        }
    }

    /// Adds a killed text: in front of the latest entry where the last
    /// operation was a kill, else as a new entry. An empty text is nothing.
    pub fn kill_prepend(&mut self, text: String)
        requires
            old(self).wf(),
        ensures
            final(self).wf(),
            old(self).killed(final(self), text@, text@ + old(self).texts().last()),
    {
        if text.as_str().is_empty() {
            return;
        }
        if self.last_was_kill && self.entries.len() > 0 {
            let ghost before = *self;
            match self.entries.pop() {
                Some(latest) => {
                    let mut joined = text.clone();
                    joined.append(latest.as_str());
                    self.entries.push(joined);
                },
                None => (),
            }
            self.current_index = self.entries.len() - 1;
            self.last_was_kill = true;
            assert(self.texts() =~= before.texts().update(
                before.texts().len() - 1,
                text@ + before.texts().last(),
            ));
        } else {
            self.add_entry(text);
        }
    }

    fn add_entry(&mut self, text: String)
        requires
            old(self).wf(),
        ensures
            final(self).wf(),
            final(self).texts() == old(self).texts_with(text@),
            final(self).current_index == final(self).entries@.len() - 1,
            final(self).last_was_kill,
            final(self).max_size == old(self).max_size,
    {
        let ghost before = *self;
        let room = self.entries.len() < self.max_size;
        self.entries.push(text);
        assert(self.texts() =~= before.texts().push(text@));
        if !room {
            let ghost full = *self;
            self.entries.remove(0);
            assert(self.texts() =~= full.texts().drop_first());
        }
        self.current_index = self.entries.len() - 1;
        self.last_was_kill = true;
    }

    /// The latest entry.
    pub fn yank(&mut self) -> (r: Option<&str>)
        requires
            old(self).wf(),
        ensures
            final(self).wf(),
            !final(self).last_was_kill,
            final(self).entries == old(self).entries,
            final(self).max_size == old(self).max_size,
            r is Some <==> old(self).texts().len() > 0,
            r matches Some(s) ==> {
                &&& s@ == old(self).texts().last()
                &&& final(self).current_index == old(self).entries@.len() - 1
            },
            r is None ==> final(self).current_index == old(self).current_index,
    {
        self.last_was_kill = false;
        if self.entries.len() == 0 {
            return None;
        }
        self.current_index = self.entries.len() - 1;
        Some(self.entries[self.current_index].as_str())
    }

    /// An entry by its age: 0 is the latest.
    pub fn yank_index(&mut self, index: usize) -> (r: Option<&str>)
        requires
            old(self).wf(),
        ensures
            final(self).wf(),
            !final(self).last_was_kill,
            final(self).entries == old(self).entries,
            final(self).max_size == old(self).max_size,
            r is Some <==> index < old(self).texts().len(),
            r matches Some(s) ==> {
                &&& s@ == old(self).texts()[old(self).texts().len() - 1 - index]
                &&& final(self).current_index == old(self).entries@.len() - 1 - index
            },
            r is None ==> final(self).current_index == old(self).current_index,
    {
        self.last_was_kill = false;
        if index >= self.entries.len() {
            return None;
        }
        self.current_index = self.entries.len() - 1 - index;
        Some(self.entries[self.current_index].as_str())
    }

    /// Whether `after` is this ring at the entry before the one yanked last; from
    /// the oldest, at the latest. Without entries it is as it was.
    pub open spec fn popped(&self, after: &Self) -> bool {
        if self.entries@.len() == 0 {
            *after == *self
        } else {
            *after == (KillRing {
                current_index: if self.current_index == 0 {
                    (self.entries@.len() - 1) as usize
                } else {
                    (self.current_index - 1) as usize
                },
                ..*self
            })
        }
    }

    /// The entry before the one yanked last; from the oldest, the latest.
    pub fn yank_pop(&mut self) -> (r: Option<&str>)
        requires
            old(self).wf(),
        ensures
            final(self).wf(),
            old(self).popped(final(self)),
            r is Some <==> old(self).texts().len() > 0,
            r matches Some(s) ==> s@ == old(self).texts()[final(self).current_index as int],
    {
        if self.entries.len() == 0 {
            return None;
        }
        if self.current_index == 0 {
            self.current_index = self.entries.len() - 1;
        } else {
            self.current_index = self.current_index - 1;
        }
        Some(self.entries[self.current_index].as_str())
    }

    /// The entry yanked last.
    pub fn current(&self) -> (r: Option<&str>)
        requires
            self.wf(),
        ensures
            r is Some <==> self.texts().len() > 0,
            r matches Some(s) ==> s@ == self.texts()[self.current_index as int],
    {
        if self.entries.len() == 0 {
            None
        } else {
            Some(self.entries[self.current_index].as_str())
        }
    }

    /// Notes an operation that is no kill: the next kill is an entry of its own.
    pub fn break_kill_sequence(&mut self)
        ensures
            *final(self) == (KillRing { last_was_kill: false, ..*old(self) }),
    {
        self.last_was_kill = false;
    }

    pub fn is_empty(&self) -> (r: bool)
        ensures
            r == (self.texts().len() == 0),
    {
        self.entries.len() == 0
    }

    pub fn len(&self) -> (r: usize)
        ensures
            r == self.texts().len(),
    {
        self.entries.len()
    }

    /// All entries, the latest last.
    pub fn entries(&self) -> (r: &[String])
        ensures
            r@ == self.entries@,
    {
        self.entries.as_slice()
    }

    /// Forgets all entries.
    pub fn clear(&mut self)
        requires
            old(self).wf(),
        ensures
            final(self).wf(),
            final(self).texts().len() == 0,
            final(self).current_index == 0,
            !final(self).last_was_kill,
            final(self).max_size == old(self).max_size,
    {
        self.entries.clear();
        self.current_index = 0;
        self.last_was_kill = false;
    }
}

impl Default for KillRing {
    fn default() -> (ring: Self)
        ensures
            ring.wf(),
            ring.texts().len() == 0,
            ring.max_size == DEFAULT_KILLS,
            ring.current_index == 0,
            !ring.last_was_kill,
    {
        Self::new()
    }
}

/// A killed text is what the next yank gives back.
pub proof fn yank_gives_back_kill(before: KillRing, after: KillRing, text: Seq<char>)
    requires
        before.wf(),
        !before.joins(),
        text.len() > 0,
        before.killed(&after, text, before.texts().last() + text),
    ensures
        after.texts().len() > 0,
        after.texts().last() == text,
{
}

/// Two kills in a row are one entry, the second text behind the first.
pub proof fn kills_in_a_row_join(
    a: KillRing,
    b: KillRing,
    c: KillRing,
    first: Seq<char>,
    second: Seq<char>,
)
    requires
        a.wf(),
        !a.joins(),
        first.len() > 0,
        second.len() > 0,
        a.killed(&b, first, a.texts().last() + first),
        b.killed(&c, second, b.texts().last() + second),
    ensures
        c.texts().last() == first + second,
        c.texts().len() == b.texts().len(),
{
    assert(b.texts().last() == first);
}

/// A kill after something else leaves the entry before it as it was.
pub proof fn kill_after_break_keeps_previous(
    a: KillRing,
    b: KillRing,
    text: Seq<char>,
)
    requires
        a.wf(),
        a.max_size >= 2,
        a.texts().len() > 0,
        !a.last_was_kill,
        text.len() > 0,
        a.killed(&b, text, a.texts().last() + text),
    ensures
        b.texts().len() >= 2,
        b.texts().last() == text,
        b.texts()[b.texts().len() - 2] == a.texts().last(),
{
}

/// A kill leaves the entries before it as they were, and in order; where there is
/// no room, only the oldest one goes.
pub proof fn kill_keeps_earlier_entries(a: KillRing, b: KillRing, text: Seq<char>, age: int)
    requires
        a.wf(),
        !a.joins(),
        text.len() > 0,
        a.killed(&b, text, a.texts().last() + text),
        0 <= age < a.texts().len(),
        age + 1 < a.max_size,
    ensures
        age + 1 < b.texts().len(),
        b.texts()[b.texts().len() - 2 - age] == a.texts()[a.texts().len() - 1 - age],
        b.texts().len() <= a.max_size,
{
}

/// Whether a ring is popped to get to the next one.
pub open spec fn is_popped_at(rings: Seq<KillRing>, i: int) -> bool {
    rings[i].popped(&rings[i + 1])
}

proof fn pops_count(rings: Seq<KillRing>, k: int)
    requires
        rings.len() > 0,
        0 <= k < rings.len(),
        k <= rings[0].entries@.len(),
        rings[0].wf(),
        rings[0].entries@.len() > 0,
        forall|i: int| 0 <= i < rings.len() - 1 ==> #[trigger] is_popped_at(rings, i),
    ensures
        rings[k].entries == rings[0].entries,
        rings[k].current_index == if k <= rings[0].current_index {
            rings[0].current_index - k
        } else {
            rings[0].current_index - k + rings[0].entries@.len()
        },
    decreases k,
{
    if k > 0 {
        pops_count(rings, k - 1);
        assert(is_popped_at(rings, k - 1));
        assert(rings[0].entries.len() == rings[0].entries@.len());
    }
}

/// Popping goes through all entries, each older than the one before, and from the
/// oldest to the latest: after as many pops as there are entries it is back where
/// it was.
pub proof fn popping_leads_back(rings: Seq<KillRing>, k: int)
    requires
        rings.len() > 0,
        rings[0].wf(),
        rings[0].entries@.len() > 0,
        rings.len() == rings[0].entries@.len() + 1,
        forall|i: int| 0 <= i < rings.len() - 1 ==> #[trigger] is_popped_at(rings, i),
        0 < k < rings[0].entries@.len(),
    ensures
        rings.last().current_index == rings[0].current_index,
        rings.last().entries == rings[0].entries,
        rings[k].current_index != rings[0].current_index,
        rings[0].current_index > 0 ==> rings[1].current_index == rings[0].current_index - 1,
{
    pops_count(rings, rings[0].entries@.len() as int);
    pops_count(rings, k);
    pops_count(rings, 1);
}

} // verus!
