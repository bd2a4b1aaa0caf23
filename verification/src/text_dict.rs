//! Small dictionaries from text to text.

use vstd::prelude::*;
use vstd::string::*;

use crate::text::str_eq;

verus! {

/// An entry of a dictionary.
#[derive(Debug, Clone, PartialEq, Eq)]
pub struct TextEntry {
    pub key: String,
    pub value: String,
}

/// A dictionary. Of entries with the same key, the last one counts.
#[derive(Debug, Clone, PartialEq, Eq)]
pub struct TextDict {
    pub entries: Vec<TextEntry>,
}

/// What entries come to.
pub open spec fn meaning(entries: Seq<TextEntry>) -> Map<Seq<char>, Seq<char>>
    decreases entries.len(),
{
    if entries.len() == 0 {
        Map::empty()
    } else {
        meaning(entries.drop_last()).insert(entries.last().key@, entries.last().value@)
    }
}

impl View for TextDict {
    type V = Map<Seq<char>, Seq<char>>;

    open spec fn view(&self) -> Map<Seq<char>, Seq<char>> {
        meaning(self.entries@)
    }
}

impl TextDict {
    pub fn new() -> (r: Self)
        ensures
            r@ == Map::<Seq<char>, Seq<char>>::empty(),
    {
        TextDict { entries: Vec::new() }
    }

    /// Gives a key a value.
    pub fn set(&mut self, key: &str, value: &str)
        ensures
            final(self)@ == old(self)@.insert(key@, value@),
    {
        let ghost before = self.entries@;
        self.entries.push(TextEntry { key: key.to_owned(), value: value.to_owned() });
        assert(self.entries@.drop_last() =~= before);
    }

    /// The value of a key.
    pub fn get(&self, key: &str) -> (r: Option<String>)
        ensures
            match r {
                Some(v) => self@.contains_key(key@) && v@ == self@[key@],
                None => !self@.contains_key(key@),
            },
    {
        let mut i: usize = self.entries.len();
        assert(self.entries@.take(i as int) =~= self.entries@);
        while i > 0
            invariant
                i <= self.entries@.len(),
                self@.contains_key(key@) == meaning(self.entries@.take(i as int)).contains_key(
                    key@,
                ),
                self@.contains_key(key@) ==> self@[key@] == meaning(
                    self.entries@.take(i as int),
                )[key@],
            decreases i,
        {
            assert(self.entries@.take(i as int).drop_last() =~= self.entries@.take(i - 1));
            i = i - 1;
            if str_eq(self.entries[i].key.as_str(), key) {
                return Some(self.entries[i].value.clone());
            }
        }
        None
    }

    /// Takes over the entries of another dictionary, which count where both
    /// have a key.
    pub fn take_over(&mut self, other: &TextDict)
        ensures
            final(self)@ == old(self)@.union_prefer_right(other@),
    {
        let ghost before = self@;
        let mut i: usize = 0;
        assert(other.entries@.take(0) =~= seq![]);
        assert(before.union_prefer_right(Map::empty()) =~= before);
        while i < other.entries.len()
            invariant
                i <= other.entries@.len(),
                self@ == before.union_prefer_right(meaning(other.entries@.take(i as int))),
            decreases other.entries.len() - i,
        {
            let ghost mid = self@;
            let ghost seen = other.entries@.take(i as int);
            assert(other.entries@.take(i + 1).drop_last() =~= seen);
            self.set(other.entries[i].key.as_str(), other.entries[i].value.as_str());
            assert(self@ =~= before.union_prefer_right(
                meaning(other.entries@.take(i + 1)),
            ));
            i = i + 1;
        }
        assert(other.entries@.take(i as int) =~= other.entries@);
    }
}

} // verus!
