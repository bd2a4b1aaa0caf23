//! The values that policy code hands over, as plain values.

use vstd::prelude::*;
use vstd::string::*;

use crate::text::{byte_len, str_eq};
use crate::text;

verus! {

/// The name of an object of the policy code.
#[derive(Debug, Clone, Copy, PartialEq, Eq, Structural, Hash)]
pub struct Identity(pub u64);

/// A value of the policy code.
#[derive(Debug)]
pub enum Value {
    Nothing,
    Bool(bool),
    Int(i64),
    /// The bits of a single-precision number.
    Float(u32),
    Text(String),
    Bytes(Vec<u8>),
    Symbol(String),
    Identity(Identity),
    List(Vec<Value>),
    Table(Vec<ValueEntry>),
}

/// An entry of a table.
#[derive(Debug)]
pub struct ValueEntry {
    pub key: Value,
    pub value: Value,
}

/// The value of the first entry whose key is a symbol.
pub open spec fn entry_named(entries: Seq<ValueEntry>, name: Seq<char>) -> Option<Value>
    decreases entries.len(),
{
    if entries.len() == 0 {
        None
    } else if entries[0].key matches Value::Symbol(s) && s@ == name {
        Some(entries[0].value)
    } else {
        entry_named(entries.skip(1), name)
    }
}

impl Value {
    /// The value under a symbol, where this is a table.
    pub open spec fn field(&self, name: Seq<char>) -> Option<Value> {
        match self {
            Value::Table(entries) => entry_named(entries@, name),
            _ => None,
        }
    }

    /// The value under a symbol, where this is a table.
    pub fn get(&self, name: &str) -> (r: Option<&Value>)
        ensures
            match r {
                Some(v) => self.field(name@) == Some(*v),
                None => self.field(name@) is None,
            },
    {
        match self {
            Value::Table(entries) => {
                let mut i: usize = 0;
                assert(entries@.skip(0) =~= entries@);
                while i < entries.len()
                    invariant
                        i <= entries@.len(),
                        *self == Value::Table(*entries),
                        entry_named(entries@, name@) == entry_named(
                            entries@.skip(i as int),
                            name@,
                        ),
                    decreases entries.len() - i,
                {
                    assert(entries@.skip(i as int)[0] == entries@[i as int]);
                    assert(entries@.skip(i as int).skip(1) =~= entries@.skip(i + 1));
                    match &entries[i].key {
                        Value::Symbol(s) => {
                            if str_eq(s.as_str(), name) {
                                return Some(&entries[i].value);
                            }
                        },
                        _ => (),
                    }
                    i = i + 1;
                }
                None
            },
            _ => None,
        }
    }

    pub open spec fn text(&self) -> Option<Seq<char>> {
        match self {
            Value::Text(s) => Some(s@),
            _ => None,
        }
    }

    pub open spec fn symbol(&self) -> Option<Seq<char>> {
        match self {
            Value::Symbol(s) => Some(s@),
            _ => None,
        }
    }

    pub open spec fn identity(&self) -> Option<Identity> {
        match self {
            Value::Identity(id) => Some(*id),
            _ => None,
        }
    }

    pub open spec fn number(&self) -> Option<i64> {
        match self {
            Value::Int(n) => Some(*n),
            _ => None,
        }
    }

    pub open spec fn elements(&self) -> Option<Seq<Value>> {
        match self {
            Value::List(items) => Some(items@),
            _ => None,
        }
    }

    pub fn as_text(&self) -> (r: Option<&String>)
        ensures
            match r {
                Some(s) => self.text() == Some(s@),
                None => self.text() is None,
            },
    {
        match self {
            Value::Text(s) => Some(s),
            _ => None,
        }
    }

    pub fn as_symbol(&self) -> (r: Option<&String>)
        ensures
            match r {
                Some(s) => self.symbol() == Some(s@),
                None => self.symbol() is None,
            },
    {
        match self {
            Value::Symbol(s) => Some(s),
            _ => None,
        }
    }

    pub fn as_identity(&self) -> (r: Option<Identity>)
        ensures
            r == self.identity(),
    {
        match self {
            Value::Identity(id) => Some(*id),
            _ => None,
        }
    }

    pub fn as_int(&self) -> (r: Option<i64>)
        ensures
            r == self.number(),
    {
        match self {
            Value::Int(n) => Some(*n),
            _ => None,
        }
    }

    /// The number, where it is none below 0 and can be a position.
    pub open spec fn position(&self) -> Option<usize> {
        match self {
            Value::Int(n) if 0 <= *n <= usize::MAX => Some(*n as usize),
            _ => None,
        }
    }

    pub fn as_position(&self) -> (r: Option<usize>)
        ensures
            r == self.position(),
    {
        match self {
            Value::Int(n) => {
                if *n >= 0 && (*n as u64) <= (usize::MAX as u64) {
                    Some(*n as usize)
                } else {
                    None
                }
            },
            _ => None,
        }
    }

    pub fn as_list(&self) -> (r: Option<&Vec<Value>>)
        ensures
            match r {
                Some(items) => self.elements() == Some(items@) && *self == Value::List(*items),
                None => self.elements() is None,
            },
    {
        match self {
            Value::List(items) => Some(items),
            _ => None,
        }
    }
}

/// The bytes that a value counts for by itself, without what is in it.
pub const VALUE_BYTES: usize = 8;

/// How deep values may be nested.
pub const MAX_VALUE_DEPTH: usize = 32;

/// What is wrong with the size of a value.
#[derive(Debug, Clone, Copy, PartialEq, Eq, Structural)]
pub enum SizeFault {
    TooDeep,
    TooLarge,
}

/// The bytes that a value counts for by itself.
pub open spec fn own_bytes(value: Value) -> nat {
    match value {
        Value::Text(s) => text::utf8_len(s@),
        Value::Bytes(b) => b@.len(),
        _ => VALUE_BYTES as nat,
    }
}

/// What remains of a budget of bytes once a value is counted, with all that is
/// in it; or the first fault.
pub open spec fn left_of(value: Value, budget: int, depth: int) -> Result<int, SizeFault>
    decreases value,
{
    if depth > MAX_VALUE_DEPTH {
        Err(SizeFault::TooDeep)
    } else if own_bytes(value) > budget {
        Err(SizeFault::TooLarge)
    } else {
        let rest = budget - own_bytes(value);
        match value {
            Value::List(items) => left_of_list(items@, rest, depth + 1),
            Value::Table(entries) => left_of_table(entries@, rest, depth + 1),
            _ => Ok(rest),
        }
    }
}

pub open spec fn left_of_list(items: Seq<Value>, budget: int, depth: int) -> Result<int, SizeFault>
    decreases items,
{
    if items.len() == 0 {
        Ok(budget)
    } else {
        match left_of(items[0], budget, depth) {
            Ok(rest) => left_of_list(items.skip(1), rest, depth),
            Err(f) => Err(f),
        }
    }
}

pub open spec fn left_of_table(entries: Seq<ValueEntry>, budget: int, depth: int) -> Result<
    int,
    SizeFault,
>
    decreases entries,
{
    if entries.len() == 0 {
        Ok(budget)
    } else {
        match left_of(entries[0].key, budget, depth) {
            Ok(rest) => match left_of(entries[0].value, rest, depth) {
                Ok(rest) => left_of_table(entries.skip(1), rest, depth),
                Err(f) => Err(f),
            },
            Err(f) => Err(f),
        }
    }
}

/// What remains of a budget of bytes once a value is counted.
pub fn measure(value: &Value, budget: usize, depth: usize) -> (r: Result<usize, SizeFault>)
    ensures
        match left_of(*value, budget as int, depth as int) {
            Ok(rest) => r matches Ok(n) && n == rest && n <= budget,
            Err(f) => r == Err::<usize, SizeFault>(f),
        },
    decreases value,
{
    if depth > MAX_VALUE_DEPTH {
        return Err(SizeFault::TooDeep);
    }
    let own = match value {
        Value::Text(s) => byte_len(s.as_str()),
        Value::Bytes(b) => b.len(),
        _ => VALUE_BYTES,
    };
    if own > budget {
        return Err(SizeFault::TooLarge);
    }
    let mut rest = budget - own;
    match value {
        Value::List(items) => {
            let mut i: usize = 0;
            assert(items@.skip(0) =~= items@);
            while i < items.len()
                invariant
                    i <= items@.len(),
                    depth <= MAX_VALUE_DEPTH,
                    rest <= budget,
                    *value == Value::List(*items),
                    own_bytes(*value) <= budget,
                    left_of(*value, budget as int, depth as int) == left_of_list(
                        items@.skip(i as int),
                        rest as int,
                        depth + 1,
                    ),
                decreases items.len() - i,
            {
                assert(items@.skip(i as int)[0] == items@[i as int]);
                assert(items@.skip(i as int).skip(1) =~= items@.skip(i + 1));
                proof {
                    inside_is_smaller(*value);
                }
                match measure(&items[i], rest, depth + 1) {
                    Ok(n) => {
                        rest = n;
                    },
                    Err(f) => {
                        return Err(f);
                    },
                }
                i = i + 1;
            }
            Ok(rest)
        },
        Value::Table(entries) => {
            let mut i: usize = 0;
            assert(entries@.skip(0) =~= entries@);
            while i < entries.len()
                invariant
                    i <= entries@.len(),
                    depth <= MAX_VALUE_DEPTH,
                    rest <= budget,
                    *value == Value::Table(*entries),
                    own_bytes(*value) <= budget,
                    left_of(*value, budget as int, depth as int) == left_of_table(
                        entries@.skip(i as int),
                        rest as int,
                        depth + 1,
                    ),
                decreases entries.len() - i,
            {
                assert(entries@.skip(i as int)[0] == entries@[i as int]);
                assert(entries@.skip(i as int).skip(1) =~= entries@.skip(i + 1));
                proof {
                    inside_is_smaller(*value);
                }
                match measure(&entries[i].key, rest, depth + 1) {
                    Ok(n) => {
                        rest = n;
                    },
                    Err(f) => {
                        return Err(f);
                    },
                }
                match measure(&entries[i].value, rest, depth + 1) {
                    Ok(n) => {
                        rest = n;
                    },
                    Err(f) => {
                        return Err(f);
                    },
                }
                i = i + 1;
            }
            Ok(rest)
        },
        _ => Ok(rest),
    }
}

proof fn inside_is_smaller(value: Value)
    ensures
        value matches Value::List(items) ==> forall|i: int|
            0 <= i < items@.len() ==> decreases_to!(value => #[trigger] items@[i]),
        value matches Value::Table(entries) ==> forall|i: int|
            #![trigger entries@[i]]
            0 <= i < entries@.len() ==> decreases_to!(value => entries@[i].key)
                && decreases_to!(value => entries@[i].value),
{
}

} // verus!
