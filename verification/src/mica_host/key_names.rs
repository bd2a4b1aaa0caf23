//! How keys are spelled in key maps.

use vstd::prelude::*;
use vstd::string::*;

use crate::keys::LogicalKey;
use crate::text;
use crate::text::{char_to_uppercase, join_lines, str_eq};

verus! {

/// Where the modifiers end that stand at `from`.
pub open spec fn after_modifiers(keys: Seq<LogicalKey>, from: int) -> int
    decreases keys.len() - from,
{
    if 0 <= from < keys.len() && keys[from] is Modifier {
        after_modifiers(keys, from + 1)
    } else {
        from
    }
}

/// What keys are called, one by one.
pub open spec fn spelled(keys: Seq<LogicalKey>) -> Seq<Seq<char>> {
    keys.map_values(|k: LogicalKey| k.display_name())
}

/// How a key with modifiers in front of it is spelled. A letter with the shift
/// key alone is the letter in upper case.
pub open spec fn chord(modifiers: Seq<LogicalKey>, key: LogicalKey) -> Seq<char> {
    let name = if key == LogicalKey::AlphaNumeric(' ') {
        if modifiers.len() == 0 {
            " "@
        } else {
            "Space"@
        }
    } else {
        key.display_name()
    };
    if modifiers.len() == 1 && modifiers[0].display_name() == "S"@ && key is AlphaNumeric {
        text::char_uppercase(key->AlphaNumeric_0)
    } else if modifiers.len() == 0 {
        name
    } else {
        text::joined(spelled(modifiers).push(name), "-"@)
    }
}

/// How the keys from `from` on are spelled: each key with the modifiers in front
/// of it, and modifiers without a key one by one.
pub open spec fn chords(keys: Seq<LogicalKey>, from: int) -> Seq<Seq<char>>
    decreases keys.len() - from,
    via chords_end
{
    let end = after_modifiers(keys, from);
    if from < 0 || from >= keys.len() {
        seq![]
    } else if end >= keys.len() {
        spelled(keys.subrange(from, end))
    } else {
        seq![chord(keys.subrange(from, end), keys[end])] + chords(keys, end + 1)
    }
}

#[via_fn]
proof fn chords_end(keys: Seq<LogicalKey>, from: int) {
    after_modifiers_bounds(keys, from);
}

proof fn after_modifiers_bounds(keys: Seq<LogicalKey>, from: int)
    ensures
        after_modifiers(keys, from) >= from,
        0 <= from <= keys.len() ==> after_modifiers(keys, from) <= keys.len(),
    decreases keys.len() - from,
{
    if 0 <= from < keys.len() && keys[from] is Modifier {
        after_modifiers_bounds(keys, from + 1);
    }
}

fn key_name(key: &LogicalKey, alone: bool) -> (r: String)
    ensures
        r@ == if *key == LogicalKey::AlphaNumeric(' ') {
            if alone {
                " "@
            } else {
                "Space"@
            }
        } else {
            key.display_name()
        },
{
    match key {
        LogicalKey::AlphaNumeric(c) => {
            if *c == ' ' {
                if alone {
                    " ".to_owned()
                } else {
                    "Space".to_owned()
                }
            } else {
                key.as_display_string()
            }
        },
        _ => key.as_display_string(),
    }
}

/// How a sequence of keys is spelled in key maps.
pub fn normalized_key_sequence(keys: &[LogicalKey]) -> (r: String)
    ensures
        r@ == text::joined(chords(keys@, 0), " "@),
{
    let mut result: Vec<String> = Vec::new();
    let mut index: usize = 0;
    assert(text::views(result@) =~= seq![]);
    assert(seq![] + chords(keys@, 0) =~= chords(keys@, 0));
    while index < keys.len()
        invariant
            index <= keys@.len(),
            text::views(result@) + chords(keys@, index as int) == chords(keys@, 0),
        decreases keys.len() - index,
    {
        let start = index;
        let ghost before = text::views(result@);
        let mut modifiers: Vec<String> = Vec::new();
        assert(text::views(modifiers@) =~= spelled(keys@.subrange(start as int, start as int)));
        while index < keys.len() && matches!(keys[index], LogicalKey::Modifier(_))
            invariant
                start <= index <= keys@.len(),
                after_modifiers(keys@, start as int) == after_modifiers(keys@, index as int),
                text::views(modifiers@) == spelled(keys@.subrange(start as int, index as int)),
            decreases keys.len() - index,
        {
            let ghost so_far = text::views(modifiers@);
            let ghost held = keys@.subrange(start as int, index as int);
            modifiers.push(keys[index].as_display_string());
            proof {
                let key = keys@[index as int];
                assert(text::views(modifiers@) =~= so_far.push(key.display_name()));
                assert(keys@.subrange(start as int, index + 1) =~= held.push(key));
                assert(spelled(held.push(key)) =~= spelled(held).push(key.display_name()));
            }
            index = index + 1;
        }
        assert(modifiers@.len() == text::views(modifiers@).len());
        assert(modifiers@.len() == index - start);
        if index == keys.len() {
            let ghost mods = text::views(modifiers@);
            result.append(&mut modifiers);
            assert(text::views(result@) =~= before + mods);
            assert(text::views(result@) =~= chords(keys@, 0));
            return join_lines(&result, " ");
        }
        let key = keys[index];
        index = index + 1;
        let ghost held = keys@.subrange(start as int, index - 1);
        let shifted = modifiers.len() == 1 && str_eq(modifiers[0].as_str(), "S");
        let name = match key {
            LogicalKey::AlphaNumeric(c) if shifted => char_to_uppercase(c),
            _ => {
                let name = key_name(&key, modifiers.len() == 0);
                if modifiers.len() == 0 {
                    name
                } else {
                    let ghost mods = text::views(modifiers@);
                    modifiers.push(name);
                    assert(text::views(modifiers@) =~= mods.push(name@));
                    join_lines(&modifiers, "-")
                }
            },
        };
        proof {
            if held.len() == 1 {
                assert(spelled(held)[0] == held[0].display_name());
            }
            assert(name@ == chord(held, key));
        }
        result.push(name);
        assert(text::views(result@) =~= before.push(name@));
        assert(before + (seq![name@] + chords(keys@, index as int)) =~= before.push(name@)
            + chords(keys@, index as int));
    }
    assert(chords(keys@, index as int) =~= seq![]);
    assert(text::views(result@) =~= chords(keys@, 0));
    join_lines(&result, " ")
}

} // verus!
