//! The text of a buffer: a rope, and the lines that its characters make.

use ropey::Rope;
use vstd::prelude::*;

verus! {

#[verifier::external_type_specification]
#[verifier::external_body]
pub struct ExRope(Rope);

/// The characters that a rope holds.
pub uninterp spec fn rope_text(r: Rope) -> Seq<char>;

/// The characters that end a line: LF, VT, FF, CR, NEL and the two Unicode
/// separators.
pub open spec fn is_break_char(c: char) -> bool {
    ||| 0x0a <= c as u32 <= 0x0d
    ||| c as u32 == 0x85
    ||| c as u32 == 0x2028
    ||| c as u32 == 0x2029
}

/// Whether a line of `t` ends with the character at `i`. In a CR LF pair only
/// the LF ends the line.
pub open spec fn ends_line(t: Seq<char>, i: int) -> bool {
    &&& 0 <= i < t.len()
    &&& is_break_char(t[i])
    &&& !(t[i] == '\r' && i + 1 < t.len() && t[i + 1] == '\n')
}

/// The index of the line that position `pos` of `t` is on: the number of lines
/// that end in front of it.
pub open spec fn line_of(t: Seq<char>, pos: int) -> nat
    decreases pos,
{
    if pos <= 0 {
        0
    } else {
        line_of(t, pos - 1) + if ends_line(t, pos - 1) {
            1nat
        } else {
            0nat
        }
    }
}

/// The number of lines of `t`. What follows the last line end is a line too.
pub open spec fn line_count(t: Seq<char>) -> nat {
    line_of(t, t.len() as int) + 1
}

/// The first position at or behind `from` that is on line `line` or a later
/// one; the end of `t` where there is none.
pub open spec fn first_on_line(t: Seq<char>, line: int, from: int) -> int
    decreases t.len() - from,
{
    if from >= t.len() {
        t.len() as int
    } else if line_of(t, from) >= line {
        from
    } else {
        first_on_line(t, line, from + 1)
    }
}

/// Where line `line` of `t` starts; the end of `t` for a line behind the last.
pub open spec fn line_start(t: Seq<char>, line: int) -> int {
    first_on_line(t, line, 0)
}

/// Line `line` of `t`, with the characters that end it.
pub open spec fn line_text(t: Seq<char>, line: int) -> Seq<char> {
    t.subrange(line_start(t, line), line_start(t, line + 1))
}

/// Later positions are on the same line or a later one, at most one per step.
pub proof fn line_of_monotonic(t: Seq<char>, a: int, b: int)
    requires
        a <= b,
    ensures
        line_of(t, a) <= line_of(t, b),
        0 <= a ==> line_of(t, b) <= line_of(t, a) + (b - a),
    decreases b - a,
{
    if a < b {
        line_of_monotonic(t, a, b - 1);
    }
}

proof fn first_on_line_facts(t: Seq<char>, line: int, from: int)
    requires
        0 <= from <= t.len(),
        forall|p: int| 0 <= p < from ==> #[trigger] line_of(t, p) < line,
    ensures
        from <= first_on_line(t, line, from) <= t.len(),
        line <= line_of(t, t.len() as int) ==> line_of(t, first_on_line(t, line, from)) >= line,
        forall|p: int| 0 <= p < first_on_line(t, line, from) ==> #[trigger] line_of(t, p) < line,
    decreases t.len() - from,
{
    if from < t.len() && line_of(t, from) < line {
        first_on_line_facts(t, line, from + 1);
    }
}

/// A line starts at its first position: it is on the line, and no position
/// before it is.
pub proof fn line_start_facts(t: Seq<char>, line: int)
    requires
        0 <= line,
    ensures
        0 <= line_start(t, line) <= t.len(),
        line < line_count(t) ==> line_of(t, line_start(t, line)) == line,
        line >= line_count(t) ==> line_start(t, line) == t.len(),
        forall|p: int| 0 <= p < line_start(t, line) ==> #[trigger] line_of(t, p) < line,
{
    first_on_line_facts(t, line, 0);
    let s = line_start(t, line);
    if line < line_count(t) {
        if s > 0 {
            assert(line_of(t, s - 1) < line);
        }
    } else if s < t.len() {
        first_on_line_reached(t, line, 0);
        line_of_monotonic(t, s, t.len() as int);
    }
}

proof fn first_on_line_reached(t: Seq<char>, line: int, from: int)
    requires
        0 <= from <= t.len(),
    ensures
        first_on_line(t, line, from) < t.len() ==> line_of(t, first_on_line(t, line, from))
            >= line,
    decreases t.len() - from,
{
    if from < t.len() && line_of(t, from) < line {
        first_on_line_reached(t, line, from + 1);
    }
}

/// A position lies between the start of its line and the start of the next.
pub proof fn position_within_line(t: Seq<char>, pos: int)
    requires
        0 <= pos <= t.len(),
    ensures
        line_of(t, pos) < line_count(t),
        line_start(t, line_of(t, pos) as int) <= pos,
        line_of(t, pos) + 1 < line_count(t) ==> pos < line_start(
            t,
            (line_of(t, pos) + 1) as int,
        ),
{
    let line = line_of(t, pos) as int;
    line_of_monotonic(t, pos, t.len() as int);
    line_start_facts(t, line);
    line_start_facts(t, line + 1);
    if line_start(t, line) > pos {
        assert(line_of(t, pos) < line);
    }
    if line + 1 < line_count(t) && line_start(t, line + 1) <= pos {
        line_of_monotonic(t, line_start(t, line + 1), pos);
    }
}

/// Lines start in order, and every line but the last holds its line end.
pub proof fn line_starts_increase(t: Seq<char>, line: int)
    requires
        0 <= line,
    ensures
        line_start(t, line) <= line_start(t, line + 1),
        line + 1 < line_count(t) ==> line_start(t, line) < line_start(t, line + 1),
{
    line_start_facts(t, line);
    line_start_facts(t, line + 1);
    if line < line_count(t) {
        position_within_line(t, line_start(t, line));
    }
}

/// `Rope::new` makes an empty rope.
#[verifier::external_body]
pub(crate) fn rope_new() -> (r: Rope)
    ensures
        rope_text(r) == Seq::<char>::empty(),
{
    Rope::new()
}

/// `Rope::from_str` makes a rope that holds the characters of `text`.
#[verifier::external_body]
pub(crate) fn rope_from_str(text: &str) -> (r: Rope)
    ensures
        rope_text(r) == text@,
{
    Rope::from_str(text)
}

/// `Rope::len_chars` counts the characters.
#[verifier::external_body]
pub(crate) fn rope_len_chars(r: &Rope) -> (n: usize)
    ensures
        n == rope_text(*r).len(),
{
    r.len_chars()
}

/// `Rope::len_lines` counts the line breaks (Unicode line breaks, CR LF as one)
/// and adds one.
#[verifier::external_body]
pub(crate) fn rope_len_lines(r: &Rope) -> (n: usize)
    ensures
        n == line_count(rope_text(*r)),
{
    r.len_lines()
}

/// `Rope::char_to_line` counts the line breaks in front of a character; behind
/// the last character it gives the last line. It panics past the end.
#[verifier::external_body]
pub(crate) fn rope_char_to_line(r: &Rope, pos: usize) -> (line: usize)
    requires
        pos <= rope_text(*r).len(),
    ensures
        line == line_of(rope_text(*r), pos as int),
{
    r.char_to_line(pos)
}

/// `Rope::line_to_char` gives the first character of a line; for the line
/// behind the last one, the end. It panics past that.
#[verifier::external_body]
pub(crate) fn rope_line_to_char(r: &Rope, line: usize) -> (pos: usize)
    requires
        line <= line_count(rope_text(*r)),
    ensures
        pos == line_start(rope_text(*r), line as int),
{
    r.line_to_char(line)
}

/// `Rope::char` gives the character at an index. It panics past the end.
#[verifier::external_body]
pub(crate) fn rope_char(r: &Rope, pos: usize) -> (c: char)
    requires
        pos < rope_text(*r).len(),
    ensures
        c == rope_text(*r)[pos as int],
{
    r.char(pos)
}

/// `Rope::slice`, written to a string: the characters from `start` up to `end`.
/// It panics where the range is reversed or ends past the end.
#[verifier::external_body]
pub(crate) fn rope_slice(r: &Rope, start: usize, end: usize) -> (s: String)
    requires
        start <= end <= rope_text(*r).len(),
    ensures
        s@ == rope_text(*r).subrange(start as int, end as int),
{
    r.slice(start..end).to_string()
}

/// `Rope::line`, written to a string: a line with its line break. It panics
/// where there is no such line.
#[verifier::external_body]
pub(crate) fn rope_line(r: &Rope, line: usize) -> (s: String)
    requires
        line < line_count(rope_text(*r)),
    ensures
        s@ == line_text(rope_text(*r), line as int),
{
    r.line(line).to_string()
}

/// `Rope::insert` puts `text` in front of the character at `pos`. It panics
/// past the end.
#[verifier::external_body]
pub(crate) fn rope_insert(r: &mut Rope, pos: usize, text: &str)
    requires
        pos <= rope_text(*old(r)).len(),
    ensures
        rope_text(*final(r)) == crate::undo::spliced(rope_text(*old(r)), pos as int, text@),
{
    r.insert(pos, text)
}

/// `Rope::remove` takes out the characters from `start` up to `end`. It panics
/// where the range is reversed or ends past the end.
#[verifier::external_body]
pub(crate) fn rope_remove(r: &mut Rope, start: usize, end: usize)
    requires
        start <= end <= rope_text(*old(r)).len(),
    ensures
        rope_text(*final(r)) == crate::undo::cut(rope_text(*old(r)), start as int, end as int),
{
    r.remove(start..end)
}

/// `Rope`'s `Display` writes all of its characters.
#[verifier::external_body]
pub(crate) fn rope_to_string(r: &Rope) -> (s: String)
    ensures
        s@ == rope_text(*r),
{
    r.to_string()
}

} // verus!
