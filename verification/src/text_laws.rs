//! How numbers and lists of texts are written, and the gutter beside a text.

use vstd::prelude::*;
use vstd::string::*;

use crate::gutter;
use crate::gutter::{GutterConfig, LineStatus};
use crate::text;

verus! {

// --- Numbers ---

/// The number that digits stand for.
pub open spec fn number(digits: Seq<char>) -> int
    decreases digits.len(),
{
    if digits.len() == 0 {
        0
    } else {
        10 * number(digits.drop_last()) + (digits.last() as int - '0' as int)
    }
}

/// A number that is written stands for itself, in digits alone, and begins with
/// no needless zero.
pub proof fn written_numbers_stand_for_themselves(n: nat)
    ensures
        number(text::decimal(n)) == n,
        text::decimal(n).len() > 0,
        forall|i: int|
            0 <= i < text::decimal(n).len() ==> '0' <= #[trigger] text::decimal(n)[i] <= '9',
        n > 0 ==> text::decimal(n)[0] != '0',
    decreases n,
{
    let d = text::decimal(n);
    if n >= 10 {
        written_numbers_stand_for_themselves(n / 10);
        let front = text::decimal(n / 10);
        assert(d.drop_last() =~= front);
        assert forall|i: int| 0 <= i < d.len() implies '0' <= #[trigger] d[i] <= '9' by {
            if i < front.len() {
                assert(d[i] == front[i]);
            }
        }
        assert(d[0] == front[0]);
    } else {
        assert(d.drop_last() =~= seq![]);
        assert(number(d.drop_last()) == 0);
    }
}

/// Numbers that are written alike are the same.
pub proof fn numbers_are_told_apart(a: nat, b: nat)
    requires
        text::decimal(a) == text::decimal(b),
    ensures
        a == b,
{
    written_numbers_stand_for_themselves(a);
    written_numbers_stand_for_themselves(b);
}

// --- Lists ---

/// Texts that are joined stand one behind the other, and what separates them
/// between any two.
pub proof fn joined_texts_are_separated(front: Seq<Seq<char>>, last: Seq<char>, sep: Seq<char>)
    ensures
        text::joined(Seq::<Seq<char>>::empty(), sep).len() == 0,
        text::joined(seq![last], sep) == last,
        front.len() > 0 ==> text::joined(front.push(last), sep) == text::joined(front, sep) + sep
            + last,
{
    assert(front.push(last).drop_last() =~= front);
}

// --- The gutter ---

/// A line number stands at the right end of its place, with blanks in front of
/// it.
pub proof fn line_numbers_stand_at_the_right(n: nat, width: nat)
    ensures
        text::decimal(n).is_suffix_of(gutter::right_aligned(n, width)),
        gutter::right_aligned(n, width).len() >= width,
        forall|i: int|
            0 <= i < gutter::right_aligned(n, width).len() - text::decimal(n).len()
                ==> #[trigger] gutter::right_aligned(n, width)[i] == ' ',
{
    let all = gutter::right_aligned(n, width);
    let d = text::decimal(n);
    assert(all.subrange(all.len() - d.len(), all.len() as int) =~= d);
}

/// The gutter has room for the number of each line, for its state where that is
/// shown, and for a blank; where nothing is shown it has no width.
pub proof fn gutter_has_room_for_each_line(total: nat, line: nat, config: GutterConfig)
    requires
        line <= total,
    ensures
        config.show_line_numbers && config.show_status ==> text::decimal(line).len() + 2
            <= gutter::gutter_width(total, config),
        config.show_line_numbers && !config.show_status ==> text::decimal(line).len() + 1
            <= gutter::gutter_width(total, config),
        !config.show_line_numbers && config.show_status ==> gutter::gutter_width(total, config)
            == 2,
        !config.show_line_numbers && !config.show_status ==> gutter::gutter_width(total, config)
            == 0,
{
    lesser_numbers_are_shorter(line, total);
}

proof fn lesser_numbers_are_shorter(a: nat, b: nat)
    requires
        a <= b,
    ensures
        text::decimal(a).len() <= text::decimal(b).len(),
    decreases b,
{
    if a >= 10 {
        lesser_numbers_are_shorter(a / 10, b / 10);
    } else if b >= 10 {
        written_numbers_stand_for_themselves(b / 10);
    }
}

proof fn space_ends(s: Seq<char>, from: int, at: int)
    requires
        0 <= from <= at < s.len(),
        forall|i: int| from <= i < at ==> text::is_space(#[trigger] s[i]),
        !text::is_space(s[at]),
    ensures
        text::after_space(s, from) == at,
    decreases at - from,
{
    if from < at {
        assert(text::is_space(s[from]));
        space_ends(s, from + 1, at);
    }
}

/// A line that begins with seven of the marks of a conflict, behind white space
/// or not, is marked as one; a line that begins with anything but those marks is
/// not.
pub proof fn conflict_marks_are_seen(line: Seq<char>, at: int, c: char)
    requires
        0 <= at < line.len(),
        forall|i: int| 0 <= i < at ==> text::is_space(#[trigger] line[i]),
        line[at] == c,
        !text::is_space(c),
    ensures
        (c == '<' || c == '=' || c == '>') && at + 7 <= line.len() && (forall|i: int|
            at <= i < at + 7 ==> #[trigger] line[i] == c) ==> gutter::is_conflict_marker(line),
        c != '<' && c != '=' && c != '>' ==> !gutter::is_conflict_marker(line),
        line.len() < at + 7 ==> !gutter::is_conflict_marker(line),
{
    space_ends(line, 0, at);
    let t = text::trimmed_start(line);
    assert(t =~= line.subrange(at, line.len() as int));
    reveal_strlit("<<<<<<<");
    reveal_strlit("=======");
    reveal_strlit(">>>>>>>");
    assert(t[0] == c);
    if text::starts_with(t, "<<<<<<<"@) {
        assert(t.subrange(0, 7)[0] == t[0]);
    }
    if text::starts_with(t, "======="@) {
        assert(t.subrange(0, 7)[0] == t[0]);
    }
    if text::starts_with(t, ">>>>>>>"@) {
        assert(t.subrange(0, 7)[0] == t[0]);
    }
    if (c == '<' || c == '=' || c == '>') && at + 7 <= line.len() && (forall|i: int|
        at <= i < at + 7 ==> #[trigger] line[i] == c) {
        if c == '<' {
            assert(t.subrange(0, 7) =~= "<<<<<<<"@);
        } else if c == '=' {
            assert(t.subrange(0, 7) =~= "======="@);
        } else {
            assert(t.subrange(0, 7) =~= ">>>>>>>"@);
        }
    }
}

/// A line that begins with text and was neither changed nor merged is clean, a
/// merged one counts as merged, changed or not, and one that was only changed as
/// changed. The marks of a conflict count in any case.
pub proof fn lines_have_the_state_of_their_changes(
    line: Seq<char>,
    at: int,
    modified: bool,
    merged: bool,
)
    requires
        0 <= at,
        at + 7 <= line.len(),
        forall|i: int| 0 <= i < at ==> text::is_space(#[trigger] line[i]),
        !text::is_space(line[at]),
    ensures
        line[at] != '<' && line[at] != '=' && line[at] != '>' ==> {
            &&& gutter::status_of(line, modified, merged) != LineStatus::Conflict
            &&& merged <==> gutter::status_of(line, modified, merged) == LineStatus::ModifiedSaved
            &&& modified && !merged <==> gutter::status_of(line, modified, merged)
                == LineStatus::Modified
        },
        line[at] == '<' && (forall|i: int| at <= i < at + 7 ==> #[trigger] line[i] == '<')
            ==> gutter::status_of(line, modified, merged) == LineStatus::Conflict,
        line[at] == '=' && (forall|i: int| at <= i < at + 7 ==> #[trigger] line[i] == '=')
            ==> gutter::status_of(line, modified, merged) == LineStatus::Conflict,
        line[at] == '>' && (forall|i: int| at <= i < at + 7 ==> #[trigger] line[i] == '>')
            ==> gutter::status_of(line, modified, merged) == LineStatus::Conflict,
{
    conflict_marks_are_seen(line, at, line[at]);
}

/// The escaped form of a text is one line: it holds no newline. Written one after
/// the other, escaped texts are the escaped text; one without newlines stays as
/// it is, and a newline becomes a backslash and an n.
pub proof fn escaped_text_is_one_line(a: Seq<char>, b: Seq<char>)
    ensures
        !text::escaped_newlines(a).contains('\n'),
        text::escaped_newlines(a + b) == text::escaped_newlines(a) + text::escaped_newlines(b),
        !a.contains('\n') ==> text::escaped_newlines(a) == a,
        text::escaped_newlines(a.push('\n')) == text::escaped_newlines(a) + seq!['\\', 'n'],
    decreases a.len() + b.len(),
{
    assert(a.push('\n').drop_last() =~= a);
    if a.len() > 0 {
        escaped_text_is_one_line(a.drop_last(), seq![]);
        assert(!a.contains('\n') ==> !a.drop_last().contains('\n')) by {
            if a.drop_last().contains('\n') {
                let i = choose|i: int| 0 <= i < a.len() - 1 && a.drop_last()[i] == '\n';
                assert(a[i] == '\n');
            }
        }
        assert(a[a.len() - 1] == a.last());
        assert(a.drop_last().push(a.last()) =~= a);
        let front = text::escaped_newlines(a.drop_last());
        assert(text::escaped_newlines(a) == if a.last() == '\n' {
            front + seq!['\\', 'n']
        } else {
            front.push(a.last())
        });
        assert forall|i: int| 0 <= i < text::escaped_newlines(a).len() implies text::escaped_newlines(
            a,
        )[i] != '\n' by {
            if i < front.len() {
                assert(front.contains(front[i]));
            }
        }
    }
    if b.len() > 0 {
        escaped_text_is_one_line(a, b.drop_last());
        assert((a + b).drop_last() =~= a + b.drop_last());
        assert(text::escaped_newlines(a + b) =~= text::escaped_newlines(a)
            + text::escaped_newlines(b));
    } else {
        assert(a + b =~= a);
        assert(text::escaped_newlines(a) + text::escaped_newlines(b) =~= text::escaped_newlines(a));
    }
}

} // verus!
