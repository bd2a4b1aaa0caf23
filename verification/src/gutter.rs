//! The gutter: line numbers and line states beside a text.

use std::collections::HashSet;

use vstd::prelude::*;
use vstd::string::*;

use crate::text;
use crate::text::{decimal_len, decimal_string, space_len, starts_with_at, str_chars};

verus! {

broadcast use vstd::std_specs::hash::group_hash_axioms;

/// How a line stands to the version on disk.
#[derive(Debug, Clone, Copy, PartialEq, Eq, Structural)]
pub enum LineStatus {
    /// As on disk.
    Clean,
    /// Changed here and not saved.
    Modified,
    /// Merged in and not saved yet.
    ModifiedSaved,
    /// Holds a conflict marker.
    Conflict,
}

/// What is shown in the gutter beside a line.
#[derive(Debug, Clone, Copy, PartialEq, Eq, Structural)]
pub struct GutterLine {
    /// Line number, from 1 on.
    pub line_number: usize,
    pub status: LineStatus,
}

/// What the gutter shows.
#[derive(Debug, Clone, Copy, PartialEq, Eq, Structural)]
pub struct GutterConfig {
    pub show_line_numbers: bool,
    pub show_status: bool,
    /// The least width of the line numbers, in characters.
    pub min_line_number_width: usize,
}

impl Default for GutterConfig {
    fn default() -> (c: Self)
        ensures
            c == (GutterConfig {
                show_line_numbers: true,
                show_status: true,
                min_line_number_width: 3,
            }),
    {
        GutterConfig { show_line_numbers: true, show_status: true, min_line_number_width: 3 }
    }
}

/// The width of the gutter: one character for the line state, the line number
/// with as many digits as the last one needs, and one that separates.
pub open spec fn gutter_width(total_lines: nat, config: GutterConfig) -> int {
    let digits = text::decimal(total_lines).len() as int;
    let min = config.min_line_number_width as int;
    if !config.show_line_numbers && !config.show_status {
        0
    } else {
        (if config.show_status {
            1int
        } else {
            0
        }) + (if config.show_line_numbers {
            if digits >= min {
                digits
            } else {
                min
            }
        } else {
            0
        }) + 1
    }
}

/// The width of the gutter in characters.
pub fn calculate_gutter_width(total_lines: usize, config: &GutterConfig) -> (width: usize)
    requires
        config.min_line_number_width <= usize::MAX - 2,
    ensures
        width == gutter_width(total_lines as nat, *config),
{
    if !config.show_line_numbers && !config.show_status {
        return 0;
    }
    let mut width: usize = 0;
    if config.show_status {
        width = width + 1;
    }
    if config.show_line_numbers {
        let digits = decimal_len(total_lines as u64);
        if digits >= config.min_line_number_width {
            width = width + digits;
        } else {
            width = width + config.min_line_number_width;
        }
    }
    width + 1
}

/// Whether a line is a conflict marker, but for white space in front.
pub open spec fn is_conflict_marker(line: Seq<char>) -> bool {
    let trimmed = text::trimmed_start(line);
    ||| text::starts_with(trimmed, "<<<<<<<"@)
    ||| text::starts_with(trimmed, "======="@)
    ||| text::starts_with(trimmed, ">>>>>>>"@)
}

/// The state of a line: conflict markers first, then merged lines, then lines
/// changed here.
pub open spec fn status_of(line: Seq<char>, modified: bool, merged: bool) -> LineStatus {
    if is_conflict_marker(line) {
        LineStatus::Conflict
    } else if merged {
        LineStatus::ModifiedSaved
    } else if modified {
        LineStatus::Modified
    } else {
        LineStatus::Clean
    }
}

/// The state of a line: conflict markers first, then merged lines, then lines
/// changed here.
pub fn get_line_status(
    line_content: &str,
    line_index: usize,
    modified_lines: &HashSet<usize>,
    merged_lines: &HashSet<usize>,
) -> (r: LineStatus)
    ensures
        r == status_of(
            line_content@,
            modified_lines@.contains(line_index),
            merged_lines@.contains(line_index),
        ),
{
    let chars = str_chars(line_content);
    let from = space_len(&chars);
    let local = str_chars("<<<<<<<");
    let middle = str_chars("=======");
    let external = str_chars(">>>>>>>");
    if starts_with_at(&chars, from, &local) || starts_with_at(&chars, from, &middle)
        || starts_with_at(&chars, from, &external) {
        return LineStatus::Conflict;
    }
    if merged_lines.contains(&line_index) {
        return LineStatus::ModifiedSaved;
    }
    if modified_lines.contains(&line_index) {
        return LineStatus::Modified;
    }
    LineStatus::Clean
}

/// `n` in decimal, with blanks in front up to `width` characters.
pub open spec fn right_aligned(n: nat, width: nat) -> Seq<char> {
    let digits = text::decimal(n);
    if digits.len() >= width {
        digits
    } else {
        Seq::new((width - digits.len()) as nat, |i: int| ' ') + digits
    }
}

/// A line number, right-aligned.
pub fn format_line_number(line_number: usize, width: usize) -> (r: String)
    ensures
        r@ == right_aligned(line_number as nat, width as nat),
{
    let digits = decimal_string(line_number as u64);
    let len = decimal_len(line_number as u64);
    let mut r = String::new();
    let mut i: usize = len;
    while i < width
        invariant
            len <= i,
            i <= width || len >= width && i == len,
            r@ == Seq::new((i - len) as nat, |j: int| ' '),
        decreases width - i,
    {
        r.push(' ');
        i = i + 1;
        assert(r@ =~= Seq::new((i - len) as nat, |j: int| ' '));
    }
    r.append(digits.as_str());
    assert(r@ =~= right_aligned(line_number as nat, width as nat));
    r
}

/// A right-aligned number takes the width it is given, unless it needs more.
pub proof fn right_aligned_len(n: nat, width: nat)
    ensures
        right_aligned(n, width).len() == if text::decimal(n).len() >= width {
            text::decimal(n).len()
        } else {
            width
        },
{
}

} // verus!
