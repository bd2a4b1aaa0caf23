//! Watching files for changes from outside, and merging such changes with
//! those made here.

use std::collections::HashMap;

use similar::{ChangeTag, TextDiff};
use vstd::prelude::*;
use vstd::string::*;

use crate::ids::BufferId;
use crate::merge_laws;
use crate::text;
use crate::text::{
    char_count, decimal_string, ends_with_newline, join_lines, split_lines, str_eq,
    trim_newlines,
};

verus! {

broadcast use vstd::std_specs::hash::group_hash_axioms;

/// A change of some lines of a text.
#[derive(Debug)]
pub struct LineChange {
    /// The first line.
    pub start_line: usize,
    /// The line behind the last.
    pub end_line: usize,
    /// What stands there now.
    pub new_lines: Vec<String>,
}

/// A line change as a mathematical value.
pub struct LineChangeView {
    pub start_line: int,
    pub end_line: int,
    pub new_lines: Seq<Seq<char>>,
}

impl View for LineChange {
    type V = LineChangeView;

    open spec fn view(&self) -> LineChangeView {
        LineChangeView {
            start_line: self.start_line as int,
            end_line: self.end_line as int,
            new_lines: text::views(self.new_lines@),
        }
    }
}

/// What became of changes on both sides.
#[derive(Debug)]
pub enum MergeResult {
    /// Nothing was changed here: the file is loaded again.
    CleanReload(String),
    /// Both sides' changes are in.
    Merged { content: String, message: String },
    /// Both sides' changes are in, with conflicts marked.
    MergedWithConflicts { content: String, conflict_count: usize },
    /// There is nothing to do.
    NoChange,
    /// The changes made here stay. `new_base` is what the disk holds now.
    LocalPreserved { new_base: String, message: String },
}

// --- Differences ---

/// On which side of a difference a line stands.
#[derive(Debug, Clone, Copy, PartialEq, Eq, Structural)]
pub enum DiffTag {
    Equal,
    Delete,
    Insert,
}

/// A line of a difference between two texts.
#[derive(Debug)]
pub struct DiffLine {
    pub tag: DiffTag,
    /// The line, with what ends it.
    pub value: String,
}

/// A line of a difference as a mathematical value.
pub struct DiffLineView {
    pub tag: DiffTag,
    pub value: Seq<char>,
}

impl View for DiffLine {
    type V = DiffLineView;

    open spec fn view(&self) -> DiffLineView {
        DiffLineView { tag: self.tag, value: self.value@ }
    }
}

/// The lines of a difference as mathematical values.
pub open spec fn diff_views(diff: Seq<DiffLine>) -> Seq<DiffLineView> {
    diff.map_values(|d: DiffLine| d@)
}

/// The lines of a difference with what ends them, without those on the side
/// `gone`.
pub open spec fn pieces_without(diff: Seq<DiffLineView>, gone: DiffTag) -> Seq<Seq<char>>
    decreases diff.len(),
{
    if diff.len() == 0 {
        seq![]
    } else if diff.last().tag == gone {
        pieces_without(diff.drop_last(), gone)
    } else {
        pieces_without(diff.drop_last(), gone).push(diff.last().value)
    }
}

/// The lines of a difference, without those on the side `gone`.
pub open spec fn lines_without(diff: Seq<DiffLineView>, gone: DiffTag) -> Seq<Seq<char>> {
    bare_lines(pieces_without(diff, gone))
}

/// The lines without the line feeds at their ends.
pub open spec fn bare_lines(pieces: Seq<Seq<char>>) -> Seq<Seq<char>> {
    pieces.map_values(|l: Seq<char>| text::without_newlines(l))
}

/// Whether a difference is one between two texts: without what came it is the
/// old one, and without what went it is the new one.
pub open spec fn is_between(
    diff: Seq<DiffLineView>,
    old_text: Seq<char>,
    new_text: Seq<char>,
) -> bool {
    &&& text::run_together(pieces_without(diff, DiffTag::Insert)) == old_text
    &&& text::run_together(pieces_without(diff, DiffTag::Delete)) == new_text
}

/// Whether a difference is one by lines: on each side a piece has its only line
/// feed at its end, and all but the last have a line feed or a carriage return
/// there.
pub open spec fn is_by_lines(diff: Seq<DiffLineView>) -> bool {
    &&& are_pieces(pieces_without(diff, DiffTag::Insert))
    &&& are_pieces(pieces_without(diff, DiffTag::Delete))
}

/// Whether texts are the lines of a text with what ends them.
pub open spec fn are_pieces(pieces: Seq<Seq<char>>) -> bool {
    &&& forall|i: int|
        0 <= i < pieces.len() ==> (#[trigger] pieces[i]).len() > 0
            && !pieces[i].drop_last().contains('\n')
    &&& forall|i: int|
        0 <= i < pieces.len() - 1 ==> (#[trigger] pieces[i]).last() == '\n' || pieces[i].last()
            == '\r'
}

/// Whether the lines of a difference are those of the two texts that it is
/// between.
pub open spec fn has_lines_of(
    diff: Seq<DiffLineView>,
    old_text: Seq<char>,
    new_text: Seq<char>,
) -> bool {
    &&& lines_without(diff, DiffTag::Insert) == text::lines_of(old_text)
    &&& lines_without(diff, DiffTag::Delete) == text::lines_of(new_text)
}

/// The difference by lines between two texts.
pub uninterp spec fn line_diff(old_text: Seq<char>, new_text: Seq<char>) -> Seq<DiffLineView>;

/// `TextDiff::from_lines` and `iter_all_changes`: the lines of both texts with
/// what ends them, in order, those on both sides once. A line ends behind a line
/// feed, a carriage return or both, or with its text.
#[verifier::external_body]
fn diff_lines(old_text: &str, new_text: &str) -> (r: Vec<DiffLine>)
    ensures
        diff_views(r@) == line_diff(old_text@, new_text@),
        is_between(diff_views(r@), old_text@, new_text@),
        is_by_lines(diff_views(r@)),
{
    TextDiff::from_lines(old_text, new_text).iter_all_changes().map(|change| DiffLine {
        tag: match change.tag() {
            ChangeTag::Equal => DiffTag::Equal,
            ChangeTag::Delete => DiffTag::Delete,
            ChangeTag::Insert => DiffTag::Insert,
        },
        value: change.value().to_string(),
    }).collect()
}

/// The changes gathered so far from a difference, the one that is still growing,
/// and how many lines of the old text have been passed.
pub struct Gathering {
    pub done: Seq<LineChangeView>,
    pub open: Option<LineChangeView>,
    pub passed: int,
}

impl Gathering {
    /// All changes, the growing one too.
    pub open spec fn all(self) -> Seq<LineChangeView> {
        match self.open {
            Some(c) => self.done.push(c),
            None => self.done,
        }
    }

    /// What one more line of the difference does: a line on both sides ends a
    /// change, a line that went lengthens it, a line that came joins it. A change
    /// begins at the line of the old text that comes next.
    pub open spec fn with(self, d: DiffLineView) -> Gathering {
        let line = self.passed;
        match (d.tag, self.open) {
            (DiffTag::Equal, _) => Gathering { done: self.all(), open: None, passed: line + 1 },
            (DiffTag::Delete, Some(c)) => Gathering {
                open: Some(LineChangeView { end_line: line + 1, ..c }),
                passed: line + 1,
                ..self
            },
            (DiffTag::Delete, None) => Gathering {
                open: Some(
                    LineChangeView { start_line: line, end_line: line + 1, new_lines: seq![] },
                ),
                passed: line + 1,
                ..self
            },
            (DiffTag::Insert, Some(c)) => Gathering {
                open: Some(LineChangeView { new_lines: c.new_lines.push(d.value), ..c }),
                ..self
            },
            (DiffTag::Insert, None) => Gathering {
                open: Some(
                    LineChangeView { start_line: line, end_line: line, new_lines: seq![d.value] },
                ),
                ..self
            },
        }
    }
}

/// What is gathered from the lines of a difference.
pub open spec fn gathered(diff: Seq<DiffLineView>) -> Gathering
    decreases diff.len(),
{
    if diff.len() == 0 {
        Gathering { done: seq![], open: None, passed: 0 }
    } else {
        gathered(diff.drop_last()).with(diff.last())
    }
}

/// The line changes that a difference makes.
pub open spec fn changes_of(diff: Seq<DiffLineView>) -> Seq<LineChangeView> {
    gathered(diff).all()
}

/// Line changes as mathematical values.
pub open spec fn change_views(changes: Seq<LineChange>) -> Seq<LineChangeView> {
    changes.map_values(|c: LineChange| c@)
}

/// The line changes that a difference makes.
pub fn line_changes(diff: &Vec<DiffLine>) -> (r: Vec<LineChange>)
    ensures
        change_views(r@) == changes_of(diff_views(diff@)),
{
    let mut done: Vec<LineChange> = Vec::new();
    let mut open: Option<LineChange> = None;
    let mut line: usize = 0;
    let mut i: usize = 0;
    assert(diff_views(diff@.take(0)) =~= Seq::<DiffLineView>::empty());
    assert(change_views(done@) =~= Seq::<LineChangeView>::empty());
    while i < diff.len()
        invariant
            line <= i <= diff@.len(),
            line == gathered(diff_views(diff@.take(i as int))).passed,
            change_views(done@) == gathered(diff_views(diff@.take(i as int))).done,
            gathered(diff_views(diff@.take(i as int))).open == match open {
                Some(c) => Some(c@),
                None => None,
            },
        decreases diff.len() - i,
    {
        let d = &diff[i];
        let ghost prefix = diff_views(diff@.take(i as int));
        proof {
            assert(diff_views(diff@.take(i + 1)).drop_last() =~= prefix);
            assert(diff_views(diff@.take(i + 1)).last() == d@);
        }
        let ghost before_done = done@;
        match d.tag {
            DiffTag::Equal => {
                let taken = open.take();
                match taken {
                    Some(c) => {
                        done.push(c);
                        assert(change_views(done@) =~= change_views(before_done).push(c@));
                    },
                    None => (),
                }
                line = line + 1;
            },
            DiffTag::Delete => {
                let taken = open.take();
                open = match taken {
                    Some(c) => Some(
                        LineChange {
                            start_line: c.start_line,
                            end_line: line + 1,
                            new_lines: c.new_lines,
                        },
                    ),
                    None => {
                        let none: Vec<String> = Vec::new();
                        assert(text::views(none@) =~= seq![]);
                        Some(LineChange { start_line: line, end_line: line + 1, new_lines: none })
                    },
                };
                line = line + 1;
            },
            DiffTag::Insert => {
                let taken = open.take();
                let value = d.value.clone();
                open = match taken {
                    Some(c) => {
                        let mut lines = c.new_lines;
                        let ghost before = lines@;
                        lines.push(value);
                        assert(text::views(lines@) =~= text::views(before).push(value@));
                        Some(
                            LineChange {
                                start_line: c.start_line,
                                end_line: c.end_line,
                                new_lines: lines,
                            },
                        )
                    },
                    None => {
                        let mut lines: Vec<String> = Vec::new();
                        lines.push(value);
                        assert(text::views(lines@) =~= seq![value@]);
                        Some(LineChange { start_line: line, end_line: line, new_lines: lines })
                    },
                };
            },
        }
        i = i + 1;
    }
    assert(diff@.take(i as int) =~= diff@);
    let ghost before_done = done@;
    match open {
        Some(c) => {
            done.push(c);
            assert(change_views(done@) =~= change_views(before_done).push(c@));
        },
        None => (),
    }
    done
}

/// The line changes from one text to another.
pub fn compute_line_diff(old_text: &str, new_text: &str) -> (r: Vec<LineChange>)
    ensures
        change_views(r@) == changes_of(line_diff(old_text@, new_text@)),
        is_between(line_diff(old_text@, new_text@), old_text@, new_text@),
        is_by_lines(line_diff(old_text@, new_text@)),
        !old_text@.contains('\r') && !new_text@.contains('\r') ==> {
            &&& has_lines_of(line_diff(old_text@, new_text@), old_text@, new_text@)
            &&& with_changes(text::lines_of(old_text@), bottom_up(change_views(r@)))
                == text::lines_of(new_text@)
        },
{
    let diff = diff_lines(old_text, new_text);
    proof {
        let d = diff_views(diff@);
        if !old_text@.contains('\r') && !new_text@.contains('\r') {
            merge_laws::difference_has_both_texts(d, old_text@, new_text@);
            merge_laws::difference_leads_to_new_lines(d);
        }
    }
    line_changes(&diff)
}

// --- Overlaps ---

/// The line behind the last that a change takes up, before it or after.
pub open spec fn reach(c: LineChangeView) -> int {
    let after = c.start_line + c.new_lines.len();
    if c.end_line >= after {
        c.end_line
    } else {
        after
    }
}

/// Whether two changes take up a line in common.
pub open spec fn overlapping(a: LineChangeView, b: LineChangeView) -> bool {
    a.start_line < reach(b) && b.start_line < reach(a)
}

/// Whether two changes take up a line in common.
pub fn changes_overlap(a: &LineChange, b: &LineChange) -> (r: bool)
    ensures
        r == overlapping(a@, b@),
{
    let a_after: u128 = a.start_line as u128 + a.new_lines.len() as u128;
    let b_after: u128 = b.start_line as u128 + b.new_lines.len() as u128;
    let a_end: u128 = if a.end_line as u128 >= a_after {
        a.end_line as u128
    } else {
        a_after
    };
    let b_end: u128 = if b.end_line as u128 >= b_after {
        b.end_line as u128
    } else {
        b_after
    };
    (a.start_line as u128) < b_end && (b.start_line as u128) < a_end
}

/// Overlapping does not depend on which change comes first.
pub proof fn overlap_is_symmetric(a: LineChangeView, b: LineChangeView)
    ensures
        overlapping(a, b) == overlapping(b, a),
{
}

/// Whether a change of one list overlaps one of the other.
pub open spec fn any_overlap(xs: Seq<LineChangeView>, ys: Seq<LineChangeView>) -> bool {
    exists|i: int, j: int|
        0 <= i < xs.len() && 0 <= j < ys.len() && overlapping(#[trigger] xs[i], #[trigger] ys[j])
}

/// Whether a change of one list overlaps one of the other.
pub fn has_conflicts(local: &Vec<LineChange>, external: &Vec<LineChange>) -> (r: bool)
    ensures
        r == any_overlap(change_views(local@), change_views(external@)),
{
    let ghost xs = change_views(local@);
    let ghost ys = change_views(external@);
    let mut i: usize = 0;
    while i < local.len()
        invariant
            i <= local@.len(),
            xs == change_views(local@),
            ys == change_views(external@),
            forall|k: int, m: int|
                0 <= k < i && 0 <= m < ys.len() ==> !overlapping(#[trigger] xs[k], #[trigger] ys[m]),
        decreases local.len() - i,
    {
        let mut j: usize = 0;
        while j < external.len()
            invariant
                i < local@.len(),
                j <= external@.len(),
                xs == change_views(local@),
                ys == change_views(external@),
                forall|m: int| 0 <= m < j ==> !overlapping(xs[i as int], #[trigger] ys[m]),
            decreases external.len() - j,
        {
            if changes_overlap(&local[i], &external[j]) {
                assert(overlapping(xs[i as int], ys[j as int]));
                return true;
            }
            j = j + 1;
        }
        i = i + 1;
    }
    false
}

// --- Merging changes that do not overlap ---

/// `sorted` with `c` put behind the last change that starts at its line or
/// later.
pub open spec fn put_in_order(sorted: Seq<LineChangeView>, c: LineChangeView) -> Seq<LineChangeView>
    decreases sorted.len(),
{
    if sorted.len() == 0 {
        seq![c]
    } else if sorted.last().start_line >= c.start_line {
        sorted.push(c)
    } else {
        put_in_order(sorted.drop_last(), c).push(sorted.last())
    }
}

/// The changes from the bottom of the text to the top; those that start at the
/// same line keep their order.
pub open spec fn bottom_up(changes: Seq<LineChangeView>) -> Seq<LineChangeView>
    decreases changes.len(),
{
    if changes.len() == 0 {
        seq![]
    } else {
        put_in_order(bottom_up(changes.drop_last()), changes.last())
    }
}

/// `lines` after a change: the lines that it replaces are gone and the new
/// ones are in, at the end where the text is shorter.
pub open spec fn with_change(lines: Seq<Seq<char>>, c: LineChangeView) -> Seq<Seq<char>> {
    let len = lines.len() as int;
    let end = if c.end_line <= len {
        c.end_line
    } else {
        len
    };
    let kept = if c.start_line < end {
        lines.subrange(0, c.start_line) + lines.subrange(end, len)
    } else {
        lines
    };
    let at = if c.start_line <= kept.len() {
        c.start_line
    } else {
        kept.len() as int
    };
    kept.subrange(0, at) + bare_lines(c.new_lines) + kept.subrange(at, kept.len() as int)
}

/// `lines` after changes, one after another.
pub open spec fn with_changes(lines: Seq<Seq<char>>, changes: Seq<LineChangeView>) -> Seq<
    Seq<char>,
>
    decreases changes.len(),
{
    if changes.len() == 0 {
        lines
    } else {
        with_change(with_changes(lines, changes.drop_last()), changes.last())
    }
}

/// `base` with both sides' changes made from the bottom up. A line feed at its
/// end stays.
pub open spec fn merged_text(
    base: Seq<char>,
    local: Seq<LineChangeView>,
    external: Seq<LineChangeView>,
) -> Seq<char> {
    ended_like(base, with_changes(text::lines_of(base), bottom_up(local + external)))
}

/// Lines as a text that ends with a line feed if `base` does.
pub open spec fn ended_like(base: Seq<char>, lines: Seq<Seq<char>>) -> Seq<char> {
    let joined = text::joined(lines, seq!['\n']);
    if text::ends_in_newline(base) && !text::ends_in_newline(joined) {
        joined.push('\n')
    } else {
        joined
    }
}

/// Changes by reference, as mathematical values.
spec fn ref_views(changes: Seq<&LineChange>) -> Seq<LineChangeView> {
    changes.map_values(|c: &LineChange| c@)
}

fn place<'a>(sorted: &mut Vec<&'a LineChange>, c: &'a LineChange)
    ensures
        ref_views(final(sorted)@) == put_in_order(ref_views(old(sorted)@), c@),
{
    let mut i: usize = sorted.len();
    let ghost before = sorted@;
    let ghost views = ref_views(before);
    assert(views.take(i as int) =~= views);
    assert(views.skip(i as int) =~= seq![]);
    assert(put_in_order(views, c@) =~= put_in_order(views.take(i as int), c@) + views.skip(
        i as int,
    ));
    while i > 0 && sorted[i - 1].start_line < c.start_line
        invariant
            i <= sorted@.len(),
            sorted@ == before,
            views == ref_views(before),
            put_in_order(views, c@) == put_in_order(views.take(i as int), c@) + views.skip(
                i as int,
            ),
        decreases i,
    {
        proof {
            let t = views.take(i as int);
            assert(t.drop_last() =~= views.take(i - 1));
            assert(t.last() == views[i - 1]);
            assert(views[i - 1] == before[i - 1]@);
            assert(put_in_order(t.drop_last(), c@).push(t.last()) + views.skip(i as int)
                =~= put_in_order(views.take(i - 1), c@) + views.skip(i - 1));
        }
        i = i - 1;
    }
    proof {
        let t = views.take(i as int);
        if i > 0 {
            assert(t.last() == before[i - 1]@);
        }
        assert(put_in_order(t, c@) =~= t.push(c@));
    }
    sorted.insert(i, c);
    assert(ref_views(sorted@) =~= views.take(i as int).push(c@) + views.skip(i as int));
}

fn make_change(lines: &mut Vec<String>, c: &LineChange)
    ensures
        text::views(final(lines)@) == with_change(text::views(old(lines)@), c@),
{
    let ghost before = text::views(lines@);
    let len = lines.len();
    let end: usize = if c.end_line <= len {
        c.end_line
    } else {
        len
    };
    if c.start_line < end {
        let mut gone: usize = 0;
        let count = end - c.start_line;
        assert(before.subrange(0, c.start_line as int) + before.subrange(
            c.start_line + gone,
            len as int,
        ) =~= before);
        while gone < count
            invariant
                gone <= count,
                len == before.len(),
                end <= len,
                count == end - c.start_line,
                c.start_line < end,
                text::views(lines@) == before.subrange(0, c.start_line as int) + before.subrange(
                    c.start_line + gone,
                    len as int,
                ),
            decreases count - gone,
        {
            let ghost mid = lines@;
            assert(text::views(lines@).len() == len - gone);
            lines.remove(c.start_line);
            assert(text::views(lines@) =~= text::views(mid).remove(c.start_line as int));
            gone = gone + 1;
            assert(text::views(lines@) =~= before.subrange(0, c.start_line as int)
                + before.subrange(c.start_line + gone, len as int));
        }
    }
    let ghost kept = text::views(lines@);
    let kept_len = lines.len();
    let at: usize = if c.start_line <= kept_len {
        c.start_line
    } else {
        kept_len
    };
    let ghost fresh = bare_lines(c@.new_lines);
    let mut i: usize = 0;
    assert(kept.subrange(0, at as int) + fresh.take(0) + kept.subrange(at as int, kept.len() as int)
        =~= kept);
    while i < c.new_lines.len()
        invariant
            i <= c.new_lines@.len(),
            at <= kept.len(),
            kept.len() <= usize::MAX,
            fresh == bare_lines(c@.new_lines),
            fresh.len() == c.new_lines@.len(),
            text::views(lines@) == kept.subrange(0, at as int) + fresh.take(i as int)
                + kept.subrange(at as int, kept.len() as int),
        decreases c.new_lines.len() - i,
    {
        let line = trim_newlines(c.new_lines[i].as_str());
        let ghost mid = lines@;
        let total = lines.len();
        assert(text::views(mid).len() == kept.len() + i);
        assert(at + i <= total);
        lines.insert(at + i, line);
        proof {
            assert(text::views(lines@) =~= text::views(mid).insert(at + i, line@));
            assert(c@.new_lines[i as int] == c.new_lines@[i as int]@);
            assert(fresh[i as int] == line@);
            assert(text::views(lines@) =~= kept.subrange(0, at as int) + fresh.take(i + 1)
                + kept.subrange(at as int, kept.len() as int));
        }
        i = i + 1;
    }
    assert(fresh.take(i as int) =~= fresh);
}

/// `base` with the changes of both sides, which do not overlap.
pub fn merge_non_overlapping(
    base: &str,
    local_changes: &Vec<LineChange>,
    external_changes: &Vec<LineChange>,
) -> (r: String)
    ensures
        r@ == merged_text(base@, change_views(local_changes@), change_views(external_changes@)),
{
    let ghost all = change_views(local_changes@) + change_views(external_changes@);
    let mut sorted: Vec<&LineChange> = Vec::new();
    let mut i: usize = 0;
    assert(ref_views(sorted@) =~= bottom_up(all.take(0)));
    while i < local_changes.len()
        invariant
            i <= local_changes@.len(),
            all == change_views(local_changes@) + change_views(external_changes@),
            ref_views(sorted@) == bottom_up(all.take(i as int)),
        decreases local_changes.len() - i,
    {
        place(&mut sorted, &local_changes[i]);
        proof {
            assert(all.take(i + 1).drop_last() =~= all.take(i as int));
            assert(all.take(i + 1).last() == local_changes@[i as int]@);
        }
        i = i + 1;
    }
    let mut j: usize = 0;
    while j < external_changes.len()
        invariant
            j <= external_changes@.len(),
            all == change_views(local_changes@) + change_views(external_changes@),
            ref_views(sorted@) == bottom_up(all.take(local_changes@.len() + j)),
        decreases external_changes.len() - j,
    {
        place(&mut sorted, &external_changes[j]);
        proof {
            let n = local_changes@.len() + j;
            assert(all.take(n + 1).drop_last() =~= all.take(n));
            assert(all.take(n + 1).last() == external_changes@[j as int]@);
        }
        j = j + 1;
    }
    assert(all.take(local_changes@.len() + j) =~= all);
    let ghost order = ref_views(sorted@);
    let mut lines = split_lines(base);
    let mut k: usize = 0;
    assert(order.take(0) =~= seq![]);
    while k < sorted.len()
        invariant
            k <= sorted@.len(),
            order == ref_views(sorted@),
            text::views(lines@) == with_changes(text::lines_of(base@), order.take(k as int)),
        decreases sorted.len() - k,
    {
        make_change(&mut lines, sorted[k]);
        proof {
            assert(order.take(k + 1).drop_last() =~= order.take(k as int));
            assert(order.take(k + 1).last() == sorted@[k as int]@);
        }
        k = k + 1;
    }
    assert(order.take(k as int) =~= order);
    let mut result = join_lines(&lines, "\n");
    proof {
        reveal_strlit("\n");
        assert("\n"@ =~= seq!['\n']);
    }
    if ends_with_newline(base) && !ends_with_newline(result.as_str()) {
        result.push('\n');
    }
    result
}

// --- Merging changes that overlap ---

/// The lines written so far, and the two sides of the conflict that is still
/// growing.
pub struct Conflicts {
    pub lines: Seq<Seq<char>>,
    pub open: bool,
    pub local: Seq<Seq<char>>,
    pub external: Seq<Seq<char>>,
    pub count: nat,
}

impl Conflicts {
    /// The growing conflict written out between its markers.
    pub open spec fn closed(self) -> Conflicts {
        if self.open {
            Conflicts {
                lines: self.lines + seq!["<<<<<<< LOCAL"@] + self.local + seq!["======="@]
                    + self.external + seq![">>>>>>> EXTERNAL"@],
                open: false,
                local: seq![],
                external: seq![],
                count: self.count + 1,
            }
        } else {
            self
        }
    }

    /// What one more line of the difference does: a line on both sides ends a
    /// conflict, another one joins its side of it.
    pub open spec fn with(self, d: DiffLineView) -> Conflicts {
        let line = text::without_newlines(d.value);
        match d.tag {
            DiffTag::Equal => Conflicts {
                lines: self.closed().lines.push(line),
                ..self.closed()
            },
            DiffTag::Delete => Conflicts { open: true, local: self.local.push(line), ..self },
            DiffTag::Insert => Conflicts { open: true, external: self.external.push(line), ..self },
        }
    }
}

/// What the lines of a difference between both sides write.
pub open spec fn conflicts_in(diff: Seq<DiffLineView>) -> Conflicts
    decreases diff.len(),
{
    if diff.len() == 0 {
        Conflicts { lines: seq![], open: false, local: seq![], external: seq![], count: 0 }
    } else {
        conflicts_in(diff.drop_last()).with(diff.last())
    }
}

fn close_conflict(
    lines: &mut Vec<String>,
    local: &mut Vec<String>,
    external: &mut Vec<String>,
)
    ensures
        text::views(final(lines)@) == text::views(old(lines)@) + seq!["<<<<<<< LOCAL"@]
            + text::views(old(local)@) + seq!["======="@] + text::views(old(external)@) + seq![
            ">>>>>>> EXTERNAL"@,
        ],
        final(local)@.len() == 0,
        final(external)@.len() == 0,
{
    let ghost a = lines@;
    let ghost b = local@;
    let ghost c = external@;
    lines.push("<<<<<<< LOCAL".to_owned());
    lines.append(local);
    lines.push("=======".to_owned());
    lines.append(external);
    lines.push(">>>>>>> EXTERNAL".to_owned());
    assert(text::views(lines@) =~= text::views(a) + seq!["<<<<<<< LOCAL"@] + text::views(b) + seq![
        "======="@,
    ] + text::views(c) + seq![">>>>>>> EXTERNAL"@]);
}

/// The text of a difference between both sides, with its conflicts marked, and
/// their number.
pub fn mark_conflicts(diff: &Vec<DiffLine>) -> (r: (String, usize))
    ensures
        r.0@ == text::joined(conflicts_in(diff_views(diff@)).closed().lines, seq!['\n']),
        r.1 == conflicts_in(diff_views(diff@)).closed().count,
{
    let mut lines: Vec<String> = Vec::new();
    let mut local: Vec<String> = Vec::new();
    let mut external: Vec<String> = Vec::new();
    let mut open = false;
    let mut count: usize = 0;
    let mut i: usize = 0;
    assert(diff_views(diff@.take(0)) =~= Seq::<DiffLineView>::empty());
    assert(text::views(lines@) =~= seq![]);
    while i < diff.len()
        invariant
            i <= diff@.len(),
            count <= i,
            open ==> count < i,
            text::views(lines@) == conflicts_in(diff_views(diff@.take(i as int))).lines,
            text::views(local@) == conflicts_in(diff_views(diff@.take(i as int))).local,
            text::views(external@) == conflicts_in(diff_views(diff@.take(i as int))).external,
            open == conflicts_in(diff_views(diff@.take(i as int))).open,
            count == conflicts_in(diff_views(diff@.take(i as int))).count,
        decreases diff.len() - i,
    {
        let ghost state = conflicts_in(diff_views(diff@.take(i as int)));
        proof {
            assert(diff_views(diff@.take(i + 1)).drop_last() =~= diff_views(diff@.take(i as int)));
            assert(diff_views(diff@.take(i + 1)).last() == diff@[i as int]@);
        }
        let line = trim_newlines(diff[i].value.as_str());
        match diff[i].tag {
            DiffTag::Equal => {
                if open {
                    close_conflict(&mut lines, &mut local, &mut external);
                    assert(text::views(local@) =~= seq![]);
                    assert(text::views(external@) =~= seq![]);
                    count = count + 1;
                    open = false;
                }
                let ghost before = lines@;
                lines.push(line);
                assert(text::views(lines@) =~= text::views(before).push(line@));
            },
            DiffTag::Delete => {
                open = true;
                let ghost before = local@;
                local.push(line);
                assert(text::views(local@) =~= text::views(before).push(line@));
            },
            DiffTag::Insert => {
                open = true;
                let ghost before = external@;
                external.push(line);
                assert(text::views(external@) =~= text::views(before).push(line@));
            },
        }
        i = i + 1;
    }
    assert(diff@.take(i as int) =~= diff@);
    if open {
        close_conflict(&mut lines, &mut local, &mut external);
        count = count + 1;
    }
    proof {
        reveal_strlit("\n");
        assert("\n"@ =~= seq!['\n']);
    }
    (join_lines(&lines, "\n"), count)
}

// --- Merging ---

/// The message that goes with a merge without conflicts.
pub open spec fn merge_message(local: nat, external: nat) -> Seq<char> {
    "Merged "@ + text::decimal(local) + " local + "@ + text::decimal(external)
        + " external change(s)"@
}

/// What a merge of `local` and `external`, both made from `base`, comes to.
pub open spec fn merge_outcome(
    base: Seq<char>,
    local: Seq<char>,
    external: Seq<char>,
    r: MergeResult,
) -> bool {
    let ours = changes_of(line_diff(base, local));
    let theirs = changes_of(line_diff(base, external));
    let marked = conflicts_in(line_diff(local, external)).closed();
    if local == base && external != base {
        r matches MergeResult::CleanReload(content) && content@ == external
    } else if local == base || external == base || local == external {
        r is NoChange
    } else if !any_overlap(ours, theirs) {
        r matches MergeResult::Merged { content, message } && {
            &&& content@ == merged_text(base, ours, theirs)
            &&& message@ == merge_message(ours.len(), theirs.len())
        }
    } else {
        r matches MergeResult::MergedWithConflicts { content, conflict_count } && {
            &&& content@ == text::joined(marked.lines, seq!['\n'])
            &&& conflict_count == marked.count
        }
    }
}

/// Whether the differences that a merge was made from are those between its
/// texts, and have their lines where these hold no carriage returns.
pub open spec fn differences_hold(
    base: Seq<char>,
    local: Seq<char>,
    external: Seq<char>,
    r: MergeResult,
) -> bool {
    &&& r is Merged ==> is_between(line_diff(base, local), base, local) && is_between(
        line_diff(base, external),
        base,
        external,
    )
    &&& r is Merged && !base.contains('\r') && !local.contains('\r') && !external.contains('\r')
        ==> merge_laws::sides_have_lines(base, local, external)
    &&& r is MergedWithConflicts ==> is_between(line_diff(local, external), local, external)
    &&& r is MergedWithConflicts && !local.contains('\r') && !external.contains('\r')
        ==> has_lines_of(line_diff(local, external), local, external)
}

/// Merges changes from outside with those made here.
pub fn merge_changes(base: &str, local: &str, external: &str) -> (r: MergeResult)
    ensures
        merge_outcome(base@, local@, external@, r),
        differences_hold(base@, local@, external@, r),
        r is Merged ==> is_between(line_diff(base@, local@), base@, local@) && is_between(
            line_diff(base@, external@),
            base@,
            external@,
        ),
        r is Merged && !base@.contains('\r') && !local@.contains('\r') && !external@.contains(
            '\r',
        ) ==> merge_laws::sides_have_lines(base@, local@, external@),
        r is MergedWithConflicts ==> is_between(
            line_diff(local@, external@),
            local@,
            external@,
        ),
        r is MergedWithConflicts && !local@.contains('\r') && !external@.contains('\r')
            ==> has_lines_of(line_diff(local@, external@), local@, external@),
{
    if str_eq(local, base) {
        if str_eq(external, base) {
            return MergeResult::NoChange;
        }
        return MergeResult::CleanReload(external.to_owned());
    }
    if str_eq(external, base) {
        return MergeResult::NoChange;
    }
    if str_eq(local, external) {
        return MergeResult::NoChange;
    }
    let local_changes = compute_line_diff(base, local);
    let external_changes = compute_line_diff(base, external);
    if !has_conflicts(&local_changes, &external_changes) {
        let content = merge_non_overlapping(base, &local_changes, &external_changes);
        let mut message = "Merged ".to_owned();
        message.append(decimal_string(local_changes.len() as u64).as_str());
        message.append(" local + ");
        message.append(decimal_string(external_changes.len() as u64).as_str());
        message.append(" external change(s)");
        MergeResult::Merged { content, message }
    } else {
        let diff = diff_lines(local, external);
        proof {
            if !local@.contains('\r') && !external@.contains('\r') {
                merge_laws::difference_has_both_texts(diff_views(diff@), local@, external@);
            }
        }
        let (content, conflict_count) = mark_conflicts(&diff);
        MergeResult::MergedWithConflicts { content, conflict_count }
    }
}

/// A merge never gives up changes made here without a trace: where both sides
/// changed, the result is no plain reload.
pub proof fn merge_keeps_local_changes(
    base: Seq<char>,
    local: Seq<char>,
    external: Seq<char>,
    r: MergeResult,
)
    requires
        merge_outcome(base, local, external, r),
        local != base,
    ensures
        !(r is CleanReload),
        external == base ==> r is NoChange,
{
}

// --- Watched files ---

/// How long changes are ignored after a save begins, in milliseconds.
pub const SAVE_GRACE_MILLIS: u64 = 500;

/// What is known of the file behind a buffer. Times are milliseconds of a clock
/// that never goes back.
#[derive(Debug)]
pub struct BufferSyncState {
    pub file_path: String,
    /// The content of the file when it and the buffer last agreed.
    pub base_content: String,
    /// When that was.
    pub base_timestamp: u64,
    /// Until when changes are ignored.
    pub ignore_until: Option<u64>,
}

impl BufferSyncState {
    pub fn new(file_path: String, content: String, now: u64) -> (r: Self)
        ensures
            r == (BufferSyncState {
                file_path,
                base_content: content,
                base_timestamp: now,
                ignore_until: None,
            }),
    {
        BufferSyncState { file_path, base_content: content, base_timestamp: now, ignore_until: None }
    }

    /// Notes what the file holds after a merge or a save.
    pub fn update_base(&mut self, content: String, now: u64)
        ensures
            *final(self) == (BufferSyncState {
                base_content: content,
                base_timestamp: now,
                ..*old(self)
            }),
    {
        self.base_content = content;
        self.base_timestamp = now;
    }

    /// Ignores changes for a while.
    pub fn ignore_for(&mut self, duration: u64, now: u64)
        requires
            now + duration <= u64::MAX,
        ensures
            *final(self) == (BufferSyncState {
                ignore_until: Some((now + duration) as u64),
                ..*old(self)
            }),
    {
        self.ignore_until = Some(now + duration);
    }

    /// Whether changes are ignored at the time `now`.
    pub open spec fn ignores(&self, now: u64) -> bool {
        self.ignore_until matches Some(until) && now < until
    }

    /// Whether changes are ignored at the time `now`.
    pub fn should_ignore(&self, now: u64) -> (r: bool)
        ensures
            r == self.ignores(now),
    {
        match self.ignore_until {
            Some(until) => now < until,
            None => false,
        }
    }
}

/// A change of a watched file from outside.
#[derive(Debug)]
pub struct FileChangeEvent {
    pub buffer_id: BufferId,
    pub file_path: String,
}

/// A watched file.
#[derive(Debug)]
pub struct WatchedPath {
    pub file_path: String,
    pub buffer_id: BufferId,
}

/// The files that are watched, and what is known of them.
#[derive(Debug)]
pub struct FileWatcher {
    /// Whether changes are being delivered.
    pub active: bool,
    /// The watched files, each once.
    pub paths: Vec<WatchedPath>,
    /// By the bits of a buffer's handle.
    pub sync_states: HashMap<u64, BufferSyncState>,
}

/// What came of the attempt to have a file watched.
#[derive(Debug, Clone, PartialEq, Eq)]
pub enum WatchOutcome {
    Started,
    /// There is nothing that could watch files.
    NoBackend(String),
    /// This file cannot be watched.
    Failed(String),
}

impl WatchOutcome {
    /// What went wrong.
    pub open spec fn error(&self) -> Option<Seq<char>> {
        match self {
            WatchOutcome::Started => None,
            WatchOutcome::NoBackend(e) => Some(e@),
            WatchOutcome::Failed(e) => Some(e@),
        }
    }
}

/// The buffer of the watched file `path`, if it is watched.
pub open spec fn watched_buffer(paths: Seq<WatchedPath>, path: Seq<char>) -> Option<BufferId>
    decreases paths.len(),
{
    if paths.len() == 0 {
        None
    } else if paths.last().file_path@ == path {
        Some(paths.last().buffer_id)
    } else {
        watched_buffer(paths.drop_last(), path)
    }
}

/// The watched files but `path`.
pub open spec fn other_paths(paths: Seq<WatchedPath>, path: Seq<char>) -> Seq<WatchedPath>
    decreases paths.len(),
{
    if paths.len() == 0 {
        seq![]
    } else if paths.last().file_path@ == path {
        other_paths(paths.drop_last(), path)
    } else {
        other_paths(paths.drop_last(), path).push(paths.last())
    }
}

/// The events that matter: those of watched buffers whose changes are not
/// ignored at the time `now`, in order.
pub open spec fn relevant(
    events: Seq<FileChangeEvent>,
    states: Map<u64, BufferSyncState>,
    now: u64,
) -> Seq<FileChangeEvent>
    decreases events.len(),
{
    if events.len() == 0 {
        seq![]
    } else {
        let e = events.last();
        let rest = relevant(events.drop_last(), states, now);
        if states.contains_key(e.buffer_id@) && !states[e.buffer_id@].ignores(now) {
            rest.push(e)
        } else {
            rest
        }
    }
}

fn drop_path(paths: &mut Vec<WatchedPath>, path: &str)
    ensures
        final(paths)@ == other_paths(old(paths)@, path@),
{
    let ghost before = paths@;
    let mut i: usize = 0;
    assert(before.take(0) =~= seq![]);
    assert(before.skip(0) =~= before);
    while i < paths.len()
        invariant
            i <= paths@.len(),
            before.len() >= paths@.len() - i,
            paths@.take(i as int) == other_paths(
                before.take(before.len() - (paths@.len() - i)),
                path@,
            ),
            paths@.skip(i as int) == before.skip(before.len() - (paths@.len() - i)),
        decreases paths.len() - i,
    {
        let ghost k = before.len() - (paths@.len() - i);
        proof {
            assert(paths@.skip(i as int)[0] == paths@[i as int]);
            assert(before.skip(k)[0] == before[k]);
            assert(before.take(k + 1).drop_last() =~= before.take(k));
            assert(before.take(k + 1).last() == before[k]);
        }
        let ghost mid = paths@;
        proof {
            assert(mid.skip(i as int).drop_first() =~= mid.skip(i + 1));
            assert(before.skip(k).drop_first() =~= before.skip(k + 1));
        }
        if str_eq(paths[i].file_path.as_str(), path) {
            paths.remove(i);
            assert(paths@.take(i as int) =~= mid.take(i as int));
            assert(paths@.skip(i as int) =~= mid.skip(i + 1));
        } else {
            assert(paths@.take(i + 1) =~= paths@.take(i as int).push(paths@[i as int]));
            i = i + 1;
        }
    }
    assert(paths@.take(i as int) =~= paths@);
    assert(before.take(before.len() as int) =~= before);
}

impl FileWatcher {
    pub fn new() -> (w: Self)
        ensures
            !w.active,
            w.paths@.len() == 0,
            w.sync_states@ == Map::<u64, BufferSyncState>::empty(),
    {
        FileWatcher { active: false, paths: Vec::new(), sync_states: HashMap::new() }
    }

    /// Starts to watch a file for a buffer.
    pub fn watch_file(
        &mut self,
        buffer_id: BufferId,
        file_path: String,
        initial_content: String,
        now: u64,
    )
        ensures
            final(self).active,
            final(self).paths@ == other_paths(old(self).paths@, file_path@).push(
                (WatchedPath { file_path, buffer_id }),
            ),
            final(self).sync_states@ == old(self).sync_states@.insert(
                buffer_id@,
                (BufferSyncState {
                    file_path,
                    base_content: initial_content,
                    base_timestamp: now,
                    ignore_until: None,
                }),
            ),
    {
        self.active = true;
        drop_path(&mut self.paths, file_path.as_str());
        self.paths.push(WatchedPath { file_path: file_path.clone(), buffer_id });
        self.sync_states.insert(
            buffer_id.bits(),
            BufferSyncState::new(file_path, initial_content, now),
        );
    }

    /// Whether `after` is this watcher after an attempt to watch a file: it is
    /// noted unless there is nothing that could watch it.
    pub open spec fn tried(
        &self,
        after: &Self,
        buffer_id: BufferId,
        file_path: Seq<char>,
        content: Seq<char>,
        now: u64,
        outcome: WatchOutcome,
    ) -> bool {
        if outcome is NoBackend {
            *after == *self
        } else {
            let state = after.sync_states@[buffer_id@];
            let entry = after.paths@.last();
            &&& after.active
            &&& after.paths@ == other_paths(self.paths@, file_path).push(entry)
            &&& entry.file_path@ == file_path
            &&& entry.buffer_id == buffer_id
            &&& after.sync_states@ == self.sync_states@.insert(buffer_id@, state)
            &&& state.file_path@ == file_path
            &&& state.base_content@ == content
            &&& state.base_timestamp == now
            &&& state.ignore_until is None
        }
    }

    /// Notes the attempt to watch a file for a buffer. Gives what went wrong.
    pub fn try_watch(
        &mut self,
        buffer_id: BufferId,
        file_path: &str,
        content: String,
        now: u64,
        outcome: WatchOutcome,
    ) -> (r: Option<String>)
        ensures
            old(self).tried(final(self), buffer_id, file_path@, content@, now, outcome),
            match r {
                Some(e) => outcome.error() == Some(e@),
                None => outcome.error() is None,
            },
    {
        match outcome {
            WatchOutcome::NoBackend(e) => Some(e),
            WatchOutcome::Started => {
                self.watch_file(buffer_id, file_path.to_owned(), content, now);
                None
            },
            WatchOutcome::Failed(e) => {
                self.watch_file(buffer_id, file_path.to_owned(), content, now);
                Some(e)
            },
        }
    }

    /// Whether `after` is this watcher without the file of a buffer.
    pub open spec fn left_alone(&self, after: &Self, buffer_id: BufferId) -> bool {
        &&& after.active == self.active
        &&& after.sync_states@ == self.sync_states@.remove(buffer_id@)
        &&& after.paths@ == if self.sync_states@.contains_key(buffer_id@) {
            other_paths(self.paths@, self.sync_states@[buffer_id@].file_path@)
        } else {
            self.paths@
        }
    }

    /// Whether `after` is this watcher with what the file of a buffer holds
    /// noted, if it is watched.
    pub open spec fn base_noted(
        &self,
        after: &Self,
        buffer_id: BufferId,
        content: Seq<char>,
        now: u64,
    ) -> bool {
        let k = buffer_id@;
        &&& after.active == self.active
        &&& after.paths == self.paths
        &&& if self.sync_states@.contains_key(k) {
            &&& after.sync_states@ == self.sync_states@.insert(k, after.sync_states@[k])
            &&& after.sync_states@[k] == (BufferSyncState {
                base_content: after.sync_states@[k].base_content,
                base_timestamp: now,
                ..self.sync_states@[k]
            })
            &&& after.sync_states@[k].base_content@ == content
        } else {
            after.sync_states@ == self.sync_states@
        }
    }

    /// Forgets all files.
    pub fn shutdown(&mut self)
        ensures
            !final(self).active,
            final(self).paths@.len() == 0,
            final(self).sync_states@ == Map::<u64, BufferSyncState>::empty(),
    {
        self.active = false;
        self.paths = Vec::new();
        self.sync_states = HashMap::new();
    }

    /// Stops watching the file of a buffer. Gives the file that is to be left
    /// alone.
    pub fn unwatch_file(&mut self, buffer_id: BufferId) -> (r: Option<String>)
        ensures
            final(self).active == old(self).active,
            final(self).sync_states@ == old(self).sync_states@.remove(buffer_id@),
            r is Some <==> old(self).sync_states@.contains_key(buffer_id@),
            r matches Some(path) ==> {
                &&& path == old(self).sync_states@[buffer_id@].file_path
                &&& final(self).paths@ == other_paths(old(self).paths@, path@)
            },
            r is None ==> final(self).paths@ == old(self).paths@,
    {
        let removed = self.sync_states.remove(&buffer_id.bits());
        match removed {
            Some(state) => {
                drop_path(&mut self.paths, state.file_path.as_str());
                Some(state.file_path)
            },
            None => {
                assert(self.sync_states@ =~= old(self).sync_states@.remove(buffer_id@));
                None
            },
        }
    }

    /// The buffer that a changed file belongs to.
    pub fn buffer_for(&self, path: &str) -> (r: Option<BufferId>)
        ensures
            r == watched_buffer(self.paths@, path@),
    {
        let mut i: usize = self.paths.len();
        assert(self.paths@.take(i as int) =~= self.paths@);
        while i > 0
            invariant
                i <= self.paths@.len(),
                watched_buffer(self.paths@, path@) == watched_buffer(
                    self.paths@.take(i as int),
                    path@,
                ),
            decreases i,
        {
            assert(self.paths@.take(i as int).drop_last() =~= self.paths@.take(i - 1));
            i = i - 1;
            if str_eq(self.paths[i].file_path.as_str(), path) {
                return Some(self.paths[i].buffer_id);
            }
        }
        None
    }

    /// The events among `arrived` that matter at the time `now`.
    pub fn poll_events(&self, arrived: Vec<FileChangeEvent>, now: u64) -> (r: Vec<FileChangeEvent>)
        ensures
            r@ == relevant(arrived@, self.sync_states@, now),
    {
        let mut rest = arrived;
        let mut backwards: Vec<FileChangeEvent> = Vec::new();
        let ghost all = rest@;
        assert(relevant(all, self.sync_states@, now) + backwards@.reverse() =~= relevant(
            all,
            self.sync_states@,
            now,
        ));
        loop
            invariant
                relevant(rest@, self.sync_states@, now) + backwards@.reverse() == relevant(
                    all,
                    self.sync_states@,
                    now,
                ),
            ensures
                rest@.len() == 0,
            decreases rest@.len(),
        {
            let ghost before = rest@;
            let ghost found = backwards@;
            match rest.pop() {
                None => {
                    break;
                },
                Some(e) => {
                    let keep = match self.sync_states.get(&e.buffer_id.bits()) {
                        Some(state) => !state.should_ignore(now),
                        None => false,
                    };
                    assert(rest@ =~= before.drop_last());
                    if keep {
                        backwards.push(e);
                        assert(relevant(before, self.sync_states@, now) + found.reverse()
                            =~= relevant(rest@, self.sync_states@, now) + backwards@.reverse());
                    }
                },
            }
        }
        let mut r: Vec<FileChangeEvent> = Vec::new();
        let ghost found = backwards@;
        loop
            invariant
                r@ + backwards@.reverse() == found.reverse(),
            ensures
                backwards@.len() == 0,
            decreases backwards@.len(),
        {
            let ghost before = backwards@;
            let ghost out = r@;
            match backwards.pop() {
                None => {
                    break;
                },
                Some(e) => {
                    r.push(e);
                    assert(r@ + backwards@.reverse() =~= out + before.reverse());
                },
            }
        }
        assert(r@ =~= found.reverse());
        assert(relevant(rest@, self.sync_states@, now) =~= seq![]);
        assert(r@ =~= relevant(all, self.sync_states@, now));
        r
    }

    /// What is known of the file of a buffer.
    pub fn get_sync_state(&self, buffer_id: BufferId) -> (r: Option<&BufferSyncState>)
        ensures
            match r {
                Some(state) => self.sync_states@.contains_key(buffer_id@) && *state
                    == self.sync_states@[buffer_id@],
                None => !self.sync_states@.contains_key(buffer_id@),
            },
    {
        self.sync_states.get(&buffer_id.bits())
    }

    /// Notes what the file of a buffer holds after a merge or a save.
    pub fn update_base(&mut self, buffer_id: BufferId, content: String, now: u64)
        ensures
            final(self).active == old(self).active,
            final(self).paths == old(self).paths,
            final(self).sync_states@ == if old(self).sync_states@.contains_key(buffer_id@) {
                old(self).sync_states@.insert(
                    buffer_id@,
                    (BufferSyncState {
                        base_content: content,
                        base_timestamp: now,
                        ..old(self).sync_states@[buffer_id@]
                    }),
                )
            } else {
                old(self).sync_states@
            },
    {
        let key = buffer_id.bits();
        let removed = self.sync_states.remove(&key);
        match removed {
            Some(state) => {
                let mut state = state;
                state.update_base(content, now);
                self.sync_states.insert(key, state);
            },
            None => {},
        }
        assert(self.sync_states@ =~= if old(self).sync_states@.contains_key(buffer_id@) {
            old(self).sync_states@.insert(
                buffer_id@,
                (BufferSyncState {
                    base_content: content,
                    base_timestamp: now,
                    ..old(self).sync_states@[buffer_id@]
                }),
            )
        } else {
            old(self).sync_states@
        });
    }

    /// Whether `after` is this watcher with the changes of a buffer's file ignored
    /// for the time that a save takes.
    pub open spec fn saving_marked(&self, after: &Self, buffer_id: BufferId, now: u64) -> bool {
        &&& after.active == self.active
        &&& after.paths == self.paths
        &&& after.sync_states@ == if self.sync_states@.contains_key(buffer_id@) {
            self.sync_states@.insert(
                buffer_id@,
                (BufferSyncState {
                    ignore_until: Some((now + SAVE_GRACE_MILLIS) as u64),
                    ..self.sync_states@[buffer_id@]
                }),
            )
        } else {
            self.sync_states@
        }
    }

    /// Ignores the changes that a save is about to make.
    pub fn mark_saving(&mut self, buffer_id: BufferId, now: u64)
        requires
            now + SAVE_GRACE_MILLIS <= u64::MAX,
        ensures
            old(self).saving_marked(final(self), buffer_id, now),
    {
        let key = buffer_id.bits();
        let removed = self.sync_states.remove(&key);
        match removed {
            Some(state) => {
                let mut state = state;
                state.ignore_for(SAVE_GRACE_MILLIS, now);
                self.sync_states.insert(key, state);
            },
            None => {},
        }
        assert(self.sync_states@ =~= if old(self).sync_states@.contains_key(buffer_id@) {
            old(self).sync_states@.insert(
                buffer_id@,
                (BufferSyncState {
                    ignore_until: Some((now + SAVE_GRACE_MILLIS) as u64),
                    ..old(self).sync_states@[buffer_id@]
                }),
            )
        } else {
            old(self).sync_states@
        });
    }

    /// The part of a path behind its last separator.
    pub open spec fn name_of(path: Seq<char>) -> Seq<char>
        decreases path.len(),
    {
        if path.len() == 0 || path.last() == '/' {
            seq![]
        } else {
            Self::name_of(path.drop_last()).push(path.last())
        }
    }

    /// What `status` says.
    pub open spec fn status_text(&self) -> Seq<char> {
        let names = self.paths@.map_values(|p: WatchedPath| Self::name_of(p.file_path@));
        "FileWatcher "@ + (if self.active {
            "active"@
        } else {
            "inactive"@
        }) + ": "@ + text::decimal(self.paths@.len()) + " file(s) watched: "@ + text::joined(
            names,
            ", "@,
        )
    }

    fn file_name(path: &str) -> (r: String)
        ensures
            r@ == Self::name_of(path@),
    {
        let chars = text::str_chars(path);
        let mut start: usize = chars.len();
        let total = chars.len();
        assert(path@.take(start as int) =~= path@);
        while start > 0 && chars[start - 1] != '/'
            invariant
                start <= total == chars@.len(),
                chars@ == path@,
                Self::name_of(path@) == Self::name_of(path@.take(start as int)) + path@.subrange(
                    start as int,
                    total as int,
                ),
            decreases start,
        {
            proof {
                let t = path@.take(start as int);
                assert(t.drop_last() =~= path@.take(start - 1));
                assert(Self::name_of(path@.take(start - 1)).push(t.last()) + path@.subrange(
                    start as int,
                    total as int,
                ) =~= Self::name_of(path@.take(start - 1)) + path@.subrange(
                    start - 1,
                    total as int,
                ));
            }
            start = start - 1;
        }
        let r = text::chars_string(&chars, start, total);
        proof {
            assert(Self::name_of(path@.take(start as int)) =~= seq![]);
            assert(r@ =~= Self::name_of(path@));
        }
        r
    }

    /// What is watched, in words.
    pub fn status(&self) -> (r: String)
        ensures
            r@ == self.status_text(),
    {
        let ghost names = self.paths@.map_values(|p: WatchedPath| Self::name_of(p.file_path@));
        let mut list: Vec<String> = Vec::new();
        let mut i: usize = 0;
        while i < self.paths.len()
            invariant
                i <= self.paths@.len(),
                names == self.paths@.map_values(|p: WatchedPath| Self::name_of(p.file_path@)),
                text::views(list@) == names.take(i as int),
            decreases self.paths.len() - i,
        {
            let name = Self::file_name(self.paths[i].file_path.as_str());
            let ghost before = list@;
            list.push(name);
            assert(text::views(list@) =~= text::views(before).push(name@));
            assert(names.take(i + 1) =~= names.take(i as int).push(names[i as int]));
            i = i + 1;
        }
        assert(names.take(i as int) =~= names);
        let mut r = "FileWatcher ".to_owned();
        r.append(
            if self.active {
                "active"
            } else {
                "inactive"
            },
        );
        r.append(": ");
        r.append(decimal_string(self.paths.len() as u64).as_str());
        r.append(" file(s) watched: ");
        r.append(join_lines(&list, ", ").as_str());
        r
    }
}

impl Default for FileWatcher {
    fn default() -> (w: Self)
        ensures
            !w.active,
            w.paths@.len() == 0,
            w.sync_states@ == Map::<u64, BufferSyncState>::empty(),
    {
        Self::new()
    }
}

/// A file that is watched is found by its path, and a file that is no longer
/// watched is not.
pub proof fn other_paths_forget(paths: Seq<WatchedPath>, path: Seq<char>)
    ensures
        watched_buffer(other_paths(paths, path), path) is None,
    decreases paths.len(),
{
    if paths.len() > 0 {
        other_paths_forget(paths.drop_last(), path);
        let rest = other_paths(paths.drop_last(), path);
        if paths.last().file_path@ != path {
            assert(rest.push(paths.last()).drop_last() =~= rest);
        }
    }
}

/// While a save is under way, no change of its file matters.
pub proof fn saving_hides_changes(
    states: Map<u64, BufferSyncState>,
    id: BufferId,
    now: u64,
    later: u64,
    events: Seq<FileChangeEvent>,
)
    requires
        states.contains_key(id@),
        states[id@].ignore_until == Some((now + SAVE_GRACE_MILLIS) as u64),
        now + SAVE_GRACE_MILLIS <= u64::MAX,
        later < now + SAVE_GRACE_MILLIS,
        forall|i: int| 0 <= i < events.len() ==> (#[trigger] events[i]).buffer_id == id,
    ensures
        relevant(events, states, later) == Seq::<FileChangeEvent>::empty(),
    decreases events.len(),
{
    if events.len() > 0 {
        assert(events.last() == events[events.len() - 1]);
        assert forall|i: int| 0 <= i < events.drop_last().len() implies (
        #[trigger] events.drop_last()[i]).buffer_id == id by {
            assert(events[i].buffer_id == id);
        }
        saving_hides_changes(states, id, now, later, events.drop_last());
    }
}

} // verus!
