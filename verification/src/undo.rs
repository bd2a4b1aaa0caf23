//! Edits as values, and the history that undo and redo walk through.

use vstd::prelude::*;
use vstd::string::*;

use crate::text::char_count;

verus! {

/// One recorded change of a text. Positions count characters.
#[derive(Debug)]
pub enum EditOp {
    Insert { pos: usize, text: String },
    Delete { pos: usize, text: String },
    Group(Vec<EditOp>),
}

/// `t` with `ins` put in front of position `pos`.
pub open spec fn spliced(t: Seq<char>, pos: int, ins: Seq<char>) -> Seq<char> {
    t.subrange(0, pos) + ins + t.subrange(pos, t.len() as int)
}

/// `t` without the characters from `start` up to `end`.
pub open spec fn cut(t: Seq<char>, start: int, end: int) -> Seq<char> {
    t.subrange(0, start) + t.subrange(end, t.len() as int)
}

/// Whether `op` is a change that can be made to `t`.
pub open spec fn applies(op: EditOp, t: Seq<char>) -> bool
    decreases op,
{
    match op {
        EditOp::Insert { pos, text } => pos <= t.len(),
        EditOp::Delete { pos, text } => {
            &&& pos + text@.len() <= t.len()
            &&& t.subrange(pos as int, pos + text@.len()) == text@
        },
        EditOp::Group(ops) => applies_seq(ops@, t),
    }
}

/// Whether the changes `ops` can be made to `t`, first to last.
pub open spec fn applies_seq(ops: Seq<EditOp>, t: Seq<char>) -> bool
    decreases ops,
{
    if ops.len() == 0 {
        true
    } else {
        &&& applies_seq(ops.drop_last(), t)
        &&& applies(ops.last(), apply_seq(ops.drop_last(), t))
    }
}

/// `t` after the change `op`.
pub open spec fn apply(op: EditOp, t: Seq<char>) -> Seq<char>
    decreases op,
{
    match op {
        EditOp::Insert { pos, text } => spliced(t, pos as int, text@),
        EditOp::Delete { pos, text } => cut(t, pos as int, pos + text@.len()),
        EditOp::Group(ops) => apply_seq(ops@, t),
    }
}

/// `t` after the changes `ops`, first to last.
pub open spec fn apply_seq(ops: Seq<EditOp>, t: Seq<char>) -> Seq<char>
    decreases ops,
{
    if ops.len() == 0 {
        t
    } else {
        apply(ops.last(), apply_seq(ops.drop_last(), t))
    }
}

/// Where the cursor stands after `op`: behind an insertion, at a deletion, and
/// after a group where its last change puts it.
pub open spec fn cursor_after(op: EditOp) -> int
    decreases op,
{
    match op {
        EditOp::Insert { pos, text } => pos + text@.len(),
        EditOp::Delete { pos, text } => pos as int,
        EditOp::Group(ops) => cursor_after_seq(ops@),
    }
}

/// The cursor after the last of `ops`, or 0 where there is none.
pub open spec fn cursor_after_seq(ops: Seq<EditOp>) -> int
    decreases ops,
{
    if ops.len() == 0 {
        0
    } else {
        cursor_after(ops.last())
    }
}

/// Whether `r` takes back what `op` does.
pub open spec fn reverses(op: EditOp, r: EditOp) -> bool
    decreases op,
{
    match op {
        EditOp::Insert { pos, text } => r matches EditOp::Delete { pos: p, text: x } && p == pos
            && x@ == text@,
        EditOp::Delete { pos, text } => r matches EditOp::Insert { pos: p, text: x } && p == pos
            && x@ == text@,
        EditOp::Group(ops) => r matches EditOp::Group(rs) && reverses_seq(ops@, rs@),
    }
}

/// Whether `rs` takes back `ops`, last change first.
pub open spec fn reverses_seq(ops: Seq<EditOp>, rs: Seq<EditOp>) -> bool
    decreases ops,
{
    if ops.len() == 0 {
        rs.len() == 0
    } else {
        &&& rs.len() > 0
        &&& reverses(ops.last(), rs.first())
        &&& reverses_seq(ops.drop_last(), rs.drop_first())
    }
}

impl EditOp {
    /// The change that takes this one back.
    pub fn reverse(&self) -> (r: EditOp)
        ensures
            reverses(*self, r),
        decreases self,
    {
        match self {
            EditOp::Insert { pos, text } => {
                let r = EditOp::Delete { pos: *pos, text: text.clone() };
                assert(reverses(*self, r));
                r
            },
            EditOp::Delete { pos, text } => {
                let r = EditOp::Insert { pos: *pos, text: text.clone() };
                assert(reverses(*self, r));
                r
            },
            EditOp::Group(ops) => {
                let mut rs: Vec<EditOp> = Vec::new();
                let mut i: usize = 0;
                while i < ops.len()
                    invariant
                        i <= ops@.len(),
                        *self == EditOp::Group(*ops),
                        reverses_seq(ops@.take(i as int), rs@),
                    decreases ops.len() - i,
                {
                    assert(decreases_to!(*self => self->Group_0));
                    assert(decreases_to!(*ops => ops@));
                    assert(decreases_to!(ops@ => ops@[i as int]));
                    let r = ops[i].reverse();
                    let ghost before = rs@;
                    rs.insert(0, r);
                    assert(ops@.take(i + 1).drop_last() =~= ops@.take(i as int));
                    assert(rs@.drop_first() =~= before);
                    i = i + 1;
                }
                assert(ops@.take(i as int) =~= ops@);
                EditOp::Group(rs)
            },
        }
    }
}

/// Taking a change back restores the text that it was made to.
pub proof fn reverse_restores(op: EditOp, r: EditOp, t: Seq<char>)
    requires
        applies(op, t),
        reverses(op, r),
    ensures
        applies(r, apply(op, t)),
        apply(r, apply(op, t)) == t,
    decreases op,
{
    match op {
        EditOp::Insert { pos, text } => {
            let after = apply(op, t);
            assert(after.subrange(pos as int, pos + text@.len()) == text@);
            assert(cut(after, pos as int, pos + text@.len()) == t);
        },
        EditOp::Delete { pos, text } => {
            let after = apply(op, t);
            assert(spliced(after, pos as int, text@) == t);
        },
        EditOp::Group(ops) => {
            reverse_restores_seq(ops@, r->Group_0@, t);
        },
    }
}

/// Taking changes back, last to first, restores the text that they were made
/// to.
pub proof fn reverse_restores_seq(ops: Seq<EditOp>, rs: Seq<EditOp>, t: Seq<char>)
    requires
        applies_seq(ops, t),
        reverses_seq(ops, rs),
    ensures
        applies_seq(rs, apply_seq(ops, t)),
        apply_seq(rs, apply_seq(ops, t)) == t,
    decreases ops,
{
    if ops.len() > 0 {
        let mid = apply_seq(ops.drop_last(), t);
        let after = apply(ops.last(), mid);
        reverse_restores(ops.last(), rs.first(), mid);
        reverse_restores_seq(ops.drop_last(), rs.drop_first(), t);
        apply_seq_first(rs, after);
    }
}

/// Making changes one after another is making the first and then the rest.
proof fn apply_seq_first(ops: Seq<EditOp>, t: Seq<char>)
    requires
        ops.len() > 0,
    ensures
        apply_seq(ops, t) == apply_seq(ops.drop_first(), apply(ops.first(), t)),
        applies_seq(ops, t) == (applies(ops.first(), t) && applies_seq(
            ops.drop_first(),
            apply(ops.first(), t),
        )),
    decreases ops.len(),
{
    if ops.len() == 1 {
        assert(apply_seq(ops.drop_last(), t) == t);
        assert(applies_seq(ops.drop_last(), t));
        assert(apply_seq(ops.drop_first(), apply(ops.first(), t)) == apply(ops.first(), t));
        assert(applies_seq(ops.drop_first(), apply(ops.first(), t)));
    } else {
        apply_seq_first(ops.drop_last(), t);
        assert(ops.drop_last().drop_first() =~= ops.drop_first().drop_last());
        assert(ops.drop_last().first() == ops.first());
        assert(ops.drop_first().last() == ops.last());
    }
}

/// Whether `t` can be the text that `op` left behind.
pub open spec fn can_take_back(op: EditOp, t: Seq<char>) -> bool
    decreases op,
{
    match op {
        EditOp::Insert { pos, text } => {
            &&& pos + text@.len() <= t.len()
            &&& t.subrange(pos as int, pos + text@.len()) == text@
        },
        EditOp::Delete { pos, text } => pos <= t.len(),
        EditOp::Group(ops) => can_take_back_seq(ops@, t),
    }
}

/// Whether `t` can be the text that `ops` left behind.
pub open spec fn can_take_back_seq(ops: Seq<EditOp>, t: Seq<char>) -> bool
    decreases ops,
{
    if ops.len() == 0 {
        true
    } else {
        &&& can_take_back(ops.last(), t)
        &&& can_take_back_seq(ops.drop_last(), taken_back(ops.last(), t))
    }
}

/// The text before `op`, where `t` is the text after it.
pub open spec fn taken_back(op: EditOp, t: Seq<char>) -> Seq<char>
    decreases op,
{
    match op {
        EditOp::Insert { pos, text } => cut(t, pos as int, pos + text@.len()),
        EditOp::Delete { pos, text } => spliced(t, pos as int, text@),
        EditOp::Group(ops) => taken_back_seq(ops@, t),
    }
}

/// The text before `ops`, where `t` is the text after them.
pub open spec fn taken_back_seq(ops: Seq<EditOp>, t: Seq<char>) -> Seq<char>
    decreases ops,
{
    if ops.len() == 0 {
        t
    } else {
        taken_back_seq(ops.drop_last(), taken_back(ops.last(), t))
    }
}

/// A change that was made can be taken back, to the text that it was made to.
pub proof fn apply_can_be_taken_back(op: EditOp, t: Seq<char>)
    requires
        applies(op, t),
    ensures
        can_take_back(op, apply(op, t)),
        taken_back(op, apply(op, t)) == t,
    decreases op,
{
    match op {
        EditOp::Insert { pos, text } => {
            let after = apply(op, t);
            assert(after.subrange(pos as int, pos + text@.len()) == text@);
            assert(cut(after, pos as int, pos + text@.len()) == t);
        },
        EditOp::Delete { pos, text } => {
            assert(spliced(apply(op, t), pos as int, text@) == t);
        },
        EditOp::Group(ops) => {
            apply_can_be_taken_back_seq(ops@, t);
        },
    }
}

proof fn apply_can_be_taken_back_seq(ops: Seq<EditOp>, t: Seq<char>)
    requires
        applies_seq(ops, t),
    ensures
        can_take_back_seq(ops, apply_seq(ops, t)),
        taken_back_seq(ops, apply_seq(ops, t)) == t,
    decreases ops,
{
    if ops.len() > 0 {
        apply_can_be_taken_back_seq(ops.drop_last(), t);
        apply_can_be_taken_back(ops.last(), apply_seq(ops.drop_last(), t));
    }
}

/// A change that was taken back can be made again, with the same text as result.
pub proof fn taken_back_applies_again(op: EditOp, t: Seq<char>)
    requires
        can_take_back(op, t),
    ensures
        applies(op, taken_back(op, t)),
        apply(op, taken_back(op, t)) == t,
    decreases op,
{
    match op {
        EditOp::Insert { pos, text } => {
            assert(spliced(taken_back(op, t), pos as int, text@) == t);
        },
        EditOp::Delete { pos, text } => {
            let before = taken_back(op, t);
            assert(before.subrange(pos as int, pos + text@.len()) == text@);
            assert(cut(before, pos as int, pos + text@.len()) == t);
        },
        EditOp::Group(ops) => {
            taken_back_applies_again_seq(ops@, t);
        },
    }
}

proof fn taken_back_applies_again_seq(ops: Seq<EditOp>, t: Seq<char>)
    requires
        can_take_back_seq(ops, t),
    ensures
        applies_seq(ops, taken_back_seq(ops, t)),
        apply_seq(ops, taken_back_seq(ops, t)) == t,
    decreases ops,
{
    if ops.len() > 0 {
        taken_back_applies_again(ops.last(), t);
        taken_back_applies_again_seq(ops.drop_last(), taken_back(ops.last(), t));
    }
}

/// The reversal of a change leads to the text before it.
pub proof fn reverse_takes_back(op: EditOp, r: EditOp, t: Seq<char>)
    requires
        can_take_back(op, t),
        reverses(op, r),
    ensures
        applies(r, t),
        apply(r, t) == taken_back(op, t),
{
    taken_back_applies_again(op, t);
    reverse_restores(op, r, taken_back(op, t));
}

/// Whether the positions of `op` lie in a text of `n` characters that it is made
/// to.
pub open spec fn fits(op: EditOp, n: int) -> bool
    decreases op,
{
    match op {
        EditOp::Insert { pos, text } => pos <= n,
        EditOp::Delete { pos, text } => pos + text@.len() <= n,
        EditOp::Group(ops) => fits_seq(ops@, n),
    }
}

/// Whether the positions of `ops`, made first to last, lie in a text of `n`
/// characters.
pub open spec fn fits_seq(ops: Seq<EditOp>, n: int) -> bool
    decreases ops,
{
    if ops.len() == 0 {
        true
    } else {
        &&& fits_seq(ops.drop_last(), n)
        &&& fits(ops.last(), len_after_seq(ops.drop_last(), n))
    }
}

/// How long a text of `n` characters is after `op`.
pub open spec fn len_after(op: EditOp, n: int) -> int
    decreases op,
{
    match op {
        EditOp::Insert { pos, text } => n + text@.len(),
        EditOp::Delete { pos, text } => n - text@.len(),
        EditOp::Group(ops) => len_after_seq(ops@, n),
    }
}

/// How long a text of `n` characters is after `ops`.
pub open spec fn len_after_seq(ops: Seq<EditOp>, n: int) -> int
    decreases ops,
{
    if ops.len() == 0 {
        n
    } else {
        len_after(ops.last(), len_after_seq(ops.drop_last(), n))
    }
}

/// Whether the positions of `op` lie in a text of `n` characters from which it
/// is taken back.
pub open spec fn fits_back(op: EditOp, n: int) -> bool
    decreases op,
{
    match op {
        EditOp::Insert { pos, text } => pos + text@.len() <= n,
        EditOp::Delete { pos, text } => pos <= n,
        EditOp::Group(ops) => fits_back_seq(ops@, n),
    }
}

/// Whether the positions of `ops`, taken back last to first, lie in a text of
/// `n` characters.
pub open spec fn fits_back_seq(ops: Seq<EditOp>, n: int) -> bool
    decreases ops,
{
    if ops.len() == 0 {
        true
    } else {
        &&& fits_back(ops.last(), n)
        &&& fits_back_seq(ops.drop_last(), len_before(ops.last(), n))
    }
}

/// How long a text was before `op`, where it has `n` characters after it.
pub open spec fn len_before(op: EditOp, n: int) -> int
    decreases op,
{
    match op {
        EditOp::Insert { pos, text } => n - text@.len(),
        EditOp::Delete { pos, text } => n + text@.len(),
        EditOp::Group(ops) => len_before_seq(ops@, n),
    }
}

/// How long a text was before `ops`, where it has `n` characters after them.
pub open spec fn len_before_seq(ops: Seq<EditOp>, n: int) -> int
    decreases ops,
{
    if ops.len() == 0 {
        n
    } else {
        len_before_seq(ops.drop_last(), len_before(ops.last(), n))
    }
}

/// A change whose positions lie in a text leaves one as long as they say.
pub proof fn fits_gives_len(op: EditOp, t: Seq<char>)
    requires
        fits(op, t.len() as int),
    ensures
        apply(op, t).len() == len_after(op, t.len() as int),
    decreases op,
{
    match op {
        EditOp::Group(ops) => {
            fits_seq_gives_len(ops@, t);
        },
        _ => {},
    }
}

pub proof fn fits_seq_gives_len(ops: Seq<EditOp>, t: Seq<char>)
    requires
        fits_seq(ops, t.len() as int),
    ensures
        apply_seq(ops, t).len() == len_after_seq(ops, t.len() as int),
    decreases ops,
{
    if ops.len() > 0 {
        fits_seq_gives_len(ops.drop_last(), t);
        fits_gives_len(ops.last(), apply_seq(ops.drop_last(), t));
    }
}

/// Changes whose positions lie in a text do so up to any of them.
pub proof fn fits_prefix(ops: Seq<EditOp>, n: int, k: int)
    requires
        0 <= k <= ops.len(),
        fits_seq(ops, n),
    ensures
        fits_seq(ops.take(k), n),
    decreases ops.len(),
{
    if k == ops.len() {
        assert(ops.take(k) =~= ops);
    } else {
        fits_prefix(ops.drop_last(), n, k);
        assert(ops.drop_last().take(k) =~= ops.take(k));
    }
}

proof fn fits_seq_first(ops: Seq<EditOp>, n: int)
    requires
        ops.len() > 0,
    ensures
        fits_seq(ops, n) == (fits(ops.first(), n) && fits_seq(
            ops.drop_first(),
            len_after(ops.first(), n),
        )),
        len_after_seq(ops, n) == len_after_seq(ops.drop_first(), len_after(ops.first(), n)),
    decreases ops.len(),
{
    if ops.len() == 1 {
        assert(fits_seq(ops.drop_last(), n));
        assert(len_after_seq(ops.drop_last(), n) == n);
        assert(fits_seq(ops.drop_first(), len_after(ops.first(), n)));
        assert(len_after_seq(ops.drop_first(), len_after(ops.first(), n)) == len_after(
            ops.first(),
            n,
        ));
    } else {
        fits_seq_first(ops.drop_last(), n);
        assert(ops.drop_last().drop_first() =~= ops.drop_first().drop_last());
        assert(ops.drop_last().first() == ops.first());
        assert(ops.drop_first().last() == ops.last());
    }
}

/// A change that can be made to a text has its positions in it.
pub proof fn applies_fits(op: EditOp, t: Seq<char>)
    requires
        applies(op, t),
    ensures
        fits(op, t.len() as int),
        apply(op, t).len() == len_after(op, t.len() as int),
    decreases op,
{
    match op {
        EditOp::Group(ops) => {
            applies_seq_fits(ops@, t);
        },
        _ => {},
    }
}

proof fn applies_seq_fits(ops: Seq<EditOp>, t: Seq<char>)
    requires
        applies_seq(ops, t),
    ensures
        fits_seq(ops, t.len() as int),
        apply_seq(ops, t).len() == len_after_seq(ops, t.len() as int),
    decreases ops,
{
    if ops.len() > 0 {
        applies_seq_fits(ops.drop_last(), t);
        applies_fits(ops.last(), apply_seq(ops.drop_last(), t));
    }
}

/// A change that can be taken back from a text has its positions in it.
pub proof fn taken_back_fits(op: EditOp, t: Seq<char>)
    requires
        can_take_back(op, t),
    ensures
        fits_back(op, t.len() as int),
        taken_back(op, t).len() == len_before(op, t.len() as int),
    decreases op,
{
    match op {
        EditOp::Group(ops) => {
            taken_back_seq_fits(ops@, t);
        },
        _ => {},
    }
}

proof fn taken_back_seq_fits(ops: Seq<EditOp>, t: Seq<char>)
    requires
        can_take_back_seq(ops, t),
    ensures
        fits_back_seq(ops, t.len() as int),
        taken_back_seq(ops, t).len() == len_before_seq(ops, t.len() as int),
    decreases ops,
{
    if ops.len() > 0 {
        taken_back_fits(ops.last(), t);
        taken_back_seq_fits(ops.drop_last(), taken_back(ops.last(), t));
    }
}

/// The reversal of a change does what taking it back does, wherever its
/// positions lie in the text.
pub proof fn reverse_does_it(op: EditOp, r: EditOp, t: Seq<char>)
    requires
        reverses(op, r),
        fits_back(op, t.len() as int),
    ensures
        fits(r, t.len() as int),
        apply(r, t) == taken_back(op, t),
        len_after(r, t.len() as int) == len_before(op, t.len() as int),
        taken_back(op, t).len() == len_before(op, t.len() as int),
    decreases op,
{
    match op {
        EditOp::Group(ops) => {
            reverse_does_it_seq(ops@, r->Group_0@, t);
        },
        _ => {},
    }
}

proof fn reverse_does_it_seq(ops: Seq<EditOp>, rs: Seq<EditOp>, t: Seq<char>)
    requires
        reverses_seq(ops, rs),
        fits_back_seq(ops, t.len() as int),
    ensures
        fits_seq(rs, t.len() as int),
        apply_seq(rs, t) == taken_back_seq(ops, t),
        len_after_seq(rs, t.len() as int) == len_before_seq(ops, t.len() as int),
        taken_back_seq(ops, t).len() == len_before_seq(ops, t.len() as int),
    decreases ops,
{
    if ops.len() > 0 {
        let mid = taken_back(ops.last(), t);
        reverse_does_it(ops.last(), rs.first(), t);
        reverse_does_it_seq(ops.drop_last(), rs.drop_first(), mid);
        apply_seq_first(rs, t);
        fits_seq_first(rs, t.len() as int);
    }
}

/// Whether a text of `n` characters gets longer than can be counted on the way
/// through `op`.
pub open spec fn outgrows(op: EditOp, n: int) -> bool
    decreases op,
{
    match op {
        EditOp::Insert { pos, text } => n + text@.len() > usize::MAX,
        EditOp::Delete { pos, text } => false,
        EditOp::Group(ops) => outgrows_seq(ops@, n),
    }
}

/// Whether a text of `n` characters gets longer than can be counted on the way
/// through `ops`.
pub open spec fn outgrows_seq(ops: Seq<EditOp>, n: int) -> bool
    decreases ops,
{
    if ops.len() == 0 {
        false
    } else {
        outgrows_seq(ops.drop_last(), n) || outgrows(
            ops.last(),
            len_after_seq(ops.drop_last(), n),
        )
    }
}

proof fn prefix_outgrows(ops: Seq<EditOp>, n: int, k: int)
    requires
        0 <= k <= ops.len(),
    ensures
        outgrows_seq(ops.take(k), n) ==> outgrows_seq(ops, n),
        fits_seq(ops, n) ==> fits_seq(ops.take(k), n),
    decreases ops.len(),
{
    if k == ops.len() {
        assert(ops.take(k) =~= ops);
    } else {
        prefix_outgrows(ops.drop_last(), n, k);
        assert(ops.drop_last().take(k) =~= ops.take(k));
    }
}

impl EditOp {
    /// How long a text of `n` characters is after this change, if its positions
    /// lie in the text and the length can be counted.
    pub fn fit(&self, n: usize) -> (r: Option<usize>)
        ensures
            match r {
                Some(m) => fits(*self, n as int) && m == len_after(*self, n as int),
                None => !fits(*self, n as int) || outgrows(*self, n as int),
            },
        decreases self,
    {
        match self {
            EditOp::Insert { pos, text } => {
                if *pos <= n {
                    n.checked_add(char_count(text.as_str()))
                } else {
                    None
                }
            },
            EditOp::Delete { pos, text } => {
                let len = char_count(text.as_str());
                if *pos <= n && len <= n - *pos {
                    Some(n - len)
                } else {
                    None
                }
            },
            EditOp::Group(ops) => {
                let mut m: usize = n;
                let mut i: usize = 0;
                assert(ops@.take(0) =~= Seq::<EditOp>::empty());
                while i < ops.len()
                    invariant
                        i <= ops@.len(),
                        *self == EditOp::Group(*ops),
                        fits_seq(ops@.take(i as int), n as int),
                        m == len_after_seq(ops@.take(i as int), n as int),
                    decreases ops.len() - i,
                {
                    proof {
                        assert(ops@.take(i + 1).drop_last() =~= ops@.take(i as int));
                        assert(ops@.take(i + 1).last() == ops@[i as int]);
                        assert(decreases_to!(*self => self->Group_0));
                        assert(decreases_to!(*ops => ops@));
                        assert(decreases_to!(ops@ => ops@[i as int]));
                    }
                    match ops[i].fit(m) {
                        Some(next) => {
                            m = next;
                        },
                        None => {
                            proof {
                                prefix_outgrows(ops@, n as int, i + 1);
                            }
                            return None;
                        },
                    }
                    i = i + 1;
                }
                assert(ops@.take(i as int) =~= ops@);
                Some(m)
            },
        }
    }
}

/// Whether a text of `n` characters gets longer than can be counted while `op`
/// is taken back.
pub open spec fn outgrows_back(op: EditOp, n: int) -> bool
    decreases op,
{
    match op {
        EditOp::Insert { pos, text } => false,
        EditOp::Delete { pos, text } => n + text@.len() > usize::MAX,
        EditOp::Group(ops) => outgrows_back_seq(ops@, n),
    }
}

/// Whether a text of `n` characters gets longer than can be counted while `ops`
/// are taken back.
pub open spec fn outgrows_back_seq(ops: Seq<EditOp>, n: int) -> bool
    decreases ops,
{
    if ops.len() == 0 {
        false
    } else {
        outgrows_back(ops.last(), n) || outgrows_back_seq(
            ops.drop_last(),
            len_before(ops.last(), n),
        )
    }
}

impl EditOp {
    /// How long a text of `n` characters is once this change is taken back, if
    /// its positions lie in the text and the length can be counted.
    pub fn fit_back(&self, n: usize) -> (r: Option<usize>)
        ensures
            match r {
                Some(m) => fits_back(*self, n as int) && m == len_before(*self, n as int),
                None => !fits_back(*self, n as int) || outgrows_back(*self, n as int),
            },
        decreases self,
    {
        match self {
            EditOp::Insert { pos, text } => {
                let len = char_count(text.as_str());
                if *pos <= n && len <= n - *pos {
                    Some(n - len)
                } else {
                    None
                }
            },
            EditOp::Delete { pos, text } => {
                if *pos <= n {
                    n.checked_add(char_count(text.as_str()))
                } else {
                    None
                }
            },
            EditOp::Group(ops) => {
                assert(decreases_to!(*self => self->Group_0));
                fit_back_all(ops, n)
            },
        }
    }
}

/// How long a text of `n` characters is once changes are taken back, last to
/// first.
fn fit_back_all(ops: &Vec<EditOp>, n: usize) -> (r: Option<usize>)
    ensures
        match r {
            Some(m) => fits_back_seq(ops@, n as int) && m == len_before_seq(ops@, n as int),
            None => !fits_back_seq(ops@, n as int) || outgrows_back_seq(ops@, n as int),
        },
    decreases ops,
{
    let mut m: usize = n;
    let mut i: usize = ops.len();
    assert(ops@.take(i as int) =~= ops@);
    while i > 0
        invariant
            i <= ops@.len(),
            fits_back_seq(ops@, n as int) == fits_back_seq(ops@.take(i as int), m as int),
            len_before_seq(ops@, n as int) == len_before_seq(ops@.take(i as int), m as int),
            outgrows_back_seq(ops@.take(i as int), m as int) ==> outgrows_back_seq(
                ops@,
                n as int,
            ),
        decreases i,
    {
        proof {
            assert(ops@.take(i as int).drop_last() =~= ops@.take(i - 1));
            assert(ops@.take(i as int).last() == ops@[i - 1]);
            assert(decreases_to!(*ops => ops@));
            assert(decreases_to!(ops@ => ops@[i - 1]));
        }
        match ops[i - 1].fit_back(m) {
            Some(next) => {
                m = next;
            },
            None => return None,
        }
        i = i - 1;
    }
    Some(m)
}

/// Whether the changes in `stack`, the latest on top, lead up to `t`.
pub open spec fn leads_up_to(stack: Seq<EditOp>, t: Seq<char>) -> bool
    decreases stack.len(),
{
    stack.len() > 0 ==> {
        &&& can_take_back(stack.last(), t)
        &&& leads_up_to(stack.drop_last(), taken_back(stack.last(), t))
    }
}

/// Whether the changes in `stack`, the next on top, can be made from `t` on.
pub open spec fn leads_on_from(stack: Seq<EditOp>, t: Seq<char>) -> bool
    decreases stack.len(),
{
    stack.len() > 0 ==> {
        &&& applies(stack.last(), t)
        &&& leads_on_from(stack.drop_last(), apply(stack.last(), t))
    }
}

/// The edits that can be undone and redone.
///
/// Edits pile up in `pending` until a boundary seals them into one entry of
/// `undo_stack`; between `begin_group` and the matching `end_group` no
/// boundary does.
#[derive(Debug)]
pub struct UndoManager {
    pub undo_stack: Vec<EditOp>,
    pub redo_stack: Vec<EditOp>,
    pub pending: Vec<EditOp>,
    pub group_depth: usize,
}

impl UndoManager {
    /// Whether the history fits the text `t`.
    pub open spec fn tracks(&self, t: Seq<char>) -> bool {
        &&& can_take_back_seq(self.pending@, t)
        &&& leads_up_to(self.undo_stack@, taken_back_seq(self.pending@, t))
        &&& leads_on_from(self.redo_stack@, t)
        &&& self.pending@.len() > 0 ==> self.redo_stack@.len() == 0
    }

    /// Whether the positions of the latest entry lie in a text of `n` characters,
    /// so that it can be taken back.
    pub open spec fn undo_fits(&self, n: int) -> bool {
        if self.pending@.len() > 0 {
            fits_back_seq(self.pending@, n)
        } else {
            self.undo_stack@.len() > 0 ==> fits_back(self.undo_stack@.last(), n)
        }
    }

    /// Whether the positions of the edit undone last lie in a text of `n`
    /// characters, so that it can be made again.
    pub open spec fn redo_fits(&self, n: int) -> bool {
        self.redo_stack@.len() > 0 ==> fits(self.redo_stack@.last(), n)
    }

    /// Whether a text of `n` characters gets longer than can be counted when the
    /// latest entry is taken back.
    pub open spec fn undo_outgrows(&self, n: int) -> bool {
        if self.pending@.len() > 0 {
            outgrows_back_seq(self.pending@, n)
        } else {
            self.undo_stack@.len() > 0 && outgrows_back(self.undo_stack@.last(), n)
        }
    }

    /// A history that fits a text can be walked from there.
    pub proof fn tracked_fits(&self, t: Seq<char>)
        requires
            self.tracks(t),
        ensures
            self.undo_fits(t.len() as int),
            self.redo_fits(t.len() as int),
    {
        if self.pending@.len() > 0 {
            taken_back_seq_fits(self.pending@, t);
        } else if self.undo_stack@.len() > 0 {
            assert(taken_back_seq(self.pending@, t) == t);
            taken_back_fits(self.undo_stack@.last(), t);
        }
        if self.redo_stack@.len() > 0 {
            applies_fits(self.redo_stack@.last(), t);
        }
    }

    /// Whether nothing has been recorded.
    pub open spec fn is_blank(&self) -> bool {
        &&& self.undo_stack@.len() == 0
        &&& self.redo_stack@.len() == 0
        &&& self.pending@.len() == 0
    }

    pub fn new() -> (m: Self)
        ensures
            m.is_blank(),
            m.group_depth == 0,
    {
        UndoManager {
            undo_stack: Vec::new(),
            redo_stack: Vec::new(),
            pending: Vec::new(),
            group_depth: 0,
        }
    }

    /// A blank history fits every text.
    pub proof fn blank_tracks(&self, t: Seq<char>)
        requires
            self.is_blank(),
        ensures
            self.tracks(t),
    {
    }

    /// Records `op`, which makes what was undone before unreachable.
    pub fn record(&mut self, op: EditOp)
        ensures
            final(self).pending@ == old(self).pending@.push(op),
            final(self).redo_stack@.len() == 0,
            final(self).undo_stack@ == old(self).undo_stack@,
            final(self).group_depth == old(self).group_depth,
    {
        self.redo_stack.clear();
        self.pending.push(op);
    }

    /// Recording a change that was made keeps the history in step with the text.
    pub proof fn record_keeps_track(before: Self, after: Self, op: EditOp, t: Seq<char>)
        requires
            before.tracks(t),
            applies(op, t),
            after.pending@ == before.pending@.push(op),
            after.redo_stack@.len() == 0,
            after.undo_stack@ == before.undo_stack@,
        ensures
            after.tracks(apply(op, t)),
    {
        apply_can_be_taken_back(op, t);
        assert(after.pending@.drop_last() =~= before.pending@);
    }

    /// Records that `text` was put in front of `pos`.
    pub fn record_insert(&mut self, pos: usize, text: String)
        ensures
            final(self).pending@ == old(self).pending@.push((EditOp::Insert { pos, text })),
            final(self).redo_stack@.len() == 0,
            final(self).undo_stack@ == old(self).undo_stack@,
            final(self).group_depth == old(self).group_depth,
    {
        self.record(EditOp::Insert { pos, text });
    }

    /// Records that `text` was taken out at `pos`.
    pub fn record_delete(&mut self, pos: usize, text: String)
        ensures
            final(self).pending@ == old(self).pending@.push((EditOp::Delete { pos, text })),
            final(self).redo_stack@.len() == 0,
            final(self).undo_stack@ == old(self).undo_stack@,
            final(self).group_depth == old(self).group_depth,
    {
        self.record(EditOp::Delete { pos, text });
    }

    /// The entry that sealing `pending` makes: the change itself where it is
    /// one, a group of them where there are more.
    pub open spec fn is_sealed_entry(pending: Seq<EditOp>, entry: EditOp) -> bool {
        if pending.len() == 1 {
            entry == pending[0]
        } else {
            entry matches EditOp::Group(ops) && ops@ == pending
        }
    }

    /// Closes the run of pending edits: the next edit starts a new one.
    pub fn seal(&mut self)
        ensures
            final(self).pending@.len() == 0,
            final(self).redo_stack@ == old(self).redo_stack@,
            final(self).group_depth == old(self).group_depth,
            old(self).pending@.len() == 0 ==> final(self).undo_stack@ == old(self).undo_stack@,
            old(self).pending@.len() > 0 ==> {
                &&& final(self).undo_stack@.len() == old(self).undo_stack@.len() + 1
                &&& final(self).undo_stack@.drop_last() == old(self).undo_stack@
                &&& Self::is_sealed_entry(old(self).pending@, final(self).undo_stack@.last())
            },
    {
        if self.pending.len() == 0 {
            return;
        }
        let mut run: Vec<EditOp> = Vec::new();
        std::mem::swap(&mut run, &mut self.pending);
        let ghost before = self.undo_stack@;
        if run.len() == 1 {
            let only = run.pop();
            match only {
                Some(op) => self.undo_stack.push(op),
                None => (),
            }
        } else {
            self.undo_stack.push(EditOp::Group(run));
        }
        assert(self.undo_stack@.drop_last() =~= before);
    }

    /// Sealing changes how the history is cut up, not what it says of the text.
    pub proof fn seal_keeps_track(before: Self, after: Self, t: Seq<char>)
        requires
            before.tracks(t),
            after.pending@.len() == 0,
            after.redo_stack@ == before.redo_stack@,
            before.pending@.len() == 0 ==> after.undo_stack@ == before.undo_stack@,
            before.pending@.len() > 0 ==> {
                &&& after.undo_stack@.len() == before.undo_stack@.len() + 1
                &&& after.undo_stack@.drop_last() == before.undo_stack@
                &&& Self::is_sealed_entry(before.pending@, after.undo_stack@.last())
            },
        ensures
            after.tracks(t),
    {
        let run = before.pending@;
        if run.len() == 1 {
            assert(run.drop_last() =~= Seq::<EditOp>::empty());
            assert(can_take_back_seq(run.drop_last(), taken_back(run.last(), t)));
            assert(taken_back_seq(run.drop_last(), taken_back(run.last(), t)) == taken_back(
                run.last(),
                t,
            ));
        }
    }

    /// Marks the end of a run of edits, unless a group is open.
    pub fn boundary(&mut self)
        ensures
            final(self).redo_stack@ == old(self).redo_stack@,
            final(self).group_depth == old(self).group_depth,
            old(self).group_depth > 0 || old(self).pending@.len() == 0 ==> {
                &&& final(self).undo_stack@ == old(self).undo_stack@
                &&& final(self).pending@ == old(self).pending@
            },
            old(self).group_depth == 0 && old(self).pending@.len() > 0 ==> {
                &&& final(self).pending@.len() == 0
                &&& final(self).undo_stack@.len() == old(self).undo_stack@.len() + 1
                &&& final(self).undo_stack@.drop_last() == old(self).undo_stack@
                &&& Self::is_sealed_entry(old(self).pending@, final(self).undo_stack@.last())
            },
            forall|t: Seq<char>| old(self).tracks(t) ==> #[trigger] final(self).tracks(t),
    {
        let ghost before = *self;
        if self.group_depth == 0 {
            self.seal();
            proof {
                assert forall|t: Seq<char>| before.tracks(t) implies #[trigger] self.tracks(t) by {
                    Self::seal_keeps_track(before, *self, t);
                }
            }
        }
    }

    /// Opens a group: what is recorded until it closes is undone at once.
    pub fn begin_group(&mut self)
        ensures
            final(self).redo_stack@ == old(self).redo_stack@,
            final(self).group_depth == (if old(self).group_depth < usize::MAX {
                (old(self).group_depth + 1) as usize
            } else {
                usize::MAX
            }),
            old(self).group_depth == 0 ==> final(self).pending@.len() == 0,
            old(self).group_depth > 0 || old(self).pending@.len() == 0 ==> {
                &&& final(self).undo_stack@ == old(self).undo_stack@
                &&& final(self).pending@ == old(self).pending@
            },
            old(self).group_depth == 0 && old(self).pending@.len() > 0 ==> {
                &&& final(self).undo_stack@.len() == old(self).undo_stack@.len() + 1
                &&& final(self).undo_stack@.drop_last() == old(self).undo_stack@
                &&& Self::is_sealed_entry(old(self).pending@, final(self).undo_stack@.last())
            },
            forall|t: Seq<char>| old(self).tracks(t) ==> #[trigger] final(self).tracks(t),
    {
        self.boundary();
        let ghost before = *self;
        self.group_depth = self.group_depth.saturating_add(1);
        assert forall|t: Seq<char>| before.tracks(t) implies #[trigger] self.tracks(t) by {}
    }

    /// Closes a group; closing the outermost one seals it.
    pub fn end_group(&mut self)
        ensures
            final(self).redo_stack@ == old(self).redo_stack@,
            final(self).group_depth == (if old(self).group_depth > 0 {
                (old(self).group_depth - 1) as usize
            } else {
                0
            }),
            old(self).group_depth != 1 || old(self).pending@.len() == 0 ==> {
                &&& final(self).undo_stack@ == old(self).undo_stack@
                &&& final(self).pending@ == old(self).pending@
            },
            old(self).group_depth == 1 && old(self).pending@.len() > 0 ==> {
                &&& final(self).pending@.len() == 0
                &&& final(self).undo_stack@.len() == old(self).undo_stack@.len() + 1
                &&& final(self).undo_stack@.drop_last() == old(self).undo_stack@
                &&& Self::is_sealed_entry(old(self).pending@, final(self).undo_stack@.last())
            },
            forall|t: Seq<char>| old(self).tracks(t) ==> #[trigger] final(self).tracks(t),
    {
        let ghost before = *self;
        if self.group_depth > 0 {
            self.group_depth = self.group_depth - 1;
            if self.group_depth == 0 {
                self.boundary();
            }
        }
        proof {
            assert forall|t: Seq<char>| before.tracks(t) implies #[trigger] self.tracks(t) by {
                let mid = UndoManager { group_depth: 0, ..before };
                assert(mid.tracks(t));
            }
        }
    }

    /// Takes the latest entry off the history, sealing the pending edits first.
    pub fn pop_undo(&mut self) -> (r: Option<EditOp>)
        ensures
            r is Some <==> old(self).pending@.len() + old(self).undo_stack@.len() > 0,
            final(self).pending@.len() == 0,
            final(self).redo_stack@ == old(self).redo_stack@,
            final(self).group_depth == old(self).group_depth,
            r matches Some(op) ==> if old(self).pending@.len() > 0 {
                &&& Self::is_sealed_entry(old(self).pending@, op)
                &&& final(self).undo_stack@ == old(self).undo_stack@
            } else {
                &&& op == old(self).undo_stack@.last()
                &&& final(self).undo_stack@ == old(self).undo_stack@.drop_last()
            },
            r is None ==> final(self).undo_stack@ == old(self).undo_stack@,
            forall|n: int| #[trigger]
                old(self).undo_fits(n) ==> (r matches Some(op) ==> fits_back(op, n)),
            forall|t: Seq<char>| #[trigger]
                old(self).tracks(t) ==> (r matches Some(op) ==> {
                    &&& can_take_back(op, t)
                    &&& leads_up_to(final(self).undo_stack@, taken_back(op, t))
                }),
    {
        let ghost before = *self;
        self.seal();
        let ghost sealed = *self;
        let r = self.undo_stack.pop();
        proof {
            assert forall|t: Seq<char>| #[trigger] before.tracks(t) implies (r matches Some(op) ==> {
                &&& can_take_back(op, t)
                &&& leads_up_to(self.undo_stack@, taken_back(op, t))
            }) by {
                Self::seal_keeps_track(before, sealed, t);
                assert(taken_back_seq(sealed.pending@, t) == t);
                assert(self.undo_stack@ =~= sealed.undo_stack@.drop_last() || r is None);
            }
        }
        r
    }

    /// Notes that `op` was undone, so that it can be redone.
    pub fn did_undo(&mut self, op: EditOp)
        ensures
            final(self).redo_stack@ == old(self).redo_stack@.push(op),
            final(self).undo_stack@ == old(self).undo_stack@,
            final(self).pending@ == old(self).pending@,
            final(self).group_depth == old(self).group_depth,
    {
        self.redo_stack.push(op);
    }

    /// Takes the latest undone entry.
    pub fn pop_redo(&mut self) -> (r: Option<EditOp>)
        ensures
            r is Some <==> old(self).redo_stack@.len() > 0,
            r matches Some(op) ==> {
                &&& op == old(self).redo_stack@.last()
                &&& final(self).redo_stack@ == old(self).redo_stack@.drop_last()
            },
            r is None ==> final(self).redo_stack@ == old(self).redo_stack@,
            final(self).undo_stack@ == old(self).undo_stack@,
            final(self).pending@ == old(self).pending@,
            final(self).group_depth == old(self).group_depth,
    {
        self.redo_stack.pop()
    }

    /// Notes that `op` was redone, so that it can be undone again.
    pub fn did_redo(&mut self, op: EditOp)
        ensures
            final(self).undo_stack@ == old(self).undo_stack@.push(op),
            final(self).redo_stack@ == old(self).redo_stack@,
            final(self).pending@ == old(self).pending@,
            final(self).group_depth == old(self).group_depth,
    {
        self.undo_stack.push(op);
    }

    /// Whether the edit undone last can be made again to a text of `n`
    /// characters.
    pub fn redo_lies_in(&self, n: usize) -> (r: bool)
        ensures
            r ==> self.redo_fits(n as int),
            !r ==> !self.redo_fits(n as int) || outgrows(self.redo_stack@.last(), n as int),
    {
        let total = self.redo_stack.len();
        total == 0 || self.redo_stack[total - 1].fit(n).is_some()
    }

    /// Whether the latest entry can be taken back from a text of `n` characters.
    pub fn undo_lies_in(&self, n: usize) -> (r: bool)
        ensures
            r ==> self.undo_fits(n as int),
            !r ==> !self.undo_fits(n as int) || self.undo_outgrows(n as int),
    {
        let total = self.undo_stack.len();
        if self.pending.len() > 0 {
            fit_back_all(&self.pending, n).is_some()
        } else {
            total == 0 || self.undo_stack[total - 1].fit_back(n).is_some()
        }
    }

    pub fn can_undo(&self) -> (r: bool)
        ensures
            r == (self.pending@.len() + self.undo_stack@.len() > 0),
    {
        self.pending.len() > 0 || self.undo_stack.len() > 0
    }

    pub fn can_redo(&self) -> (r: bool)
        ensures
            r == (self.redo_stack@.len() > 0),
    {
        self.redo_stack.len() > 0
    }
}

} // verus!
