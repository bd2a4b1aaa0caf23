//! What a merge of changes from both sides comes to.

use vstd::prelude::*;

use crate::file_watcher;
use crate::file_watcher::{DiffLineView, DiffTag, Gathering, LineChangeView, MergeResult};
use crate::text;

verus! {

// --- Changes made at once ---

/// Whether a change takes out a line.
pub open spec fn covers(c: LineChangeView, line: int) -> bool {
    c.start_line <= line < c.end_line
}

/// Whether one of the changes takes out a line.
pub open spec fn covered(changes: Seq<LineChangeView>, line: int) -> bool {
    exists|c: LineChangeView| #[trigger] changes.contains(c) && covers(c, line)
}

/// Whether each change does something, to lines of a text with `n` lines.
pub open spec fn are_sound(changes: Seq<LineChangeView>, n: nat) -> bool {
    forall|c: LineChangeView| #[trigger]
        changes.contains(c) ==> {
            &&& 0 <= c.start_line <= c.end_line <= n
            &&& c.start_line < c.end_line || c.new_lines.len() > 0
        }
}

/// Whether no two of the changes start at the same line.
pub open spec fn start_apart(changes: Seq<LineChangeView>) -> bool {
    forall|i: int, j: int|
        0 <= i < j < changes.len() ==> (#[trigger] changes[i]).start_line != (
        #[trigger] changes[j]).start_line
}

/// Whether each of the changes is over before the next starts, further down.
pub open spec fn are_separate(changes: Seq<LineChangeView>) -> bool {
    &&& start_apart(changes)
    &&& forall|c: LineChangeView, d: LineChangeView| #[trigger]
        changes.contains(c) && #[trigger] changes.contains(d) && c.start_line < d.start_line
            ==> c.end_line <= d.start_line
}

/// Whether a change starts at a line.
pub open spec fn starts_at(changes: Seq<LineChangeView>, line: int) -> bool {
    exists|c: LineChangeView| #[trigger] changes.contains(c) && c.start_line == line
}

/// The new lines that come in at a line.
pub open spec fn fresh_at(changes: Seq<LineChangeView>, line: int) -> Seq<Seq<char>> {
    if starts_at(changes, line) {
        let c = choose|c: LineChangeView| #[trigger] changes.contains(c) && c.start_line == line;
        file_watcher::bare_lines(c.new_lines)
    } else {
        seq![]
    }
}

/// What becomes of a line: what comes in there, and behind it the line itself,
/// unless a change takes it out.
pub open spec fn line_after(
    lines: Seq<Seq<char>>,
    changes: Seq<LineChangeView>,
    line: int,
) -> Seq<Seq<char>> {
    if line < lines.len() && !covered(changes, line) {
        fresh_at(changes, line).push(lines[line])
    } else {
        fresh_at(changes, line)
    }
}

/// What becomes of the first `k` lines when all changes are made at once.
pub open spec fn spliced_to(
    lines: Seq<Seq<char>>,
    changes: Seq<LineChangeView>,
    k: nat,
) -> Seq<Seq<char>>
    decreases k,
{
    if k == 0 {
        seq![]
    } else {
        spliced_to(lines, changes, (k - 1) as nat) + line_after(lines, changes, k - 1)
    }
}

/// What becomes of the lines when all changes are made at once.
pub open spec fn spliced(lines: Seq<Seq<char>>, changes: Seq<LineChangeView>) -> Seq<Seq<char>> {
    spliced_to(lines, changes, lines.len() + 1)
}

pub(crate) proof fn fresh_from(changes: Seq<LineChangeView>, c: LineChangeView)
    requires
        start_apart(changes),
        changes.contains(c),
    ensures
        fresh_at(changes, c.start_line) == file_watcher::bare_lines(c.new_lines),
{
    assert(starts_at(changes, c.start_line));
    let d = choose|d: LineChangeView| #[trigger]
        changes.contains(d) && d.start_line == c.start_line;
    let i = changes.index_of(c);
    let j = changes.index_of(d);
    assert(changes[i].start_line == changes[j].start_line);
}

/// The lines depend on what becomes of each of them.
proof fn spliced_same(
    lines: Seq<Seq<char>>,
    changes: Seq<LineChangeView>,
    other_lines: Seq<Seq<char>>,
    others: Seq<LineChangeView>,
    k: nat,
)
    requires
        forall|p: int|
            0 <= p < k ==> #[trigger] line_after(lines, changes, p) == line_after(
                other_lines,
                others,
                p,
            ),
    ensures
        spliced_to(lines, changes, k) == spliced_to(other_lines, others, k),
    decreases k,
{
    if k > 0 {
        spliced_same(lines, changes, other_lines, others, (k - 1) as nat);
        assert(line_after(lines, changes, k - 1) == line_after(other_lines, others, k - 1));
    }
}

/// Above all changes the lines stay.
proof fn spliced_above(lines: Seq<Seq<char>>, changes: Seq<LineChangeView>, k: nat)
    requires
        k <= lines.len(),
        forall|c: LineChangeView| #[trigger] changes.contains(c) ==> k <= c.start_line,
    ensures
        spliced_to(lines, changes, k) == lines.take(k as int),
    decreases k,
{
    if k > 0 {
        spliced_above(lines, changes, (k - 1) as nat);
        assert(!starts_at(changes, k - 1));
        assert(!covered(changes, k - 1));
        assert(lines.take(k as int) =~= lines.take(k - 1).push(lines[k - 1]));
        assert(line_after(lines, changes, k - 1) =~= seq![lines[k - 1]]);
    }
    assert(spliced_to(lines, changes, k) =~= lines.take(k as int));
}

/// Where nothing is left of some lines, the result is what it was before them.
proof fn spliced_still(lines: Seq<Seq<char>>, changes: Seq<LineChangeView>, a: nat, b: nat)
    requires
        a <= b,
        forall|p: int| a <= p < b ==> (#[trigger] line_after(lines, changes, p)).len() == 0,
    ensures
        spliced_to(lines, changes, b) == spliced_to(lines, changes, a),
    decreases b,
{
    if a < b {
        spliced_still(lines, changes, a, (b - 1) as nat);
        assert(line_after(lines, changes, b - 1).len() == 0);
        assert(spliced_to(lines, changes, b) =~= spliced_to(lines, changes, (b - 1) as nat));
    }
}

pub(crate) proof fn spliced_holds(
    lines: Seq<Seq<char>>,
    changes: Seq<LineChangeView>,
    p: nat,
    k: nat,
    line: Seq<char>,
)
    requires
        p < k,
        line_after(lines, changes, p as int).contains(line),
    ensures
        spliced_to(lines, changes, k).contains(line),
    decreases k,
{
    let before = spliced_to(lines, changes, (k - 1) as nat);
    let here = line_after(lines, changes, k - 1);
    if p < k - 1 {
        spliced_holds(lines, changes, p, (k - 1) as nat, line);
        assert((before + here)[before.index_of(line)] == line);
    } else {
        assert((before + here)[before.len() + here.index_of(line)] == line);
    }
}

// --- Changes made from the bottom up ---

/// The changes are at lines of their own, from the bottom of a text to its top.
spec fn falls(changes: Seq<LineChangeView>) -> bool {
    forall|i: int, j: int|
        0 <= i < j < changes.len() ==> (#[trigger] changes[i]).start_line > (
        #[trigger] changes[j]).start_line
}

/// Making one more change, above those made before, splices it in.
proof fn change_splices(
    lines: Seq<Seq<char>>,
    before: Seq<LineChangeView>,
    c: LineChangeView,
    k: nat,
)
    requires
        start_apart(before.push(c)),
        0 <= c.start_line <= c.end_line <= lines.len(),
        forall|d: LineChangeView| #[trigger]
            before.contains(d) ==> c.start_line < d.start_line && c.end_line <= d.start_line
                && d.start_line <= d.end_line,
        c.end_line <= k,
        c.start_line < k <= lines.len() + 1,
    ensures
        spliced_to(lines, before, k).len() >= c.end_line,
        spliced_to(lines, before.push(c), k) == lines.take(c.start_line)
            + file_watcher::bare_lines(c.new_lines) + spliced_to(lines, before, k).skip(c.end_line),
    decreases k,
{
    let all = before.push(c);
    let s = c.start_line;
    let e = c.end_line;
    let fresh = file_watcher::bare_lines(c.new_lines);
    pushed_contains(before, c);
    assert(all.contains(c));
    let w = spliced_to(lines, before, k);
    let r = spliced_to(lines, all, k);
    let p = k - 1;
    if p == s || p < e {
        // The lines that the change itself takes up.
        let bottom: nat = if e > s {
            e as nat
        } else {
            s as nat
        };
        spliced_above(lines, all, s as nat);
        fresh_from(all, c);
        assert forall|q: int| s < q < k && q < e implies (#[trigger] line_after(
            lines,
            all,
            q,
        )).len() == 0 by {
            assert(covers(c, q));
            assert(covered(all, q));
            assert(!starts_at(all, q));
        }
        spliced_above(lines, before, bottom);
        if s < e {
            assert(covers(c, s));
            assert(covered(all, s));
            assert(line_after(lines, all, s) =~= fresh);
            assert(k == e);
            spliced_still(lines, all, (s + 1) as nat, k);
            assert(w =~= lines.take(e));
            assert(r =~= lines.take(s) + fresh);
            assert(w.skip(e) =~= seq![]);
        } else {
            assert(k == s + 1);
            assert(!covered(all, s));
            assert(!covered(before, s));
            assert(!starts_at(before, s));
            assert(w =~= lines.take(s) + line_after(lines, before, s));
            assert(w.skip(e) =~= line_after(lines, before, s));
            assert(r =~= lines.take(s) + line_after(lines, all, s));
            assert(line_after(lines, all, s) =~= fresh + line_after(lines, before, s));
        }
        assert(r =~= lines.take(s) + fresh + w.skip(e));
    } else {
        change_splices(lines, before, c, (k - 1) as nat);
        let w0 = spliced_to(lines, before, (k - 1) as nat);
        assert(line_after(lines, all, p) == line_after(lines, before, p)) by {
            assert(covered(all, p) == covered(before, p)) by {
                if covered(all, p) {
                    let d = choose|d: LineChangeView| #[trigger] all.contains(d) && covers(d, p);
                    assert(before.contains(d));
                }
                if covered(before, p) {
                    let d = choose|d: LineChangeView| #[trigger]
                        before.contains(d) && covers(d, p);
                    assert(all.contains(d));
                }
            }
            assert(start_apart(before)) by {
                assert forall|i: int, j: int| 0 <= i < j < before.len() implies (
                #[trigger] before[i]).start_line != (#[trigger] before[j]).start_line by {
                    assert(all[i].start_line != all[j].start_line);
                }
            }
            if starts_at(before, p) {
                let d = choose|d: LineChangeView| #[trigger]
                    before.contains(d) && d.start_line == p;
                assert(all.contains(d));
                fresh_from(before, d);
                fresh_from(all, d);
            } else {
                assert(!starts_at(all, p));
            }
        }
        let here = line_after(lines, before, p);
        assert((w0 + here).skip(e) =~= w0.skip(e) + here);
        assert(r =~= lines.take(s) + fresh + w.skip(e));
    }
}

proof fn changes_splice(lines: Seq<Seq<char>>, done: Seq<LineChangeView>)
    requires
        falls(done),
        are_separate(done),
        are_sound(done, lines.len()),
    ensures
        file_watcher::with_changes(lines, done) == spliced(lines, done),
    decreases done.len(),
{
    let n = lines.len();
    if done.len() == 0 {
        spliced_above(lines, done, n);
        assert(!starts_at(done, n as int));
        assert(spliced(lines, done) =~= lines);
    } else {
        let before = done.drop_last();
        let c = done.last();
        assert(done =~= before.push(c));
        assert(done[done.len() - 1] == c);
        assert(done.contains(c));
        assert forall|d: LineChangeView| #[trigger] before.contains(d) implies done.contains(d)
            && c.start_line < d.start_line by {
            let i = before.index_of(d);
            assert(done[i] == d);
        }
        assert forall|i: int, j: int| 0 <= i < j < before.len() implies (
        #[trigger] before[i]).start_line > (#[trigger] before[j]).start_line by {
            assert(done[i].start_line > done[j].start_line);
        }
        assert(are_separate(before)) by {
            assert forall|d: LineChangeView, x: LineChangeView| #[trigger]
                before.contains(d) && #[trigger] before.contains(x) && d.start_line
                    < x.start_line implies d.end_line <= x.start_line by {
                assert(done.contains(d));
                assert(done.contains(x));
            }
        }
        changes_splice(lines, before);
        change_splices(lines, before, c, n + 1);
        let w = spliced(lines, before);
        let top: nat = if before.len() > 0 {
            before.last().start_line as nat
        } else {
            n
        };
        assert forall|d: LineChangeView| #[trigger] before.contains(d) implies top
            <= d.start_line by {
            let i = before.index_of(d);
            if i < before.len() - 1 {
                assert(before[i].start_line > before[before.len() - 1].start_line);
            }
        }
        if before.len() > 0 {
            assert(before[before.len() - 1] == before.last());
            assert(before.contains(before.last()));
            assert(done.contains(before.last()));
        }
        spliced_above(lines, before, top);
        spliced_prefix(lines, before, top, n + 1);
        let kept = if c.start_line < c.end_line {
            w.subrange(0, c.start_line) + w.subrange(c.end_line, w.len() as int)
        } else {
            w
        };
        let fresh = file_watcher::bare_lines(c.new_lines);
        assert(w.take(top as int) == lines.take(top as int));
        assert(lines.take(c.start_line) =~= lines.take(top as int).take(c.start_line));
        assert(w.take(c.start_line) =~= w.take(top as int).take(c.start_line));
        assert(file_watcher::with_change(w, c) =~= w.take(c.start_line) + fresh + w.skip(
            c.end_line,
        ));
    }
}

proof fn spliced_prefix(lines: Seq<Seq<char>>, changes: Seq<LineChangeView>, a: nat, b: nat)
    requires
        a <= b,
    ensures
        spliced_to(lines, changes, b).len() >= spliced_to(lines, changes, a).len(),
        spliced_to(lines, changes, b).take(spliced_to(lines, changes, a).len() as int)
            == spliced_to(lines, changes, a),
    decreases b,
{
    let front = spliced_to(lines, changes, a);
    if a < b {
        spliced_prefix(lines, changes, a, (b - 1) as nat);
        let mid = spliced_to(lines, changes, (b - 1) as nat);
        assert(spliced_to(lines, changes, b).take(front.len() as int) =~= mid.take(
            front.len() as int,
        ));
    } else {
        assert(front.take(front.len() as int) =~= front);
    }
}

proof fn put_in_order_facts(sorted: Seq<LineChangeView>, c: LineChangeView)
    requires
        falls(sorted),
        start_apart(sorted.push(c)),
    ensures
        falls(file_watcher::put_in_order(sorted, c)),
        forall|d: LineChangeView| #[trigger]
            file_watcher::put_in_order(sorted, c).contains(d) <==> sorted.contains(d) || d == c,
    decreases sorted.len(),
{
    let r = file_watcher::put_in_order(sorted, c);
    let all = sorted.push(c);
    let n = sorted.len() as int;
    assert forall|i: int| 0 <= i < n implies (#[trigger] sorted[i]).start_line
        != c.start_line by {
        assert(all[i].start_line != all[n].start_line);
    }
    if n == 0 {
        assert(r[0] == c);
    } else if sorted.last().start_line >= c.start_line {
        assert(r[n] == c);
        assert forall|d: LineChangeView| #[trigger] r.contains(d) <==> sorted.contains(d) || d
            == c by {
            if sorted.contains(d) {
                assert(r[sorted.index_of(d)] == d);
            }
            if r.contains(d) && d != c {
                assert(sorted[r.index_of(d)] == d);
            }
        }
        assert forall|i: int, j: int| 0 <= i < j < r.len() implies (
        #[trigger] r[i]).start_line > (#[trigger] r[j]).start_line by {
            if j == n && i < n - 1 {
                assert(sorted[i].start_line > sorted[n - 1].start_line);
            }
        }
    } else {
        let rest = sorted.drop_last();
        let last = sorted.last();
        assert forall|i: int, j: int| 0 <= i < j < rest.push(c).len() implies (
        #[trigger] rest.push(c)[i]).start_line != (#[trigger] rest.push(c)[j]).start_line by {
            if j == rest.len() {
                assert(sorted[i].start_line != c.start_line);
            } else {
                assert(sorted[i].start_line > sorted[j].start_line);
            }
        }
        put_in_order_facts(rest, c);
        let inner = file_watcher::put_in_order(rest, c);
        assert(r == inner.push(last));
        assert(r[inner.len() as int] == last);
        assert(sorted[n - 1] == last);
        assert forall|d: LineChangeView| #[trigger] r.contains(d) <==> sorted.contains(d) || d
            == c by {
            if inner.contains(d) {
                assert(r[inner.index_of(d)] == d);
            }
            if rest.contains(d) {
                assert(sorted[rest.index_of(d)] == d);
            }
            if r.contains(d) && d != last {
                assert(inner[r.index_of(d)] == d);
                assert(inner.contains(d));
            }
            if sorted.contains(d) && d != last {
                assert(rest[sorted.index_of(d)] == d);
                assert(rest.contains(d));
                assert(inner.contains(d));
            }
            if d == c {
                assert(inner.contains(c));
            }
        }
        assert forall|i: int, j: int| 0 <= i < j < r.len() implies (
        #[trigger] r[i]).start_line > (#[trigger] r[j]).start_line by {
            if j == inner.len() {
                assert(inner.contains(inner[i]));
                if inner[i] != c {
                    let k = rest.index_of(inner[i]);
                    assert(sorted[k].start_line > sorted[n - 1].start_line);
                }
            } else {
                assert(inner[i].start_line > inner[j].start_line);
            }
        }
    }
}

proof fn bottom_up_facts(changes: Seq<LineChangeView>)
    requires
        start_apart(changes),
    ensures
        falls(file_watcher::bottom_up(changes)),
        forall|d: LineChangeView| #[trigger]
            file_watcher::bottom_up(changes).contains(d) <==> changes.contains(d),
    decreases changes.len(),
{
    if changes.len() > 0 {
        let rest = changes.drop_last();
        let c = changes.last();
        let sorted = file_watcher::bottom_up(rest);
        assert forall|i: int, j: int| 0 <= i < j < rest.len() implies (
        #[trigger] rest[i]).start_line != (#[trigger] rest[j]).start_line by {
            assert(changes[i].start_line != changes[j].start_line);
        }
        bottom_up_facts(rest);
        assert forall|i: int, j: int| 0 <= i < j < sorted.push(c).len() implies (
        #[trigger] sorted.push(c)[i]).start_line != (#[trigger] sorted.push(
            c,
        )[j]).start_line by {
            if j == sorted.len() {
                assert(sorted.contains(sorted[i]));
                let k = rest.index_of(sorted[i]);
                assert(changes[k].start_line != changes[rest.len() as int].start_line);
            } else {
                assert(sorted[i].start_line > sorted[j].start_line);
            }
        }
        put_in_order_facts(sorted, c);
        assert(changes[rest.len() as int] == c);
        assert forall|d: LineChangeView| #[trigger] file_watcher::bottom_up(changes).contains(
            d,
        ) <==> changes.contains(d) by {
            if rest.contains(d) {
                assert(changes[rest.index_of(d)] == d);
            }
            if changes.contains(d) && d != c {
                assert(rest[changes.index_of(d)] == d);
            }
            assert(file_watcher::bottom_up(changes).contains(d) <==> sorted.contains(d) || d == c);
        }
    } else {
        assert forall|d: LineChangeView| #[trigger] file_watcher::bottom_up(changes).contains(
            d,
        ) <==> changes.contains(d) by {}
    }
}

/// Separate changes made one after another, from the bottom up, come to the same
/// as all of them made at once.
pub proof fn bottom_up_is_at_once(lines: Seq<Seq<char>>, changes: Seq<LineChangeView>)
    requires
        are_separate(changes),
        are_sound(changes, lines.len()),
    ensures
        file_watcher::with_changes(lines, file_watcher::bottom_up(changes)) == spliced(
            lines,
            changes,
        ),
{
    let order = file_watcher::bottom_up(changes);
    bottom_up_facts(changes);
    assert forall|i: int, j: int| 0 <= i < j < order.len() implies (
    #[trigger] order[i]).start_line != (#[trigger] order[j]).start_line by {
        assert(order[i].start_line > order[j].start_line);
    }
    assert(are_sound(order, lines.len())) by {
        assert forall|c: LineChangeView| #[trigger] order.contains(c) implies {
            &&& 0 <= c.start_line <= c.end_line <= lines.len()
            &&& c.start_line < c.end_line || c.new_lines.len() > 0
        } by {
            assert(changes.contains(c));
        }
    }
    assert(are_separate(order)) by {
        assert forall|c: LineChangeView, d: LineChangeView| #[trigger]
            order.contains(c) && #[trigger] order.contains(d) && c.start_line
                < d.start_line implies c.end_line <= d.start_line by {
            assert(changes.contains(c));
            assert(changes.contains(d));
        }
    }
    changes_splice(lines, order);
    assert forall|p: int| 0 <= p < lines.len() + 1 implies #[trigger] line_after(
        lines,
        order,
        p,
    ) == line_after(lines, changes, p) by {
        same_line_after(lines, order, changes, p);
    }
    spliced_same(lines, order, lines, changes, lines.len() + 1);
}

/// What becomes of a line does not depend on the order of the changes.
proof fn same_line_after(
    lines: Seq<Seq<char>>,
    a: Seq<LineChangeView>,
    b: Seq<LineChangeView>,
    p: int,
)
    requires
        start_apart(a),
        start_apart(b),
        forall|d: LineChangeView| #[trigger] a.contains(d) <==> b.contains(d),
    ensures
        line_after(lines, a, p) == line_after(lines, b, p),
{
    if covered(a, p) {
        let d = choose|d: LineChangeView| #[trigger] a.contains(d) && covers(d, p);
        assert(b.contains(d));
    }
    if covered(b, p) {
        let d = choose|d: LineChangeView| #[trigger] b.contains(d) && covers(d, p);
        assert(a.contains(d));
    }
    if starts_at(a, p) {
        let d = choose|d: LineChangeView| #[trigger] a.contains(d) && d.start_line == p;
        assert(b.contains(d));
        fresh_from(a, d);
        fresh_from(b, d);
    } else if starts_at(b, p) {
        let d = choose|d: LineChangeView| #[trigger] b.contains(d) && d.start_line == p;
        assert(a.contains(d));
    }
}

// --- The changes of a difference ---

/// What holds of the changes gathered from a difference: they come one behind
/// the other with a line between them, and made at once they lead from the lines
/// `was` of the old text to the lines `is` of the new one.
spec fn leads_to(g: Gathering, was: Seq<Seq<char>>, is: Seq<Seq<char>>) -> bool {
    let limit = match g.open {
        Some(c) => c.start_line,
        None => g.passed,
    };
    &&& g.passed == was.len()
    &&& are_sound(g.done, was.len())
    &&& are_separate(g.done)
    &&& forall|c: LineChangeView| #[trigger] g.done.contains(c) ==> c.end_line < limit
    &&& match g.open {
        Some(c) => {
            &&& 0 <= c.start_line <= c.end_line
            &&& c.end_line == was.len()
            &&& c.start_line < c.end_line || c.new_lines.len() > 0
            &&& is == spliced_to(was, g.done, c.start_line as nat) + file_watcher::bare_lines(
                c.new_lines,
            )
        },
        None => is == spliced_to(was, g.done, was.len()),
    }
}

proof fn pushed_contains(done: Seq<LineChangeView>, c: LineChangeView)
    ensures
        forall|d: LineChangeView| #[trigger]
            done.push(c).contains(d) <==> done.contains(d) || d == c,
{
    let all = done.push(c);
    assert(all[done.len() as int] == c);
    assert forall|d: LineChangeView| #[trigger] all.contains(d) <==> done.contains(d) || d
        == c by {
        if done.contains(d) {
            assert(all[done.index_of(d)] == d);
        }
        if all.contains(d) && d != c {
            assert(done[all.index_of(d)] == d);
        }
    }
}

/// The growing change counts like the others.
proof fn open_change_counts(g: Gathering, was: Seq<Seq<char>>, is: Seq<Seq<char>>)
    requires
        leads_to(g, was, is),
    ensures
        are_sound(g.all(), was.len()),
        are_separate(g.all()),
        is == spliced_to(was, g.all(), was.len()) + fresh_at(g.all(), was.len() as int),
{
    let all = g.all();
    let n = was.len();
    match g.open {
        None => {
            assert(!starts_at(all, n as int));
            assert(is =~= spliced_to(was, all, n) + fresh_at(all, n as int));
        },
        Some(c) => {
            let s = c.start_line;
            pushed_contains(g.done, c);
            assert(all.contains(c));
            assert forall|i: int, j: int| 0 <= i < j < all.len() implies (
            #[trigger] all[i]).start_line != (#[trigger] all[j]).start_line by {
                assert(g.done.contains(g.done[i]));
                if j < g.done.len() {
                    assert(g.done[i].start_line != g.done[j].start_line);
                }
            }
            assert forall|p: int| 0 <= p < s implies #[trigger] line_after(was, g.done, p)
                == line_after(was, all, p) by {
                line_above_stays(was, g.done, c, p);
            }
            spliced_same(was, g.done, was, all, s as nat);
            fresh_from(all, c);
            if s < n {
                assert(covers(c, s));
                assert(covered(all, s));
                assert(line_after(was, all, s) == file_watcher::bare_lines(c.new_lines));
                assert forall|p: int| s + 1 <= p < n implies (#[trigger] line_after(
                    was,
                    all,
                    p,
                )).len() == 0 by {
                    assert(covers(c, p));
                    assert(covered(all, p));
                    assert(!starts_at(all, p));
                }
                spliced_still(was, all, (s + 1) as nat, n);
                assert(!starts_at(all, n as int));
                assert(is =~= spliced_to(was, all, n) + fresh_at(all, n as int));
            }
        },
    }
}

/// A change further down changes nothing of a line.
proof fn line_above_stays(
    lines: Seq<Seq<char>>,
    done: Seq<LineChangeView>,
    c: LineChangeView,
    p: int,
)
    requires
        start_apart(done.push(c)),
        p < c.start_line,
    ensures
        line_after(lines, done, p) == line_after(lines, done.push(c), p),
{
    let all = done.push(c);
    pushed_contains(done, c);
    if covered(done, p) {
        let d = choose|d: LineChangeView| #[trigger] done.contains(d) && covers(d, p);
        assert(all.contains(d));
    }
    if covered(all, p) {
        let d = choose|d: LineChangeView| #[trigger] all.contains(d) && covers(d, p);
        assert(done.contains(d));
    }
    assert forall|i: int, j: int| 0 <= i < j < done.len() implies (
    #[trigger] done[i]).start_line != (#[trigger] done[j]).start_line by {
        assert(all[i].start_line != all[j].start_line);
    }
    if starts_at(done, p) {
        let d = choose|d: LineChangeView| #[trigger] done.contains(d) && d.start_line == p;
        assert(all.contains(d));
        fresh_from(done, d);
        fresh_from(all, d);
    } else if starts_at(all, p) {
        let d = choose|d: LineChangeView| #[trigger] all.contains(d) && d.start_line == p;
        assert(done.contains(d));
    }
}

/// One more line of the old text changes nothing of those above it.
proof fn one_line_more(was: Seq<Seq<char>>, x: Seq<char>, changes: Seq<LineChangeView>, k: nat)
    requires
        k <= was.len(),
    ensures
        spliced_to(was.push(x), changes, k) == spliced_to(was, changes, k),
{
    assert forall|p: int| 0 <= p < k implies #[trigger] line_after(was.push(x), changes, p)
        == line_after(was, changes, p) by {}
    spliced_same(was.push(x), changes, was, changes, k);
}

proof fn more_lines_are_sound(changes: Seq<LineChangeView>, n: nat)
    requires
        are_sound(changes, n),
    ensures
        are_sound(changes, n + 1),
{
    assert forall|c: LineChangeView| #[trigger] changes.contains(c) implies {
        &&& 0 <= c.start_line <= c.end_line <= n + 1
        &&& c.start_line < c.end_line || c.new_lines.len() > 0
    } by {}
}

proof fn equal_line_leads_on(
    g: Gathering,
    was: Seq<Seq<char>>,
    is: Seq<Seq<char>>,
    d: DiffLineView,
)
    requires
        leads_to(g, was, is),
        d.tag == DiffTag::Equal,
    ensures
        leads_to(
            g.with(d),
            was.push(text::without_newlines(d.value)),
            is.push(text::without_newlines(d.value)),
        ),
{
    let x = text::without_newlines(d.value);
    let all = g.all();
    let n = was.len();
    open_change_counts(g, was, is);
    more_lines_are_sound(all, n);
    one_line_more(was, x, all, n);
    assert(!covered(all, n as int));
    assert(line_after(was.push(x), all, n as int) == fresh_at(all, n as int).push(x));
    assert(spliced_to(was.push(x), all, n + 1) =~= is.push(x));
    assert forall|c: LineChangeView| #[trigger] all.contains(c) implies c.end_line < n + 1 by {}
}

proof fn gone_line_leads_on(
    g: Gathering,
    was: Seq<Seq<char>>,
    is: Seq<Seq<char>>,
    d: DiffLineView,
)
    requires
        leads_to(g, was, is),
        d.tag == DiffTag::Delete,
    ensures
        leads_to(g.with(d), was.push(text::without_newlines(d.value)), is),
{
    let x = text::without_newlines(d.value);
    more_lines_are_sound(g.done, was.len());
    match g.open {
        Some(c) => {
            one_line_more(was, x, g.done, c.start_line as nat);
        },
        None => {
            one_line_more(was, x, g.done, was.len());
            let none = Seq::<Seq<char>>::empty();
            assert(file_watcher::bare_lines(none) =~= none);
            assert(is =~= spliced_to(was.push(x), g.done, was.len())
                + file_watcher::bare_lines(none));
        },
    }
}

proof fn new_line_leads_on(
    g: Gathering,
    was: Seq<Seq<char>>,
    is: Seq<Seq<char>>,
    d: DiffLineView,
)
    requires
        leads_to(g, was, is),
        d.tag == DiffTag::Insert,
    ensures
        leads_to(g.with(d), was, is.push(text::without_newlines(d.value))),
{
    let x = text::without_newlines(d.value);
    match g.open {
        Some(c) => {
            assert(file_watcher::bare_lines(c.new_lines.push(d.value))
                =~= file_watcher::bare_lines(c.new_lines).push(x));
            assert(is.push(x) =~= spliced_to(was, g.done, c.start_line as nat)
                + file_watcher::bare_lines(c.new_lines.push(d.value)));
        },
        None => {
            assert(file_watcher::bare_lines(seq![d.value]) =~= seq![x]);
            assert(is.push(x) =~= spliced_to(was, g.done, was.len()) + file_watcher::bare_lines(
                seq![d.value],
            ));
        },
    }
}

proof fn gathered_leads_to(diff: Seq<DiffLineView>)
    ensures
        leads_to(
            file_watcher::gathered(diff),
            file_watcher::lines_without(diff, DiffTag::Insert),
            file_watcher::lines_without(diff, DiffTag::Delete),
        ),
    decreases diff.len(),
{
    let was = file_watcher::lines_without(diff, DiffTag::Insert);
    let is = file_watcher::lines_without(diff, DiffTag::Delete);
    if diff.len() == 0 {
        assert(was =~= seq![]);
        assert(is =~= seq![]);
    } else {
        let rest = diff.drop_last();
        let d = diff.last();
        let was0 = file_watcher::lines_without(rest, DiffTag::Insert);
        let is0 = file_watcher::lines_without(rest, DiffTag::Delete);
        let x = text::without_newlines(d.value);
        let g = file_watcher::gathered(rest);
        gathered_leads_to(rest);
        match d.tag {
            DiffTag::Equal => {
                assert(was =~= was0.push(x));
                assert(is =~= is0.push(x));
                equal_line_leads_on(g, was0, is0, d);
            },
            DiffTag::Delete => {
                assert(was =~= was0.push(x));
                gone_line_leads_on(g, was0, is0, d);
            },
            DiffTag::Insert => {
                assert(is =~= is0.push(x));
                new_line_leads_on(g, was0, is0, d);
            },
        }
    }
}

/// The changes of a difference lead from its old lines to its new ones, and each
/// of them is over before the next starts.
pub proof fn difference_leads_to_new_lines(diff: Seq<DiffLineView>)
    ensures
        are_separate(file_watcher::changes_of(diff)),
        are_sound(
            file_watcher::changes_of(diff),
            file_watcher::lines_without(diff, DiffTag::Insert).len(),
        ),
        file_watcher::with_changes(
            file_watcher::lines_without(diff, DiffTag::Insert),
            file_watcher::bottom_up(file_watcher::changes_of(diff)),
        ) == file_watcher::lines_without(diff, DiffTag::Delete),
{
    let was = file_watcher::lines_without(diff, DiffTag::Insert);
    let is = file_watcher::lines_without(diff, DiffTag::Delete);
    let g = file_watcher::gathered(diff);
    gathered_leads_to(diff);
    open_change_counts(g, was, is);
    bottom_up_is_at_once(was, g.all());
    assert(spliced(was, g.all()) =~= is);
}

// --- The lines of a difference ---

proof fn run_together_splits(pieces: Seq<Seq<char>>, i: int)
    requires
        0 <= i < pieces.len(),
    ensures
        ({
            let s = text::run_together(pieces);
            let a = text::run_together(pieces.take(i)).len() as int;
            let b = text::run_together(pieces.take(i + 1)).len() as int;
            &&& 0 <= a <= b <= s.len()
            &&& b == a + pieces[i].len()
            &&& s.subrange(a, b) == pieces[i]
        }),
    decreases pieces.len(),
{
    let s = text::run_together(pieces);
    let front = text::run_together(pieces.drop_last());
    let to = text::run_together(pieces.take(i + 1));
    assert(pieces.take(i + 1).drop_last() =~= pieces.take(i));
    if i == pieces.len() - 1 {
        assert(pieces.take(i + 1) =~= pieces);
        assert(pieces.take(i) =~= pieces.drop_last());
        assert(s.subrange(front.len() as int, s.len() as int) =~= pieces[i]);
    } else {
        run_together_splits(pieces.drop_last(), i);
        assert(pieces.drop_last().take(i) =~= pieces.take(i));
        assert(pieces.drop_last().take(i + 1) =~= pieces.take(i + 1));
        let a = text::run_together(pieces.take(i)).len() as int;
        assert(s.subrange(a, to.len() as int) =~= front.subrange(a, to.len() as int));
    }
}

/// Characters that end no line are passed over.
pub(crate) proof fn lines_pass_over(s: Seq<char>, start: int, pos: int, end: int)
    requires
        0 <= start <= pos <= end <= s.len(),
        !s.subrange(pos, end).contains('\n'),
    ensures
        text::ended_lines(s, start, pos) == text::ended_lines(s, start, end),
    decreases end - pos,
{
    if pos < end {
        assert(s.subrange(pos, end)[0] == s[pos]);
        assert forall|i: int| 0 <= i < end - pos - 1 implies #[trigger] s.subrange(
            pos + 1,
            end,
        )[i] != '\n' by {
            assert(s.subrange(pos, end)[i + 1] == s.subrange(pos + 1, end)[i]);
        }
        lines_pass_over(s, start, pos + 1, end);
    }
}

proof fn pieces_are_lines(pieces: Seq<Seq<char>>, i: int)
    requires
        file_watcher::are_pieces(pieces),
        !text::run_together(pieces).contains('\r'),
        0 <= i <= pieces.len(),
    ensures
        ({
            let at = text::run_together(pieces.take(i)).len() as int;
            text::ended_lines(text::run_together(pieces), at, at) == file_watcher::bare_lines(
                pieces,
            ).skip(i)
        }),
    decreases pieces.len() - i,
{
    let s = text::run_together(pieces);
    let at = text::run_together(pieces.take(i)).len() as int;
    let bare = file_watcher::bare_lines(pieces);
    if i == pieces.len() {
        assert(pieces.take(i) =~= pieces);
        assert(bare.skip(i) =~= seq![]);
    } else {
        let piece = pieces[i];
        let next = text::run_together(pieces.take(i + 1)).len() as int;
        run_together_splits(pieces, i);
        pieces_are_lines(pieces, i + 1);
        assert(piece.len() > 0);
        assert(piece.last() == s[next - 1]);
        let body = s.subrange(at, next - 1);
        assert(body =~= piece.drop_last());
        assert forall|k: int| at <= k < next implies #[trigger] s[k] != '\r' by {}
        lines_pass_over(s, at, at, next - 1);
        if piece.last() == '\n' {
            assert(body.len() > 0 ==> body.last() == s[next - 2]);
            assert(body.len() > 0 ==> body[body.len() - 1] == body.last());
            assert(text::without_newlines(piece) == body) by {
                reveal_with_fuel(text::without_newlines, 3);
            }
            assert(text::without_cr(body) == body);
            assert(text::ended_lines(s, at, next - 1) == seq![body] + text::ended_lines(
                s,
                next,
                next,
            ));
            assert(bare.skip(i) =~= seq![body] + bare.skip(i + 1));
        } else {
            assert(i == pieces.len() - 1);
            assert(pieces.take(i + 1) =~= pieces);
            assert(s.subrange(at, next) =~= piece);
            assert(text::ended_lines(s, at, next - 1) == text::ended_lines(s, at, next));
            assert(text::without_newlines(piece) == piece);
            assert(text::ended_lines(s, at, next) == seq![piece]);
            assert(bare.skip(i) =~= seq![piece]);
        }
    }
}

/// A difference by lines between two texts without carriage returns has the
/// lines of both.
pub proof fn difference_has_both_texts(
    diff: Seq<DiffLineView>,
    old_text: Seq<char>,
    new_text: Seq<char>,
)
    requires
        file_watcher::is_between(diff, old_text, new_text),
        file_watcher::is_by_lines(diff),
        !old_text.contains('\r'),
        !new_text.contains('\r'),
    ensures
        file_watcher::has_lines_of(diff, old_text, new_text),
{
    let was = file_watcher::pieces_without(diff, DiffTag::Insert);
    let is = file_watcher::pieces_without(diff, DiffTag::Delete);
    pieces_are_lines(was, 0);
    pieces_are_lines(is, 0);
    assert(was.take(0) =~= seq![]);
    assert(is.take(0) =~= seq![]);
    assert(file_watcher::bare_lines(was).skip(0) =~= file_watcher::bare_lines(was));
    assert(file_watcher::bare_lines(is).skip(0) =~= file_watcher::bare_lines(is));
}

// --- What a merge holds ---

proof fn joined_holds(parts: Seq<Seq<char>>, sep: Seq<char>, i: int)
    requires
        0 <= i < parts.len(),
    ensures
        text::holds(text::joined(parts, sep), parts[i]),
    decreases parts.len(),
{
    let all = text::joined(parts, sep);
    if parts.len() == 1 {
        assert(all.subrange(0, all.len() as int) =~= all);
        assert(text::found_at(all, parts[i], 0));
    } else {
        let front = text::joined(parts.drop_last(), sep);
        if i == parts.len() - 1 {
            let at = (front + sep).len() as int;
            assert(all.subrange(at, at + parts[i].len()) =~= parts[i]);
            assert(text::found_at(all, parts[i], at));
        } else {
            joined_holds(parts.drop_last(), sep, i);
            let at = choose|at: int| text::found_at(front, parts.drop_last()[i], at);
            assert(all.subrange(at, at + parts[i].len()) =~= front.subrange(
                at,
                at + parts[i].len(),
            ));
            assert(text::found_at(all, parts[i], at));
        }
    }
}

proof fn ended_like_holds(base: Seq<char>, lines: Seq<Seq<char>>, line: Seq<char>)
    requires
        lines.contains(line),
    ensures
        text::holds(file_watcher::ended_like(base, lines), line),
{
    let joined = text::joined(lines, seq!['\n']);
    joined_holds(lines, seq!['\n'], lines.index_of(line));
    let at = choose|at: int| text::found_at(joined, line, at);
    let all = file_watcher::ended_like(base, lines);
    assert(all.subrange(at, at + line.len()) =~= joined.subrange(at, at + line.len()));
    assert(text::found_at(all, line, at));
}

/// Whether the differences from `base` to both sides have the lines of these
/// texts.
pub open spec fn sides_have_lines(
    base: Seq<char>,
    local: Seq<char>,
    external: Seq<char>,
) -> bool {
    &&& file_watcher::has_lines_of(file_watcher::line_diff(base, local), base, local)
    &&& file_watcher::has_lines_of(file_watcher::line_diff(base, external), base, external)
}

/// The changes of both sides.
pub open spec fn both_sides(
    base: Seq<char>,
    local: Seq<char>,
    external: Seq<char>,
) -> Seq<LineChangeView> {
    file_watcher::changes_of(file_watcher::line_diff(base, local)) + file_watcher::changes_of(
        file_watcher::line_diff(base, external),
    )
}

/// Where only one side has changes, a merge gives the lines of that side.
pub proof fn one_side_alone_is_taken_over(
    base: Seq<char>,
    side: Seq<char>,
    diff: Seq<DiffLineView>,
)
    requires
        file_watcher::has_lines_of(diff, base, side),
    ensures
        file_watcher::merged_text(base, file_watcher::changes_of(diff), seq![])
            == file_watcher::ended_like(base, text::lines_of(side)),
        file_watcher::merged_text(base, seq![], file_watcher::changes_of(diff))
            == file_watcher::ended_like(base, text::lines_of(side)),
{
    let changes = file_watcher::changes_of(diff);
    let none = Seq::<LineChangeView>::empty();
    difference_leads_to_new_lines(diff);
    assert(changes + none =~= changes);
    assert(none + changes =~= changes);
}

proof fn sides_are_separate(xs: Seq<LineChangeView>, ys: Seq<LineChangeView>, n: nat)
    requires
        are_separate(xs),
        are_separate(ys),
        are_sound(xs, n),
        are_sound(ys, n),
        !file_watcher::any_overlap(xs, ys),
    ensures
        are_separate(xs + ys),
        are_sound(xs + ys, n),
{
    let all = xs + ys;
    assert forall|c: LineChangeView| #[trigger] all.contains(c) implies xs.contains(c)
        || ys.contains(c) by {
        let i = all.index_of(c);
        if i < xs.len() {
            assert(xs[i] == c);
        } else {
            assert(ys[i - xs.len()] == c);
        }
    }
    assert forall|c: LineChangeView, d: LineChangeView| #[trigger]
        xs.contains(c) && #[trigger] ys.contains(d) implies !file_watcher::overlapping(c, d) by {
        let i = xs.index_of(c);
        let j = ys.index_of(d);
        assert(!file_watcher::overlapping(xs[i], ys[j]));
    }
    assert forall|i: int, j: int| 0 <= i < j < all.len() implies (
    #[trigger] all[i]).start_line != (#[trigger] all[j]).start_line by {
        if j < xs.len() {
            assert(xs[i].start_line != xs[j].start_line);
        } else if i >= xs.len() {
            assert(ys[i - xs.len()].start_line != ys[j - xs.len()].start_line);
        } else {
            assert(xs.contains(xs[i]));
            assert(ys.contains(ys[j - xs.len()]));
        }
    }
}

pub(crate) proof fn merge_is_separate(base: Seq<char>, local: Seq<char>, external: Seq<char>)
    requires
        sides_have_lines(base, local, external),
        !file_watcher::any_overlap(
            file_watcher::changes_of(file_watcher::line_diff(base, local)),
            file_watcher::changes_of(file_watcher::line_diff(base, external)),
        ),
    ensures
        are_separate(both_sides(base, local, external)),
        are_sound(both_sides(base, local, external), text::lines_of(base).len()),
{
    let ours = file_watcher::line_diff(base, local);
    let theirs = file_watcher::line_diff(base, external);
    difference_leads_to_new_lines(ours);
    difference_leads_to_new_lines(theirs);
    sides_are_separate(
        file_watcher::changes_of(ours),
        file_watcher::changes_of(theirs),
        text::lines_of(base).len(),
    );
}

/// A merge without conflicts is one of three texts: it is the base with the
/// changes of both sides made at once.
pub proof fn merge_makes_all_changes_at_once(
    base: Seq<char>,
    local: Seq<char>,
    external: Seq<char>,
    r: MergeResult,
)
    requires
        file_watcher::merge_outcome(base, local, external, r),
        sides_have_lines(base, local, external),
    ensures
        r matches MergeResult::Merged { content, .. } ==> content@ == file_watcher::ended_like(
            base,
            spliced(text::lines_of(base), both_sides(base, local, external)),
        ),
{
    if r is Merged {
        merge_is_separate(base, local, external);
        bottom_up_is_at_once(text::lines_of(base), both_sides(base, local, external));
    }
}

/// A merge without conflicts holds the changes of both sides: every line that
/// came on one of them is in the merged text.
pub proof fn merge_holds_both_sides(
    base: Seq<char>,
    local: Seq<char>,
    external: Seq<char>,
    r: MergeResult,
    i: int,
    k: int,
)
    requires
        file_watcher::merge_outcome(base, local, external, r),
        sides_have_lines(base, local, external),
        0 <= i < both_sides(base, local, external).len(),
        0 <= k < both_sides(base, local, external)[i].new_lines.len(),
    ensures
        r matches MergeResult::Merged { content, .. } ==> text::holds(
            content@,
            text::without_newlines(both_sides(base, local, external)[i].new_lines[k]),
        ),
{
    if r is Merged {
        let lines = text::lines_of(base);
        let all = both_sides(base, local, external);
        let c = all[i];
        let line = text::without_newlines(c.new_lines[k]);
        merge_is_separate(base, local, external);
        merge_makes_all_changes_at_once(base, local, external, r);
        assert(all.contains(c));
        fresh_from(all, c);
        let fresh = file_watcher::bare_lines(c.new_lines);
        let here = line_after(lines, all, c.start_line);
        assert(fresh[k] == line);
        assert(here[k] == line);
        spliced_holds(lines, all, c.start_line as nat, lines.len() + 1, line);
        ended_like_holds(base, spliced(lines, all), line);
    }
}

/// A merge without conflicts keeps what no side changed: every line that neither
/// of them took out is in the merged text.
pub proof fn merge_keeps_unchanged_lines(
    base: Seq<char>,
    local: Seq<char>,
    external: Seq<char>,
    r: MergeResult,
    l: int,
)
    requires
        file_watcher::merge_outcome(base, local, external, r),
        sides_have_lines(base, local, external),
        0 <= l < text::lines_of(base).len(),
        !covered(both_sides(base, local, external), l),
    ensures
        r matches MergeResult::Merged { content, .. } ==> text::holds(
            content@,
            text::lines_of(base)[l],
        ),
{
    if r is Merged {
        let lines = text::lines_of(base);
        let all = both_sides(base, local, external);
        merge_makes_all_changes_at_once(base, local, external, r);
        let here = line_after(lines, all, l);
        assert(here[here.len() - 1] == lines[l]);
        spliced_holds(lines, all, l as nat, lines.len() + 1, lines[l]);
        ended_like_holds(base, spliced(lines, all), lines[l]);
    }
}

proof fn falling_is_determined(a: Seq<LineChangeView>, b: Seq<LineChangeView>)
    requires
        falls(a),
        falls(b),
        forall|d: LineChangeView| #[trigger] a.contains(d) <==> b.contains(d),
    ensures
        a == b,
    decreases a.len(),
{
    if a.len() == 0 {
        if b.len() > 0 {
            assert(b.contains(b[0]));
            assert(a.contains(b[0]));
        }
        assert(a =~= b);
    } else {
        assert(a.contains(a[0]));
        assert(b.contains(a[0]));
        let x = a.last();
        let y = b.last();
        assert(a[a.len() - 1] == x && b[b.len() - 1] == y);
        assert(a.contains(x) && b.contains(y));
        assert(b.contains(x) && a.contains(y));
        let i = a.index_of(y);
        let j = b.index_of(x);
        assert(a[i].start_line >= a[a.len() - 1].start_line);
        assert(b[j].start_line >= b[b.len() - 1].start_line);
        assert(x == y);
        let a1 = a.drop_last();
        let b1 = b.drop_last();
        assert forall|d: LineChangeView| #[trigger] a1.contains(d) <==> b1.contains(d) by {
            if a1.contains(d) {
                let k = a1.index_of(d);
                assert(a[k] == d && a[k].start_line > a[a.len() - 1].start_line);
                assert(a.contains(d));
                assert(b.contains(d));
                let m = b.index_of(d);
                assert(b1[m] == d);
            }
            if b1.contains(d) {
                let k = b1.index_of(d);
                assert(b[k] == d && b[k].start_line > b[b.len() - 1].start_line);
                assert(b.contains(d));
                assert(a.contains(d));
                let m = a.index_of(d);
                assert(a1[m] == d);
            }
        }
        falling_is_determined(a1, b1);
        assert(a =~= a1.push(x));
        assert(b =~= b1.push(y));
    }
}

proof fn swapped_contains(xs: Seq<LineChangeView>, ys: Seq<LineChangeView>, d: LineChangeView)
    ensures
        (xs + ys).contains(d) ==> (ys + xs).contains(d),
{
    let a = xs + ys;
    let b = ys + xs;
    if a.contains(d) {
        let k = a.index_of(d);
        if k < xs.len() {
            assert(b[ys.len() + k] == d);
        } else {
            assert(b[k - xs.len()] == d);
        }
    }
}

/// It does not matter for a merge which side's changes are called the local
/// ones, where no two changes start at the same line.
pub proof fn merge_is_symmetric(
    base: Seq<char>,
    local: Seq<LineChangeView>,
    external: Seq<LineChangeView>,
)
    requires
        start_apart(local + external),
    ensures
        file_watcher::merged_text(base, local, external) == file_watcher::merged_text(
            base,
            external,
            local,
        ),
{
    let a = local + external;
    let b = external + local;
    assert forall|i: int, j: int| 0 <= i < j < b.len() implies (
    #[trigger] b[i]).start_line != (#[trigger] b[j]).start_line by {
        let x = if i < external.len() {
            local.len() + i
        } else {
            i - external.len()
        };
        let y = if j < external.len() {
            local.len() + j
        } else {
            j - external.len()
        };
        assert(a[x] == b[i] && a[y] == b[j]);
        if x < y {
            assert(a[x].start_line != a[y].start_line);
        } else {
            assert(a[y].start_line != a[x].start_line);
        }
    }
    bottom_up_facts(a);
    bottom_up_facts(b);
    assert forall|d: LineChangeView| #[trigger] file_watcher::bottom_up(a).contains(
        d,
    ) <==> file_watcher::bottom_up(b).contains(d) by {
        swapped_contains(local, external, d);
        swapped_contains(external, local, d);
    }
    falling_is_determined(file_watcher::bottom_up(a), file_watcher::bottom_up(b));
}

/// The lines that a difference writes with its conflicts marked: each of its
/// lines is among them.
pub(crate) proof fn marked_lines_hold(diff: Seq<DiffLineView>, i: int)
    requires
        0 <= i < diff.len(),
    ensures
        ({
            let marked = file_watcher::conflicts_in(diff);
            let line = text::without_newlines(diff[i].value);
            &&& marked.lines.contains(line) || (marked.open && (marked.local.contains(line)
                || marked.external.contains(line)))
            &&& marked.closed().lines.contains(line)
        }),
    decreases diff.len(),
{
    let before = file_watcher::conflicts_in(diff.drop_last());
    let marked = file_watcher::conflicts_in(diff);
    let d = diff.last();
    let line = text::without_newlines(diff[i].value);
    if i < diff.len() - 1 {
        marked_lines_hold(diff.drop_last(), i);
        match d.tag {
            DiffTag::Equal => {
                let k = before.closed().lines.index_of(line);
                assert(marked.lines[k] == line);
            },
            DiffTag::Delete => {
                if before.local.contains(line) {
                    assert(marked.local[before.local.index_of(line)] == line);
                }
            },
            DiffTag::Insert => {
                if before.external.contains(line) {
                    assert(marked.external[before.external.index_of(line)] == line);
                }
            },
        }
    } else {
        match d.tag {
            DiffTag::Equal => {
                assert(marked.lines[before.closed().lines.len() as int] == line);
            },
            DiffTag::Delete => {
                assert(marked.local[before.local.len() as int] == line);
            },
            DiffTag::Insert => {
                assert(marked.external[before.external.len() as int] == line);
            },
        }
    }
    let all = marked.closed().lines;
    if marked.lines.contains(line) {
        assert(all[marked.lines.index_of(line)] == line);
    } else if marked.local.contains(line) {
        assert(all[marked.lines.len() + 1 + marked.local.index_of(line)] == line);
    } else {
        assert(all[marked.lines.len() + 2 + marked.local.len() + marked.external.index_of(line)]
            == line);
    }
}

/// Where conflicts are marked nothing is lost: every line of both sides is in
/// the merged text.
pub proof fn conflicts_lose_nothing(
    base: Seq<char>,
    local: Seq<char>,
    external: Seq<char>,
    r: MergeResult,
    i: int,
)
    requires
        file_watcher::merge_outcome(base, local, external, r),
        0 <= i < file_watcher::line_diff(local, external).len(),
    ensures
        r matches MergeResult::MergedWithConflicts { content, .. } ==> text::holds(
            content@,
            text::without_newlines(file_watcher::line_diff(local, external)[i].value),
        ),
{
    let diff = file_watcher::line_diff(local, external);
    let lines = file_watcher::conflicts_in(diff).closed().lines;
    let line = text::without_newlines(diff[i].value);
    marked_lines_hold(diff, i);
    joined_holds(lines, seq!['\n'], lines.index_of(line));
}

pub(crate) proof fn side_line_is_in(diff: Seq<DiffLineView>, gone: DiffTag, line: Seq<char>) -> (i: int)
    requires
        file_watcher::lines_without(diff, gone).contains(line),
    ensures
        0 <= i < diff.len(),
        text::without_newlines(diff[i].value) == line,
    decreases diff.len(),
{
    let all = file_watcher::lines_without(diff, gone);
    let k = all.index_of(line);
    if diff.last().tag != gone && k == all.len() - 1 {
        diff.len() - 1
    } else {
        let front = file_watcher::lines_without(diff.drop_last(), gone);
        assert(front[k] == line);
        assert(front.contains(line));
        side_line_is_in(diff.drop_last(), gone, line)
    }
}

/// Where conflicts are marked, the merged text holds both sides, line by line.
pub proof fn conflicts_hold_both_texts(
    base: Seq<char>,
    local: Seq<char>,
    external: Seq<char>,
    r: MergeResult,
    line: Seq<char>,
)
    requires
        file_watcher::merge_outcome(base, local, external, r),
        file_watcher::has_lines_of(file_watcher::line_diff(local, external), local, external),
        text::lines_of(local).contains(line) || text::lines_of(external).contains(line),
    ensures
        r matches MergeResult::MergedWithConflicts { content, .. } ==> text::holds(content@, line),
{
    let diff = file_watcher::line_diff(local, external);
    let i = if text::lines_of(local).contains(line) {
        side_line_is_in(diff, DiffTag::Insert, line)
    } else {
        side_line_is_in(diff, DiffTag::Delete, line)
    };
    conflicts_lose_nothing(base, local, external, r, i);
}

} // verus!
