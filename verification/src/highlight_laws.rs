//! What becomes of highlighting when the text under it changes.

use vstd::prelude::*;

use crate::buffer::BufferInner;
use crate::julia_runtime;
use crate::julia_runtime::SpanRequest;
use crate::syntax;
use crate::syntax::{Color, Face, FaceRegistry, HighlightSpan};

verus! {

/// Whether the spans end within what positions can be, also when so many
/// characters come in.
pub open spec fn have_room(spans: Seq<HighlightSpan>, more: int) -> bool {
    forall|i: int|
        0 <= i < spans.len() ==> (#[trigger] spans[i]).start <= spans[i].end && spans[i].end + more
            <= usize::MAX
}

/// The face at a position is that of the span laid last among those over it; there
/// is none where no span is.
pub proof fn last_span_is_on_top(spans: Seq<HighlightSpan>, pos: int, i: int)
    ensures
        0 <= i < spans.len() && spans[i].start <= pos < spans[i].end && (forall|k: int|
            i < k < spans.len() ==> !((#[trigger] spans[k]).start <= pos < spans[k].end))
            ==> syntax::face_on_top(spans, pos) == Some(spans[i].face_id),
        (forall|k: int|
            0 <= k < spans.len() ==> !((#[trigger] spans[k]).start <= pos < spans[k].end))
            ==> syntax::face_on_top(spans, pos) is None,
    decreases spans.len(),
{
    if spans.len() > 0 {
        let front = spans.drop_last();
        last_span_is_on_top(front, pos, i);
        assert forall|k: int| 0 <= k < front.len() implies front[k] == #[trigger] spans[k] by {}
        if forall|k: int|
            0 <= k < spans.len() ==> !((#[trigger] spans[k]).start <= pos < spans[k].end) {
            assert(!(spans[spans.len() - 1].start <= pos < spans[spans.len() - 1].end));
            assert forall|k: int| 0 <= k < front.len() implies !((#[trigger] front[k]).start <= pos
                < front[k].end) by {
                assert(front[k] == spans[k]);
            }
        }
        if 0 <= i < spans.len() - 1 && spans[i].start <= pos < spans[i].end && (forall|k: int|
            i < k < spans.len() ==> !((#[trigger] spans[k]).start <= pos < spans[k].end)) {
            assert(!(spans[spans.len() - 1].start <= pos < spans[spans.len() - 1].end));
            assert forall|k: int| i < k < front.len() implies !((#[trigger] front[k]).start <= pos
                < front[k].end) by {
                assert(front[k] == spans[k]);
            }
        }
    }
}

proof fn insertion_moves_faces(spans: Seq<HighlightSpan>, pos: usize, len: usize, p: int)
    requires
        have_room(spans, len as int),
        0 <= p,
    ensures
        ({
            let after = syntax::spans_after_insert(spans, pos, len);
            &&& p < pos ==> syntax::face_on_top(after, p) == syntax::face_on_top(spans, p)
            &&& p >= pos ==> syntax::face_on_top(after, p + len) == syntax::face_on_top(spans, p)
        }),
    decreases spans.len(),
{
    if spans.len() > 0 {
        let front = spans.drop_last();
        assert(have_room(front, len as int)) by {
            assert forall|i: int| 0 <= i < front.len() implies (#[trigger] front[i]).start
                <= front[i].end && front[i].end + len <= usize::MAX by {
                assert(front[i] == spans[i]);
            }
        }
        insertion_moves_faces(front, pos, len, p);
        let after = syntax::spans_after_insert(spans, pos, len);
        assert(after.drop_last() =~= syntax::spans_after_insert(front, pos, len));
        assert(spans[spans.len() - 1] == spans.last());
        assert(after.last() == syntax::span_after_insert(spans.last(), pos, len));
    }
}

/// Characters keep their faces when others come in, wherever those do.
pub proof fn faces_stay_with_their_characters_on_insertion(
    a: BufferInner,
    b: BufferInner,
    pos: int,
    ins: Seq<char>,
    p: int,
)
    requires
        0 <= pos <= a.text().len(),
        a.text().len() + ins.len() <= usize::MAX,
        have_room(a.spans@, ins.len() as int),
        a.inserted(&b, pos, ins),
        0 <= p < a.text().len(),
    ensures
        p < pos ==> {
            &&& b.text()[p] == a.text()[p]
            &&& syntax::face_on_top(b.spans@, p) == syntax::face_on_top(a.spans@, p)
        },
        p >= pos ==> {
            &&& b.text()[p + ins.len()] == a.text()[p]
            &&& syntax::face_on_top(b.spans@, p + ins.len()) == syntax::face_on_top(a.spans@, p)
        },
{
    insertion_moves_faces(a.spans@, pos as usize, ins.len() as usize, p);
}

proof fn deletion_moves_faces(spans: Seq<HighlightSpan>, start: usize, end: usize, p: int)
    requires
        start <= end,
        have_room(spans, 0),
        0 <= p,
    ensures
        ({
            let after = syntax::spans_after_delete(spans, start, end);
            &&& p < start ==> syntax::face_on_top(after, p) == syntax::face_on_top(spans, p)
            &&& p >= end ==> syntax::face_on_top(after, p - (end - start))
                == syntax::face_on_top(spans, p)
        }),
    decreases spans.len(),
{
    if spans.len() > 0 {
        let front = spans.drop_last();
        assert(have_room(front, 0)) by {
            assert forall|i: int| 0 <= i < front.len() implies (#[trigger] front[i]).start
                <= front[i].end && front[i].end + 0 <= usize::MAX by {
                assert(front[i] == spans[i]);
            }
        }
        deletion_moves_faces(front, start, end, p);
        assert(spans[spans.len() - 1] == spans.last());
        let rest = syntax::spans_after_delete(front, start, end);
        let s = syntax::span_after_delete(spans.last(), start, end);
        if s.start < s.end {
            assert(rest.push(s).drop_last() =~= rest);
        }
    }
}

/// Characters that stay keep their faces when others go.
pub proof fn faces_stay_with_their_characters_on_deletion(
    a: BufferInner,
    b: BufferInner,
    start: int,
    end: int,
    p: int,
)
    requires
        0 <= start <= end <= a.text().len() <= usize::MAX,
        have_room(a.spans@, 0),
        a.deleted(&b, start, end),
        0 <= p < a.text().len(),
    ensures
        p < start ==> {
            &&& b.text()[p] == a.text()[p]
            &&& syntax::face_on_top(b.spans@, p) == syntax::face_on_top(a.spans@, p)
        },
        p >= end ==> {
            &&& b.text()[p - (end - start)] == a.text()[p]
            &&& syntax::face_on_top(b.spans@, p - (end - start)) == syntax::face_on_top(
                a.spans@,
                p,
            )
        },
{
    deletion_moves_faces(a.spans@, start as usize, end as usize, p);
}

/// Taking out what came in gives back the spans, where none of them is empty.
pub proof fn deletion_takes_back_insertion(spans: Seq<HighlightSpan>, pos: usize, len: usize)
    requires
        have_room(spans, len as int),
        pos + len <= usize::MAX,
        forall|i: int| 0 <= i < spans.len() ==> (#[trigger] spans[i]).start < spans[i].end,
    ensures
        syntax::spans_after_delete(
            syntax::spans_after_insert(spans, pos, len),
            pos,
            (pos + len) as usize,
        ) == spans,
    decreases spans.len(),
{
    let after = syntax::spans_after_insert(spans, pos, len);
    if spans.len() > 0 {
        let front = spans.drop_last();
        assert(have_room(front, len as int)) by {
            assert forall|i: int| 0 <= i < front.len() implies (#[trigger] front[i]).start
                <= front[i].end && front[i].end + len <= usize::MAX by {
                assert(front[i] == spans[i]);
            }
        }
        assert forall|i: int| 0 <= i < front.len() implies (#[trigger] front[i]).start
            < front[i].end by {
            assert(front[i] == spans[i]);
        }
        deletion_takes_back_insertion(front, pos, len);
        assert(after.drop_last() =~= syntax::spans_after_insert(front, pos, len));
        assert(spans[spans.len() - 1] == spans.last());
        assert(after.last() == syntax::span_after_insert(spans.last(), pos, len));
        assert(front.push(spans.last()) =~= spans);
    } else {
        assert(after =~= spans);
    }
}

/// No empty span is left when characters go.
pub proof fn no_empty_span_is_left(spans: Seq<HighlightSpan>, start: usize, end: usize, i: int)
    requires
        0 <= i < syntax::spans_after_delete(spans, start, end).len(),
    ensures
        syntax::spans_after_delete(spans, start, end)[i].start < syntax::spans_after_delete(
            spans,
            start,
            end,
        )[i].end,
    decreases spans.len(),
{
    if spans.len() > 0 {
        let rest = syntax::spans_after_delete(spans.drop_last(), start, end);
        if i < rest.len() {
            no_empty_span_is_left(spans.drop_last(), start, end, i);
        }
    }
}

proof fn kept_by_filter(
    spans: Seq<HighlightSpan>,
    keep: spec_fn(HighlightSpan) -> bool,
    pos: int,
)
    ensures
        forall|s: HighlightSpan| #[trigger]
            spans.filter(keep).contains(s) <==> spans.contains(s) && keep(s),
        (forall|s: HighlightSpan| #[trigger] spans.contains(s) && s.covers(pos) ==> keep(s))
            ==> syntax::face_on_top(spans.filter(keep), pos) == syntax::face_on_top(spans, pos),
    decreases spans.len(),
{
    reveal(Seq::filter);
    if spans.len() > 0 {
        let front = spans.drop_last();
        let last = spans.last();
        kept_by_filter(front, keep, pos);
        assert(spans[spans.len() - 1] == last);
        assert forall|s: HighlightSpan| #[trigger]
            spans.filter(keep).contains(s) <==> spans.contains(s) && keep(s) by {
            assert(front.filter(keep).contains(s) <==> front.contains(s) && keep(s));
            if front.contains(s) {
                assert(spans[front.index_of(s)] == s);
            }
            if spans.contains(s) && s != last {
                assert(front[spans.index_of(s)] == s);
            }
            let kept = front.filter(keep);
            if keep(last) {
                assert(kept.push(last)[kept.len() as int] == last);
                if kept.contains(s) {
                    assert(kept.push(last)[kept.index_of(s)] == s);
                }
                if kept.push(last).contains(s) && s != last {
                    assert(kept[kept.push(last).index_of(s)] == s);
                }
            }
        }
        if forall|s: HighlightSpan| #[trigger] spans.contains(s) && s.covers(pos) ==> keep(s) {
            assert forall|s: HighlightSpan| #[trigger]
                front.contains(s) && s.covers(pos) implies keep(s) by {
                assert(spans[front.index_of(s)] == s);
                assert(spans.contains(s));
            }
            assert(spans.contains(last));
            if keep(last) {
                assert(front.filter(keep).push(last).drop_last() =~= front.filter(keep));
            }
        }
    }
}

proof fn no_face_without_span(spans: Seq<HighlightSpan>, pos: int)
    requires
        forall|s: HighlightSpan| #[trigger] spans.contains(s) ==> !s.covers(pos),
    ensures
        syntax::face_on_top(spans, pos) is None,
{
    assert forall|k: int| 0 <= k < spans.len() implies !((#[trigger] spans[k]).start <= pos
        < spans[k].end) by {
        assert(spans.contains(spans[k]));
        assert(!spans[k].covers(pos));
    }
    last_span_is_on_top(spans, pos, 0);
}

/// Clearing a range leaves no face in it, and drops only spans that reach into it.
pub proof fn cleared_range_has_no_faces(
    spans: Seq<HighlightSpan>,
    start: int,
    end: int,
    p: int,
    s: HighlightSpan,
)
    ensures
        start <= p < end ==> syntax::face_on_top(syntax::spans_apart(spans, start, end), p) is None,
        spans.contains(s) && (s.end <= start || end <= s.start || s.start >= s.end)
            ==> syntax::spans_apart(spans, start, end).contains(s),
        syntax::spans_apart(spans, start, end).contains(s) ==> spans.contains(s),
{
    let keep = |x: HighlightSpan| !x.overlaps(start, end);
    let after = syntax::spans_apart(spans, start, end);
    assert(after == spans.filter(keep));
    kept_by_filter(spans, keep, p);
    if start <= p < end {
        assert forall|x: HighlightSpan| #[trigger] after.contains(x) implies !x.covers(p) by {
            assert(keep(x));
        }
        no_face_without_span(after, p);
    }
}

/// The spans of a range are enough to tell the faces in it, and each of them
/// reaches into it.
pub proof fn spans_of_a_range_tell_its_faces(
    spans: Seq<HighlightSpan>,
    start: int,
    end: int,
    p: int,
    s: HighlightSpan,
)
    ensures
        start <= p < end ==> syntax::face_on_top(syntax::spans_overlapping(spans, start, end), p)
            == syntax::face_on_top(spans, p),
        syntax::spans_overlapping(spans, start, end).contains(s) ==> spans.contains(s) && exists|
            q: int,
        |
            start <= q < end && #[trigger] s.covers(q),
{
    let keep = |x: HighlightSpan| x.overlaps(start, end);
    let found = syntax::spans_overlapping(spans, start, end);
    assert(found == spans.filter(keep));
    kept_by_filter(spans, keep, p);
    if found.contains(s) {
        assert(keep(s));
        let q = if s.start >= start {
            s.start as int
        } else {
            start
        };
        assert(s.covers(q));
    }
}

// --- Colours ---

/// The hexadecimal digit for a number below 16.
pub open spec fn hex_digit_for(n: int) -> char {
    seq!['0', '1', '2', '3', '4', '5', '6', '7', '8', '9', 'a', 'b', 'c', 'd', 'e', 'f'][n]
}

/// A colour as it is written.
pub open spec fn written(c: Color) -> Seq<char> {
    seq![
        '#',
        hex_digit_for(c.red as int / 16),
        hex_digit_for(c.red as int % 16),
        hex_digit_for(c.green as int / 16),
        hex_digit_for(c.green as int % 16),
        hex_digit_for(c.blue as int / 16),
        hex_digit_for(c.blue as int % 16),
    ]
}

proof fn digit_means_its_number(n: int)
    requires
        0 <= n < 16,
    ensures
        syntax::hex_value(hex_digit_for(n)) == Some(n as u8),
{
}

proof fn pair_means_its_number(n: u8)
    ensures
        syntax::hex_pair(hex_digit_for(n as int / 16), hex_digit_for(n as int % 16)) == Some(n),
{
    digit_means_its_number(n as int / 16);
    digit_means_its_number(n as int % 16);
}

/// A colour is read as it is written, also without the sign in front.
pub proof fn colours_are_read_as_they_are_written(c: Color)
    ensures
        Color::meant(written(c)) == Some(c),
        Color::meant(written(c).drop_first()) == Some(c),
{
    pair_means_its_number(c.red);
    pair_means_its_number(c.green);
    pair_means_its_number(c.blue);
}

// --- Faces ---

proof fn place_is_first(faces: Seq<Face>, name: Seq<char>, p: int)
    requires
        0 <= p < faces.len(),
        faces[p].name@ == name,
        forall|i: int| 0 <= i < p ==> (#[trigger] faces[i]).name@ != name,
    ensures
        syntax::face_place(faces, name) == Some(p),
    decreases faces.len(),
{
    let init = faces.drop_last();
    if p < init.len() {
        assert(init[p] == faces[p]);
        assert forall|i: int| 0 <= i < p implies (#[trigger] init[i]).name@ != name by {
            assert(init[i] == faces[i]);
        }
        place_is_first(init, name, p);
    } else {
        assert forall|i: int| 0 <= i < init.len() implies (#[trigger] init[i]).name@ != name by {
            assert(init[i] == faces[i]);
        }
        no_place(init, name);
    }
}

proof fn no_place(faces: Seq<Face>, name: Seq<char>)
    requires
        forall|i: int| 0 <= i < faces.len() ==> (#[trigger] faces[i]).name@ != name,
    ensures
        syntax::face_place(faces, name) is None,
    decreases faces.len(),
{
    if faces.len() > 0 {
        let init = faces.drop_last();
        assert(faces[faces.len() - 1].name@ != name);
        assert forall|i: int| 0 <= i < init.len() implies (#[trigger] init[i]).name@ != name by {
            assert(init[i] == faces[i]);
        }
        no_place(init, name);
    }
}

proof fn place_facts(faces: Seq<Face>, name: Seq<char>)
    ensures
        match syntax::face_place(faces, name) {
            Some(p) => 0 <= p < faces.len() && faces[p].name@ == name && forall|i: int|
                0 <= i < p ==> (#[trigger] faces[i]).name@ != name,
            None => forall|i: int| 0 <= i < faces.len() ==> (#[trigger] faces[i]).name@ != name,
        },
    decreases faces.len(),
{
    if faces.len() > 0 {
        let init = faces.drop_last();
        place_facts(init, name);
        match syntax::face_place(init, name) {
            Some(p) => {
                assert(init[p] == faces[p]);
                assert forall|i: int| 0 <= i < p implies (#[trigger] faces[i]).name@ != name by {
                    assert(init[i] == faces[i]);
                }
            },
            None => {
                assert forall|i: int| 0 <= i < faces.len() - 1 implies (
                #[trigger] faces[i]).name@ != name by {
                    assert(init[i] == faces[i]);
                }
            },
        }
    }
}

/// A face that is defined is found by its name, with the look that it was given.
/// All other names lead to the same faces as before, with the looks that they
/// had.
pub proof fn defined_faces_are_found(
    before: FaceRegistry,
    after: FaceRegistry,
    face: Face,
    other: Seq<char>,
)
    requires
        before.defined(&after, face),
        before.faces@.len() <= u32::MAX,
    ensures
        after.id_of(face.name@) matches Some(id) && after.faces@[id.0 as int] == face,
        before.id_of(face.name@) is Some ==> after.id_of(face.name@) == before.id_of(face.name@),
        other != face.name@ ==> after.id_of(other) == before.id_of(other),
        other != face.name@ ==> (before.id_of(other) matches Some(id) ==> after.faces@[id.0 as int]
            == before.faces@[id.0 as int]),
{
    let name = face.name@;
    place_facts(before.faces@, name);
    place_facts(before.faces@, other);
    match syntax::face_place(before.faces@, name) {
        Some(p) => {
            assert forall|i: int| 0 <= i < p implies (#[trigger] after.faces@[i]).name@ != name by {
                assert(before.faces@[i].name@ != name);
            }
            place_is_first(after.faces@, name, p);
        },
        None => {
            let n = before.faces@.len() as int;
            assert forall|i: int| 0 <= i < n implies (#[trigger] after.faces@[i]).name@ != name by {
                assert(before.faces@[i].name@ != name);
            }
            place_is_first(after.faces@, name, n);
        },
    }
    if other != name {
        match syntax::face_place(before.faces@, other) {
            Some(q) => {
                assert forall|i: int| 0 <= i < q implies (#[trigger] after.faces@[i]).name@
                    != other by {
                    assert(before.faces@[i].name@ != other);
                }
                place_is_first(after.faces@, other, q);
            },
            None => {
                assert forall|i: int| 0 <= i < after.faces@.len() implies (
                #[trigger] after.faces@[i]).name@ != other by {
                    if i < before.faces@.len() {
                        assert(before.faces@[i].name@ != other);
                    }
                }
                no_place(after.faces@, other);
            },
        }
    }
}

/// A span that a script asks for covers the range that it says, with the face of
/// the name that it gives. One without a range or a known face is none.
pub proof fn spans_are_those_asked_for(request: SpanRequest, registry: FaceRegistry, pos: int)
    requires
        request.end <= usize::MAX,
    ensures
        request.meant(registry) is Some <==> 0 <= request.start < request.end && (
        request.face_name matches Some(name) && registry.id_of(name@) is Some),
        request.meant(registry) matches Some(span) ==> {
            &&& Some(span.face_id) == registry.id_of(request.face_name->0@)
            &&& span.covers(pos) <==> request.start <= pos < request.end
        },
{
}

/// The spans that a script asks for are added in order, without those that are
/// none.
pub proof fn asked_spans_keep_their_order(
    requests: Seq<SpanRequest>,
    last: SpanRequest,
    registry: FaceRegistry,
)
    ensures
        last.meant(registry) matches Some(span) ==> julia_runtime::spans_meant(
            requests.push(last),
            registry,
        ) == julia_runtime::spans_meant(requests, registry).push(span),
        last.meant(registry) is None ==> julia_runtime::spans_meant(requests.push(last), registry)
            == julia_runtime::spans_meant(requests, registry),
{
    assert(requests.push(last).drop_last() =~= requests);
}

} // verus!
