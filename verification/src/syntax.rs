//! Faces, and highlight spans, which move with the text under them.

use vstd::prelude::*;
use vstd::string::*;

use crate::text::{str_chars, str_eq};

verus! {

/// Names a face, the look of a piece of text.
#[derive(Debug, Clone, Copy, PartialEq, Eq, Structural, Hash)]
pub struct FaceId(pub u32);

/// A face laid over the characters from `start` up to `end`.
#[derive(Debug, Clone, Copy, PartialEq, Eq, Structural)]
pub struct HighlightSpan {
    pub start: usize,
    pub end: usize,
    pub face_id: FaceId,
}

impl HighlightSpan {
    pub fn new(start: usize, end: usize, face_id: FaceId) -> (s: Self)
        ensures
            s == (HighlightSpan { start, end, face_id }),
    {
        HighlightSpan { start, end, face_id }
    }

    /// Whether the span covers position `pos`.
    pub open spec fn covers(&self, pos: int) -> bool {
        self.start <= pos < self.end
    }

    /// Whether the span and the range from `start` up to `end` have a position
    /// in common.
    pub open spec fn overlaps(&self, start: int, end: int) -> bool {
        self.start < end && start < self.end && self.start < self.end && start < end
    }
}

/// `a + b`, or the largest `usize` where that is more.
pub open spec fn capped_sum(a: usize, b: usize) -> usize {
    if a + b > usize::MAX {
        usize::MAX
    } else {
        (a + b) as usize
    }
}

/// Where a span lies after `len` characters came in at `pos`: one that starts
/// there or behind moves, one that reaches across it grows.
pub open spec fn span_after_insert(s: HighlightSpan, pos: usize, len: usize) -> HighlightSpan {
    if s.start >= pos {
        HighlightSpan { start: capped_sum(s.start, len), end: capped_sum(s.end, len), ..s }
    } else if s.end > pos {
        HighlightSpan { end: capped_sum(s.end, len), ..s }
    } else {
        s
    }
}

/// Where position `p` lies after the characters from `start` up to `end` went.
pub open spec fn pos_after_delete(p: usize, start: usize, end: usize) -> usize {
    if p <= start {
        p
    } else if p >= end {
        (p - (end - start)) as usize
    } else {
        start
    }
}

/// Where a span lies after the characters from `start` up to `end` went.
pub open spec fn span_after_delete(s: HighlightSpan, start: usize, end: usize) -> HighlightSpan {
    HighlightSpan {
        start: pos_after_delete(s.start, start, end),
        end: pos_after_delete(s.end, start, end),
        ..s
    }
}

/// The spans after an insertion.
pub open spec fn spans_after_insert(
    spans: Seq<HighlightSpan>,
    pos: usize,
    len: usize,
) -> Seq<HighlightSpan> {
    spans.map_values(|s: HighlightSpan| span_after_insert(s, pos, len))
}

/// The spans after a deletion: those that have nothing left to cover go.
pub open spec fn spans_after_delete(
    spans: Seq<HighlightSpan>,
    start: usize,
    end: usize,
) -> Seq<HighlightSpan>
    decreases spans.len(),
{
    if spans.len() == 0 {
        spans
    } else {
        let rest = spans_after_delete(spans.drop_last(), start, end);
        let s = span_after_delete(spans.last(), start, end);
        if s.start < s.end {
            rest.push(s)
        } else {
            rest
        }
    }
}

/// The spans that overlap a range, in order.
pub open spec fn spans_overlapping(
    spans: Seq<HighlightSpan>,
    start: int,
    end: int,
) -> Seq<HighlightSpan> {
    spans.filter(|s: HighlightSpan| s.overlaps(start, end))
}

/// The spans that do not overlap a range, in order.
pub open spec fn spans_apart(
    spans: Seq<HighlightSpan>,
    start: int,
    end: int,
) -> Seq<HighlightSpan> {
    spans.filter(|s: HighlightSpan| !s.overlaps(start, end))
}

/// The face at `pos`: that of the span laid last among those that cover it.
pub open spec fn face_on_top(spans: Seq<HighlightSpan>, pos: int) -> Option<FaceId>
    decreases spans.len(),
{
    if spans.len() == 0 {
        None
    } else if spans.last().covers(pos) {
        Some(spans.last().face_id)
    } else {
        face_on_top(spans.drop_last(), pos)
    }
}

proof fn filter_step(spans: Seq<HighlightSpan>, i: int, keep: spec_fn(HighlightSpan) -> bool)
    requires
        0 <= i < spans.len(),
    ensures
        spans.take(i + 1).filter(keep) == if keep(spans[i]) {
            spans.take(i).filter(keep).push(spans[i])
        } else {
            spans.take(i).filter(keep)
        },
{
    reveal(Seq::filter);
    assert(spans.take(i + 1).drop_last() =~= spans.take(i));
}

/// The spans laid over a text, in the order in which they were laid.
#[derive(Debug)]
pub struct SpanStore {
    pub spans: Vec<HighlightSpan>,
}

impl SpanStore {
    pub open spec fn view(&self) -> Seq<HighlightSpan> {
        self.spans@
    }

    pub fn new() -> (s: Self)
        ensures
            s@.len() == 0,
    {
        SpanStore { spans: Vec::new() }
    }

    pub fn is_empty(&self) -> (r: bool)
        ensures
            r == (self@.len() == 0),
    {
        self.spans.len() == 0
    }

    pub fn clear(&mut self)
        ensures
            final(self)@.len() == 0,
    {
        self.spans.clear();
    }

    pub fn add_span(&mut self, span: HighlightSpan)
        ensures
            final(self)@ == old(self)@.push(span),
    {
        self.spans.push(span);
    }

    pub fn add_spans(&mut self, spans: Vec<HighlightSpan>)
        ensures
            final(self)@ == old(self)@ + spans@,
    {
        let mut more = spans;
        self.spans.append(&mut more);
    }

    /// Moves the spans for `len` characters that came in at `pos`.
    pub fn adjust_for_insert(&mut self, pos: usize, len: usize)
        ensures
            final(self)@ == spans_after_insert(old(self)@, pos, len),
    {
        let ghost before = self@;
        let mut i: usize = 0;
        while i < self.spans.len()
            invariant
                i <= self@.len(),
                self@.len() == before.len(),
                forall|j: int|
                    0 <= j < i ==> #[trigger] self@[j] == span_after_insert(before[j], pos, len),
                forall|j: int| i <= j < before.len() ==> #[trigger] self@[j] == before[j],
            decreases self.spans.len() - i,
        {
            let mut s = self.spans[i];
            if s.start >= pos {
                s.start = s.start.saturating_add(len);
                s.end = s.end.saturating_add(len);
            } else if s.end > pos {
                s.end = s.end.saturating_add(len);
            }
            self.spans.set(i, s);
            i = i + 1;
        }
        assert(self@ =~= spans_after_insert(before, pos, len));
    }

    /// Moves the spans for the characters from `start` up to `end` that went.
    pub fn adjust_for_delete(&mut self, start: usize, end: usize)
        requires
            start <= end,
        ensures
            final(self)@ == spans_after_delete(old(self)@, start, end),
    {
        let mut kept: Vec<HighlightSpan> = Vec::new();
        let mut i: usize = 0;
        while i < self.spans.len()
            invariant
                start <= end,
                i <= self@.len(),
                kept@ == spans_after_delete(self@.take(i as int), start, end),
            decreases self.spans.len() - i,
        {
            let s = self.spans[i];
            let moved = HighlightSpan {
                start: Self::position_after_delete(s.start, start, end),
                end: Self::position_after_delete(s.end, start, end),
                face_id: s.face_id,
            };
            if moved.start < moved.end {
                kept.push(moved);
            }
            assert(self@.take(i + 1).drop_last() =~= self@.take(i as int));
            i = i + 1;
        }
        assert(self@.take(i as int) =~= self@);
        self.spans = kept;
    }

    fn position_after_delete(p: usize, start: usize, end: usize) -> (r: usize)
        requires
            start <= end,
        ensures
            r == pos_after_delete(p, start, end),
    {
        if p <= start {
            p
        } else if p >= end {
            p - (end - start)
        } else {
            start
        }
    }

    /// Drops the spans that overlap the range from `start` up to `end`.
    pub fn clear_range(&mut self, start: usize, end: usize)
        ensures
            final(self)@ == spans_apart(old(self)@, start as int, end as int),
    {
        let mut kept: Vec<HighlightSpan> = Vec::new();
        let mut i: usize = 0;
        proof {
            reveal(Seq::filter);
            assert(spans_apart(self@.take(0), start as int, end as int) =~= kept@);
        }
        while i < self.spans.len()
            invariant
                i <= self@.len(),
                kept@ == spans_apart(self@.take(i as int), start as int, end as int),
            decreases self.spans.len() - i,
        {
            let s = self.spans[i];
            proof {
                filter_step(
                    self@,
                    i as int,
                    |s: HighlightSpan| !s.overlaps(start as int, end as int),
                );
            }
            if !(s.start < end && start < s.end && s.start < s.end && start < end) {
                kept.push(s);
            }
            i = i + 1;
        }
        assert(self@.take(i as int) =~= self@);
        self.spans = kept;
    }

    /// The spans that overlap the range from `start` up to `end`.
    pub fn spans_in_range(&self, start: usize, end: usize) -> (r: Vec<HighlightSpan>)
        ensures
            r@ == spans_overlapping(self@, start as int, end as int),
    {
        let mut found: Vec<HighlightSpan> = Vec::new();
        let mut i: usize = 0;
        proof {
            reveal(Seq::filter);
            assert(spans_overlapping(self@.take(0), start as int, end as int) =~= found@);
        }
        while i < self.spans.len()
            invariant
                i <= self@.len(),
                found@ == spans_overlapping(self@.take(i as int), start as int, end as int),
            decreases self.spans.len() - i,
        {
            let s = self.spans[i];
            proof {
                filter_step(
                    self@,
                    i as int,
                    |s: HighlightSpan| s.overlaps(start as int, end as int),
                );
            }
            if s.start < end && start < s.end && s.start < s.end && start < end {
                found.push(s);
            }
            i = i + 1;
        }
        assert(self@.take(i as int) =~= self@);
        found
    }

    /// The face at `pos`.
    pub fn face_at(&self, pos: usize) -> (r: Option<FaceId>)
        ensures
            r == face_on_top(self@, pos as int),
    {
        let mut i: usize = self.spans.len();
        assert(self@.take(i as int) =~= self@);
        while i > 0
            invariant
                i <= self@.len(),
                face_on_top(self@, pos as int) == face_on_top(self@.take(i as int), pos as int),
            decreases i,
        {
            i = i - 1;
            let s = self.spans[i];
            assert(self@.take(i + 1).drop_last() =~= self@.take(i as int));
            if s.start <= pos && pos < s.end {
                return Some(s.face_id);
            }
        }
        None
    }
}

// --- Faces ---

/// A colour by its parts.
#[derive(Debug, Clone, Copy, PartialEq, Eq, Structural)]
pub struct Color {
    pub red: u8,
    pub green: u8,
    pub blue: u8,
}

/// What a hexadecimal digit stands for.
pub open spec fn hex_value(c: char) -> Option<u8> {
    if '0' <= c && c <= '9' {
        Some((c as u32 - '0' as u32) as u8)
    } else if 'a' <= c && c <= 'f' {
        Some((c as u32 - 'a' as u32 + 10) as u8)
    } else if 'A' <= c && c <= 'F' {
        Some((c as u32 - 'A' as u32 + 10) as u8)
    } else {
        None
    }
}

fn hex_digit(c: char) -> (r: Option<u8>)
    ensures
        r == hex_value(c),
        r matches Some(v) ==> v < 16,
{
    if '0' <= c && c <= '9' {
        Some((c as u32 - '0' as u32) as u8)
    } else if 'a' <= c && c <= 'f' {
        Some((c as u32 - 'a' as u32 + 10) as u8)
    } else if 'A' <= c && c <= 'F' {
        Some((c as u32 - 'A' as u32 + 10) as u8)
    } else {
        None
    }
}

/// What two hexadecimal digits stand for.
pub open spec fn hex_pair(a: char, b: char) -> Option<u8> {
    match (hex_value(a), hex_value(b)) {
        (Some(x), Some(y)) => Some((16 * x + y) as u8),
        _ => None,
    }
}

fn hex_byte(a: char, b: char) -> (r: Option<u8>)
    ensures
        r == hex_pair(a, b),
{
    match (hex_digit(a), hex_digit(b)) {
        (Some(x), Some(y)) => Some(16 * x + y),
        _ => None,
    }
}

impl Color {
    /// The colour that six hexadecimal digits stand for, with or without a `#`
    /// in front.
    pub open spec fn meant(s: Seq<char>) -> Option<Color> {
        let d = if s.len() > 0 && s[0] == '#' {
            s.drop_first()
        } else {
            s
        };
        if d.len() != 6 {
            None
        } else {
            match (hex_pair(d[0], d[1]), hex_pair(d[2], d[3]), hex_pair(d[4], d[5])) {
                (Some(red), Some(green), Some(blue)) => Some(Color { red, green, blue }),
                _ => None,
            }
        }
    }

    /// The colour that six hexadecimal digits stand for.
    pub fn from_hex(hex: &str) -> (r: Option<Color>)
        ensures
            r == Self::meant(hex@),
    {
        let chars = str_chars(hex);
        let start: usize = if chars.len() > 0 && chars[0] == '#' {
            1
        } else {
            0
        };
        if chars.len() - start != 6 {
            return None;
        }
        match (
            hex_byte(chars[start], chars[start + 1]),
            hex_byte(chars[start + 2], chars[start + 3]),
            hex_byte(chars[start + 4], chars[start + 5]),
        ) {
            (Some(red), Some(green), Some(blue)) => Some(Color { red, green, blue }),
            _ => None,
        }
    }
}

/// How a piece of text looks.
#[derive(Debug, Clone, PartialEq, Eq)]
pub struct Face {
    pub name: String,
    pub foreground: Option<Color>,
    pub background: Option<Color>,
    pub bold: bool,
    pub italic: bool,
    pub underline: bool,
}

impl Face {
    /// A plain face with a name.
    pub fn new(name: &str) -> (r: Self)
        ensures
            r.name@ == name@,
            r.foreground is None,
            r.background is None,
            !r.bold,
            !r.italic,
            !r.underline,
    {
        Face {
            name: name.to_owned(),
            foreground: None,
            background: None,
            bold: false,
            italic: false,
            underline: false,
        }
    }
}

/// The faces that are defined. A face is named by its place.
#[derive(Debug)]
pub struct FaceRegistry {
    pub faces: Vec<Face>,
}

/// The place of the first face with a name.
pub open spec fn face_place(faces: Seq<Face>, name: Seq<char>) -> Option<int>
    decreases faces.len(),
{
    if faces.len() == 0 {
        None
    } else {
        match face_place(faces.drop_last(), name) {
            Some(p) => Some(p),
            None => if faces.last().name@ == name {
                Some(faces.len() - 1)
            } else {
                None
            },
        }
    }
}

/// The place of a face is a place, and the face there has the name.
pub proof fn face_place_is_place(faces: Seq<Face>, name: Seq<char>)
    ensures
        face_place(faces, name) matches Some(p) ==> 0 <= p < faces.len() && faces[p].name@ == name,
    decreases faces.len(),
{
    if faces.len() > 0 {
        face_place_is_place(faces.drop_last(), name);
    }
}

impl FaceRegistry {
    pub fn new() -> (r: Self)
        ensures
            r.faces@.len() == 0,
    {
        FaceRegistry { faces: Vec::new() }
    }

    /// The name of the first face with this text for a name, as far as places
    /// can be named.
    pub open spec fn id_of(&self, name: Seq<char>) -> Option<FaceId> {
        match face_place(self.faces@, name) {
            Some(p) if p <= u32::MAX => Some(FaceId(p as u32)),
            _ => None,
        }
    }

    /// The face with a name.
    pub fn get_id(&self, name: &str) -> (r: Option<FaceId>)
        ensures
            r == self.id_of(name@),
            r matches Some(id) ==> id.0 < self.faces@.len() && self.faces@[id.0 as int].name@
                == name@,
    {
        let mut i: usize = 0;
        assert(self.faces@.take(0) =~= seq![]);
        while i < self.faces.len()
            invariant
                i <= self.faces@.len(),
                face_place(self.faces@.take(i as int), name@) is None,
            decreases self.faces.len() - i,
        {
            assert(self.faces@.take(i + 1).drop_last() =~= self.faces@.take(i as int));
            if str_eq(self.faces[i].name.as_str(), name) {
                proof {
                    face_place_stays(self.faces@, name@, i + 1);
                }
                return if i <= u32::MAX as usize {
                    Some(FaceId(i as u32))
                } else {
                    None
                };
            }
            i = i + 1;
        }
        assert(self.faces@.take(i as int) =~= self.faces@);
        None
    }

    /// Whether `after` is this registry with a face added, or with another look for
    /// the face with its name.
    pub open spec fn defined(&self, after: &Self, face: Face) -> bool {
        match self.id_of(face.name@) {
            Some(id) => after.faces@ == self.faces@.update(id.0 as int, face),
            None => after.faces@ == self.faces@.push(face),
        }
    }

    /// Adds a face, or gives the face with its name another look.
    pub fn define(&mut self, face: Face)
        ensures
            old(self).defined(final(self), face),
    {
        match self.get_id(face.name.as_str()) {
            Some(id) => {
                self.faces.set(id.0 as usize, face);
            },
            None => {
                self.faces.push(face);
            },
        }
    }
}

proof fn face_place_stays(faces: Seq<Face>, name: Seq<char>, k: int)
    requires
        0 <= k <= faces.len(),
        face_place(faces.take(k), name) is Some,
    ensures
        face_place(faces, name) == face_place(faces.take(k), name),
    decreases faces.len(),
{
    if k < faces.len() {
        assert(faces.drop_last().take(k) =~= faces.take(k));
        face_place_stays(faces.drop_last(), name, k);
    } else {
        assert(faces.take(k) =~= faces);
    }
}

} // verus!
