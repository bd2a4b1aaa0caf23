//! What the kernel does with the texts that it holds.

use vstd::prelude::*;

use crate::native_io;
use crate::native_io::{IoOwner, IoRequest};
use crate::native_kernel;
use crate::native_kernel::{
    Capability, KernelError, LayoutNode, LogicalLayout, NativeAnswers, NativeKernel, NativeOperation, NativeResult,
    NativeWatchNotification, ResourceId, SplitAxis, TextSelection, ViewId,
};

verus! {

/// The text with a number.
pub open spec fn text_of(k: NativeKernel, id: ResourceId) -> Seq<char> {
    k.resource_at(id)->0.buffer.text()
}

/// Whether a text is there, can be changed, and may be.
pub open spec fn is_writable(k: NativeKernel, id: ResourceId) -> bool {
    &&& k.resource_at(id) is Some
    &&& !k.resource_at(id)->0.read_only
    &&& k.grants.holds(Capability::TextWrite)
}

/// Whether `t1` is `t0` with `n` characters at `at` in place of `gone` ones.
pub open spec fn exchanged(
    t0: Seq<char>,
    t1: Seq<char>,
    at: int,
    gone: int,
    text: Seq<char>,
) -> bool {
    &&& t1.len() == t0.len() - gone + text.len()
    &&& forall|i: int| 0 <= i < at ==> #[trigger] t1[i] == t0[i]
    &&& forall|i: int| 0 <= i < text.len() ==> #[trigger] t1[at + i] == text[i]
    &&& forall|i: int|
        at + text.len() <= i < t1.len() ==> #[trigger] t1[i] == t0[i - text.len() + gone]
}

// --- Grants ---

/// What succeeds was granted: each kind of result takes a grant of its own.
pub proof fn results_take_grants(
    k0: NativeKernel,
    k1: NativeKernel,
    op: NativeOperation,
    answers: NativeAnswers,
    r: Result<NativeResult, KernelError>,
)
    requires
        native_kernel::executed(k0, k1, op, answers, r),
    ensures
        r matches Ok(NativeResult::Snapshot(_)) ==> k0.grants.holds(Capability::TextRead),
        r matches Ok(NativeResult::TextChanged { .. }) ==> k0.grants.holds(Capability::TextWrite),
        r matches Ok(NativeResult::ResourceCreated(_)) ==> k0.grants.holds(Capability::TextWrite),
        r == Ok::<NativeResult, KernelError>(NativeResult::ResourceClosed) ==> k0.grants.holds(
            Capability::TextWrite,
        ),
        r == Ok::<NativeResult, KernelError>(NativeResult::LayoutValidated) ==> k0.grants.holds(
            Capability::Layout,
        ),
        r matches Ok(NativeResult::ClockMillis(_)) ==> k0.grants.holds(Capability::ClockRead),
        r == Ok::<NativeResult, KernelError>(NativeResult::WatchRegistered) ==> k0.grants.holds(
            Capability::Watch,
        ),
        r == Ok::<NativeResult, KernelError>(NativeResult::WatchUnregistered) ==> k0.grants.holds(
            Capability::Watch,
        ),
        k1.grants == k0.grants,
{
}

/// Without the right to write, no text changes.
pub proof fn nothing_is_written_without_a_grant(
    k0: NativeKernel,
    k1: NativeKernel,
    op: NativeOperation,
    answers: NativeAnswers,
    r: Result<NativeResult, KernelError>,
    id: ResourceId,
)
    requires
        k0.wf(),
        native_kernel::executed(k0, k1, op, answers, r),
        !k0.grants.holds(Capability::TextWrite),
        k0.resource_at(id) is Some,
    ensures
        k1.resource_at(id) is Some,
        text_of(k1, id) == text_of(k0, id),
        k1.resource_at(id)->0.text_revision == k0.resource_at(id)->0.text_revision,
        k1.resource_at(id)->0.selection == k0.resource_at(id)->0.selection,
        k1.slots@.len() == k0.slots@.len(),
{
}

/// Who may read and write texts is refused no operation on them for want of a
/// grant.
pub proof fn text_grants_are_enough(
    k0: NativeKernel,
    k1: NativeKernel,
    op: NativeOperation,
    answers: NativeAnswers,
    r: Result<NativeResult, KernelError>,
)
    requires
        native_kernel::executed(k0, k1, op, answers, r),
        k0.grants.holds(Capability::TextRead),
        k0.grants.holds(Capability::TextWrite),
        native_kernel::is_edit(op) || op is Snapshot || op is CreateText || op is CloseResource,
    ensures
        !(r matches Err(KernelError::CapabilityDenied(_))),
{
}

// --- Edits ---

/// An insertion into a text that can be written succeeds where it begins in the
/// text, and there only. The text then holds what was inserted, between what was
/// before and behind.
pub proof fn insertion_puts_the_text_in(
    k0: NativeKernel,
    k1: NativeKernel,
    id: ResourceId,
    at: usize,
    text: String,
    answers: NativeAnswers,
    r: Result<NativeResult, KernelError>,
)
    requires
        native_kernel::executed(
            k0,
            k1,
            NativeOperation::Insert { resource: id, at, text },
            answers,
            r,
        ),
        is_writable(k0, id),
    ensures
        r is Ok <==> at <= text_of(k0, id).len(),
        r is Ok ==> k1.resource_at(id) is Some && exchanged(
            text_of(k0, id),
            text_of(k1, id),
            at as int,
            0,
            text@,
        ),
        r is Err ==> text_of(k1, id) == text_of(k0, id),
{
}

/// A deletion from a text that can be written succeeds where its range lies in
/// the text, and there only. The text is then without that range.
pub proof fn deletion_takes_the_range_out(
    k0: NativeKernel,
    k1: NativeKernel,
    id: ResourceId,
    start: usize,
    end: usize,
    answers: NativeAnswers,
    r: Result<NativeResult, KernelError>,
)
    requires
        native_kernel::executed(
            k0,
            k1,
            NativeOperation::Delete { resource: id, start, end },
            answers,
            r,
        ),
        is_writable(k0, id),
    ensures
        r is Ok <==> start <= end <= text_of(k0, id).len(),
        r is Ok ==> k1.resource_at(id) is Some && exchanged(
            text_of(k0, id),
            text_of(k1, id),
            start as int,
            end - start,
            seq![],
        ),
        r is Err ==> text_of(k1, id) == text_of(k0, id),
{
}

/// A replacement puts a text where a range was. It is what a deletion of the
/// range and an insertion at its start make.
pub proof fn replacement_is_deletion_and_insertion(
    k0: NativeKernel,
    k1: NativeKernel,
    cut: NativeKernel,
    filled: NativeKernel,
    id: ResourceId,
    start: usize,
    end: usize,
    text: String,
    answers: NativeAnswers,
    r: Result<NativeResult, KernelError>,
    r_cut: Result<NativeResult, KernelError>,
    r_filled: Result<NativeResult, KernelError>,
)
    requires
        is_writable(k0, id),
        native_kernel::executed(
            k0,
            k1,
            NativeOperation::Replace { resource: id, start, end, text },
            answers,
            r,
        ),
        native_kernel::executed(
            k0,
            cut,
            NativeOperation::Delete { resource: id, start, end },
            answers,
            r_cut,
        ),
        r_cut is Ok,
        native_kernel::executed(
            cut,
            filled,
            NativeOperation::Insert { resource: id, at: start, text },
            answers,
            r_filled,
        ),
    ensures
        r is Ok,
        r_filled is Ok,
        text_of(k1, id) == text_of(filled, id),
        exchanged(text_of(k0, id), text_of(k1, id), start as int, end - start, text@),
{
    assert(text_of(k1, id) =~= text_of(filled, id));
}

/// The deletion of what was inserted gives the text back.
pub proof fn deletion_takes_back_insertion(
    k0: NativeKernel,
    k1: NativeKernel,
    k2: NativeKernel,
    id: ResourceId,
    at: usize,
    end: usize,
    text: String,
    answers: NativeAnswers,
    r1: Result<NativeResult, KernelError>,
    r2: Result<NativeResult, KernelError>,
)
    requires
        is_writable(k0, id),
        native_kernel::executed(
            k0,
            k1,
            NativeOperation::Insert { resource: id, at, text },
            answers,
            r1,
        ),
        r1 is Ok,
        end == at + text@.len(),
        native_kernel::executed(
            k1,
            k2,
            NativeOperation::Delete { resource: id, start: at, end },
            answers,
            r2,
        ),
    ensures
        r2 is Ok,
        text_of(k2, id) == text_of(k0, id),
{
    assert(text_of(k2, id) =~= text_of(k0, id));
}

/// A selection within the text is taken as it is, and any other is refused. The
/// text and its revision stay.
pub proof fn selection_is_what_was_set(
    k0: NativeKernel,
    k1: NativeKernel,
    id: ResourceId,
    selection: Option<TextSelection>,
    answers: NativeAnswers,
    r: Result<NativeResult, KernelError>,
)
    requires
        k0.resource_at(id) is Some,
        k0.grants.holds(Capability::TextWrite),
        native_kernel::executed(
            k0,
            k1,
            NativeOperation::SetSelection { resource: id, selection },
            answers,
            r,
        ),
    ensures
        k1.resource_at(id) is Some,
        text_of(k1, id) == text_of(k0, id),
        k1.resource_at(id)->0.text_revision == k0.resource_at(id)->0.text_revision,
        r is Ok <==> (selection matches Some(s) ==> s.anchor <= text_of(k0, id).len() && s.active
            <= text_of(k0, id).len()),
        r is Ok ==> k1.resource_at(id)->0.selection == selection,
        r is Err ==> k1.resource_at(id)->0.selection == k0.resource_at(id)->0.selection,
{
}

/// A selection is moved by an edit only where the text no longer reaches it, and
/// then to the end of the text.
pub proof fn selection_moves_only_to_the_end(
    k0: NativeKernel,
    k1: NativeKernel,
    op: NativeOperation,
    answers: NativeAnswers,
    r: Result<NativeResult, KernelError>,
    id: ResourceId,
    s0: TextSelection,
)
    requires
        native_kernel::executed(k0, k1, op, answers, r),
        native_kernel::is_edit(op),
        !(op is SetSelection),
        !(op is Insert),
        native_kernel::subject(op) == Some(id),
        r is Ok,
        k0.resource_at(id)->0.selection == Some(s0),
    ensures
        k1.resource_at(id)->0.selection matches Some(s1) && {
            &&& s0.anchor <= text_of(k1, id).len() ==> s1.anchor == s0.anchor
            &&& s0.anchor > text_of(k1, id).len() ==> s1.anchor == text_of(k1, id).len()
            &&& s0.active <= text_of(k1, id).len() ==> s1.active == s0.active
            &&& s0.active > text_of(k1, id).len() ==> s1.active == text_of(k1, id).len()
        } || text_of(k1, id) == text_of(k0, id) && k1.resource_at(id) == k0.resource_at(id),
{
}

/// A text that changed has another revision than before, and one that stayed
/// under an insertion, a deletion or a replacement of nothing has the same. So a
/// text that was saved counts as modified once it changed.
pub proof fn revision_tells_of_changes(
    k0: NativeKernel,
    k1: NativeKernel,
    op: NativeOperation,
    answers: NativeAnswers,
    r: Result<NativeResult, KernelError>,
    id: ResourceId,
)
    requires
        k0.wf(),
        native_kernel::executed(k0, k1, op, answers, r),
        k0.resource_at(id) is Some,
        k1.resource_at(id) is Some,
        k0.resource_at(id)->0.text_revision < u64::MAX,
    ensures
        k0.resource_at(id)->0.text_revision <= k1.resource_at(id)->0.text_revision
            <= k0.resource_at(id)->0.text_revision + 1,
        text_of(k1, id) != text_of(k0, id) ==> k1.resource_at(id)->0.text_revision
            == k0.resource_at(id)->0.text_revision + 1,
        op is SetSelection || op is Snapshot || r is Err ==> k1.resource_at(id)->0.text_revision
            == k0.resource_at(id)->0.text_revision,
        k1.resource_at(id)->0.last_saved_revision == k0.resource_at(id)->0.last_saved_revision,
        !k0.resource_at(id)->0.is_modified() && text_of(k1, id) != text_of(k0, id)
            ==> k1.resource_at(id)->0.is_modified(),
{
    let t0 = k0.resource_at(id)->0;
    if native_kernel::subject(op) != Some(id) {
        native_kernel::other_resources_stay(k0, k1, op, answers, r, id);
    } else if k0.grants.holds(native_kernel::needed(op)) {
        let t1 = k1.resource_at(id)->0;
        let b = t0.buffer.text();
        match op {
            NativeOperation::Insert { at, text, .. } => {
                if r is Ok && text@.len() == 0 {
                    assert(text_of(k1, id) =~= b);
                }
            },
            NativeOperation::Delete { start, end, .. } => {
                if r is Ok && start == end {
                    assert(text_of(k1, id) =~= b);
                }
            },
            NativeOperation::Replace { start, end, text, .. } => {
                if r is Ok && start == end && text@.len() == 0 {
                    assert(text_of(k1, id) =~= b);
                }
            },
            NativeOperation::CloseResource { .. } => {
                assert(k1.resource_at(id) is None);
            },
            _ => {},
        }
    }
}

/// A text that cannot be written keeps its text under every operation.
pub proof fn read_only_text_stays(
    k0: NativeKernel,
    k1: NativeKernel,
    op: NativeOperation,
    answers: NativeAnswers,
    r: Result<NativeResult, KernelError>,
    id: ResourceId,
)
    requires
        k0.wf(),
        native_kernel::executed(k0, k1, op, answers, r),
        k0.resource_at(id) is Some,
        k0.resource_at(id)->0.read_only,
        k1.resource_at(id) is Some,
    ensures
        text_of(k1, id) == text_of(k0, id),
        k1.resource_at(id)->0.read_only,
{
    if native_kernel::subject(op) != Some(id) {
        native_kernel::other_resources_stay(k0, k1, op, answers, r, id);
    }
}

// --- Reading ---

/// What is read after an edit is what the edit made, and the report of the edit
/// tells of it.
pub proof fn reading_shows_the_text(
    k0: NativeKernel,
    k1: NativeKernel,
    k2: NativeKernel,
    op: NativeOperation,
    id: ResourceId,
    answers: NativeAnswers,
    r1: Result<NativeResult, KernelError>,
    r2: Result<NativeResult, KernelError>,
)
    requires
        native_kernel::executed(k0, k1, op, answers, r1),
        native_kernel::subject(op) == Some(id),
        native_kernel::is_edit(op),
        r1 is Ok,
        native_kernel::executed(
            k1,
            k2,
            NativeOperation::Snapshot { resource: id },
            answers,
            r2,
        ),
        k1.grants.holds(Capability::TextRead),
    ensures
        k2 == k1,
        r2 matches Ok(NativeResult::Snapshot(s)) && {
            &&& s.resource == id
            &&& s.text@ == text_of(k1, id)
            &&& s.selection == k1.resource_at(id)->0.selection
            &&& s.text_revision == k1.resource_at(id)->0.text_revision
            &&& s.modified <==> s.text_revision != s.last_saved_revision
            &&& r1 matches Ok(
                NativeResult::TextChanged { resource, character_len, line_count, selection },
            )
            &&& resource == id
            &&& character_len == s.text@.len()
            &&& s.character_len == s.text@.len()
            &&& line_count == s.line_count
            &&& selection == s.selection
        },
{
}

// --- Making and closing ---

/// A text that is made was not there before. It is then read as it was given, is
/// not modified, and can be written.
pub proof fn made_text_is_read_as_given(
    k0: NativeKernel,
    k1: NativeKernel,
    k2: NativeKernel,
    name: String,
    initial: String,
    id: ResourceId,
    answers: NativeAnswers,
    r2: Result<NativeResult, KernelError>,
)
    requires
        k0.wf(),
        native_kernel::executed(
            k0,
            k1,
            NativeOperation::CreateText { name, initial },
            answers,
            Ok(NativeResult::ResourceCreated(id)),
        ),
        k0.grants.holds(Capability::TextRead),
        native_kernel::executed(
            k1,
            k2,
            NativeOperation::Snapshot { resource: id },
            answers,
            r2,
        ),
    ensures
        k0.resource_at(id) is None,
        is_writable(k1, id),
        r2 matches Ok(NativeResult::Snapshot(s)) && s.text@ == initial@ && s.name@ == name@
            && !s.modified && !s.read_only && s.selection is None,
        forall|other: ResourceId| #[trigger]
            k0.resource_at(other) is Some ==> k1.resource_at(other) == k0.resource_at(other),
{
    if k0.free@.len() > 0 {
        assert(k0.slots@[k0.free@[k0.free@.len() - 1] as int].resource is None);
    }
    let op = NativeOperation::CreateText { name, initial };
    let made = Ok::<NativeResult, KernelError>(NativeResult::ResourceCreated(id));
    assert forall|other: ResourceId| #[trigger]
        k0.resource_at(other) is Some implies k1.resource_at(other) == k0.resource_at(other) by {
        native_kernel::other_resources_stay(k0, k1, op, answers, made, other);
    }
}

/// A closed text is gone: whatever is asked of it is refused.
pub proof fn closed_text_is_refused(
    k0: NativeKernel,
    k1: NativeKernel,
    k2: NativeKernel,
    id: ResourceId,
    op: NativeOperation,
    answers: NativeAnswers,
    r1: Result<NativeResult, KernelError>,
    r2: Result<NativeResult, KernelError>,
)
    requires
        k0.wf(),
        k0.resource_at(id) is Some,
        k0.grants.holds(Capability::TextWrite),
        native_kernel::executed(
            k0,
            k1,
            NativeOperation::CloseResource { resource: id },
            answers,
            r1,
        ),
        native_kernel::subject(op) == Some(id),
        native_kernel::executed(k1, k2, op, answers, r2),
    ensures
        r2 matches Err(e) && (e == KernelError::StaleResource(id) || e
            is CapabilityDenied),
        k2 == k1,
{
}

// --- Watching ---

/// After a watch began, hints about the watched file count, and no others about
/// that text; after it ended, none do.
pub proof fn only_watched_files_give_hints(
    k0: NativeKernel,
    k1: NativeKernel,
    k2: NativeKernel,
    id: ResourceId,
    path: String,
    canonical: String,
    started: NativeAnswers,
    ended: NativeAnswers,
    r1: Result<NativeResult, KernelError>,
    r2: Result<NativeResult, KernelError>,
    hint: NativeWatchNotification,
)
    requires
        k0.resource_at(id) is Some,
        k0.grants.holds(Capability::Watch),
        native_kernel::executed(
            k0,
            k1,
            NativeOperation::RegisterWatch { resource: id, path },
            started,
            r1,
        ),
        started.watched == Ok::<String, String>(canonical),
        native_kernel::executed(
            k1,
            k2,
            NativeOperation::UnregisterWatch { resource: id },
            ended,
            r2,
        ),
        ended.unwatched is None,
        hint.resource == id,
    ensures
        r1 is Ok,
        r2 is Ok,
        k1.is_current(hint) <==> hint.path@ == canonical@,
        !k2.is_current(hint),
        text_of(k2, id) == text_of(k0, id),
{
}

/// The hints that count are those given that are about watched files: none is
/// lost, and none comes in.
pub proof fn hints_that_count_are_kept(
    k: NativeKernel,
    hints: Seq<NativeWatchNotification>,
    hint: NativeWatchNotification,
)
    ensures
        k.current_hints(hints).contains(hint) <==> hints.contains(hint) && k.is_current(hint),
        k.current_hints(hints).len() <= hints.len(),
    decreases hints.len(),
{
    if hints.len() > 0 {
        let init = hints.drop_last();
        hints_that_count_are_kept(k, init, hint);
        let now = k.current_hints(hints);
        let before = k.current_hints(init);
        assert(hints =~= init.push(hints.last()));
        if now.contains(hint) {
            let i = choose|i: int| 0 <= i < now.len() && now[i] == hint;
            if i < before.len() {
                assert(before[i] == hint);
            }
            if init.contains(hint) {
                let j = choose|j: int| 0 <= j < init.len() && init[j] == hint;
                assert(hints[j] == hint);
            } else {
                assert(hints[hints.len() - 1] == hint);
            }
        }
        if hints.contains(hint) && k.is_current(hint) {
            let j = choose|j: int| 0 <= j < hints.len() && hints[j] == hint;
            if j < init.len() {
                assert(init[j] == hint);
                let i = choose|i: int| 0 <= i < before.len() && before[i] == hint;
                assert(now[i] == hint);
            } else {
                assert(now[now.len() - 1] == hint);
            }
        }
    }
}

// --- Layouts ---

/// Whether a length is a part of another.
pub open spec fn is_part(part: int, whole: int) -> bool {
    0 <= part <= whole
}

/// Whether an area can be divided among the views as a layout says, so that each
/// gets four columns and four rows at least. A horizontal split puts one part
/// above the other, a vertical one puts them side by side.
pub open spec fn can_be_divided(node: LayoutNode, width: int, height: int) -> bool
    decreases node,
{
    match node {
        LayoutNode::View(_) => width >= 4 && height >= 4,
        LayoutNode::Split { axis, first, second, .. } => match axis {
            SplitAxis::Horizontal => exists|part: int| #[trigger]
                is_part(part, height) && can_be_divided(*first, width, part) && can_be_divided(
                    *second,
                    width,
                    height - part,
                ),
            SplitAxis::Vertical => exists|part: int| #[trigger]
                is_part(part, width) && can_be_divided(*first, part, height) && can_be_divided(
                    *second,
                    width - part,
                    height,
                ),
        },
    }
}

/// Whether all shares of a layout are proper ones.
pub open spec fn has_proper_ratios(node: LayoutNode) -> bool
    decreases node,
{
    match node {
        LayoutNode::View(_) => true,
        LayoutNode::Split { ratio, first, second, .. } => native_kernel::is_proper_ratio(ratio)
            && has_proper_ratios(*first) && has_proper_ratios(*second),
    }
}

/// The least size of a layout is the least that can be divided among its views:
/// an area can be where it has that many columns and rows, and no other can.
pub proof fn least_size_can_be_divided(node: LayoutNode, width: int, height: int)
    requires
        4 * node.views().len() <= u16::MAX,
    ensures
        can_be_divided(node, width, height) <==> node.least_size().0 <= width
            && node.least_size().1 <= height,
        4 <= node.least_size().0 <= 4 * node.views().len(),
        4 <= node.least_size().1 <= 4 * node.views().len(),
    decreases node,
{
    match node {
        LayoutNode::View(_) => {},
        LayoutNode::Split { axis, first, second, .. } => {
            let a = first.least_size();
            let b = second.least_size();
            assert(node.views().len() == first.views().len() + second.views().len());
            least_size_can_be_divided(*first, 0, 0);
            least_size_can_be_divided(*second, 0, 0);
            match axis {
                SplitAxis::Horizontal => {
                    if can_be_divided(node, width, height) {
                        let part = choose|part: int| #[trigger]
                            is_part(part, height) && can_be_divided(*first, width, part)
                                && can_be_divided(
                                *second,
                                width,
                                height - part,
                            );
                        least_size_can_be_divided(*first, width, part);
                        least_size_can_be_divided(*second, width, height - part);
                    }
                    least_size_can_be_divided(*first, width, a.1 as int);
                    least_size_can_be_divided(*second, width, height - a.1);
                    if node.least_size().0 <= width && node.least_size().1 <= height {
                        assert(is_part(a.1 as int, height));
                    }
                },
                SplitAxis::Vertical => {
                    if can_be_divided(node, width, height) {
                        let part = choose|part: int| #[trigger]
                            is_part(part, width) && can_be_divided(*first, part, height)
                                && can_be_divided(
                                *second,
                                width - part,
                                height,
                            );
                        least_size_can_be_divided(*first, part, height);
                        least_size_can_be_divided(*second, width - part, height);
                    }
                    least_size_can_be_divided(*first, a.0 as int, height);
                    least_size_can_be_divided(*second, width - a.0, height);
                    if node.least_size().0 <= width && node.least_size().1 <= height {
                        assert(is_part(a.0 as int, width));
                    }
                },
            }
        },
    }
}

proof fn distinct_views_are_sound(node: LayoutNode, before: Seq<ViewId>)
    requires
        has_proper_ratios(node),
        (before + node.views()).no_duplicates(),
    ensures
        node.fault(before) is None,
    decreases node,
{
    match node {
        LayoutNode::View(v) => {
            let all = before + node.views();
            assert(all[before.len() as int] == v);
            if before.contains(v) {
                let k = choose|k: int| 0 <= k < before.len() && before[k] == v;
                assert(all[k] == v);
            }
        },
        LayoutNode::Split { first, second, .. } => {
            let all = before + node.views();
            let upto = before + first.views();
            assert(all =~= upto + second.views());
            assert(upto.no_duplicates()) by {
                assert forall|i: int, j: int|
                    0 <= i < upto.len() && 0 <= j < upto.len() && i != j implies upto[i]
                    != upto[j] by {
                    assert(all[i] == upto[i] && all[j] == upto[j]);
                }
            }
            distinct_views_are_sound(*first, before);
            distinct_views_are_sound(*second, upto);
        },
    }
}

proof fn sound_node_has_proper_ratios(node: LayoutNode, before: Seq<ViewId>)
    requires
        node.fault(before) is None,
    ensures
        has_proper_ratios(node),
    decreases node,
{
    match node {
        LayoutNode::View(_) => {},
        LayoutNode::Split { first, second, .. } => {
            sound_node_has_proper_ratios(*first, before);
            sound_node_has_proper_ratios(*second, before + first.views());
        },
    }
}

/// A layout is found sound exactly where it can be shown: its frame can be
/// divided among its views, which are sixty-four at most, each is there once, the
/// active one is among them, and all shares are proper.
pub proof fn sound_layouts_are_those_that_can_be_shown(layout: LogicalLayout)
    ensures
        layout.fault() is None <==> {
            &&& layout.root.views().len() <= 64
            &&& layout.root.views().no_duplicates()
            &&& layout.root.views().contains(layout.active)
            &&& has_proper_ratios(layout.root)
            &&& can_be_divided(layout.root, layout.columns as int, layout.rows as int)
        },
{
    let none = Seq::<ViewId>::empty();
    assert(none + layout.root.views() =~= layout.root.views());
    if layout.root.views().len() <= 64 {
        least_size_can_be_divided(layout.root, layout.columns as int, layout.rows as int);
    }
    if layout.fault() is None {
        native_kernel::sound_layout_shows_each_view_once(layout);
        sound_node_has_proper_ratios(layout.root, none);
    }
    if has_proper_ratios(layout.root) && layout.root.views().no_duplicates() {
        distinct_views_are_sound(layout.root, none);
    }
}

// --- Work outside of the kernel ---

/// Files are read with the right to read files, written with the right to write
/// them, and processes run with the right to run them. The kernel itself leaves
/// just this work to others, and asks for the same right.
pub proof fn outside_work_takes_grants(
    k0: NativeKernel,
    k1: NativeKernel,
    op: NativeOperation,
    answers: NativeAnswers,
    r: Result<NativeResult, KernelError>,
)
    requires
        native_kernel::executed(k0, k1, op, answers, r),
    ensures
        native_io::io_capability(op) == Some(Capability::FileRead) <==> op is ReadFile
            || op is ListDirectory,
        native_io::io_capability(op) == Some(Capability::FileWrite) <==> op is WriteFile,
        native_io::io_capability(op) == Some(Capability::ProcessSpawn) <==> op is SpawnProcess,
        native_io::io_capability(op) is Some ==> k1 == k0 && if k0.grants.holds(
            native_io::io_capability(op)->0,
        ) {
            r == Err::<NativeResult, KernelError>(KernelError::IoRequired)
        } else {
            r == Err::<NativeResult, KernelError>(
                KernelError::CapabilityDenied(native_io::io_capability(op)->0),
            )
        },
        native_io::io_capability(op) is None ==> r != Err::<NativeResult, KernelError>(
            KernelError::IoRequired,
        ),
{
    if native_kernel::is_edit(op) && k0.grants.holds(native_kernel::needed(op)) && k0.resource_at(
        native_kernel::subject(op)->0,
    ) is Some {
        let id = native_kernel::subject(op)->0;
        assert(native_kernel::edited(k0, k1, id, op, r));
    }
}

/// Work that is admitted is what was asked for. It gets a number that no work
/// had before, is not stopped, and leaves the other work as it is.
pub proof fn admitted_work_is_what_was_asked_for(
    before: IoOwner,
    after: IoOwner,
    op: NativeOperation,
    request: IoRequest,
    other: u64,
)
    requires
        before.wf(),
        native_io::prepared(before, after, op, Ok(request)),
    ensures
        request.operation == op,
        !before.closed,
        before.stopped(request.lease),
        !after.stopped(request.lease),
        other != request.lease ==> (after.stopped(other) <==> before.stopped(other)),
        after.active@.len() == before.active@.len() + 1,
        after.active@.len() <= native_io::MAX_IO_REQUESTS,
{
    let lease = request.lease;
    let n = before.active@.len() as int;
    assert(after.active@[n].id == lease);
    if other != lease {
        let mark = native_io::Lease { id: other, cancelled: false };
        if !after.stopped(other) {
            let i = choose|i: int| 0 <= i < n + 1 && #[trigger] after.active@[i] == mark;
            assert(before.active@[i] == mark);
        }
        if !before.stopped(other) {
            let i = choose|i: int| 0 <= i < n && #[trigger] before.active@[i] == mark;
            assert(after.active@[i] == mark);
        }
    }
}

} // verus!
