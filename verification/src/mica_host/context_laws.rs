//! What the policy code knows of the editor, and what it is told.

use vstd::prelude::*;

use crate::editor::Editor;
use crate::ids::{BufferId, WindowId};
use crate::keys::LogicalKey;
use crate::mica_host::context;
use crate::mica_host::context::{DescribedBuffer, MicaHost, MicaHostError};
use crate::mica_host::facts;
use crate::mica_host::facts::{BufferRecord, FactValueView, FactView, LayoutFact, ViewRecord};
use crate::mica_host::key_names;
use crate::mica_host::layout;
use crate::mica_host::layout::NodeView;
use crate::mica_host::value::Identity;
use crate::window::WindowNode;

verus! {

// --- What is known ---

/// Once the host is in step with the editor, it knows just the buffers that are
/// there and are for editing.
pub proof fn live_buffers_are_known(
    before: MicaHost,
    after: MicaHost,
    editor: Editor,
    described: Seq<DescribedBuffer>,
    supply: Seq<Identity>,
    used: int,
    after_used: int,
    buffers: Seq<BufferId>,
    id: BufferId,
)
    requires
        before.synchronized(
            &after,
            editor,
            described,
            supply,
            used,
            after_used,
            Ok::<(), MicaHostError>(()),
        ),
        editor.buffers.listed_by(buffers),
    ensures
        context::buffer_record(after.buffers@, id) is Some <==> editor.buffers@.contains_key(id)
            && !(exists|w: WindowId| #[trigger]
            editor.windows@.contains_key(w) && editor.windows@[w].active_buffer == id
                && editor.windows@[w].window_type is Command),
{
    context::names_of_buffers_stay(
        before,
        after,
        editor,
        described,
        supply,
        used,
        after_used,
        id,
    );
    editor.buffers.order_is(buffers);
    let kept = context::buffers_kept(editor, before.buffers@);
    let b = context::buffers_added(editor, buffers, true, kept, described, supply, used);
    context::added_keeps(editor, buffers, true, kept, described, supply, used, id);
    context::refreshed_keeps(described, b.records, id);
    assert(context::is_live_buffer(editor, id) <==> editor.buffers@.contains_key(id) && !(exists|
        w: WindowId,
    | #[trigger]
        editor.windows@.contains_key(w) && editor.windows@[w].active_buffer == id
            && editor.windows@[w].window_type is Command));
}

/// A new buffer gets the resource under which it was described, and each known
/// one is told of as it is described now.
pub proof fn buffers_are_known_as_described(
    before: MicaHost,
    after: MicaHost,
    editor: Editor,
    described: Seq<DescribedBuffer>,
    supply: Seq<Identity>,
    used: int,
    after_used: int,
    k: int,
    j: int,
)
    requires
        before.synchronized(
            &after,
            editor,
            described,
            supply,
            used,
            after_used,
            Ok::<(), MicaHostError>(()),
        ),
        0 <= k < after.buffers@.len(),
        0 <= j < described.len(),
        described[j].id == after.buffers@[k].id,
        forall|i: int| 0 <= i < j ==> (#[trigger] described[i]).id != described[j].id,
    ensures
        after.buffers@[k].metadata == described[j].metadata,
        after.buffers@[k].source_path == described[j].source_path,
{
    described_first(described, j);
}

proof fn described_first(described: Seq<DescribedBuffer>, j: int)
    requires
        0 <= j < described.len(),
        forall|i: int| 0 <= i < j ==> (#[trigger] described[i]).id != described[j].id,
    ensures
        context::described_as(described, described[j].id) == Some(described[j]),
    decreases j,
{
    if j > 0 {
        assert(described[0].id != described[j].id);
        let rest = described.skip(1);
        assert(rest[j - 1] == described[j]);
        assert forall|i: int| 0 <= i < j - 1 implies (#[trigger] rest[i]).id != rest[j - 1].id by {
            assert(rest[i] == described[i + 1]);
        }
        described_first(rest, j - 1);
    }
}

/// What is known of a view is what the window shows: its buffer, the cursor and
/// the mark.
pub proof fn views_are_known_as_they_are(
    before: MicaHost,
    after: MicaHost,
    editor: Editor,
    described: Seq<DescribedBuffer>,
    supply: Seq<Identity>,
    used: int,
    after_used: int,
    k: int,
)
    requires
        before.synchronized(
            &after,
            editor,
            described,
            supply,
            used,
            after_used,
            Ok::<(), MicaHostError>(()),
        ),
        0 <= k < after.views@.len(),
        editor.windows@.contains_key(after.views@[k].id),
        !(editor.windows@[after.views@[k].id].window_type is Command),
        context::buffer_record(
            after.buffers@,
            editor.windows@[after.views@[k].id].active_buffer,
        ) is Some,
    ensures
        ({
            let v = after.views@[k];
            let w = editor.windows@[v.id];
            &&& v.buffer == w.active_buffer
            &&& v.cursor == w.cursor
            &&& v.mark == editor.buffers@[w.active_buffer].inner.mark
        }),
{
}

proof fn name_stays(a: Seq<ViewRecord>, b: Seq<ViewRecord>, id: WindowId)
    requires
        a.len() == b.len(),
        forall|k: int|
            0 <= k < a.len() ==> (#[trigger] a[k]).id == b[k].id && a[k].logical == b[k].logical,
    ensures
        layout::view_name(a, id) == layout::view_name(b, id),
    decreases a.len(),
{
    if a.len() > 0 {
        let c = a.skip(1);
        let d = b.skip(1);
        assert forall|k: int| 0 <= k < c.len() implies (#[trigger] c[k]).id == d[k].id
            && c[k].logical == d[k].logical by {
            assert(c[k] == a[k + 1] && d[k] == b[k + 1]);
        }
        assert(a[0].id == b[0].id);
        name_stays(c, d, id);
    }
}

proof fn name_behind(a: Seq<ViewRecord>, v: ViewRecord, id: WindowId)
    ensures
        layout::view_name(a, id) is Some ==> layout::view_name(a.push(v), id)
            == layout::view_name(a, id),
        v.id == id ==> layout::view_name(a.push(v), id) is Some,
    decreases a.len(),
{
    if a.len() > 0 {
        name_behind(a.skip(1), v, id);
        assert(a.push(v).skip(1) =~= a.skip(1).push(v));
    }
}

proof fn wanted_views_get_names(
    editor: Editor,
    ids: Seq<WindowId>,
    records: Seq<ViewRecord>,
    buffers: Seq<BufferRecord>,
    supply: Seq<Identity>,
    used: int,
    id: WindowId,
)
    ensures
        ({
            let after = context::views_added(editor, ids, true, records, buffers, supply, used);
            &&& layout::view_name(records, id) is Some ==> layout::view_name(after.records, id)
                == layout::view_name(records, id)
            &&& after.trouble is None && ids.contains(id) && context::is_wanted(
                editor,
                id,
                true,
                buffers,
            ) ==> layout::view_name(after.records, id) is Some
        }),
    decreases ids.len(),
{
    if ids.len() > 0 {
        let init = ids.drop_last();
        wanted_views_get_names(editor, init, records, buffers, supply, used, id);
        let before = context::views_added(editor, init, true, records, buffers, supply, used);
        if before.used < supply.len() {
            name_behind(
                before.records,
                context::view_record(editor, ids.last(), supply[before.used]),
                id,
            );
        }
        if ids.contains(id) {
            let k = choose|k: int| 0 <= k < ids.len() && ids[k] == id;
            if k < init.len() {
                assert(init[k] == id);
            }
        }
    }
}

/// Once the host is in step with the editor, each window for editing whose
/// buffer is known has a name, and one that had a name keeps it.
pub proof fn live_views_are_known(
    before: MicaHost,
    after: MicaHost,
    editor: Editor,
    described: Seq<DescribedBuffer>,
    supply: Seq<Identity>,
    used: int,
    after_used: int,
    windows: Seq<WindowId>,
    id: WindowId,
)
    requires
        before.synchronized(
            &after,
            editor,
            described,
            supply,
            used,
            after_used,
            Ok::<(), MicaHostError>(()),
        ),
        editor.windows.listed_by(windows),
        editor.windows@.contains_key(id),
        !(editor.windows@[id].window_type is Command),
        context::buffer_record(after.buffers@, editor.windows@[id].active_buffer) is Some,
    ensures
        layout::view_name(after.views@, id) is Some,
        layout::view_name(before.views@, id) is Some ==> layout::view_name(after.views@, id)
            == layout::view_name(before.views@, id),
{
    editor.windows.order_is(windows);
    let kept = context::buffers_kept(editor, before.buffers@);
    let seen = context::views_kept(editor, before.views@);
    let b = context::buffers_added(
        editor,
        editor.buffers.order(),
        true,
        kept,
        described,
        supply,
        used,
    );
    let v = context::views_added(editor, windows, true, seen, b.records, supply, b.used);
    let told = context::buffers_refreshed(described, b.records);
    let shown = context::views_refreshed(editor, told, v.records);
    let active = context::active_for_policy(editor)->0;
    let named = layout::view_name(shown, active) is Some;
    let present = if named {
        shown
    } else {
        shown.push(context::view_record(editor, active, supply[v.used]))
    };
    context::refreshed_keeps(described, b.records, editor.windows@[id].active_buffer);
    wanted_views_get_names(editor, windows, seen, b.records, supply, b.used, id);
    kept_views_keep_names(editor, before.views@, id);
    name_stays(v.records, shown, id);
    if !named {
        name_behind(shown, context::view_record(editor, active, supply[v.used]), id);
    }
    name_stays(present, after.views@, id);
}

proof fn kept_views_keep_names(editor: Editor, records: Seq<ViewRecord>, id: WindowId)
    requires
        context::is_live_view(editor, id),
    ensures
        layout::view_name(context::views_kept(editor, records), id) == layout::view_name(
            records,
            id,
        ),
    decreases records.len(),
{
    if records.len() > 0 {
        let init = records.drop_last();
        kept_views_keep_names(editor, init, id);
        assert(records =~= init.push(records.last()));
        name_at_end(init, records.last(), id);
        name_at_end(context::views_kept(editor, init), records.last(), id);
    }
}

proof fn name_at_end(a: Seq<ViewRecord>, v: ViewRecord, id: WindowId)
    ensures
        layout::view_name(a.push(v), id) == match layout::view_name(a, id) {
            Some(name) => Some(name),
            None => if v.id == id {
                Some(v.logical)
            } else {
                None
            },
        },
    decreases a.len(),
{
    if a.len() > 0 {
        name_at_end(a.skip(1), v, id);
        assert(a.push(v).skip(1) =~= a.skip(1).push(v));
    } else {
        reveal_with_fuel(layout::view_name, 2);
        assert(a.push(v)[0] == v);
        assert(a.push(v).skip(1) =~= Seq::<ViewRecord>::empty());
    }
}

/// The active view is the active window, and behind a prompt the one that was
/// active before it.
pub proof fn active_view_is_the_active_window(
    before: MicaHost,
    after: MicaHost,
    editor: Editor,
    described: Seq<DescribedBuffer>,
    supply: Seq<Identity>,
    used: int,
    after_used: int,
)
    requires
        before.synchronized(
            &after,
            editor,
            described,
            supply,
            used,
            after_used,
            Ok::<(), MicaHostError>(()),
        ),
    ensures
        !(editor.windows@[editor.active_window].window_type is Command) ==> after.active_view
            == editor.active_window,
        editor.windows@[editor.active_window].window_type is Command ==> Some(after.active_view)
            == editor.previous_active_window,
{
}

// --- How the frame is divided ---

/// Whether facts tell of a node and all that is below it under a name: of a
/// split by what stands first and second in it, and how it divides its space.
pub open spec fn tell_of(
    told: Seq<LayoutFact>,
    node: WindowNode,
    name: Identity,
    views: Seq<ViewRecord>,
) -> bool
    decreases node,
{
    match node {
        WindowNode::Leaf { window_id } => layout::view_name(views, window_id) == Some(name),
        WindowNode::Split { direction, ratio, first, second } => {
            &&& told.contains(LayoutFact::View(name))
            &&& told.contains(LayoutFact::Axis { view: name, direction })
            &&& told.contains(LayoutFact::Ratio { view: name, ratio })
            &&& exists|a: Identity, b: Identity|
                #![trigger told.contains(LayoutFact::First { parent: name, child: a }), told.contains(LayoutFact::Second { parent: name, child: b })]
                {
                    &&& told.contains(LayoutFact::First { parent: name, child: a })
                    &&& told.contains(LayoutFact::Second { parent: name, child: b })
                    &&& tell_of(told, *first, a, views)
                    &&& tell_of(told, *second, b, views)
                }
        },
    }
}

proof fn splits_are_told(
    told: Seq<LayoutFact>,
    node: WindowNode,
    path: Seq<usize>,
    nodes: Seq<NodeView>,
    views: Seq<ViewRecord>,
)
    requires
        layout::all_named(node, views),
        forall|i: int|
            0 <= i < layout::split_facts(node, path, nodes, views).len() ==> told.contains(
                #[trigger] layout::split_facts(node, path, nodes, views)[i],
            ),
    ensures
        tell_of(told, node, layout::name_of(node, path, nodes, views), views),
    decreases node,
{
    match node {
        WindowNode::Leaf { .. } => {},
        WindowNode::Split { direction, ratio, first, second } => {
            let all = layout::split_facts(node, path, nodes, views);
            let name = layout::name_of(node, path, nodes, views);
            let a = layout::name_of(*first, path.push(0), nodes, views);
            let b = layout::name_of(*second, path.push(1), nodes, views);
            let f = layout::split_facts(*first, path.push(0), nodes, views);
            let s = layout::split_facts(*second, path.push(1), nodes, views);
            let n = (1 + f.len() + s.len()) as int;
            assert(all[0] == LayoutFact::View(name));
            assert(all[n] == (LayoutFact::First { parent: name, child: a }));
            assert(all[n + 1] == (LayoutFact::Second { parent: name, child: b }));
            assert(all[n + 2] == (LayoutFact::Axis { view: name, direction }));
            assert(all[n + 3] == (LayoutFact::Ratio { view: name, ratio }));
            assert forall|i: int| 0 <= i < f.len() implies told.contains(#[trigger] f[i]) by {
                assert(all[1 + i] == f[i]);
            }
            assert forall|i: int| 0 <= i < s.len() implies told.contains(#[trigger] s[i]) by {
                assert(all[1 + f.len() + i] == s[i]);
            }
            splits_are_told(told, *first, path.push(0), nodes, views);
            splits_are_told(told, *second, path.push(1), nodes, views);
            assert(told.contains(LayoutFact::First { parent: name, child: a }));
            assert(told.contains(LayoutFact::Second { parent: name, child: b }));
        },
    }
}

/// The facts on the frame tell of the whole tree, from its root on.
pub proof fn frame_facts_tell_of_the_tree(
    frame: Identity,
    root: WindowNode,
    nodes: Seq<NodeView>,
    views: Seq<ViewRecord>,
) -> (name: Identity)
    requires
        layout::all_named(root, views),
    ensures
        layout::frame_facts(frame, root, nodes, views).contains(
            LayoutFact::Root { frame, root: name },
        ),
        tell_of(layout::frame_facts(frame, root, nodes, views), root, name, views),
{
    let none = Seq::<usize>::empty();
    let all = layout::frame_facts(frame, root, nodes, views);
    let splits = layout::split_facts(root, none, nodes, views);
    let name = layout::name_of(root, none, nodes, views);
    assert(all[splits.len() as int] == (LayoutFact::Root { frame, root: name }));
    assert forall|i: int| 0 <= i < splits.len() implies all.contains(#[trigger] splits[i]) by {
        assert(all[i] == splits[i]);
    }
    splits_are_told(all, root, none, nodes, views);
    name
}

proof fn leaves_have_names(node: WindowNode, views: Seq<ViewRecord>)
    requires
        layout::all_named(node, views),
    ensures
        layout::leaf_names(node, views).len() == node.leaves().len(),
        node.leaves().len() > 0,
        forall|i: int|
            0 <= i < node.leaves().len() ==> layout::view_name(views, #[trigger] node.leaves()[i])
                == Some(layout::leaf_names(node, views)[i]),
    decreases node,
{
    match node {
        WindowNode::Leaf { window_id } => {
            assert(node.leaves()[0] == window_id);
        },
        WindowNode::Split { first, second, .. } => {
            leaves_have_names(*first, views);
            leaves_have_names(*second, views);
            let n = first.leaves().len();
            assert forall|i: int| 0 <= i < node.leaves().len() implies layout::view_name(
                views,
                #[trigger] node.leaves()[i],
            ) == Some(layout::leaf_names(node, views)[i]) by {
                if i < n {
                    assert(node.leaves()[i] == first.leaves()[i]);
                } else {
                    assert(node.leaves()[i] == second.leaves()[i - n]);
                }
            }
        },
    }
}

/// The facts lead from each window to the next one of the tree, and from the
/// last to the first.
pub proof fn views_follow_in_a_ring(
    frame: Identity,
    root: WindowNode,
    nodes: Seq<NodeView>,
    views: Seq<ViewRecord>,
    i: int,
    j: int,
)
    requires
        layout::all_named(root, views),
        root.leaves().len() > 1,
        0 <= i < root.leaves().len(),
        j == if i + 1 < root.leaves().len() {
            i + 1
        } else {
            0
        },
    ensures
        layout::view_name(views, root.leaves()[i]) is Some,
        layout::view_name(views, root.leaves()[j]) is Some,
        layout::frame_facts(frame, root, nodes, views).contains(
            LayoutFact::Next {
                current: layout::view_name(views, root.leaves()[i])->0,
                next: layout::view_name(views, root.leaves()[j])->0,
            },
        ),
{
    leaves_have_names(root, views);
    let names = layout::leaf_names(root, views);
    let all = layout::frame_facts(frame, root, nodes, views);
    let splits = layout::split_facts(root, Seq::<usize>::empty(), nodes, views);
    assert(layout::ring(names)[i] == (LayoutFact::Next { current: names[i], next: names[j] }));
    assert(all[splits.len() + 1 + i] == layout::ring(names)[i]);
}

// --- What is told ---

/// Whether facts hold a fact with two values.
pub open spec fn holds2(
    told: Seq<FactView>,
    relation: Seq<char>,
    a: FactValueView,
    b: FactValueView,
) -> bool {
    told.contains(facts::fact2(relation, a, b))
}

proof fn part_is_told(all: Seq<FactView>, front: Seq<FactView>, part: Seq<FactView>, back: Seq<FactView>, f: FactView)
    requires
        all == front + part + back,
        part.contains(f),
    ensures
        all.contains(f),
{
    let k = choose|k: int| 0 <= k < part.len() && part[k] == f;
    assert(all[front.len() + k] == f);
}

proof fn record_is_told(host: MicaHost, records: Seq<BufferRecord>, opening: bool, k: int, f: FactView)
    requires
        0 <= k < records.len(),
        facts::kind_facts(records[k]).contains(f) || facts::state_facts(
            records[k],
            host.names.actor,
        ).contains(f) || facts::file_facts(records[k]).contains(f),
    ensures
        host.buffer_facts(records, opening).contains(f),
    decreases records.len(),
{
    let b = records.last();
    let before = host.buffer_facts(records.drop_last(), opening);
    let all = host.buffer_facts(records, opening);
    let kind = facts::kind_facts(b);
    let file = facts::file_facts(b);
    let state = facts::state_facts(b, host.names.actor);
    let none = Seq::<FactView>::empty();
    if k < records.len() - 1 {
        assert(records.drop_last()[k] == records[k]);
        record_is_told(host, records.drop_last(), opening, k, f);
        if opening {
            assert(all =~= none + before + (kind + file + state));
            part_is_told(all, none, before, kind + file + state, f);
        } else {
            assert(all =~= none + before + (kind + state + file));
            part_is_told(all, none, before, kind + state + file, f);
        }
    } else if opening {
        assert(all =~= before + kind + (file + state));
        assert(all =~= (before + kind) + file + state);
        assert(all =~= (before + kind + file) + state + none);
        if kind.contains(f) {
            part_is_told(all, before, kind, file + state, f);
        } else if file.contains(f) {
            part_is_told(all, before + kind, file, state, f);
        } else {
            part_is_told(all, before + kind + file, state, none, f);
        }
    } else {
        assert(all =~= before + kind + (state + file));
        assert(all =~= (before + kind) + state + file);
        assert(all =~= (before + kind + state) + file + none);
        if kind.contains(f) {
            part_is_told(all, before, kind, state + file, f);
        } else if state.contains(f) {
            part_is_told(all, before + kind, state, file, f);
        } else {
            part_is_told(all, before + kind + state, file, none, f);
        }
    }
}

proof fn buffer_facts_are_told(host: MicaHost, f: FactView, opening: bool)
    requires
        host.buffer_facts(host.buffers@, opening).contains(f),
    ensures
        opening ==> host.opening_facts().contains(f),
        !opening ==> host.context_facts().contains(f),
{
    let s = host.session_facts();
    let src = facts::source_facts(
        host.names.source_repository,
        host.names.source_revision,
        host.source_root@,
    );
    let a = host.active_facts();
    let b = host.buffer_facts(host.buffers@, opening);
    let v = host.view_facts(host.views@);
    let l = facts::layout_views(host.layout_tuples@);
    if opening {
        assert(host.opening_facts() =~= (s + a + src) + b + (v + l));
        part_is_told(host.opening_facts(), s + a + src, b, v + l, f);
    } else {
        assert(host.context_facts() =~= (s + src + a) + b + (v + l));
        part_is_told(host.context_facts(), s + src + a, b, v + l, f);
    }
}

/// Whether facts tell of a buffer as its record has it.
pub open spec fn tell_of_buffer(told: Seq<FactView>, b: BufferRecord, actor: Identity) -> bool {
    let it = FactValueView::Identity(b.logical);
    &&& told.contains(facts::fact1("roe/LogicalBuffer"@, it))
    &&& holds2(told, "roe/BufferName"@, it, FactValueView::Text(b.metadata.name@))
    &&& holds2(told, "roe/BufferKind"@, it, FactValueView::Symbol(b.metadata.kind@))
    &&& b.metadata.text_revision <= i64::MAX ==> holds2(
        told,
        "roe/NativeBufferRevision"@,
        it,
        FactValueView::Int(b.metadata.text_revision as i64),
    )
    &&& b.metadata.last_saved_revision <= i64::MAX ==> holds2(
        told,
        "roe/BufferLastSavedRevision"@,
        it,
        FactValueView::Int(b.metadata.last_saved_revision as i64),
    )
    &&& holds2(told, "roe/BufferModified"@, it, FactValueView::Bool(b.metadata.modified))
    &&& holds2(told, "roe/BufferReadOnly"@, it, FactValueView::Bool(b.metadata.read_only))
    &&& holds2(told, "roe/NativeTextResource"@, it, FactValueView::Identity(b.native))
    &&& holds2(
        told,
        "roe/NativeResourceGeneration"@,
        FactValueView::Identity(b.native),
        FactValueView::Int(b.resource.generation as i64),
    )
    &&& holds2(told, "roe/CanUseBuffer"@, FactValueView::Identity(actor), it)
    &&& b.metadata.visited_file matches Some(path) ==> holds2(
        told,
        "roe/BufferVisitedFile"@,
        it,
        FactValueView::Text(path@),
    )
    &&& b.metadata.visited_file is Some ==> (b.source_path matches Some(path) ==> holds2(
        told,
        "roe/BufferSourcePath"@,
        it,
        FactValueView::Text(path@),
    ))
    &&& b.metadata.file_extension matches Some(e) ==> holds2(
        told,
        "roe/BufferFileExtension"@,
        it,
        FactValueView::Text(e@),
    )
}

proof fn known_fact_is_told(host: MicaHost, k: int, f: FactView)
    requires
        0 <= k < host.buffers@.len(),
        facts::kind_facts(host.buffers@[k]).contains(f) || facts::state_facts(
            host.buffers@[k],
            host.names.actor,
        ).contains(f) || facts::file_facts(host.buffers@[k]).contains(f),
    ensures
        host.context_facts().contains(f),
        host.opening_facts().contains(f),
{
    record_is_told(host, host.buffers@, false, k, f);
    record_is_told(host, host.buffers@, true, k, f);
    buffer_facts_are_told(host, f, false);
    buffer_facts_are_told(host, f, true);
}

/// All that is known of a buffer is told, when a session is opened and later on.
pub proof fn known_buffers_are_told(host: MicaHost, k: int)
    requires
        0 <= k < host.buffers@.len(),
    ensures
        tell_of_buffer(host.context_facts(), host.buffers@[k], host.names.actor),
        tell_of_buffer(host.opening_facts(), host.buffers@[k], host.names.actor),
{
    let b = host.buffers@[k];
    let kind = facts::kind_facts(b);
    let state = facts::state_facts(b, host.names.actor);
    let file = facts::file_facts(b);
    assert forall|i: int| 0 <= i < kind.len() implies host.context_facts().contains(
        #[trigger] kind[i],
    ) && host.opening_facts().contains(kind[i]) by {
        assert(kind.contains(kind[i]));
        known_fact_is_told(host, k, kind[i]);
    }
    assert forall|i: int| 0 <= i < state.len() implies host.context_facts().contains(
        #[trigger] state[i],
    ) && host.opening_facts().contains(state[i]) by {
        assert(state.contains(state[i]));
        known_fact_is_told(host, k, state[i]);
    }
    assert forall|i: int| 0 <= i < file.len() implies host.context_facts().contains(
        #[trigger] file[i],
    ) && host.opening_facts().contains(file[i]) by {
        assert(file.contains(file[i]));
        known_fact_is_told(host, k, file[i]);
    }
    assert(kind[0].values.len() == 1);
    assert(kind[1].values.len() == 2 && kind[2].values.len() == 2);
    assert(state[0].values.len() == 2 && state[1].values.len() == 2 && state[2].values.len() == 2);
    assert(state[3].values.len() == 2 && state[4].values.len() == 2 && state[5].values.len() == 2);
    assert(state[6].values.len() == 2);
    if b.metadata.visited_file is Some {
        assert(file[0].values.len() == 2);
        if b.source_path is Some {
            assert(file[1].values.len() == 2);
        }
    }
    if b.metadata.file_extension is Some {
        assert(file[file.len() - 1].values.len() == 2);
    }
}

proof fn view_is_told(host: MicaHost, records: Seq<ViewRecord>, k: int, f: FactView)
    requires
        0 <= k < records.len(),
        facts::view_facts(
            records[k],
            context::buffer_record(host.buffers@, records[k].buffer)->0.logical,
        ).contains(f),
    ensures
        host.view_facts(records).contains(f),
    decreases records.len(),
{
    let v = records.last();
    let before = host.view_facts(records.drop_last());
    let part = facts::view_facts(
        v,
        context::buffer_record(host.buffers@, v.buffer)->0.logical,
    );
    let none = Seq::<FactView>::empty();
    let all = host.view_facts(records);
    if k < records.len() - 1 {
        assert(records.drop_last()[k] == records[k]);
        view_is_told(host, records.drop_last(), k, f);
        assert(all =~= none + before + part);
        part_is_told(all, none, before, part, f);
    } else {
        assert(all =~= before + part + none);
        part_is_told(all, before, part, none, f);
    }
}

/// Of each view it is told which buffer it shows, where its cursor is and, if
/// there is a mark, where that is and what is selected.
pub proof fn known_views_are_told(host: MicaHost, k: int, b: BufferRecord)
    requires
        0 <= k < host.views@.len(),
        context::buffer_record(host.buffers@, host.views@[k].buffer) == Some(b),
        host.views@[k].cursor <= i64::MAX,
        host.views@[k].mark matches Some(m) ==> m <= i64::MAX,
    ensures
        ({
            let v = host.views@[k];
            let it = FactValueView::Identity(v.logical);
            let told = host.context_facts();
            &&& told.contains(facts::fact1("roe/View"@, it))
            &&& holds2(told, "roe/ViewBuffer"@, it, FactValueView::Identity(b.logical))
            &&& holds2(told, "roe/ViewCursor"@, it, FactValueView::Int(v.cursor as i64))
            &&& v.mark matches Some(m) ==> holds2(
                told,
                "roe/ViewMark"@,
                it,
                FactValueView::Int(m as i64),
            ) && told.contains(
                facts::fact3(
                    "roe/ViewSelection"@,
                    it,
                    FactValueView::Int(m as i64),
                    FactValueView::Int(v.cursor as i64),
                ),
            )
        }),
{
    let v = host.views@[k];
    let part = facts::view_facts(v, b.logical);
    let s = host.session_facts();
    let src = facts::source_facts(
        host.names.source_repository,
        host.names.source_revision,
        host.source_root@,
    );
    let a = host.active_facts();
    let bs = host.buffer_facts(host.buffers@, false);
    let vs = host.view_facts(host.views@);
    let l = facts::layout_views(host.layout_tuples@);
    assert(host.context_facts() =~= (s + src + a + bs) + vs + l);
    assert forall|i: int| 0 <= i < part.len() implies host.context_facts().contains(
        #[trigger] part[i],
    ) by {
        assert(part.contains(part[i]));
        view_is_told(host, host.views@, k, part[i]);
        part_is_told(host.context_facts(), s + src + a + bs, vs, l, part[i]);
    }
    assert(part[0].values.len() == 1 && part[1].values.len() == 2 && part[2].values.len() == 2);
    if v.mark is Some {
        assert(part[3].values.len() == 2 && part[4].values.len() == 3);
    }
}

// --- How keys are spelled ---

proof fn modifiers_end(keys: Seq<LogicalKey>, more: Seq<LogicalKey>, from: int)
    requires
        0 <= from < keys.len(),
        !(keys.last() is Modifier),
    ensures
        key_names::after_modifiers(keys + more, from) == key_names::after_modifiers(keys, from),
        from <= key_names::after_modifiers(keys, from) < keys.len(),
    decreases keys.len() - from,
{
    assert((keys + more)[from] == keys[from]);
    if keys[from] is Modifier {
        assert(from < keys.len() - 1);
        modifiers_end(keys, more, from + 1);
    }
}

/// Keys are spelled chord by chord: what comes behind a key that is no modifier
/// is spelled as it would be alone.
pub proof fn keys_are_spelled_chord_by_chord(
    keys: Seq<LogicalKey>,
    more: Seq<LogicalKey>,
    from: int,
)
    requires
        0 <= from <= keys.len(),
        keys.len() > 0 ==> !(keys.last() is Modifier),
    ensures
        key_names::chords(keys + more, from) == key_names::chords(keys, from)
            + key_names::chords(more, 0),
    decreases keys.len() - from,
{
    let all = keys + more;
    if from < keys.len() {
        modifiers_end(keys, more, from);
        let end = key_names::after_modifiers(keys, from);
        keys_are_spelled_chord_by_chord(keys, more, end + 1);
        assert(all.subrange(from, end) =~= keys.subrange(from, end));
        assert(all[end] == keys[end]);
        assert(key_names::chords(all, from) =~= key_names::chords(keys, from)
            + key_names::chords(more, 0));
    } else {
        tail_is_spelled_alone(keys, more, 0);
        assert(key_names::chords(keys, from) =~= seq![]);
        assert(key_names::chords(all, from) =~= key_names::chords(keys, from)
            + key_names::chords(more, 0));
    }
}

proof fn tail_end(keys: Seq<LogicalKey>, more: Seq<LogicalKey>, from: int)
    requires
        0 <= from <= more.len(),
    ensures
        key_names::after_modifiers(keys + more, keys.len() + from) == keys.len()
            + key_names::after_modifiers(more, from),
        from <= key_names::after_modifiers(more, from) <= more.len(),
    decreases more.len() - from,
{
    if from < more.len() {
        assert((keys + more)[keys.len() + from] == more[from]);
        if more[from] is Modifier {
            tail_end(keys, more, from + 1);
        }
    }
}

proof fn tail_is_spelled_alone(keys: Seq<LogicalKey>, more: Seq<LogicalKey>, from: int)
    requires
        0 <= from <= more.len(),
    ensures
        key_names::chords(keys + more, keys.len() + from) == key_names::chords(more, from),
    decreases more.len() - from,
{
    let all = keys + more;
    let n = keys.len() as int;
    tail_end(keys, more, from);
    let end = key_names::after_modifiers(more, from);
    if from < more.len() {
        assert(all.subrange(n + from, n + end) =~= more.subrange(from, end));
        if end < more.len() {
            assert(all[n + end] == more[end]);
            tail_is_spelled_alone(keys, more, end + 1);
        }
    }
}

} // verus!
