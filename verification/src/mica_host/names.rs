//! How many names an editor can take up.

use vstd::prelude::*;

use crate::editor::Editor;
use crate::ids::{BufferId, WindowId};
use crate::mica_host::context;
use crate::mica_host::context::{DescribedBuffer, MicaHost, MicaHostError, Trouble};
use crate::mica_host::facts::{BufferRecord, ViewRecord};
use crate::mica_host::layout;
use crate::mica_host::value::Identity;
use crate::window::WindowNode;

verus! {

/// How many splits a tree of windows holds.
pub open spec fn splits(node: WindowNode) -> nat
    decreases node,
{
    match node {
        WindowNode::Leaf { .. } => 0,
        WindowNode::Split { first, second, .. } => 1 + splits(*first) + splits(*second),
    }
}

/// The number of names that suffice for an editor: two for each buffer, one for
/// each window and each split, and one for the active view.
pub open spec fn names_needed(editor: Editor) -> nat {
    2 * editor.buffers.order().len() + editor.windows.order().len() + splits(editor.window_tree)
        + 1
}

fn count_splits(node: &WindowNode) -> (r: usize)
    ensures
        r == if splits(*node) <= usize::MAX {
            splits(*node) as int
        } else {
            usize::MAX as int
        },
    decreases node,
{
    match node {
        WindowNode::Leaf { .. } => 0,
        WindowNode::Split { first, second, .. } => {
            let a = count_splits(first);
            let b = count_splits(second);
            a.saturating_add(b).saturating_add(1)
        },
    }
}

/// The number of names that suffice for an editor, as far as it can be told.
pub fn count_names(editor: &Editor) -> (r: usize)
    ensures
        r == if names_needed(*editor) <= usize::MAX {
            names_needed(*editor) as int
        } else {
            usize::MAX as int
        },
{
    let buffers = editor.buffers.keys().len();
    let windows = editor.windows.keys().len();
    let nodes = count_splits(&editor.window_tree);
    buffers.saturating_add(buffers).saturating_add(windows).saturating_add(nodes).saturating_add(1)
}

proof fn buffers_take_two(
    editor: Editor,
    ids: Seq<BufferId>,
    live_only: bool,
    records: Seq<BufferRecord>,
    described: Seq<DescribedBuffer>,
    supply: Seq<Identity>,
    used: int,
)
    requires
        used + 2 * ids.len() <= supply.len(),
    ensures
        ({
            let b = context::buffers_added(
                editor,
                ids,
                live_only,
                records,
                described,
                supply,
                used,
            );
            &&& b.used <= used + 2 * ids.len()
            &&& b.trouble != Some(Trouble::NoIdentity)
        }),
    decreases ids.len(),
{
    if ids.len() > 0 {
        buffers_take_two(editor, ids.drop_last(), live_only, records, described, supply, used);
    }
}

proof fn views_take_one(
    editor: Editor,
    ids: Seq<WindowId>,
    live_only: bool,
    records: Seq<ViewRecord>,
    buffers: Seq<BufferRecord>,
    supply: Seq<Identity>,
    used: int,
)
    requires
        used + ids.len() <= supply.len(),
    ensures
        ({
            let v = context::views_added(editor, ids, live_only, records, buffers, supply, used);
            &&& v.used <= used + ids.len()
            &&& v.trouble != Some(Trouble::NoIdentity)
        }),
    decreases ids.len(),
{
    if ids.len() > 0 {
        views_take_one(editor, ids.drop_last(), live_only, records, buffers, supply, used);
    }
}

proof fn nodes_take_one(
    paths: Seq<Seq<usize>>,
    known: Seq<layout::NodeView>,
    supply: Seq<Identity>,
    used: int,
)
    requires
        used + paths.len() <= supply.len(),
    ensures
        ({
            let n = layout::named_nodes(paths, known, supply, used);
            &&& n.used <= used + paths.len()
            &&& n.complete
        }),
    decreases paths.len(),
{
    if paths.len() > 0 {
        nodes_take_one(paths.drop_last(), known, supply, used);
    }
}

proof fn no_more_paths_than_splits(node: WindowNode, path: Seq<usize>, views: Seq<ViewRecord>)
    ensures
        layout::paths_reached(node, path, views).len() <= splits(node),
    decreases node,
{
    match node {
        WindowNode::Leaf { .. } => {},
        WindowNode::Split { first, second, .. } => {
            no_more_paths_than_splits(*first, path.push(0), views);
            no_more_paths_than_splits(*second, path.push(1), views);
        },
    }
}

/// Where there are as many names as an editor needs, opening it never fails for
/// want of one.
pub proof fn opening_has_names_enough(
    editor: Editor,
    names: context::HostNames,
    described: Seq<DescribedBuffer>,
    supply: Seq<Identity>,
    used: int,
    after_used: int,
    r: Result<MicaHost, MicaHostError>,
)
    requires
        used + names_needed(editor) <= supply.len(),
        MicaHost::opened(editor, names, described, supply, used, after_used, r),
    ensures
        r matches Err(e) ==> e is MissingIdentity,
{
    let no_buffers = Seq::<BufferRecord>::empty();
    let no_views = Seq::<ViewRecord>::empty();
    let buffers = editor.buffers.order();
    let windows = editor.windows.order();
    buffers_take_two(editor, buffers, false, no_buffers, described, supply, used);
    let b = context::buffers_added(editor, buffers, false, no_buffers, described, supply, used);
    views_take_one(editor, windows, false, no_views, b.records, supply, b.used);
    let v = context::views_added(editor, windows, false, no_views, b.records, supply, b.used);
    no_more_paths_than_splits(editor.window_tree, Seq::<usize>::empty(), v.records);
    let paths = layout::paths_reached(editor.window_tree, Seq::<usize>::empty(), v.records);
    nodes_take_one(paths, Seq::<layout::NodeView>::empty(), supply, v.used);
}

/// Where there are as many names as an editor needs, bringing a host in step
/// with it never fails for want of one.
pub proof fn synchronizing_has_names_enough(
    before: MicaHost,
    after: MicaHost,
    editor: Editor,
    described: Seq<DescribedBuffer>,
    supply: Seq<Identity>,
    used: int,
    after_used: int,
    r: Result<(), MicaHostError>,
)
    requires
        used + names_needed(editor) <= supply.len(),
        before.synchronized(&after, editor, described, supply, used, after_used, r),
    ensures
        r matches Err(e) ==> e is MissingIdentity,
{
    let kept = context::buffers_kept(editor, before.buffers@);
    let seen = context::views_kept(editor, before.views@);
    let buffers = editor.buffers.order();
    let windows = editor.windows.order();
    buffers_take_two(editor, buffers, true, kept, described, supply, used);
    let b = context::buffers_added(editor, buffers, true, kept, described, supply, used);
    views_take_one(editor, windows, true, seen, b.records, supply, b.used);
    let v = context::views_added(editor, windows, true, seen, b.records, supply, b.used);
    let known = layout::node_views(before.layout_nodes@);
    assert forall|views: Seq<ViewRecord>, spent: int|
        spent <= v.used + 1 implies #[trigger] layout::named_nodes(
        layout::paths_reached(editor.window_tree, Seq::<usize>::empty(), views),
        known,
        supply,
        spent,
    ).complete by {
        no_more_paths_than_splits(editor.window_tree, Seq::<usize>::empty(), views);
        let paths = layout::paths_reached(editor.window_tree, Seq::<usize>::empty(), views);
        nodes_take_one(paths, known, supply, spent);
    }
}

} // verus!
