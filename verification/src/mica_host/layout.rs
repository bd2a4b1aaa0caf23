//! Names for the nodes of the window tree, and what is told of them.

use vstd::prelude::*;

use crate::ids::WindowId;
use crate::mica_host::facts::{LayoutFact, ViewRecord};
use crate::mica_host::value::Identity;
use crate::window::WindowNode;

verus! {

/// Names that have not been given away yet.
#[derive(Debug)]
pub struct IdentitySupply {
    pub identities: Vec<Identity>,
    /// How many of them have been given away.
    pub used: usize,
}

impl IdentitySupply {
    pub open spec fn wf(&self) -> bool {
        self.used <= self.identities@.len()
    }

    pub fn new(identities: Vec<Identity>) -> (r: Self)
        ensures
            r.wf(),
            r.identities == identities,
            r.used == 0,
    {
        IdentitySupply { identities, used: 0 }
    }

    /// Gives the next name away.
    pub fn next(&mut self) -> (r: Option<Identity>)
        requires
            old(self).wf(),
        ensures
            final(self).wf(),
            final(self).identities == old(self).identities,
            if old(self).used < old(self).identities@.len() {
                &&& r == Some(old(self).identities@[old(self).used as int])
                &&& final(self).used == old(self).used + 1
            } else {
                r is None && *final(self) == *old(self)
            },
    {
        if self.used < self.identities.len() {
            let id = self.identities[self.used];
            self.used = self.used + 1;
            Some(id)
        } else {
            None
        }
    }
}

/// The name of a split, which is found by the way to it: 0 leads to the first
/// part and 1 to the second.
#[derive(Debug)]
pub struct NodeRecord {
    pub path: Vec<usize>,
    pub logical: Identity,
}

/// The name of a split as a mathematical value.
pub struct NodeView {
    pub path: Seq<usize>,
    pub logical: Identity,
}

pub open spec fn node_views(nodes: Seq<NodeRecord>) -> Seq<NodeView> {
    nodes.map_values(|n: NodeRecord| NodeView { path: n.path@, logical: n.logical })
}

/// The name of the split at the end of a way.
pub open spec fn node_name(nodes: Seq<NodeView>, path: Seq<usize>) -> Option<Identity>
    decreases nodes.len(),
{
    if nodes.len() == 0 {
        None
    } else if nodes[0].path == path {
        Some(nodes[0].logical)
    } else {
        node_name(nodes.skip(1), path)
    }
}

/// The name of a view.
pub open spec fn view_name(views: Seq<ViewRecord>, id: WindowId) -> Option<Identity>
    decreases views.len(),
{
    if views.len() == 0 {
        None
    } else if views[0].id == id {
        Some(views[0].logical)
    } else {
        view_name(views.skip(1), id)
    }
}

/// The name of a view.
pub fn find_view_name(views: &Vec<ViewRecord>, id: WindowId) -> (r: Option<Identity>)
    ensures
        r == view_name(views@, id),
{
    let mut i: usize = 0;
    assert(views@.skip(0) =~= views@);
    while i < views.len()
        invariant
            i <= views@.len(),
            view_name(views@, id) == view_name(views@.skip(i as int), id),
        decreases views.len() - i,
    {
        assert(views@.skip(i as int)[0] == views@[i as int]);
        assert(views@.skip(i as int).skip(1) =~= views@.skip(i + 1));
        if views[i].id == id {
            return Some(views[i].logical);
        }
        i = i + 1;
    }
    None
}

fn same_path(a: &Vec<usize>, b: &Vec<usize>) -> (r: bool)
    ensures
        r == (a@ == b@),
{
    if a.len() != b.len() {
        return false;
    }
    let mut i: usize = 0;
    while i < a.len()
        invariant
            i <= a@.len() == b@.len(),
            forall|k: int| 0 <= k < i ==> a@[k] == b@[k],
        decreases a.len() - i,
    {
        if a[i] != b[i] {
            return false;
        }
        i = i + 1;
    }
    assert(a@ =~= b@);
    true
}

/// The name of the split at the end of a way.
pub fn find_node_name(nodes: &Vec<NodeRecord>, path: &Vec<usize>) -> (r: Option<Identity>)
    ensures
        r == node_name(node_views(nodes@), path@),
{
    let ghost all = node_views(nodes@);
    let mut i: usize = 0;
    assert(all.skip(0) =~= all);
    while i < nodes.len()
        invariant
            i <= nodes@.len(),
            all == node_views(nodes@),
            node_name(all, path@) == node_name(all.skip(i as int), path@),
        decreases nodes.len() - i,
    {
        assert(all.skip(i as int)[0] == all[i as int]);
        assert(all.skip(i as int).skip(1) =~= all.skip(i + 1));
        if same_path(&nodes[i].path, path) {
            return Some(nodes[i].logical);
        }
        i = i + 1;
    }
    None
}

/// The ways to the splits below a node, each in front of those below it.
pub open spec fn split_paths(node: WindowNode, path: Seq<usize>) -> Seq<Seq<usize>>
    decreases node,
{
    match node {
        WindowNode::Leaf { .. } => seq![],
        WindowNode::Split { first, second, .. } => seq![path] + split_paths(*first, path.push(0))
            + split_paths(*second, path.push(1)),
    }
}

pub open spec fn path_views(paths: Seq<Vec<usize>>) -> Seq<Seq<usize>> {
    paths.map_values(|p: Vec<usize>| p@)
}

pub(crate) fn copy_path(path: &Vec<usize>) -> (r: Vec<usize>)
    ensures
        r@ == path@,
{
    let mut r: Vec<usize> = Vec::new();
    let mut i: usize = 0;
    while i < path.len()
        invariant
            i <= path@.len(),
            r@ == path@.take(i as int),
        decreases path.len() - i,
    {
        r.push(path[i]);
        i = i + 1;
        assert(r@ =~= path@.take(i as int));
    }
    assert(path@.take(i as int) =~= path@);
    r
}

/// The ways to the splits below a node that are come to before a window without
/// a name stops the way down.
pub open spec fn paths_reached(node: WindowNode, path: Seq<usize>, views: Seq<ViewRecord>) -> Seq<
    Seq<usize>,
>
    decreases node,
{
    match node {
        WindowNode::Leaf { .. } => seq![],
        WindowNode::Split { first, second, .. } => {
            let above = seq![path] + paths_reached(*first, path.push(0), views);
            if all_named(*first, views) {
                above + paths_reached(*second, path.push(1), views)
            } else {
                above
            }
        },
    }
}

/// Where all windows have names, all splits are come to.
pub proof fn all_paths_reached(node: WindowNode, path: Seq<usize>, views: Seq<ViewRecord>)
    requires
        all_named(node, views),
    ensures
        paths_reached(node, path, views) == split_paths(node, path),
    decreases node,
{
    match node {
        WindowNode::Leaf { .. } => {},
        WindowNode::Split { first, second, .. } => {
            all_paths_reached(*first, path.push(0), views);
            all_paths_reached(*second, path.push(1), views);
        },
    }
}

/// Lists the ways to the splits, and says whether all windows have names.
fn list_paths(
    node: &WindowNode,
    path: &Vec<usize>,
    views: &Vec<ViewRecord>,
    paths: &mut Vec<Vec<usize>>,
) -> (r: bool)
    ensures
        r == all_named(*node, views@),
        path_views(final(paths)@) == path_views(old(paths)@) + paths_reached(
            *node,
            path@,
            views@,
        ),
    decreases node,
{
    let ghost before = path_views(paths@);
    match node {
        WindowNode::Leaf { window_id } => {
            assert(before + Seq::<Seq<usize>>::empty() =~= before);
            find_view_name(views, *window_id).is_some()
        },
        WindowNode::Split { direction: _, ratio: _, first, second } => {
            let here = copy_path(path);
            paths.push(here);
            assert(path_views(paths@) =~= before.push(path@));
            let mut down = copy_path(path);
            down.push(0);
            let named = list_paths(first, &down, views, paths);
            if !named {
                assert(path_views(paths@) =~= before + paths_reached(*node, path@, views@));
                return false;
            }
            let mut down = copy_path(path);
            down.push(1);
            let named = list_paths(second, &down, views, paths);
            assert(path_views(paths@) =~= before + paths_reached(*node, path@, views@));
            named
        },
    }
}

/// Names for splits: those that had one keep it, and the others get new ones.
pub struct NamedNodes {
    pub nodes: Seq<NodeView>,
    pub used: int,
    /// Whether there were enough names.
    pub complete: bool,
}

pub open spec fn named_nodes(
    paths: Seq<Seq<usize>>,
    known: Seq<NodeView>,
    supply: Seq<Identity>,
    used: int,
) -> NamedNodes
    decreases paths.len(),
{
    if paths.len() == 0 {
        NamedNodes { nodes: seq![], used, complete: true }
    } else {
        let before = named_nodes(paths.drop_last(), known, supply, used);
        let path = paths.last();
        if !before.complete {
            before
        } else {
            match node_name(known, path) {
                Some(logical) => NamedNodes {
                    nodes: before.nodes.push(NodeView { path, logical }),
                    ..before
                },
                None => if before.used < supply.len() {
                    NamedNodes {
                        nodes: before.nodes.push(
                            NodeView { path, logical: supply[before.used] },
                        ),
                        used: before.used + 1,
                        complete: true,
                    }
                } else {
                    NamedNodes { complete: false, ..before }
                },
            }
        }
    }
}

/// Known names with those that were given anew.
pub open spec fn with_new_names(known: Seq<NodeView>, named: Seq<NodeView>) -> Seq<NodeView>
    decreases named.len(),
{
    if named.len() == 0 {
        known
    } else {
        let before = with_new_names(known, named.drop_last());
        if node_name(known, named.last().path) is Some {
            before
        } else {
            before.push(named.last())
        }
    }
}

/// Gives names to splits, as long as there are enough. Says whether there were.
/// `fresh` gets those that are new.
fn name_nodes(
    paths: &Vec<Vec<usize>>,
    known: &Vec<NodeRecord>,
    fresh: &mut Vec<NodeRecord>,
    supply: &mut IdentitySupply,
) -> (r: (Vec<NodeRecord>, bool))
    requires
        old(supply).wf(),
        old(fresh)@.len() == 0,
    ensures
        final(supply).wf(),
        final(supply).identities == old(supply).identities,
        ({
            let goal = named_nodes(
                path_views(paths@),
                node_views(known@),
                old(supply).identities@,
                old(supply).used as int,
            );
            &&& final(supply).used == goal.used
            &&& node_views(r.0@) == goal.nodes
            &&& r.1 == goal.complete
            &&& node_views(known@) + node_views(final(fresh)@) == with_new_names(
                node_views(known@),
                goal.nodes,
            )
        }),
{
    let ghost all = path_views(paths@);
    let ghost old_names = node_views(known@);
    let ghost ids = supply.identities@;
    let ghost from = supply.used as int;
    let mut nodes: Vec<NodeRecord> = Vec::new();
    let mut i: usize = 0;
    assert(all.take(0) =~= seq![]);
    assert(node_views(nodes@) =~= seq![]);
    assert(old_names + node_views(fresh@) =~= old_names);
    while i < paths.len()
        invariant
            i <= paths@.len(),
            all == path_views(paths@),
            old_names == node_views(known@),
            ids == supply.identities@,
            supply.identities == old(supply).identities,
            from == old(supply).used,
            supply.wf(),
            ({
                let so_far = named_nodes(all.take(i as int), old_names, ids, from);
                &&& so_far.complete
                &&& so_far.used == supply.used
                &&& so_far.nodes == node_views(nodes@)
            }),
            old_names + node_views(fresh@) == with_new_names(old_names, node_views(nodes@)),
        decreases paths.len() - i,
    {
        let ghost before = node_views(nodes@);
        let ghost fresh_before = node_views(fresh@);
        assert(all.take(i + 1).drop_last() =~= all.take(i as int));
        assert(all.take(i + 1).last() == paths@[i as int]@);
        let ghost here = paths@[i as int]@;
        let logical = match find_node_name(known, &paths[i]) {
            Some(logical) => logical,
            None => match supply.next() {
                Some(logical) => {
                    fresh.push(NodeRecord { path: copy_path(&paths[i]), logical });
                    assert(node_views(fresh@) =~= fresh_before.push(
                        NodeView { path: here, logical },
                    ));
                    logical
                },
                None => {
                    proof {
                        incomplete_stays(all, i + 1, old_names, ids, from);
                    }
                    return (nodes, false);
                },
            },
        };
        nodes.push(NodeRecord { path: copy_path(&paths[i]), logical });
        proof {
            let now = node_views(nodes@);
            assert(now =~= before.push(NodeView { path: here, logical }));
            assert(now.drop_last() =~= before);
            assert(old_names + node_views(fresh@) =~= with_new_names(old_names, now));
        }
        i = i + 1;
    }
    assert(all.take(i as int) =~= all);
    (nodes, true)
}

proof fn incomplete_stays(
    paths: Seq<Seq<usize>>,
    k: int,
    known: Seq<NodeView>,
    supply: Seq<Identity>,
    used: int,
)
    requires
        0 <= k <= paths.len(),
        !named_nodes(paths.take(k), known, supply, used).complete,
    ensures
        named_nodes(paths, known, supply, used) == named_nodes(paths.take(k), known, supply, used),
    decreases paths.len(),
{
    if k < paths.len() {
        assert(paths.drop_last().take(k) =~= paths.take(k));
        incomplete_stays(paths.drop_last(), k, known, supply, used);
    } else {
        assert(paths.take(k) =~= paths);
    }
}

/// Whether all windows of the tree have names.
pub open spec fn all_named(node: WindowNode, views: Seq<ViewRecord>) -> bool
    decreases node,
{
    match node {
        WindowNode::Leaf { window_id } => view_name(views, window_id) is Some,
        WindowNode::Split { first, second, .. } => all_named(*first, views) && all_named(
            *second,
            views,
        ),
    }
}

/// The name of a node.
pub open spec fn name_of(
    node: WindowNode,
    path: Seq<usize>,
    nodes: Seq<NodeView>,
    views: Seq<ViewRecord>,
) -> Identity {
    match node {
        WindowNode::Leaf { window_id } => view_name(views, window_id)->0,
        WindowNode::Split { .. } => node_name(nodes, path)->0,
    }
}

/// The names of the windows of the tree, in order.
pub open spec fn leaf_names(node: WindowNode, views: Seq<ViewRecord>) -> Seq<Identity>
    decreases node,
{
    match node {
        WindowNode::Leaf { window_id } => seq![view_name(views, window_id)->0],
        WindowNode::Split { first, second, .. } => leaf_names(*first, views) + leaf_names(
            *second,
            views,
        ),
    }
}

/// What is told of the splits below a node.
pub open spec fn split_facts(
    node: WindowNode,
    path: Seq<usize>,
    nodes: Seq<NodeView>,
    views: Seq<ViewRecord>,
) -> Seq<LayoutFact>
    decreases node,
{
    match node {
        WindowNode::Leaf { .. } => seq![],
        WindowNode::Split { direction, ratio, first, second } => {
            let view = name_of(node, path, nodes, views);
            let a = name_of(*first, path.push(0), nodes, views);
            let b = name_of(*second, path.push(1), nodes, views);
            seq![LayoutFact::View(view)] + split_facts(*first, path.push(0), nodes, views)
                + split_facts(*second, path.push(1), nodes, views) + seq![
                LayoutFact::First { parent: view, child: a },
                LayoutFact::Second { parent: view, child: b },
                LayoutFact::Axis { view, direction },
                LayoutFact::Ratio { view, ratio },
            ]
        },
    }
}

/// Which view follows which: the next one in order, and behind the last one the
/// first. A single view has none that follows it.
pub open spec fn ring(leaves: Seq<Identity>) -> Seq<LayoutFact> {
    if leaves.len() > 1 {
        Seq::new(
            leaves.len(),
            |i: int|
                LayoutFact::Next {
                    current: leaves[i],
                    next: if i + 1 < leaves.len() {
                        leaves[i + 1]
                    } else {
                        leaves[0]
                    },
                },
        )
    } else {
        seq![]
    }
}

/// What is told of how the frame is divided.
pub open spec fn frame_facts(
    frame: Identity,
    root: WindowNode,
    nodes: Seq<NodeView>,
    views: Seq<ViewRecord>,
) -> Seq<LayoutFact> {
    split_facts(root, Seq::<usize>::empty(), nodes, views) + seq![
        LayoutFact::Root {
            frame,
            root: name_of(root, Seq::<usize>::empty(), nodes, views),
        },
    ] + ring(leaf_names(root, views))
}

/// Whether all splits below a node have names.
pub open spec fn splits_named(node: WindowNode, path: Seq<usize>, nodes: Seq<NodeView>) -> bool
    decreases node,
{
    match node {
        WindowNode::Leaf { .. } => true,
        WindowNode::Split { first, second, .. } => node_name(nodes, path) is Some && splits_named(
            *first,
            path.push(0),
            nodes,
        ) && splits_named(*second, path.push(1), nodes),
    }
}

proof fn listed_node_is_named(nodes: Seq<NodeView>, path: Seq<usize>, i: int)
    requires
        0 <= i < nodes.len(),
        nodes[i].path == path,
    ensures
        node_name(nodes, path) is Some,
    decreases nodes.len(),
{
    if nodes[0].path != path {
        assert(nodes.skip(1)[i - 1] == nodes[i]);
        listed_node_is_named(nodes.skip(1), path, i - 1);
    }
}

proof fn named_nodes_follow_paths(
    paths: Seq<Seq<usize>>,
    known: Seq<NodeView>,
    supply: Seq<Identity>,
    used: int,
)
    requires
        named_nodes(paths, known, supply, used).complete,
    ensures
        named_nodes(paths, known, supply, used).nodes.len() == paths.len(),
        forall|i: int|
            0 <= i < paths.len() ==> (#[trigger] named_nodes(
                paths,
                known,
                supply,
                used,
            ).nodes[i]).path == paths[i],
    decreases paths.len(),
{
    if paths.len() > 0 {
        named_nodes_follow_paths(paths.drop_last(), known, supply, used);
        let before = named_nodes(paths.drop_last(), known, supply, used);
        let all = named_nodes(paths, known, supply, used);
        assert forall|i: int| 0 <= i < paths.len() implies (#[trigger] all.nodes[i]).path
            == paths[i] by {
            if i < paths.len() - 1 {
                assert(before.nodes[i].path == paths.drop_last()[i]);
            }
        }
    }
}

proof fn listed_splits_are_named(
    node: WindowNode,
    path: Seq<usize>,
    nodes: Seq<NodeView>,
    all: Seq<Seq<usize>>,
    from: int,
)
    requires
        nodes.len() == all.len(),
        forall|i: int| 0 <= i < all.len() ==> (#[trigger] nodes[i]).path == all[i],
        0 <= from <= from + split_paths(node, path).len() <= all.len(),
        forall|i: int|
            0 <= i < split_paths(node, path).len() ==> all[from + i] == #[trigger] split_paths(
                node,
                path,
            )[i],
    ensures
        splits_named(node, path, nodes),
    decreases node,
{
    match node {
        WindowNode::Leaf { .. } => {},
        WindowNode::Split { first, second, .. } => {
            let whole = split_paths(node, path);
            let a = split_paths(*first, path.push(0));
            let b = split_paths(*second, path.push(1));
            assert(whole[0] == path);
            assert(nodes[from].path == all[from]);
            listed_node_is_named(nodes, path, from);
            assert forall|i: int| 0 <= i < a.len() implies all[from + 1 + i] == #[trigger] a[i] by {
                assert(whole[1 + i] == a[i]);
            }
            assert forall|i: int| 0 <= i < b.len() implies all[from + 1 + a.len() + i]
                == #[trigger] b[i] by {
                assert(whole[1 + a.len() + i] == b[i]);
            }
            listed_splits_are_named(*first, path.push(0), nodes, all, from + 1);
            listed_splits_are_named(*second, path.push(1), nodes, all, from + 1 + a.len());
        },
    }
}

fn tell_splits(
    node: &WindowNode,
    path: &Vec<usize>,
    nodes: &Vec<NodeRecord>,
    views: &Vec<ViewRecord>,
    facts: &mut Vec<LayoutFact>,
    leaves: &mut Vec<Identity>,
) -> (r: Identity)
    requires
        all_named(*node, views@),
        splits_named(*node, path@, node_views(nodes@)),
    ensures
        r == name_of(*node, path@, node_views(nodes@), views@),
        final(facts)@ == old(facts)@ + split_facts(*node, path@, node_views(nodes@), views@),
        final(leaves)@ == old(leaves)@ + leaf_names(*node, views@),
    decreases node,
{
    match node {
        WindowNode::Leaf { window_id } => {
            match find_view_name(views, *window_id) {
                Some(view) => {
                    leaves.push(view);
                    assert(leaves@ =~= old(leaves)@ + leaf_names(*node, views@));
                    assert(facts@ =~= old(facts)@ + Seq::<LayoutFact>::empty());
                    view
                },
                None => Identity(0),
            }
        },
        WindowNode::Split { direction, ratio, first, second } => {
            match find_node_name(nodes, path) {
                Some(view) => {
                    facts.push(LayoutFact::View(view));
                    let mut down = copy_path(path);
                    down.push(0);
                    let a = tell_splits(first, &down, nodes, views, facts, leaves);
                    let mut down = copy_path(path);
                    down.push(1);
                    let b = tell_splits(second, &down, nodes, views, facts, leaves);
                    facts.push(LayoutFact::First { parent: view, child: a });
                    facts.push(LayoutFact::Second { parent: view, child: b });
                    facts.push(LayoutFact::Axis { view, direction: *direction });
                    facts.push(LayoutFact::Ratio { view, ratio: *ratio });
                    assert(facts@ =~= old(facts)@ + split_facts(
                        *node,
                        path@,
                        node_views(nodes@),
                        views@,
                    ));
                    assert(leaves@ =~= old(leaves)@ + leaf_names(*node, views@));
                    view
                },
                None => Identity(0),
            }
        },
    }
}

/// Why the layout could not be told.
#[derive(Debug, Clone, Copy, PartialEq, Eq, Structural)]
pub enum LayoutTrouble {
    /// A window has no name.
    Nameless,
    /// There are not enough names.
    NoIdentity,
}

/// Gives names to the nodes of the window tree, and tells how the frame is
/// divided. Splits that stay where they are keep their names, and those that
/// are gone lose them. Trouble stops this where it comes up: the names given
/// until then stay.
pub fn build_layout_tuples(
    frame: Identity,
    root: &WindowNode,
    views: &Vec<ViewRecord>,
    nodes: &mut Vec<NodeRecord>,
    supply: &mut IdentitySupply,
) -> (r: Result<Vec<LayoutFact>, LayoutTrouble>)
    requires
        old(supply).wf(),
    ensures
        final(supply).wf(),
        final(supply).identities == old(supply).identities,
        ({
            let goal = named_nodes(
                paths_reached(*root, Seq::<usize>::empty(), views@),
                node_views(old(nodes)@),
                old(supply).identities@,
                old(supply).used as int,
            );
            &&& final(supply).used == goal.used
            &&& if !goal.complete {
                &&& r == Err::<Vec<LayoutFact>, LayoutTrouble>(LayoutTrouble::NoIdentity)
                &&& node_views(final(nodes)@) == with_new_names(
                    node_views(old(nodes)@),
                    goal.nodes,
                )
            } else if !all_named(*root, views@) {
                &&& r == Err::<Vec<LayoutFact>, LayoutTrouble>(LayoutTrouble::Nameless)
                &&& node_views(final(nodes)@) == with_new_names(
                    node_views(old(nodes)@),
                    goal.nodes,
                )
            } else {
                &&& r matches Ok(facts) && facts@ == frame_facts(frame, *root, goal.nodes, views@)
                &&& node_views(final(nodes)@) == goal.nodes
            }
        }),
{
    let ghost known = node_views(nodes@);
    let ghost ids = supply.identities@;
    let ghost from = supply.used as int;
    let start: Vec<usize> = Vec::new();
    let mut paths: Vec<Vec<usize>> = Vec::new();
    assert(start@ =~= Seq::<usize>::empty());
    let all_have_names = list_paths(root, &start, views, &mut paths);
    assert(path_views(paths@) =~= paths_reached(*root, Seq::<usize>::empty(), views@));
    let mut fresh: Vec<NodeRecord> = Vec::new();
    let (named, complete) = name_nodes(&paths, nodes, &mut fresh, supply);
    if !complete || !all_have_names {
        let ghost added = fresh@;
        let ghost before = nodes@;
        nodes.append(&mut fresh);
        assert(node_views(nodes@) =~= node_views(before) + node_views(added));
        return Err(
            if !complete {
                LayoutTrouble::NoIdentity
            } else {
                LayoutTrouble::Nameless
            },
        );
    }
    proof {
        let paths = split_paths(*root, Seq::<usize>::empty());
        all_paths_reached(*root, Seq::<usize>::empty(), views@);
        named_nodes_follow_paths(paths, known, ids, from);
        listed_splits_are_named(
            *root,
            Seq::<usize>::empty(),
            node_views(named@),
            paths,
            0,
        );
    }
    *nodes = named;
    let mut facts: Vec<LayoutFact> = Vec::new();
    let mut leaves: Vec<Identity> = Vec::new();
    let top = tell_splits(root, &start, nodes, views, &mut facts, &mut leaves);
    facts.push(LayoutFact::Root { frame, root: top });
    let ghost before = facts@;
    assert(leaves@ =~= leaf_names(*root, views@));
    let ghost goal = ring(leaves@);
    if leaves.len() > 1 {
        let mut i: usize = 0;
        assert(facts@ =~= before + goal.take(0));
        while i < leaves.len()
            invariant
                i <= leaves@.len(),
                leaves@.len() > 1,
                goal == ring(leaves@),
                facts@ == before + goal.take(i as int),
            decreases leaves.len() - i,
        {
            let next = if i + 1 < leaves.len() {
                leaves[i + 1]
            } else {
                leaves[0]
            };
            facts.push(LayoutFact::Next { current: leaves[i], next });
            assert(goal[i as int] == LayoutFact::Next { current: leaves@[i as int], next });
            assert(facts@ =~= before + goal.take(i + 1));
            i = i + 1;
        }
        assert(goal.take(i as int) =~= goal);
    }
    assert(facts@ =~= frame_facts(frame, *root, node_views(nodes@), views@));
    Ok(facts)
}

/// A split that stays where it is keeps its name when the layout is told again.
pub proof fn splits_keep_their_names(
    root: WindowNode,
    known: Seq<NodeView>,
    supply: Seq<Identity>,
    used: int,
    path: Seq<usize>,
)
    requires
        named_nodes(
            split_paths(root, Seq::<usize>::empty()),
            known,
            supply,
            used,
        ).complete,
        split_paths(root, Seq::<usize>::empty()).contains(path),
        node_name(known, path) is Some,
    ensures
        node_name(
            named_nodes(split_paths(root, Seq::<usize>::empty()), known, supply, used).nodes,
            path,
        ) == node_name(known, path),
{
    let paths = split_paths(root, Seq::<usize>::empty());
    let goal = named_nodes(paths, known, supply, used);
    named_nodes_follow_paths(paths, known, supply, used);
    kept_names_agree(paths, known, supply, used);
    let i = paths.index_of(path);
    assert(goal.nodes[i].path == path);
    first_named_agrees(goal.nodes, known, path, i);
}

proof fn kept_names_agree(
    paths: Seq<Seq<usize>>,
    known: Seq<NodeView>,
    supply: Seq<Identity>,
    used: int,
)
    ensures
        forall|i: int|
            0 <= i < named_nodes(paths, known, supply, used).nodes.len() && node_name(
                known,
                (#[trigger] named_nodes(paths, known, supply, used).nodes[i]).path,
            ) is Some ==> named_nodes(paths, known, supply, used).nodes[i].logical == node_name(
                known,
                named_nodes(paths, known, supply, used).nodes[i].path,
            )->0,
    decreases paths.len(),
{
    if paths.len() > 0 {
        kept_names_agree(paths.drop_last(), known, supply, used);
        let before = named_nodes(paths.drop_last(), known, supply, used);
        let all = named_nodes(paths, known, supply, used);
        assert forall|i: int|
            0 <= i < all.nodes.len() && node_name(known, (#[trigger] all.nodes[i]).path)
                is Some implies all.nodes[i].logical == node_name(known, all.nodes[i].path)->0 by {
            if i < before.nodes.len() {
                assert(all.nodes[i] == before.nodes[i]);
            }
        }
    }
}

proof fn first_named_agrees(nodes: Seq<NodeView>, known: Seq<NodeView>, path: Seq<usize>, i: int)
    requires
        0 <= i < nodes.len(),
        nodes[i].path == path,
        node_name(known, path) is Some,
        forall|k: int|
            0 <= k < nodes.len() && (#[trigger] nodes[k]).path == path ==> nodes[k].logical
                == node_name(known, path)->0,
    ensures
        node_name(nodes, path) == node_name(known, path),
    decreases nodes.len(),
{
    if nodes[0].path == path {
        assert(nodes[0].logical == node_name(known, path)->0);
    } else {
        assert(nodes.skip(1)[i - 1] == nodes[i]);
        assert forall|k: int|
            0 <= k < nodes.skip(1).len() && (#[trigger] nodes.skip(1)[k]).path
                == path implies nodes.skip(1)[k].logical == node_name(known, path)->0 by {
            assert(nodes.skip(1)[k] == nodes[k + 1]);
        }
        first_named_agrees(nodes.skip(1), known, path, i - 1);
    }
}

} // verus!
