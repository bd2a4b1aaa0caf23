//! The buffers and views that the policy code knows, kept in step with the
//! editor.

use vstd::prelude::*;
use vstd::string::*;

use crate::editor::Editor;
use crate::ids::{BufferId, WindowId};
use crate::mica_host::events::MicaEventBatch;
use crate::mica_host::facts::{
    int_value, name_value, say1, say2, say3, say_file, say_kind, say_layout, say_state, say_view,
    source_context_facts, BufferRecord, Fact, LayoutFact, MicaBufferMetadata, ViewRecord,
};
use crate::mica_host::layout::{
    build_layout_tuples, find_view_name, IdentitySupply, LayoutTrouble, NodeRecord,
};
use crate::mica_host::value::Identity;
use crate::mica_host::{facts, layout};
use crate::native_kernel::{KernelError, ResourceId};
use crate::text::concat2;
use crate::text;

verus! {

/// What can go wrong at the boundary to the policy code.
#[derive(Debug)]
pub enum MicaHostError {
    Driver(String),
    MissingIdentity,
    Closed,
    Kernel(KernelError),
    Policy(String),
    SourceConfiguration(String),
}

impl MicaHostError {
    /// The error, in words.
    pub open spec fn told(&self) -> Seq<char> {
        match self {
            MicaHostError::Driver(m) => "Mica driver failed: "@ + m@,
            MicaHostError::MissingIdentity =>
                "Mica session has no logical identity for the active Rust object"@,
            MicaHostError::Closed => "Mica session host is already closed"@,
            MicaHostError::Kernel(e) =>
                "Roe native kernel failed while opening the Mica session: "@ + e.told(),
            MicaHostError::Policy(m) => "Mica editor policy rejected the operation: "@ + m@,
            MicaHostError::SourceConfiguration(m) =>
                "Mica source-provider configuration failed: "@ + m@,
        }
    }

    /// The error, in words.
    pub fn message(&self) -> (r: String)
        ensures
            r@ == self.told(),
    {
        match self {
            MicaHostError::Driver(m) => concat2("Mica driver failed: ", m.as_str()),
            MicaHostError::MissingIdentity => 
                "Mica session has no logical identity for the active Rust object".to_owned(),
            MicaHostError::Closed => "Mica session host is already closed".to_owned(),
            MicaHostError::Kernel(e) => concat2(
                "Roe native kernel failed while opening the Mica session: ",
                e.message().as_str(),
            ),
            MicaHostError::Policy(m) => concat2(
                "Mica editor policy rejected the operation: ",
                m.as_str(),
            ),
            MicaHostError::SourceConfiguration(m) => concat2(
                "Mica source-provider configuration failed: ",
                m.as_str(),
            ),
        }
    }
}

/// Whether an error says that there are not enough names.
pub open spec fn is_out_of_names(e: MicaHostError) -> bool {
    e matches MicaHostError::Driver(m) && m@ == "no ephemeral identity is left"@
}

fn out_of_names() -> (e: MicaHostError)
    ensures
        is_out_of_names(e),
{
    MicaHostError::Driver("no ephemeral identity is left".to_owned())
}

/// What is known of a buffer besides its text.
#[derive(Debug)]
pub struct DescribedBuffer {
    pub id: BufferId,
    pub resource: ResourceId,
    pub metadata: MicaBufferMetadata,
    pub source_path: Option<String>,
}

/// The names that the boundary itself has.
#[derive(Debug, Clone, Copy, PartialEq, Eq, Structural)]
pub struct HostNames {
    pub endpoint: Identity,
    pub actor: Identity,
    pub session: Identity,
    pub frame: Identity,
    pub editor_role: Identity,
    pub global_map: Identity,
    pub source_repository: Identity,
    pub source_revision: Identity,
}

/// The editor as the policy code knows it.
#[derive(Debug)]
pub struct MicaHost {
    pub names: HostNames,
    pub source_root: String,
    pub buffers: Vec<BufferRecord>,
    pub views: Vec<ViewRecord>,
    pub layout_nodes: Vec<NodeRecord>,
    pub layout_tuples: Vec<LayoutFact>,
    pub active_view: WindowId,
    /// What the policy code may ask of the kernel.
    pub services: Vec<String>,
    pub disabled_packages: Vec<Identity>,
    pub loaded_units: Vec<String>,
    pub first_wave_loaded: bool,
    pub deferred_events: MicaEventBatch,
    pub pending_key_prefix: Option<String>,
    pub prompt_active: bool,
    pub closed: bool,
}

// --- Lookups ---

/// The first description of a buffer.
pub open spec fn described_as(described: Seq<DescribedBuffer>, id: BufferId) -> Option<
    DescribedBuffer,
>
    decreases described.len(),
{
    if described.len() == 0 {
        None
    } else if described[0].id == id {
        Some(described[0])
    } else {
        described_as(described.skip(1), id)
    }
}

fn find_description(described: &Vec<DescribedBuffer>, id: BufferId) -> (r: Option<usize>)
    ensures
        match r {
            Some(i) => i < described@.len() && described_as(described@, id) == Some(
                described@[i as int],
            ),
            None => described_as(described@, id) is None,
        },
{
    let mut i: usize = 0;
    assert(described@.skip(0) =~= described@);
    while i < described.len()
        invariant
            i <= described@.len(),
            described_as(described@, id) == described_as(described@.skip(i as int), id),
        decreases described.len() - i,
    {
        assert(described@.skip(i as int)[0] == described@[i as int]);
        assert(described@.skip(i as int).skip(1) =~= described@.skip(i + 1));
        if described[i].id == id {
            return Some(i);
        }
        i = i + 1;
    }
    None
}

/// The first record of a buffer.
pub open spec fn buffer_record(records: Seq<BufferRecord>, id: BufferId) -> Option<BufferRecord>
    decreases records.len(),
{
    if records.len() == 0 {
        None
    } else if records[0].id == id {
        Some(records[0])
    } else {
        buffer_record(records.skip(1), id)
    }
}

/// The first record of the buffer with a name.
pub open spec fn record_named(records: Seq<BufferRecord>, logical: Identity) -> Option<
    BufferRecord,
>
    decreases records.len(),
{
    if records.len() == 0 {
        None
    } else if records[0].logical == logical {
        Some(records[0])
    } else {
        record_named(records.skip(1), logical)
    }
}

/// The first record of the view with a name.
pub open spec fn view_named(records: Seq<ViewRecord>, logical: Identity) -> Option<ViewRecord>
    decreases records.len(),
{
    if records.len() == 0 {
        None
    } else if records[0].logical == logical {
        Some(records[0])
    } else {
        view_named(records.skip(1), logical)
    }
}

pub(crate) fn find_buffer(records: &Vec<BufferRecord>, id: BufferId) -> (r: Option<usize>)
    ensures
        match r {
            Some(i) => i < records@.len() && buffer_record(records@, id) == Some(
                records@[i as int],
            ),
            None => buffer_record(records@, id) is None,
        },
{
    let mut i: usize = 0;
    assert(records@.skip(0) =~= records@);
    while i < records.len()
        invariant
            i <= records@.len(),
            buffer_record(records@, id) == buffer_record(records@.skip(i as int), id),
        decreases records.len() - i,
    {
        assert(records@.skip(i as int)[0] == records@[i as int]);
        assert(records@.skip(i as int).skip(1) =~= records@.skip(i + 1));
        if records[i].id == id {
            return Some(i);
        }
        i = i + 1;
    }
    None
}

pub(crate) fn find_named_buffer(records: &Vec<BufferRecord>, logical: Identity) -> (r: Option<
    usize,
>)
    ensures
        match r {
            Some(i) => i < records@.len() && record_named(records@, logical) == Some(
                records@[i as int],
            ),
            None => record_named(records@, logical) is None,
        },
{
    let mut i: usize = 0;
    assert(records@.skip(0) =~= records@);
    while i < records.len()
        invariant
            i <= records@.len(),
            record_named(records@, logical) == record_named(records@.skip(i as int), logical),
        decreases records.len() - i,
    {
        assert(records@.skip(i as int)[0] == records@[i as int]);
        assert(records@.skip(i as int).skip(1) =~= records@.skip(i + 1));
        if records[i].logical == logical {
            return Some(i);
        }
        i = i + 1;
    }
    None
}

pub(crate) fn find_named_view(records: &Vec<ViewRecord>, logical: Identity) -> (r: Option<
    ViewRecord,
>)
    ensures
        r == view_named(records@, logical),
{
    let mut i: usize = 0;
    assert(records@.skip(0) =~= records@);
    while i < records.len()
        invariant
            i <= records@.len(),
            view_named(records@, logical) == view_named(records@.skip(i as int), logical),
        decreases records.len() - i,
    {
        assert(records@.skip(i as int)[0] == records@[i as int]);
        assert(records@.skip(i as int).skip(1) =~= records@.skip(i + 1));
        if records[i].logical == logical {
            return Some(records[i]);
        }
        i = i + 1;
    }
    None
}

// --- What is there ---

/// Whether a buffer is there and is for editing.
pub open spec fn is_live_buffer(editor: Editor, id: BufferId) -> bool {
    editor.buffers@.contains_key(id) && !editor.in_command_window(id)
}

/// Whether a view is there and is for editing.
pub open spec fn is_live_view(editor: Editor, id: WindowId) -> bool {
    editor.windows@.contains_key(id) && !editor.windows@[id].is_command()
}

/// Whether each window shows a buffer that is there.
pub open spec fn windows_show_buffers(editor: Editor) -> bool {
    forall|id: WindowId| #[trigger]
        editor.windows@.contains_key(id) ==> shows_buffer(editor, id)
}

/// Whether a window is there and shows a buffer that is there.
pub open spec fn shows_buffer(editor: Editor, id: WindowId) -> bool {
    &&& editor.windows@.contains_key(id)
    &&& editor.buffers@.contains_key(editor.windows@[id].active_buffer)
}

/// Whether each buffer with a record is there.
pub open spec fn records_are_there(editor: Editor, records: Seq<BufferRecord>) -> bool {
    forall|id: BufferId| #[trigger]
        buffer_record(records, id) is Some ==> editor.buffers@.contains_key(id)
}

/// The records of the buffers that are there and are for editing.
pub open spec fn buffers_kept(editor: Editor, records: Seq<BufferRecord>) -> Seq<BufferRecord>
    decreases records.len(),
{
    if records.len() == 0 {
        seq![]
    } else if is_live_buffer(editor, records.last().id) {
        buffers_kept(editor, records.drop_last()).push(records.last())
    } else {
        buffers_kept(editor, records.drop_last())
    }
}

/// The records of the views that are there and are for editing.
pub open spec fn views_kept(editor: Editor, records: Seq<ViewRecord>) -> Seq<ViewRecord>
    decreases records.len(),
{
    if records.len() == 0 {
        seq![]
    } else if is_live_view(editor, records.last().id) {
        views_kept(editor, records.drop_last()).push(records.last())
    } else {
        views_kept(editor, records.drop_last())
    }
}

fn is_live(editor: &Editor, id: BufferId) -> (r: bool)
    ensures
        r == is_live_buffer(*editor, id),
{
    editor.buffers.contains_key(id) && !editor.is_command_buffer(id)
}

fn is_view_live(editor: &Editor, id: WindowId) -> (r: bool)
    ensures
        r == is_live_view(*editor, id),
{
    match editor.windows.get(id) {
        Some(w) => !w.is_command_window(),
        None => false,
    }
}

fn keep_buffers(editor: &Editor, records: &mut Vec<BufferRecord>)
    ensures
        final(records)@ == buffers_kept(*editor, old(records)@),
{
    let ghost all = records@;
    let mut seen: Ghost<int> = Ghost(0);
    let mut i: usize = 0;
    assert(all.take(0) =~= seq![]);
    assert(records@ =~= buffers_kept(*editor, all.take(0)) + all.skip(0));
    while i < records.len()
        invariant
            all == old(records)@,
            0 <= seen@ <= all.len(),
            i == buffers_kept(*editor, all.take(seen@)).len(),
            records@ == buffers_kept(*editor, all.take(seen@)) + all.skip(seen@),
        decreases all.len() - seen@,
    {
        let ghost kept = buffers_kept(*editor, all.take(seen@));
        assert(records@[i as int] == all[seen@]);
        assert(all.take(seen@ + 1).drop_last() =~= all.take(seen@));
        assert(all.take(seen@ + 1).last() == all[seen@]);
        if is_live(editor, records[i].id) {
            i = i + 1;
            assert(kept + all.skip(seen@) =~= kept.push(all[seen@]) + all.skip(seen@ + 1));
        } else {
            records.remove(i);
            assert(records@ =~= kept + all.skip(seen@ + 1));
        }
        proof {
            seen@ = seen@ + 1;
        }
    }
    assert(all.skip(seen@).len() == 0);
    assert(all.take(seen@) =~= all);
    assert(records@ =~= buffers_kept(*editor, all));
}

fn keep_views(editor: &Editor, records: &Vec<ViewRecord>) -> (r: Vec<ViewRecord>)
    ensures
        r@ == views_kept(*editor, records@),
{
    let mut r: Vec<ViewRecord> = Vec::new();
    let mut i: usize = 0;
    assert(records@.take(0) =~= seq![]);
    while i < records.len()
        invariant
            i <= records@.len(),
            r@ == views_kept(*editor, records@.take(i as int)),
        decreases records.len() - i,
    {
        assert(records@.take(i + 1).drop_last() =~= records@.take(i as int));
        assert(records@.take(i + 1).last() == records@[i as int]);
        if is_view_live(editor, records[i].id) {
            r.push(records[i]);
        }
        i = i + 1;
    }
    assert(records@.take(i as int) =~= records@);
    r
}

// --- What is new ---

/// What can stop names from being given.
#[derive(Debug, Clone, Copy, PartialEq, Eq, Structural)]
pub enum Trouble {
    /// There are not enough names.
    NoIdentity,
    /// A buffer or view is not known.
    Unknown,
}

/// The error that trouble comes to.
pub open spec fn is_error(e: MicaHostError, trouble: Trouble) -> bool {
    match trouble {
        Trouble::NoIdentity => is_out_of_names(e),
        Trouble::Unknown => e is MissingIdentity,
    }
}

fn to_error(trouble: Trouble) -> (e: MicaHostError)
    ensures
        is_error(e, trouble),
{
    match trouble {
        Trouble::NoIdentity => out_of_names(),
        Trouble::Unknown => MicaHostError::MissingIdentity,
    }
}

/// Records, how many names have been given away, and what stopped that.
pub struct BuffersAdded {
    pub records: Seq<BufferRecord>,
    pub used: int,
    pub trouble: Option<Trouble>,
}

/// The records with one for each of the buffers `ids`, but for those that are no
/// live ones if only those count: two new names for each that had none.
pub open spec fn buffers_added(
    editor: Editor,
    ids: Seq<BufferId>,
    live_only: bool,
    records: Seq<BufferRecord>,
    described: Seq<DescribedBuffer>,
    supply: Seq<Identity>,
    used: int,
) -> BuffersAdded
    decreases ids.len(),
{
    if ids.len() == 0 {
        BuffersAdded { records, used, trouble: None }
    } else {
        let before = buffers_added(
            editor,
            ids.drop_last(),
            live_only,
            records,
            described,
            supply,
            used,
        );
        let id = ids.last();
        if before.trouble is Some || (live_only && !is_live_buffer(editor, id)) || buffer_record(
            before.records,
            id,
        ) is Some {
            before
        } else if before.used + 2 > supply.len() {
            BuffersAdded {
                used: supply.len() as int,
                trouble: Some(Trouble::NoIdentity),
                ..before
            }
        } else {
            match described_as(described, id) {
                None => BuffersAdded {
                    used: before.used + 2,
                    trouble: Some(Trouble::Unknown),
                    ..before
                },
                Some(d) => BuffersAdded {
                    records: before.records.push(
                        BufferRecord {
                            id,
                            logical: supply[before.used],
                            native: supply[before.used + 1],
                            resource: d.resource,
                            metadata: d.metadata,
                            source_path: d.source_path,
                        },
                    ),
                    used: before.used + 2,
                    trouble: None,
                },
            }
        }
    }
}

proof fn buffer_trouble_stays(
    editor: Editor,
    ids: Seq<BufferId>,
    k: int,
    live_only: bool,
    records: Seq<BufferRecord>,
    described: Seq<DescribedBuffer>,
    supply: Seq<Identity>,
    used: int,
)
    requires
        0 <= k <= ids.len(),
        buffers_added(
            editor,
            ids.take(k),
            live_only,
            records,
            described,
            supply,
            used,
        ).trouble is Some,
    ensures
        buffers_added(editor, ids, live_only, records, described, supply, used) == buffers_added(
            editor,
            ids.take(k),
            live_only,
            records,
            described,
            supply,
            used,
        ),
    decreases ids.len(),
{
    if k < ids.len() {
        assert(ids.drop_last().take(k) =~= ids.take(k));
        buffer_trouble_stays(
            editor,
            ids.drop_last(),
            k,
            live_only,
            records,
            described,
            supply,
            used,
        );
    } else {
        assert(ids.take(k) =~= ids);
    }
}

fn add_buffers(
    editor: &Editor,
    live_only: bool,
    records: &mut Vec<BufferRecord>,
    described: &Vec<DescribedBuffer>,
    supply: &mut IdentitySupply,
) -> (r: Option<Trouble>)
    requires
        old(supply).wf(),
    ensures
        final(supply).wf(),
        final(supply).identities == old(supply).identities,
        ({
            let goal = buffers_added(
                *editor,
                editor.buffers.order(),
                live_only,
                old(records)@,
                described@,
                old(supply).identities@,
                old(supply).used as int,
            );
            &&& final(records)@ == goal.records
            &&& final(supply).used == goal.used
            &&& r == goal.trouble
        }),
        r is None ==> forall|id: BufferId|
            is_live_buffer(*editor, id) ==> #[trigger] buffer_record(final(records)@, id) is Some,
{
    let ids = editor.buffers.keys();
    let ghost start = records@;
    let ghost names = supply.identities@;
    let ghost from = supply.used as int;
    let mut i: usize = 0;
    assert(ids@.take(0) =~= seq![]);
    while i < ids.len()
        invariant
            i <= ids@.len(),
            ids@ == editor.buffers.order(),
            start == old(records)@,
            editor.buffers.listed_by(ids@),
            names == supply.identities@,
            supply.identities == old(supply).identities,
            from == old(supply).used,
            supply.wf(),
            ({
                let so_far = buffers_added(
                    *editor,
                    ids@.take(i as int),
                    live_only,
                    start,
                    described@,
                    names,
                    from,
                );
                &&& so_far.records == records@
                &&& so_far.used == supply.used
                &&& so_far.trouble is None
            }),
        decreases ids.len() - i,
    {
        let id = ids[i];
        assert(ids@.take(i + 1).drop_last() =~= ids@.take(i as int));
        assert(ids@.take(i + 1).last() == id);
        if (!live_only || is_live(editor, id)) && find_buffer(records, id).is_none() {
            let logical = match supply.next() {
                Some(name) => name,
                None => {
                    proof {
                        buffer_trouble_stays(
                            *editor,
                            ids@,
                            i + 1,
                            live_only,
                            start,
                            described@,
                            names,
                            from,
                        );
                    }
                    return Some(Trouble::NoIdentity);
                },
            };
            let native = match supply.next() {
                Some(name) => name,
                None => {
                    proof {
                        buffer_trouble_stays(
                            *editor,
                            ids@,
                            i + 1,
                            live_only,
                            start,
                            described@,
                            names,
                            from,
                        );
                    }
                    return Some(Trouble::NoIdentity);
                },
            };
            match find_description(described, id) {
                Some(d) => {
                    records.push(
                        BufferRecord {
                            id,
                            logical,
                            native,
                            resource: described[d].resource,
                            metadata: described[d].metadata.copy(),
                            source_path: described[d].source_path.clone(),
                        },
                    );
                },
                None => {
                    proof {
                        buffer_trouble_stays(
                            *editor,
                            ids@,
                            i + 1,
                            live_only,
                            start,
                            described@,
                            names,
                            from,
                        );
                    }
                    return Some(Trouble::Unknown);
                },
            }
        }
        i = i + 1;
    }
    assert(ids@.take(i as int) =~= ids@);
    proof {
        assert forall|id: BufferId| is_live_buffer(*editor, id) implies #[trigger] buffer_record(
            records@,
            id,
        ) is Some by {
            assert(ids@.contains(id));
            added_keeps(*editor, ids@, live_only, start, described@, names, from, id);
        }
    }
    None
}

/// Records, how many names have been given away, and what stopped that.
pub struct ViewsAdded {
    pub records: Seq<ViewRecord>,
    pub used: int,
    pub trouble: Option<Trouble>,
}

/// The record of a view.
pub open spec fn view_record(editor: Editor, id: WindowId, logical: Identity) -> ViewRecord {
    let w = editor.windows@[id];
    ViewRecord {
        id,
        logical,
        buffer: w.active_buffer,
        cursor: w.cursor,
        mark: editor.buffers@[w.active_buffer].inner.mark,
    }
}

fn make_view_record(editor: &Editor, id: WindowId, logical: Identity) -> (r: ViewRecord)
    requires
        shows_buffer(*editor, id),
    ensures
        r == view_record(*editor, id, logical),
{
    match editor.windows.get(id) {
        Some(w) => {
            let mark = match editor.buffers.get(w.active_buffer) {
                Some(b) => b.get_mark(),
                None => None,
            };
            ViewRecord { id, logical, buffer: w.active_buffer, cursor: w.cursor, mark }
        },
        None => ViewRecord { id, logical, buffer: BufferId::null(), cursor: 0, mark: None },
    }
}

/// Whether a view gets a record: each one, or only those for editing whose
/// buffer is known.
pub open spec fn is_wanted(
    editor: Editor,
    id: WindowId,
    live_only: bool,
    buffers: Seq<BufferRecord>,
) -> bool {
    !live_only || (is_live_view(editor, id) && buffer_record(
        buffers,
        editor.windows@[id].active_buffer,
    ) is Some)
}

/// The records with one for each of the views `ids` that gets one.
pub open spec fn views_added(
    editor: Editor,
    ids: Seq<WindowId>,
    live_only: bool,
    records: Seq<ViewRecord>,
    buffers: Seq<BufferRecord>,
    supply: Seq<Identity>,
    used: int,
) -> ViewsAdded
    decreases ids.len(),
{
    if ids.len() == 0 {
        ViewsAdded { records, used, trouble: None }
    } else {
        let before = views_added(
            editor,
            ids.drop_last(),
            live_only,
            records,
            buffers,
            supply,
            used,
        );
        let id = ids.last();
        if before.trouble is Some || layout::view_name(before.records, id) is Some || !is_wanted(
            editor,
            id,
            live_only,
            buffers,
        ) {
            before
        } else if before.used >= supply.len() {
            ViewsAdded { trouble: Some(Trouble::NoIdentity), ..before }
        } else {
            ViewsAdded {
                records: before.records.push(view_record(editor, id, supply[before.used])),
                used: before.used + 1,
                trouble: None,
            }
        }
    }
}

proof fn view_trouble_stays(
    editor: Editor,
    ids: Seq<WindowId>,
    k: int,
    live_only: bool,
    records: Seq<ViewRecord>,
    buffers: Seq<BufferRecord>,
    supply: Seq<Identity>,
    used: int,
)
    requires
        0 <= k <= ids.len(),
        views_added(
            editor,
            ids.take(k),
            live_only,
            records,
            buffers,
            supply,
            used,
        ).trouble is Some,
    ensures
        views_added(editor, ids, live_only, records, buffers, supply, used) == views_added(
            editor,
            ids.take(k),
            live_only,
            records,
            buffers,
            supply,
            used,
        ),
    decreases ids.len(),
{
    if k < ids.len() {
        assert(ids.drop_last().take(k) =~= ids.take(k));
        view_trouble_stays(editor, ids.drop_last(), k, live_only, records, buffers, supply, used);
    } else {
        assert(ids.take(k) =~= ids);
    }
}

fn add_views(
    editor: &Editor,
    live_only: bool,
    records: &mut Vec<ViewRecord>,
    buffers: &Vec<BufferRecord>,
    supply: &mut IdentitySupply,
) -> (r: Option<Trouble>)
    requires
        old(supply).wf(),
        live_only ==> records_are_there(*editor, buffers@),
        !live_only ==> windows_show_buffers(*editor),
    ensures
        final(supply).wf(),
        final(supply).identities == old(supply).identities,
        ({
            let goal = views_added(
                *editor,
                editor.windows.order(),
                live_only,
                old(records)@,
                buffers@,
                old(supply).identities@,
                old(supply).used as int,
            );
            &&& final(records)@ == goal.records
            &&& final(supply).used == goal.used
            &&& r == goal.trouble
        }),
{
    let ids = editor.windows.keys();
    let ghost start = records@;
    let ghost names = supply.identities@;
    let ghost from = supply.used as int;
    let mut i: usize = 0;
    assert(ids@.take(0) =~= seq![]);
    while i < ids.len()
        invariant
            i <= ids@.len(),
            ids@ == editor.windows.order(),
            editor.windows.listed_by(ids@),
            live_only ==> records_are_there(*editor, buffers@),
            !live_only ==> windows_show_buffers(*editor),
            start == old(records)@,
            names == supply.identities@,
            supply.identities == old(supply).identities,
            from == old(supply).used,
            supply.wf(),
            ({
                let so_far = views_added(
                    *editor,
                    ids@.take(i as int),
                    live_only,
                    start,
                    buffers@,
                    names,
                    from,
                );
                &&& so_far.records == records@
                &&& so_far.used == supply.used
                &&& so_far.trouble is None
            }),
        decreases ids.len() - i,
    {
        let id = ids[i];
        assert(ids@.contains(id));
        assert(ids@.take(i + 1).drop_last() =~= ids@.take(i as int));
        assert(ids@.take(i + 1).last() == id);
        let wanted = if live_only {
            match editor.windows.get(id) {
                Some(w) => !w.is_command_window() && find_buffer(
                    buffers,
                    w.active_buffer,
                ).is_some(),
                None => false,
            }
        } else {
            true
        };
        if wanted && find_view_name(records, id).is_none() {
            match supply.next() {
                Some(logical) => {
                    records.push(make_view_record(editor, id, logical));
                },
                None => {
                    proof {
                        view_trouble_stays(
                            *editor,
                            ids@,
                            i + 1,
                            live_only,
                            start,
                            buffers@,
                            names,
                            from,
                        );
                    }
                    return Some(Trouble::NoIdentity);
                },
            }
        }
        i = i + 1;
    }
    assert(ids@.take(i as int) =~= ids@);
    None
}

// --- What has changed ---

/// A record with what is known of the buffer now.
pub open spec fn described_anew(described: Seq<DescribedBuffer>, b: BufferRecord) -> BufferRecord {
    match described_as(described, b.id) {
        Some(d) => BufferRecord { metadata: d.metadata, source_path: d.source_path, ..b },
        None => b,
    }
}

pub open spec fn buffers_refreshed(
    described: Seq<DescribedBuffer>,
    records: Seq<BufferRecord>,
) -> Seq<BufferRecord> {
    records.map_values(|b: BufferRecord| described_anew(described, b))
}

/// A record with what the view shows now.
pub open spec fn seen_anew(
    editor: Editor,
    buffers: Seq<BufferRecord>,
    v: ViewRecord,
) -> ViewRecord {
    if is_wanted(editor, v.id, true, buffers) {
        view_record(editor, v.id, v.logical)
    } else {
        v
    }
}

pub open spec fn views_refreshed(
    editor: Editor,
    buffers: Seq<BufferRecord>,
    records: Seq<ViewRecord>,
) -> Seq<ViewRecord> {
    records.map_values(|v: ViewRecord| seen_anew(editor, buffers, v))
}

fn refresh_buffers(described: &Vec<DescribedBuffer>, records: &mut Vec<BufferRecord>)
    ensures
        final(records)@ == buffers_refreshed(described@, old(records)@),
{
    let ghost all = records@;
    let ghost goal = buffers_refreshed(described@, all);
    let mut i: usize = 0;
    assert(records@ =~= goal.take(0) + all.skip(0));
    while i < records.len()
        invariant
            i <= all.len() == records@.len(),
            all == old(records)@,
            goal == buffers_refreshed(described@, all),
            records@ == goal.take(i as int) + all.skip(i as int),
        decreases all.len() - i,
    {
        assert(records@[i as int] == all[i as int]);
        match find_description(described, records[i].id) {
            Some(d) => {
                let b = &records[i];
                let fresh = BufferRecord {
                    id: b.id,
                    logical: b.logical,
                    native: b.native,
                    resource: b.resource,
                    metadata: described[d].metadata.copy(),
                    source_path: described[d].source_path.clone(),
                };
                records.set(i, fresh);
            },
            None => (),
        }
        assert(records@[i as int] == goal[i as int]);
        assert(records@ =~= goal.take(i + 1) + all.skip(i + 1));
        i = i + 1;
    }
    assert(records@ =~= goal);
}

fn refresh_views(editor: &Editor, buffers: &Vec<BufferRecord>, records: &mut Vec<ViewRecord>)
    requires
        records_are_there(*editor, buffers@),
    ensures
        final(records)@ == views_refreshed(*editor, buffers@, old(records)@),
{
    let ghost all = records@;
    let ghost goal = views_refreshed(*editor, buffers@, all);
    let mut i: usize = 0;
    assert(records@ =~= goal.take(0) + all.skip(0));
    while i < records.len()
        invariant
            i <= all.len() == records@.len(),
            all == old(records)@,
            records_are_there(*editor, buffers@),
            goal == views_refreshed(*editor, buffers@, all),
            records@ == goal.take(i as int) + all.skip(i as int),
        decreases all.len() - i,
    {
        assert(records@[i as int] == all[i as int]);
        let v = records[i];
        let wanted = match editor.windows.get(v.id) {
            Some(w) => !w.is_command_window() && find_buffer(buffers, w.active_buffer).is_some(),
            None => false,
        };
        if wanted {
            records.set(i, make_view_record(editor, v.id, v.logical));
        }
        assert(records@[i as int] == goal[i as int]);
        assert(records@ =~= goal.take(i + 1) + all.skip(i + 1));
        i = i + 1;
    }
    assert(records@ =~= goal);
}

/// The records in which the view `id` is up to date.
pub open spec fn view_updated(editor: Editor, records: Seq<ViewRecord>, id: WindowId) -> Seq<
    ViewRecord,
> {
    records.map_values(
        |v: ViewRecord|
            if v.id == id {
                view_record(editor, id, v.logical)
            } else {
                v
            },
    )
}

fn update_view(editor: &Editor, records: &mut Vec<ViewRecord>, id: WindowId)
    requires
        shows_buffer(*editor, id),
    ensures
        final(records)@ == view_updated(*editor, old(records)@, id),
{
    let ghost all = records@;
    let ghost goal = view_updated(*editor, all, id);
    let mut i: usize = 0;
    assert(records@ =~= goal.take(0) + all.skip(0));
    while i < records.len()
        invariant
            i <= all.len() == records@.len(),
            all == old(records)@,
            shows_buffer(*editor, id),
            goal == view_updated(*editor, all, id),
            records@ == goal.take(i as int) + all.skip(i as int),
        decreases all.len() - i,
    {
        assert(records@[i as int] == all[i as int]);
        let v = records[i];
        if v.id == id {
            records.set(i, make_view_record(editor, id, v.logical));
        }
        assert(records@[i as int] == goal[i as int]);
        assert(records@ =~= goal.take(i + 1) + all.skip(i + 1));
        i = i + 1;
    }
    assert(records@ =~= goal);
}

/// The view that counts as the active one: behind a command window the one that
/// was active before, if it is still there.
pub open spec fn active_for_policy(editor: Editor) -> Option<WindowId> {
    if editor.windows@[editor.active_window].is_command() {
        match editor.previous_active_window {
            Some(id) if is_live_view(editor, id) => Some(id),
            _ => None,
        }
    } else {
        Some(editor.active_window)
    }
}

/// The view that counts as the active one.
pub fn find_active(editor: &Editor) -> (r: Option<WindowId>)
    requires
        editor.windows@.contains_key(editor.active_window),
    ensures
        r == active_for_policy(*editor),
{
    let is_command = match editor.windows.get(editor.active_window) {
        Some(w) => w.is_command_window(),
        None => false,
    };
    if is_command {
        match editor.previous_active_window {
            Some(id) => {
                if is_view_live(editor, id) {
                    Some(id)
                } else {
                    None
                }
            },
            None => None,
        }
    } else {
        Some(editor.active_window)
    }
}

// --- The host ---

/// What may be asked of the kernel from the start.
pub open spec fn first_services() -> Seq<Seq<char>> {
    seq!["clock_read"@, "text_read"@, "text_write"@, "file_read"@]
}

impl MicaHost {
    /// Whether `after` differs from this host in what is kept in step with the
    /// editor only.
    pub open spec fn same_session(&self, after: &Self) -> bool {
        *after == (MicaHost {
            buffers: after.buffers,
            views: after.views,
            layout_nodes: after.layout_nodes,
            layout_tuples: after.layout_tuples,
            active_view: after.active_view,
            ..*self
        })
    }

    /// Whether an editor is opened as `r`: each buffer and each window gets a
    /// name.
    pub open spec fn opened(
        editor: Editor,
        names: HostNames,
        described: Seq<DescribedBuffer>,
        supply: Seq<Identity>,
        used: int,
        after_used: int,
        r: Result<MicaHost, MicaHostError>,
    ) -> bool {
        let b = buffers_added(
            editor,
            editor.buffers.order(),
            false,
            Seq::<BufferRecord>::empty(),
            described,
            supply,
            used,
        );
        let v = views_added(
            editor,
            editor.windows.order(),
            false,
            Seq::<ViewRecord>::empty(),
            b.records,
            supply,
            b.used,
        );
        let n = layout::named_nodes(
            layout::paths_reached(editor.window_tree, Seq::<usize>::empty(), v.records),
            Seq::<layout::NodeView>::empty(),
            supply,
            v.used,
        );
        if b.trouble is Some {
            r matches Err(e) && is_error(e, b.trouble->0) && after_used == b.used
        } else if v.trouble is Some {
            r matches Err(e) && is_error(e, v.trouble->0) && after_used == v.used
        } else if !editor.windows@.contains_key(editor.active_window) {
            r matches Err(e) && e is MissingIdentity && after_used == v.used
        } else if !n.complete {
            r matches Err(e) && is_out_of_names(e) && after_used == n.used
        } else if !layout::all_named(editor.window_tree, v.records) {
            r matches Err(e) && e is MissingIdentity && after_used == n.used
        } else {
            &&& after_used == n.used
            &&& r matches Ok(host)
            &&& host.names == names
            &&& host.buffers@ == b.records
            &&& host.views@ == v.records
            &&& layout::node_views(host.layout_nodes@) == n.nodes
            &&& host.layout_tuples@ == layout::frame_facts(
                names.frame,
                editor.window_tree,
                n.nodes,
                v.records,
            )
            &&& host.active_view == editor.active_window
            &&& text::views(host.services@) == first_services()
            &&& host.disabled_packages@.len() == 0
            &&& text::views(host.loaded_units@) == seq!["roe/core"@]
            &&& !host.first_wave_loaded
            &&& host.deferred_events.wf()
            &&& host.deferred_events.events@.len() == 0
            &&& !host.deferred_events.overloaded
            &&& host.pending_key_prefix is None
            &&& !host.prompt_active
            &&& !host.closed
        }
    }

    /// Opens an editor to the policy code.
    pub fn open(
        editor: &Editor,
        names: HostNames,
        source_root: String,
        described: &Vec<DescribedBuffer>,
        supply: &mut IdentitySupply,
    ) -> (r: Result<MicaHost, MicaHostError>)
        requires
            old(supply).wf(),
            windows_show_buffers(*editor),
        ensures
            final(supply).wf(),
            final(supply).identities == old(supply).identities,
            Self::opened(
                *editor,
                names,
                described@,
                old(supply).identities@,
                old(supply).used as int,
                final(supply).used as int,
                r,
            ),
            r matches Ok(host) ==> host.source_root == source_root,
    {
        let mut buffers: Vec<BufferRecord> = Vec::new();
        assert(buffers@ =~= Seq::<BufferRecord>::empty());
        if let Some(trouble) = add_buffers(editor, false, &mut buffers, described, supply) {
            return Err(to_error(trouble));
        }
        let mut views: Vec<ViewRecord> = Vec::new();
        assert(views@ =~= Seq::<ViewRecord>::empty());
        if let Some(trouble) = add_views(editor, false, &mut views, &buffers, supply) {
            return Err(to_error(trouble));
        }
        if editor.windows.get(editor.active_window).is_none() {
            return Err(MicaHostError::MissingIdentity);
        }
        let mut layout_nodes: Vec<NodeRecord> = Vec::new();
        assert(layout::node_views(layout_nodes@) =~= Seq::<layout::NodeView>::empty());
        let layout_tuples = match build_layout_tuples(
            names.frame,
            &editor.window_tree,
            &views,
            &mut layout_nodes,
            supply,
        ) {
            Ok(facts) => facts,
            Err(trouble) => {
                return match trouble {
                    LayoutTrouble::Nameless => Err(MicaHostError::MissingIdentity),
                    LayoutTrouble::NoIdentity => Err(out_of_names()),
                };
            },
        };
        let services: Vec<String> = vec![
            "clock_read".to_owned(),
            "text_read".to_owned(),
            "text_write".to_owned(),
            "file_read".to_owned(),
        ];
        assert(text::views(services@) =~= first_services());
        let loaded_units: Vec<String> = vec!["roe/core".to_owned()];
        assert(text::views(loaded_units@) =~= seq!["roe/core"@]);
        Ok(
            MicaHost {
                names,
                source_root,
                buffers,
                views,
                layout_nodes,
                layout_tuples,
                active_view: editor.active_window,
                services,
                disabled_packages: Vec::new(),
                loaded_units,
                first_wave_loaded: false,
                deferred_events: MicaEventBatch::new(),
                pending_key_prefix: None,
                prompt_active: false,
                closed: false,
            },
        )
    }

    /// Whether the layout told is the one that was told before.
    pub open spec fn same_layout(&self, after: &Self) -> bool {
        &&& after.layout_nodes == self.layout_nodes
        &&& after.layout_tuples == self.layout_tuples
    }

    /// Whether the host is brought in step with the editor: what is gone is
    /// dropped, what is new gets names, and the rest keeps its names and is told
    /// anew. Trouble stops this where it comes up.
    pub open spec fn synchronized(
        &self,
        after: &Self,
        editor: Editor,
        described: Seq<DescribedBuffer>,
        supply: Seq<Identity>,
        used: int,
        after_used: int,
        r: Result<(), MicaHostError>,
    ) -> bool {
        let kept = buffers_kept(editor, self.buffers@);
        let seen = views_kept(editor, self.views@);
        let b = buffers_added(
            editor,
            editor.buffers.order(),
            true,
            kept,
            described,
            supply,
            used,
        );
        let v = views_added(
            editor,
            editor.windows.order(),
            true,
            seen,
            b.records,
            supply,
            b.used,
        );
        let told = buffers_refreshed(described, b.records);
        let shown = views_refreshed(editor, told, v.records);
        &&& self.same_session(after)
        &&& match active_for_policy(editor) {
            None => {
                &&& r matches Err(e) && e is MissingIdentity
                &&& after_used == used
                &&& after.buffers@ == kept
                &&& after.views@ == seen
                &&& after.active_view == self.active_view
                &&& self.same_layout(after)
            },
            Some(active) => if b.trouble is Some {
                &&& r matches Err(e) && is_error(e, b.trouble->0)
                &&& after_used == b.used
                &&& after.buffers@ == b.records
                &&& after.views@ == seen
                &&& after.active_view == self.active_view
                &&& self.same_layout(after)
            } else if v.trouble is Some {
                &&& r matches Err(e) && is_error(e, v.trouble->0)
                &&& after_used == v.used
                &&& after.buffers@ == b.records
                &&& after.views@ == v.records
                &&& after.active_view == self.active_view
                &&& self.same_layout(after)
            } else if layout::view_name(shown, active) is None && v.used >= supply.len() {
                &&& r matches Err(e) && is_out_of_names(e)
                &&& after_used == v.used
                &&& after.buffers@ == told
                &&& after.views@ == shown
                &&& after.active_view == self.active_view
                &&& self.same_layout(after)
            } else {
                let named = layout::view_name(shown, active) is Some;
                let present = if named {
                    shown
                } else {
                    shown.push(view_record(editor, active, supply[v.used]))
                };
                let spent = if named {
                    v.used
                } else {
                    v.used + 1
                };
                let views = view_updated(editor, present, active);
                let n = layout::named_nodes(
                    layout::paths_reached(editor.window_tree, Seq::<usize>::empty(), views),
                    layout::node_views(self.layout_nodes@),
                    supply,
                    spent,
                );
                &&& after.buffers@ == told
                &&& after.views@ == views
                &&& after.active_view == active
                &&& after_used == n.used
                &&& if !n.complete || !layout::all_named(editor.window_tree, views) {
                    &&& r matches Err(e)
                    &&& if n.complete {
                        e is MissingIdentity
                    } else {
                        is_out_of_names(e)
                    }
                    &&& layout::node_views(after.layout_nodes@) == layout::with_new_names(
                        layout::node_views(self.layout_nodes@),
                        n.nodes,
                    )
                    &&& after.layout_tuples == self.layout_tuples
                } else {
                    &&& r is Ok
                    &&& layout::node_views(after.layout_nodes@) == n.nodes
                    &&& after.layout_tuples@ == layout::frame_facts(
                        self.names.frame,
                        editor.window_tree,
                        n.nodes,
                        views,
                    )
                }
            },
        }
    }

    /// Brings the host in step with the editor.
    pub fn synchronize_context(
        &mut self,
        editor: &Editor,
        described: &Vec<DescribedBuffer>,
        supply: &mut IdentitySupply,
    ) -> (r: Result<(), MicaHostError>)
        requires
            old(supply).wf(),
            editor.windows@.contains_key(editor.active_window),
            active_for_policy(*editor) matches Some(view) ==> shows_buffer(*editor, view),
        ensures
            final(supply).wf(),
            final(supply).identities == old(supply).identities,
            old(self).synchronized(
                final(self),
                *editor,
                described@,
                old(supply).identities@,
                old(supply).used as int,
                final(supply).used as int,
                r,
            ),
            r is Ok ==> forall|id: BufferId|
                is_live_buffer(*editor, id) ==> #[trigger] buffer_record(final(self).buffers@, id)
                    is Some,
    {
        let ghost before = *self;
        let ghost from = supply.used as int;
        self.views = keep_views(editor, &self.views);
        keep_buffers(editor, &mut self.buffers);
        let ghost kept = self.buffers@;
        let active = match find_active(editor) {
            Some(active) => active,
            None => return Err(MicaHostError::MissingIdentity),
        };
        if let Some(trouble) = add_buffers(editor, true, &mut self.buffers, described, supply) {
            return Err(to_error(trouble));
        }
        proof {
            assert(records_are_there(*editor, self.buffers@)) by {
                assert forall|id: BufferId| #[trigger] buffer_record(self.buffers@, id)
                    is Some implies editor.buffers@.contains_key(id) by {
                    kept_keeps(*editor, before.buffers@, id);
                    added_keeps(
                        *editor,
                        editor.buffers.order(),
                        true,
                        kept,
                        described@,
                        supply.identities@,
                        from,
                        id,
                    );
                }
            }
        }
        if let Some(trouble) = add_views(editor, true, &mut self.views, &self.buffers, supply) {
            return Err(to_error(trouble));
        }
        let ghost added = self.buffers@;
        refresh_buffers(described, &mut self.buffers);
        proof {
            assert forall|id: BufferId| #[trigger] buffer_record(self.buffers@, id)
                is Some implies editor.buffers@.contains_key(id) by {
                refreshed_keeps(described@, added, id);
                assert(buffer_record(added, id) is Some);
            }
            assert forall|id: BufferId| is_live_buffer(*editor, id) implies
                #[trigger] buffer_record(self.buffers@, id) is Some by {
                assert(buffer_record(added, id) is Some);
                refreshed_keeps(described@, added, id);
            }
        }
        refresh_views(editor, &self.buffers, &mut self.views);
        if find_view_name(&self.views, active).is_none() {
            match supply.next() {
                Some(logical) => {
                    self.views.push(make_view_record(editor, active, logical));
                },
                None => {
                    return Err(out_of_names());
                },
            }
        }
        update_view(editor, &mut self.views, active);
        self.active_view = active;
        match build_layout_tuples(
            self.names.frame,
            &editor.window_tree,
            &self.views,
            &mut self.layout_nodes,
            supply,
        ) {
            Ok(facts) => {
                self.layout_tuples = facts;
                Ok(())
            },
            Err(trouble) => match trouble {
                LayoutTrouble::Nameless => Err(MicaHostError::MissingIdentity),
                LayoutTrouble::NoIdentity => Err(out_of_names()),
            },
        }
    }

    /// Whether each view shows a buffer that has a name.
    pub open spec fn views_show_named(&self) -> bool {
        forall|i: int|
            0 <= i < self.views@.len() ==> buffer_record(
                self.buffers@,
                (#[trigger] self.views@[i]).buffer,
            ) is Some
    }

    pub fn knows_its_buffers(&self) -> (r: bool)
        ensures
            r == self.views_show_named(),
    {
        let mut i: usize = 0;
        while i < self.views.len()
            invariant
                i <= self.views@.len(),
                forall|k: int|
                    0 <= k < i ==> buffer_record(
                        self.buffers@,
                        (#[trigger] self.views@[k]).buffer,
                    ) is Some,
            decreases self.views.len() - i,
        {
            if find_buffer(&self.buffers, self.views[i].buffer).is_none() {
                assert(buffer_record(self.buffers@, self.views@[i as int].buffer) is None);
                return false;
            }
            i = i + 1;
        }
        true
    }

    /// The facts on the session.
    pub open spec fn session_facts(&self) -> Seq<facts::FactView> {
        let n = self.names;
        seq![
            facts::fact1("roe/EditorSession"@, facts::named(n.session)),
            facts::fact2("roe/SessionActor"@, facts::named(n.session), facts::named(n.actor)),
            facts::fact2(
                "roe/SessionEndpoint"@,
                facts::named(n.session),
                facts::named(n.endpoint),
            ),
            facts::fact1("roe/Frame"@, facts::named(n.frame)),
            facts::fact2("roe/SessionFrame"@, facts::named(n.session), facts::named(n.frame)),
            facts::fact2("roe/ActorRole"@, facts::named(n.actor), facts::named(n.editor_role)),
            facts::fact3(
                "roe/SessionKeymap"@,
                facts::named(n.session),
                facts::named(n.global_map),
                facts::counted(100),
            ),
        ]
    }

    /// The fact on the active view, if it has a name.
    pub open spec fn active_facts(&self) -> Seq<facts::FactView> {
        match layout::view_name(self.views@, self.active_view) {
            Some(view) => seq![
                facts::fact2(
                    "roe/ActiveView"@,
                    facts::named(self.names.session),
                    facts::named(view),
                ),
            ],
            None => Seq::<facts::FactView>::empty(),
        }
    }

    /// The facts on buffers. When a session is opened, those on the file of a
    /// buffer stand in front of those on its state.
    pub open spec fn buffer_facts(&self, records: Seq<BufferRecord>, opening: bool) -> Seq<
        facts::FactView,
    >
        decreases records.len(),
    {
        if records.len() == 0 {
            seq![]
        } else {
            let b = records.last();
            let before = self.buffer_facts(records.drop_last(), opening);
            if opening {
                before + facts::kind_facts(b) + facts::file_facts(b) + facts::state_facts(
                    b,
                    self.names.actor,
                )
            } else {
                before + facts::kind_facts(b) + facts::state_facts(b, self.names.actor)
                    + facts::file_facts(b)
            }
        }
    }

    /// The facts on views.
    pub open spec fn view_facts(&self, records: Seq<ViewRecord>) -> Seq<facts::FactView>
        decreases records.len(),
    {
        if records.len() == 0 {
            seq![]
        } else {
            let v = records.last();
            self.view_facts(records.drop_last()) + facts::view_facts(
                v,
                buffer_record(self.buffers@, v.buffer)->0.logical,
            )
        }
    }

    /// All that is told of the editor.
    pub open spec fn context_facts(&self) -> Seq<facts::FactView> {
        self.session_facts() + facts::source_facts(
            self.names.source_repository,
            self.names.source_revision,
            self.source_root@,
        ) + self.active_facts() + self.buffer_facts(self.buffers@, false) + self.view_facts(
            self.views@,
        ) + facts::layout_views(self.layout_tuples@)
    }

    /// All that is told when a session is opened.
    pub open spec fn opening_facts(&self) -> Seq<facts::FactView> {
        self.session_facts() + self.active_facts() + facts::source_facts(
            self.names.source_repository,
            self.names.source_revision,
            self.source_root@,
        ) + self.buffer_facts(self.buffers@, true) + self.view_facts(self.views@)
            + facts::layout_views(self.layout_tuples@)
    }

    fn say_session(&self, facts: &mut Vec<Fact>)
        ensures
            facts::fact_views(final(facts)@) == facts::fact_views(old(facts)@)
                + self.session_facts(),
    {
        let ghost before = facts::fact_views(facts@);
        let n = self.names;
        say1(facts, "roe/EditorSession", name_value(n.session));
        say2(facts, "roe/SessionActor", name_value(n.session), name_value(n.actor));
        say2(facts, "roe/SessionEndpoint", name_value(n.session), name_value(n.endpoint));
        say1(facts, "roe/Frame", name_value(n.frame));
        say2(facts, "roe/SessionFrame", name_value(n.session), name_value(n.frame));
        say2(facts, "roe/ActorRole", name_value(n.actor), name_value(n.editor_role));
        say3(
            facts,
            "roe/SessionKeymap",
            name_value(n.session),
            name_value(n.global_map),
            int_value(100),
        );
        assert(facts::fact_views(facts@) =~= before + self.session_facts());
    }

    fn say_active(&self, facts: &mut Vec<Fact>)
        ensures
            facts::fact_views(final(facts)@) == facts::fact_views(old(facts)@)
                + self.active_facts(),
    {
        let ghost before = facts::fact_views(facts@);
        match find_view_name(&self.views, self.active_view) {
            Some(view) => {
                say2(
                    facts,
                    "roe/ActiveView",
                    name_value(self.names.session),
                    name_value(view),
                );
            },
            None => (),
        }
        assert(facts::fact_views(facts@) =~= before + self.active_facts());
    }

    fn say_buffers(&self, facts: &mut Vec<Fact>, opening: bool)
        ensures
            facts::fact_views(final(facts)@) == facts::fact_views(old(facts)@)
                + self.buffer_facts(self.buffers@, opening),
    {
        let ghost before = facts::fact_views(facts@);
        let ghost all = self.buffers@;
        let mut i: usize = 0;
        assert(all.take(0) =~= seq![]);
        assert(before + self.buffer_facts(all.take(0), opening) =~= before);
        while i < self.buffers.len()
            invariant
                i <= self.buffers@.len(),
                all == self.buffers@,
                facts::fact_views(facts@) == before + self.buffer_facts(
                    all.take(i as int),
                    opening,
                ),
            decreases self.buffers.len() - i,
        {
            let ghost so_far = self.buffer_facts(all.take(i as int), opening);
            assert(all.take(i + 1).drop_last() =~= all.take(i as int));
            assert(all.take(i + 1).last() == all[i as int]);
            let b = &self.buffers[i];
            say_kind(facts, b);
            if opening {
                say_file(facts, b);
                say_state(facts, b, self.names.actor);
            } else {
                say_state(facts, b, self.names.actor);
                say_file(facts, b);
            }
            assert(facts::fact_views(facts@) =~= before + self.buffer_facts(
                all.take(i + 1),
                opening,
            ));
            i = i + 1;
        }
        assert(all.take(i as int) =~= all);
    }

    fn say_views(&self, facts: &mut Vec<Fact>)
        requires
            self.views_show_named(),
        ensures
            facts::fact_views(final(facts)@) == facts::fact_views(old(facts)@) + self.view_facts(
                self.views@,
            ),
    {
        let ghost before = facts::fact_views(facts@);
        let ghost all = self.views@;
        let mut i: usize = 0;
        assert(all.take(0) =~= seq![]);
        assert(before + self.view_facts(all.take(0)) =~= before);
        while i < self.views.len()
            invariant
                i <= self.views@.len(),
                all == self.views@,
                self.views_show_named(),
                facts::fact_views(facts@) == before + self.view_facts(all.take(i as int)),
            decreases self.views.len() - i,
        {
            assert(all.take(i + 1).drop_last() =~= all.take(i as int));
            assert(all.take(i + 1).last() == all[i as int]);
            let v = self.views[i];
            assert(buffer_record(self.buffers@, self.views@[i as int].buffer) is Some);
            match find_buffer(&self.buffers, v.buffer) {
                Some(b) => {
                    say_view(facts, &v, self.buffers[b].logical);
                },
                None => (),
            }
            assert(facts::fact_views(facts@) =~= before + self.view_facts(all.take(i + 1)));
            i = i + 1;
        }
        assert(all.take(i as int) =~= all);
    }

    /// All that is told of the editor.
    pub fn volatile_context_facts(&self) -> (r: Vec<Fact>)
        requires
            self.views_show_named(),
        ensures
            facts::fact_views(r@) == self.context_facts(),
    {
        let mut facts: Vec<Fact> = Vec::new();
        assert(facts::fact_views(facts@) =~= seq![]);
        self.say_session(&mut facts);
        source_context_facts(
            &mut facts,
            self.names.source_repository,
            self.names.source_revision,
            self.source_root.as_str(),
        );
        self.say_active(&mut facts);
        self.say_buffers(&mut facts, false);
        self.say_views(&mut facts);
        say_layout(&mut facts, &self.layout_tuples);
        assert(facts::fact_views(facts@) =~= self.context_facts());
        facts
    }

    /// All that is told when a session is opened.
    pub fn opening_context_facts(&self) -> (r: Vec<Fact>)
        requires
            self.views_show_named(),
        ensures
            facts::fact_views(r@) == self.opening_facts(),
    {
        let mut facts: Vec<Fact> = Vec::new();
        assert(facts::fact_views(facts@) =~= seq![]);
        self.say_session(&mut facts);
        self.say_active(&mut facts);
        source_context_facts(
            &mut facts,
            self.names.source_repository,
            self.names.source_revision,
            self.source_root.as_str(),
        );
        self.say_buffers(&mut facts, true);
        self.say_views(&mut facts);
        say_layout(&mut facts, &self.layout_tuples);
        assert(facts::fact_views(facts@) =~= self.opening_facts());
        facts
    }
}

// --- Laws ---

/// The record of a buffer in records with one more.
proof fn record_behind(records: Seq<BufferRecord>, b: BufferRecord, id: BufferId)
    ensures
        buffer_record(records.push(b), id) == match buffer_record(records, id) {
            Some(r) => Some(r),
            None => if b.id == id {
                Some(b)
            } else {
                None
            },
        },
    decreases records.len(),
{
    let all = records.push(b);
    if records.len() > 0 {
        assert(all[0] == records[0]);
        assert(all.skip(1) =~= records.skip(1).push(b));
        record_behind(records.skip(1), b, id);
    } else {
        assert(all.skip(1) =~= Seq::<BufferRecord>::empty());
        assert(buffer_record(all.skip(1), id) is None);
    }
}

pub(crate) proof fn kept_keeps(editor: Editor, records: Seq<BufferRecord>, id: BufferId)
    ensures
        is_live_buffer(editor, id) ==> buffer_record(buffers_kept(editor, records), id)
            == buffer_record(records, id),
        !is_live_buffer(editor, id) ==> buffer_record(buffers_kept(editor, records), id) is None,
    decreases records.len(),
{
    if records.len() > 0 {
        let rest = records.drop_last();
        kept_keeps(editor, rest, id);
        assert(rest.push(records.last()) =~= records);
        record_behind(rest, records.last(), id);
        record_behind(buffers_kept(editor, rest), records.last(), id);
    }
}

pub(crate) proof fn added_keeps(
    editor: Editor,
    ids: Seq<BufferId>,
    live_only: bool,
    records: Seq<BufferRecord>,
    described: Seq<DescribedBuffer>,
    supply: Seq<Identity>,
    used: int,
    id: BufferId,
)
    ensures
        ({
            let after = buffers_added(editor, ids, live_only, records, described, supply, used);
            &&& buffer_record(records, id) is Some ==> buffer_record(after.records, id)
                == buffer_record(records, id)
            &&& after.trouble is None && ids.contains(id) && (!live_only || is_live_buffer(
                editor,
                id,
            )) ==> buffer_record(after.records, id) is Some
            &&& live_only && !is_live_buffer(editor, id) && buffer_record(records, id) is None
                ==> buffer_record(after.records, id) is None
        }),
    decreases ids.len(),
{
    if ids.len() > 0 {
        let rest = ids.drop_last();
        added_keeps(editor, rest, live_only, records, described, supply, used, id);
        let before = buffers_added(editor, rest, live_only, records, described, supply, used);
        let after = buffers_added(editor, ids, live_only, records, described, supply, used);
        if after.records.len() > before.records.len() {
            record_behind(before.records, after.records.last(), id);
            assert(after.records =~= before.records.push(after.records.last()));
        }
        if ids.contains(id) {
            let k = ids.index_of(id);
            if k < rest.len() {
                assert(rest[k] == id);
            }
        }
    }
}

pub(crate) proof fn refreshed_keeps(described: Seq<DescribedBuffer>, records: Seq<BufferRecord>, id: BufferId)
    ensures
        match buffer_record(records, id) {
            Some(b) => buffer_record(buffers_refreshed(described, records), id) == Some(
                described_anew(described, b),
            ),
            None => buffer_record(buffers_refreshed(described, records), id) is None,
        },
    decreases records.len(),
{
    if records.len() > 0 {
        let after = buffers_refreshed(described, records);
        assert(after[0] == described_anew(described, records[0]));
        assert(after.skip(1) =~= buffers_refreshed(described, records.skip(1)));
        refreshed_keeps(described, records.skip(1), id);
    }
}

/// A buffer that stays keeps its names and its resource when the host is brought
/// in step with the editor, and a buffer that is gone loses them.
pub proof fn names_of_buffers_stay(
    before: MicaHost,
    after: MicaHost,
    editor: Editor,
    described: Seq<DescribedBuffer>,
    supply: Seq<Identity>,
    used: int,
    after_used: int,
    id: BufferId,
)
    requires
        before.synchronized(
            &after,
            editor,
            described,
            supply,
            used,
            after_used,
            Ok::<(), MicaHostError>(()),
        ),
    ensures
        is_live_buffer(editor, id) ==> (buffer_record(before.buffers@, id) matches Some(b)
            ==> buffer_record(after.buffers@, id) matches Some(c) && c.logical == b.logical
            && c.native == b.native && c.resource == b.resource),
        !is_live_buffer(editor, id) ==> buffer_record(after.buffers@, id) is None,
{
    let kept = buffers_kept(editor, before.buffers@);
    let b = buffers_added(
        editor,
        editor.buffers.order(),
        true,
        kept,
        described,
        supply,
        used,
    );
    kept_keeps(editor, before.buffers@, id);
    added_keeps(editor, editor.buffers.order(), true, kept, described, supply, used, id);
    refreshed_keeps(described, b.records, id);
}

} // verus!
