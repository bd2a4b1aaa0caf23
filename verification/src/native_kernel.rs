//! Resources that are handed out under numbers, and what may be done to them.
//!
//! The kernel knows no commands, keys or modes. It holds texts under numbers
//! that go stale when the text is closed, and does only what was granted.

use vstd::prelude::*;
use vstd::string::*;

use crate::buffer::{Buffer, BufferInner};
use crate::native_io::{capability, IoOwner, IoRequest};
use crate::text::{concat2, concat3, decimal_string, str_eq};
use crate::{buffer, native_io, rope, text, undo};

verus! {

/// The most resources that are held at once.
pub const MAX_NATIVE_RESOURCES: usize = 1_024;

/// The most entries of a directory that are listed.
pub const MAX_DIRECTORY_ENTRIES: usize = 256;

/// The most views of a layout.
pub const MAX_LAYOUT_VIEWS: usize = 64;

/// The number of a resource. The generation tells the resources apart that were
/// in one slot after each other.
#[derive(Debug, Clone, Copy, PartialEq, Eq, Structural, Hash)]
pub struct ResourceId {
    pub slot: u32,
    pub generation: u32,
}

/// The number of a view.
#[derive(Debug, Clone, Copy, PartialEq, Eq, Structural, Hash)]
pub struct ViewId(pub u64);

/// What can be granted.
#[derive(Debug, Clone, Copy, PartialEq, Eq, Structural)]
pub enum Capability {
    TextRead,
    TextWrite,
    Layout,
    FileRead,
    FileWrite,
    ClockRead,
    ProcessSpawn,
    Watch,
    MicaEvaluate,
    MicaFilein,
}

impl Capability {
    /// The place among all, in the order in which they are declared.
    pub open spec fn rank(self) -> int {
        match self {
            Capability::TextRead => 0,
            Capability::TextWrite => 1,
            Capability::Layout => 2,
            Capability::FileRead => 3,
            Capability::FileWrite => 4,
            Capability::ClockRead => 5,
            Capability::ProcessSpawn => 6,
            Capability::Watch => 7,
            Capability::MicaEvaluate => 8,
            Capability::MicaFilein => 9,
        }
    }

    pub open spec fn spelled(self) -> Seq<char> {
        match self {
            Capability::TextRead => "TextRead"@,
            Capability::TextWrite => "TextWrite"@,
            Capability::Layout => "Layout"@,
            Capability::FileRead => "FileRead"@,
            Capability::FileWrite => "FileWrite"@,
            Capability::ClockRead => "ClockRead"@,
            Capability::ProcessSpawn => "ProcessSpawn"@,
            Capability::Watch => "Watch"@,
            Capability::MicaEvaluate => "MicaEvaluate"@,
            Capability::MicaFilein => "MicaFilein"@,
        }
    }

    /// The name of the capability.
    pub fn name(&self) -> (r: &'static str)
        ensures
            r@ == self.spelled(),
    {
        match self {
            Capability::TextRead => "TextRead",
            Capability::TextWrite => "TextWrite",
            Capability::Layout => "Layout",
            Capability::FileRead => "FileRead",
            Capability::FileWrite => "FileWrite",
            Capability::ClockRead => "ClockRead",
            Capability::ProcessSpawn => "ProcessSpawn",
            Capability::Watch => "Watch",
            Capability::MicaEvaluate => "MicaEvaluate",
            Capability::MicaFilein => "MicaFilein",
        }
    }
}

/// What was granted when a session was opened: each capability at most once, in
/// the order in which they are declared.
#[derive(Debug, Clone, PartialEq, Eq)]
pub struct CapabilityGrants {
    pub grants: Vec<Capability>,
}

impl CapabilityGrants {
    pub open spec fn wf(&self) -> bool {
        forall|i: int, j: int|
            0 <= i < j < self.grants@.len() ==> (#[trigger] self.grants@[i]).rank() < (
            #[trigger] self.grants@[j]).rank()
    }

    /// Whether a capability was granted.
    pub open spec fn holds(&self, capability: Capability) -> bool {
        self.grants@.contains(capability)
    }

    fn take(&mut self, from: &Vec<Capability>, capability: Capability)
        requires
            old(self).wf(),
            forall|c: Capability| old(self).holds(c) ==> c.rank() < capability.rank(),
        ensures
            final(self).wf(),
            forall|c: Capability|
                final(self).holds(c) <==> old(self).holds(c) || (c == capability
                    && from@.contains(c)),
    {
        let mut i: usize = 0;
        while i < from.len()
            invariant
                i <= from@.len(),
                forall|k: int| 0 <= k < i ==> from@[k] != capability,
                *self == *old(self),
                old(self).wf(),
                forall|c: Capability| old(self).holds(c) ==> c.rank() < capability.rank(),
            decreases from.len() - i,
        {
            if from[i] == capability {
                let ghost before = self.grants@;
                self.grants.push(capability);
                proof {
                    assert(from@.contains(capability));
                    assert forall|c: Capability|
                        self.holds(c) <==> old(self).holds(c) || c == capability by {
                        if self.holds(c) {
                            let k = self.grants@.index_of(c);
                            assert(self.grants@[k] == c);
                            if k < before.len() {
                                assert(before[k] == c);
                            }
                        }
                        if old(self).holds(c) {
                            let k = before.index_of(c);
                            assert(self.grants@[k] == c);
                        }
                        assert(self.grants@[before.len() as int] == capability);
                    }
                    assert forall|x: int, y: int| 0 <= x < y < self.grants@.len() implies (
                    #[trigger] self.grants@[x]).rank() < (#[trigger] self.grants@[y]).rank() by {
                        if y == before.len() {
                            assert(old(self).holds(before[x]));
                        } else {
                            assert(before[x].rank() < before[y].rank());
                        }
                    }
                }
                return;
            }
            i = i + 1;
        }
    }

    pub fn new(grants: Vec<Capability>) -> (r: Self)
        ensures
            r.wf(),
            forall|c: Capability| r.holds(c) <==> grants@.contains(c),
    {
        let mut r = CapabilityGrants { grants: Vec::new() };
        r.take(&grants, Capability::TextRead);
        r.take(&grants, Capability::TextWrite);
        r.take(&grants, Capability::Layout);
        r.take(&grants, Capability::FileRead);
        r.take(&grants, Capability::FileWrite);
        r.take(&grants, Capability::ClockRead);
        r.take(&grants, Capability::ProcessSpawn);
        r.take(&grants, Capability::Watch);
        r.take(&grants, Capability::MicaEvaluate);
        r.take(&grants, Capability::MicaFilein);
        r
    }

    /// What an editor is granted: all there is.
    pub fn editor_default() -> (r: Self)
        ensures
            r.wf(),
            forall|c: Capability| #[trigger] r.holds(c),
    {
        let all: Vec<Capability> = vec![
            Capability::TextRead,
            Capability::TextWrite,
            Capability::Layout,
            Capability::FileRead,
            Capability::FileWrite,
            Capability::ClockRead,
            Capability::ProcessSpawn,
            Capability::Watch,
            Capability::MicaEvaluate,
            Capability::MicaFilein,
        ];
        assert forall|c: Capability| all@.contains(c) by {
            assert(all@[c.rank()] == c);
        }
        CapabilityGrants::new(all)
    }

    pub fn contains(&self, capability: Capability) -> (r: bool)
        ensures
            r == self.holds(capability),
    {
        let mut i: usize = 0;
        while i < self.grants.len()
            invariant
                i <= self.grants@.len(),
                forall|k: int| 0 <= k < i ==> self.grants@[k] != capability,
            decreases self.grants.len() - i,
        {
            if self.grants[i] == capability {
                return true;
            }
            i = i + 1;
        }
        false
    }
}

#[derive(Debug, Clone, Copy, PartialEq, Eq, Structural)]
pub struct TextSelection {
    pub anchor: usize,
    pub active: usize,
}

/// A text as it was at a moment.
#[derive(Debug, Clone, PartialEq, Eq)]
pub struct TextSnapshot {
    pub resource: ResourceId,
    pub name: String,
    pub visited_file: Option<String>,
    pub text_revision: u64,
    pub last_saved_revision: u64,
    pub modified: bool,
    pub read_only: bool,
    pub text: String,
    pub character_len: usize,
    pub line_count: usize,
    pub selection: Option<TextSelection>,
}

/// A hint that a watched file may have changed.
#[derive(Debug, Clone, PartialEq, Eq)]
pub struct NativeWatchNotification {
    pub resource: ResourceId,
    pub path: String,
}

#[derive(Debug, Clone, PartialEq, Eq)]
pub struct NativeDirectoryEntry {
    pub name: String,
    pub path: String,
    pub is_directory: bool,
}

#[derive(Debug, PartialEq, Eq)]
pub enum LayoutNode {
    View(ViewId),
    Split {
        axis: SplitAxis,
        /// The bits of a single-precision number: how much the first part gets.
        ratio: u32,
        first: Box<LayoutNode>,
        second: Box<LayoutNode>,
    },
}

#[derive(Debug, Clone, Copy, PartialEq, Eq, Structural)]
pub enum SplitAxis {
    Horizontal,
    Vertical,
}

#[derive(Debug, PartialEq, Eq)]
pub struct LogicalLayout {
    pub columns: u16,
    pub rows: u16,
    pub active: ViewId,
    pub root: LayoutNode,
}

/// What the kernel can be asked for. These are mechanisms, not commands.
#[derive(Debug, PartialEq, Eq)]
pub enum NativeOperation {
    CreateText { name: String, initial: String },
    CloseResource { resource: ResourceId },
    Snapshot { resource: ResourceId },
    Insert { resource: ResourceId, at: usize, text: String },
    Delete { resource: ResourceId, start: usize, end: usize },
    Replace { resource: ResourceId, start: usize, end: usize, text: String },
    SetSelection { resource: ResourceId, selection: Option<TextSelection> },
    Undo { resource: ResourceId },
    Redo { resource: ResourceId },
    ValidateLayout { layout: LogicalLayout },
    ReadFile { path: String },
    ListDirectory { path: String },
    WriteFile { path: String, contents: String },
    ReadClockMillis,
    SpawnProcess { program: String, args: Vec<String> },
    RegisterWatch { resource: ResourceId, path: String },
    UnregisterWatch { resource: ResourceId },
}

#[derive(Debug, PartialEq, Eq)]
pub enum NativeResult {
    ResourceCreated(ResourceId),
    ResourceClosed,
    Snapshot(TextSnapshot),
    TextChanged {
        resource: ResourceId,
        character_len: usize,
        line_count: usize,
        selection: Option<TextSelection>,
    },
    LayoutValidated,
    FileContents(String),
    DirectoryEntries { directory: String, entries: Vec<NativeDirectoryEntry> },
    FileWritten,
    ClockMillis(u64),
    ProcessOutput { status: Option<i32>, stdout: Vec<u8>, stderr: Vec<u8> },
    WatchRegistered,
    WatchUnregistered,
}

/// How an operation outside of the kernel went wrong.
#[derive(Debug, Clone, Copy, PartialEq, Eq, Structural)]
pub enum IoErrorKind {
    Interrupted,
    InvalidData,
    Other,
}

#[derive(Debug, PartialEq, Eq)]
pub enum KernelError {
    CapabilityDenied(Capability),
    StaleResource(ResourceId),
    ResourceExhausted { capacity: usize },
    InvalidRange { start: usize, end: usize, len: usize },
    ReadOnly(ResourceId),
    InvalidLayout(String),
    Io { kind: IoErrorKind, message: String },
    IoLimit(String),
    IoRequired,
    Watch(String),
    Cleanup(String),
}

/// A resource number in words.
pub open spec fn id_told(id: ResourceId) -> Seq<char> {
    "ResourceId { slot: "@ + text::decimal(id.slot as nat) + ", generation: "@ + text::decimal(
        id.generation as nat,
    ) + " }"@
}

pub(crate) fn tell_id(id: ResourceId) -> (r: String)
    ensures
        r@ == id_told(id),
{
    let mut r = "ResourceId { slot: ".to_owned();
    r.append(decimal_string(id.slot as u64).as_str());
    r.append(", generation: ");
    r.append(decimal_string(id.generation as u64).as_str());
    r.append(" }");
    r
}

impl KernelError {
    /// The error, in words.
    pub open spec fn told(&self) -> Seq<char> {
        match self {
            KernelError::CapabilityDenied(c) => "native capability "@ + c.spelled()
                + " was not granted"@,
            KernelError::StaleResource(id) => "native resource "@ + id_told(*id)
                + " is stale or unknown"@,
            KernelError::ResourceExhausted { capacity } => "native resource capacity of "@
                + text::decimal(*capacity as nat) + " is exhausted"@,
            KernelError::InvalidRange { start, end, len } => "text range "@ + text::decimal(
                *start as nat,
            ) + ".."@ + text::decimal(*end as nat) + " is outside resource length "@
                + text::decimal(*len as nat),
            KernelError::ReadOnly(id) => "native text resource "@ + id_told(*id)
                + " is read-only"@,
            KernelError::InvalidLayout(m) => "invalid logical layout: "@ + m@,
            KernelError::Io { message, .. } => "native I/O operation failed: "@ + message@,
            KernelError::IoLimit(m) => "native I/O exceeds its bound: "@ + m@,
            KernelError::IoRequired =>
                "external I/O requires an owned asynchronous native request"@,
            KernelError::Watch(m) => "native file-watch operation failed: "@ + m@,
            KernelError::Cleanup(m) => "native resource was revoked, but cleanup failed: "@ + m@,
        }
    }

    /// The error, in words.
    pub fn message(&self) -> (r: String)
        ensures
            r@ == self.told(),
    {
        match self {
            KernelError::CapabilityDenied(c) => concat3(
                "native capability ",
                c.name(),
                " was not granted",
            ),
            KernelError::StaleResource(id) => concat3(
                "native resource ",
                tell_id(*id).as_str(),
                " is stale or unknown",
            ),
            KernelError::ResourceExhausted { capacity } => concat3(
                "native resource capacity of ",
                decimal_string(*capacity as u64).as_str(),
                " is exhausted",
            ),
            KernelError::InvalidRange { start, end, len } => {
                let mut r = concat3(
                    "text range ",
                    decimal_string(*start as u64).as_str(),
                    "..",
                );
                r.append(decimal_string(*end as u64).as_str());
                r.append(" is outside resource length ");
                r.append(decimal_string(*len as u64).as_str());
                r
            },
            KernelError::ReadOnly(id) => concat3(
                "native text resource ",
                tell_id(*id).as_str(),
                " is read-only",
            ),
            KernelError::InvalidLayout(m) => concat2("invalid logical layout: ", m.as_str()),
            KernelError::Io { kind: _, message } => concat2(
                "native I/O operation failed: ",
                message.as_str(),
            ),
            KernelError::IoLimit(m) => concat2("native I/O exceeds its bound: ", m.as_str()),
            KernelError::IoRequired => 
                "external I/O requires an owned asynchronous native request".to_owned(),
            KernelError::Watch(m) => concat2("native file-watch operation failed: ", m.as_str()),
            KernelError::Cleanup(m) => concat2(
                "native resource was revoked, but cleanup failed: ",
                m.as_str(),
            ),
        }
    }
}

// --- Layouts ---

impl LayoutNode {
    /// The views, in order.
    pub open spec fn views(self) -> Seq<ViewId>
        decreases self,
    {
        match self {
            LayoutNode::View(v) => seq![v],
            LayoutNode::Split { first, second, .. } => first.views() + second.views(),
        }
    }

    /// The least number of columns and rows that show all views.
    pub open spec fn least_size(self) -> (u16, u16)
        decreases self,
    {
        match self {
            LayoutNode::View(_) => (4, 4),
            LayoutNode::Split { axis, first, second, .. } => {
                let a = first.least_size();
                let b = second.least_size();
                match axis {
                    SplitAxis::Horizontal => (greater(a.0, b.0), capped(a.1, b.1)),
                    SplitAxis::Vertical => (capped(a.0, b.0), greater(a.1, b.1)),
                }
            },
        }
    }

    /// The first thing that is wrong below this node, where `before` are the
    /// views in front of it.
    pub open spec fn fault(self, before: Seq<ViewId>) -> Option<LayoutFault>
        decreases self,
    {
        match self {
            LayoutNode::View(v) => if before.contains(v) {
                Some(LayoutFault::ViewTwice)
            } else {
                None
            },
            LayoutNode::Split { ratio, first, second, .. } => if !is_proper_ratio(ratio) {
                Some(LayoutFault::BadRatio)
            } else {
                match first.fault(before) {
                    Some(f) => Some(f),
                    None => second.fault(before + first.views()),
                }
            },
        }
    }
}

/// The greater of two numbers.
pub open spec fn greater(a: u16, b: u16) -> u16 {
    if a >= b {
        a
    } else {
        b
    }
}

/// A sum, as far as it fits.
pub open spec fn capped(a: u16, b: u16) -> u16 {
    if a + b <= u16::MAX {
        (a + b) as u16
    } else {
        u16::MAX
    }
}

/// Whether bits stand for a single-precision number between 0 and 1 that is
/// neither.
pub open spec fn is_proper_ratio(bits: u32) -> bool {
    0 < bits < 0x3f80_0000
}

/// What can be wrong with a layout.
#[derive(Debug, Clone, Copy, PartialEq, Eq, Structural)]
pub enum LayoutFault {
    NoSpace,
    ViewTwice,
    BadRatio,
    TooManyViews,
    TooSmall { columns: u16, rows: u16 },
    ActiveMissing,
}

impl LayoutFault {
    /// The fault, in words.
    pub open spec fn told(self) -> Seq<char> {
        match self {
            LayoutFault::NoSpace => "frame dimensions must be non-zero"@,
            LayoutFault::ViewTwice => "a view appears more than once"@,
            LayoutFault::BadRatio =>
                "split ratio must be finite and strictly between zero and one"@,
            LayoutFault::TooManyViews => "layout exceeds the 64-view limit"@,
            LayoutFault::TooSmall { columns, rows } => "layout requires at least "@
                + text::decimal(columns as nat) + "x"@ + text::decimal(rows as nat) + " cells"@,
            LayoutFault::ActiveMissing => "active view is not present in the layout"@,
        }
    }

    fn tell(&self) -> (r: String)
        ensures
            r@ == self.told(),
    {
        match self {
            LayoutFault::NoSpace => "frame dimensions must be non-zero".to_owned(),
            LayoutFault::ViewTwice => "a view appears more than once".to_owned(),
            LayoutFault::BadRatio => 
                "split ratio must be finite and strictly between zero and one".to_owned(),
            LayoutFault::TooManyViews => "layout exceeds the 64-view limit".to_owned(),
            LayoutFault::TooSmall { columns, rows } => {
                let mut r = concat3(
                    "layout requires at least ",
                    decimal_string(*columns as u64).as_str(),
                    "x",
                );
                r.append(decimal_string(*rows as u64).as_str());
                r.append(" cells");
                r
            },
            LayoutFault::ActiveMissing => "active view is not present in the layout".to_owned(),
        }
    }
}

impl LogicalLayout {
    /// The first thing that is wrong with the layout.
    pub open spec fn fault(&self) -> Option<LayoutFault> {
        let least = self.root.least_size();
        if self.columns == 0 || self.rows == 0 {
            Some(LayoutFault::NoSpace)
        } else if self.root.fault(Seq::<ViewId>::empty()) is Some {
            self.root.fault(Seq::<ViewId>::empty())
        } else if self.root.views().len() > MAX_LAYOUT_VIEWS {
            Some(LayoutFault::TooManyViews)
        } else if self.columns < least.0 || self.rows < least.1 {
            Some(LayoutFault::TooSmall { columns: least.0, rows: least.1 })
        } else if !self.root.views().contains(self.active) {
            Some(LayoutFault::ActiveMissing)
        } else {
            None
        }
    }
}

fn minimum_layout_size(node: &LayoutNode) -> (r: (u16, u16))
    ensures
        r == node.least_size(),
    decreases node,
{
    match node {
        LayoutNode::View(_) => (4, 4),
        LayoutNode::Split { axis, ratio: _, first, second } => {
            let a = minimum_layout_size(first);
            let b = minimum_layout_size(second);
            match axis {
                SplitAxis::Horizontal => (
                    if a.0 >= b.0 {
                        a.0
                    } else {
                        b.0
                    },
                    a.1.saturating_add(b.1),
                ),
                SplitAxis::Vertical => (
                    a.0.saturating_add(b.0),
                    if a.1 >= b.1 {
                        a.1
                    } else {
                        b.1
                    },
                ),
            }
        },
    }
}

fn has_view(views: &Vec<ViewId>, view: ViewId) -> (r: bool)
    ensures
        r == views@.contains(view),
{
    let mut i: usize = 0;
    while i < views.len()
        invariant
            i <= views@.len(),
            forall|k: int| 0 <= k < i ==> views@[k] != view,
        decreases views.len() - i,
    {
        if views[i] == view {
            return true;
        }
        i = i + 1;
    }
    false
}

fn validate_layout_node(node: &LayoutNode, views: &mut Vec<ViewId>) -> (r: Option<LayoutFault>)
    ensures
        r == node.fault(old(views)@),
        r is None ==> final(views)@ == old(views)@ + node.views(),
    decreases node,
{
    match node {
        LayoutNode::View(view) => {
            if has_view(views, *view) {
                Some(LayoutFault::ViewTwice)
            } else {
                views.push(*view);
                assert(views@ =~= old(views)@ + seq![*view]);
                None
            }
        },
        LayoutNode::Split { axis: _, ratio, first, second } => {
            if !(0 < *ratio && *ratio < 0x3f80_0000) {
                return Some(LayoutFault::BadRatio);
            }
            match validate_layout_node(first, views) {
                Some(f) => Some(f),
                None => {
                    let r = validate_layout_node(second, views);
                    assert(old(views)@ + first.views() + second.views() =~= old(views)@ + (
                    first.views() + second.views()));
                    r
                },
            }
        },
    }
}

/// Whether a layout can be shown.
pub fn validate_layout(layout: &LogicalLayout) -> (r: Result<(), KernelError>)
    ensures
        match layout.fault() {
            None => r is Ok,
            Some(f) => r matches Err(KernelError::InvalidLayout(m)) && m@ == f.told(),
        },
{
    match find_layout_fault(layout) {
        None => Ok(()),
        Some(f) => Err(KernelError::InvalidLayout(f.tell())),
    }
}

fn find_layout_fault(layout: &LogicalLayout) -> (r: Option<LayoutFault>)
    ensures
        r == layout.fault(),
{
    if layout.columns == 0 || layout.rows == 0 {
        return Some(LayoutFault::NoSpace);
    }
    let mut views: Vec<ViewId> = Vec::new();
    assert(views@ =~= Seq::<ViewId>::empty());
    if let Some(f) = validate_layout_node(&layout.root, &mut views) {
        return Some(f);
    }
    assert(views@ =~= layout.root.views());
    if views.len() > MAX_LAYOUT_VIEWS {
        return Some(LayoutFault::TooManyViews);
    }
    let (columns, rows) = minimum_layout_size(&layout.root);
    if layout.columns < columns || layout.rows < rows {
        return Some(LayoutFault::TooSmall { columns, rows });
    }
    if !has_view(&views, layout.active) {
        return Some(LayoutFault::ActiveMissing);
    }
    None
}

/// The views below a node without a fault differ from each other and from those
/// in front of it.
proof fn sound_node_has_distinct_views(node: LayoutNode, before: Seq<ViewId>)
    requires
        before.no_duplicates(),
        node.fault(before) is None,
    ensures
        (before + node.views()).no_duplicates(),
    decreases node,
{
    match node {
        LayoutNode::View(v) => {
            assert forall|i: int, j: int|
                0 <= i < j < (before + seq![v]).len() implies (before + seq![v])[i] != (before
                + seq![v])[j] by {
                if j == before.len() {
                    assert(before.contains(before[i]));
                }
            }
        },
        LayoutNode::Split { first, second, .. } => {
            sound_node_has_distinct_views(*first, before);
            sound_node_has_distinct_views(*second, before + first.views());
            assert(before + first.views() + second.views() =~= before + (first.views()
                + second.views()));
        },
    }
}

/// A layout that can be shown holds each view once, among them the active one,
/// and has room for all.
pub proof fn sound_layout_shows_each_view_once(layout: LogicalLayout)
    requires
        layout.fault() is None,
    ensures
        layout.root.views().no_duplicates(),
        layout.root.views().contains(layout.active),
        layout.root.views().len() <= MAX_LAYOUT_VIEWS,
        layout.root.least_size().0 <= layout.columns,
        layout.root.least_size().1 <= layout.rows,
{
    sound_node_has_distinct_views(layout.root, Seq::<ViewId>::empty());
    assert(Seq::<ViewId>::empty() + layout.root.views() =~= layout.root.views());
}

// --- Texts ---

/// A text that the kernel holds.
#[derive(Debug)]
pub struct TextResource {
    pub buffer: Buffer,
    pub name: String,
    pub visited_file: Option<String>,
    /// Counts the changes of the text.
    pub text_revision: u64,
    pub last_saved_revision: u64,
    pub read_only: bool,
    pub selection: Option<TextSelection>,
    pub watched_path: Option<String>,
}

/// A position as far as there is text.
pub open spec fn within(pos: usize, len: int) -> usize {
    if pos <= len {
        pos
    } else {
        len as usize
    }
}

/// A selection as far as there is text.
pub open spec fn clamped(selection: Option<TextSelection>, len: int) -> Option<TextSelection> {
    match selection {
        Some(s) => Some(
            TextSelection { anchor: within(s.anchor, len), active: within(s.active, len) },
        ),
        None => None,
    }
}

/// The revision behind this one; the last one has none.
pub open spec fn revised(revision: u64, changed: bool) -> u64 {
    if changed && revision < u64::MAX {
        (revision + 1) as u64
    } else {
        revision
    }
}

/// The steps by which a part of the text of a buffer is replaced: a group
/// opens, the old part goes if there is any, the new one comes, and the group
/// closes.
pub open spec fn part_replaced_through(
    b0: BufferInner,
    opened: BufferInner,
    cut: BufferInner,
    filled: BufferInner,
    b1: BufferInner,
    start: int,
    end: int,
    ins: Seq<char>,
) -> bool {
    &&& buffer::group_begun(b0.undo_manager, opened.undo_manager)
    &&& b0.history_ok() ==> opened.history_ok()
    &&& opened == (BufferInner { undo_manager: opened.undo_manager, ..b0 })
    &&& if start < end {
        opened.deleted(&cut, start, end) && opened.same_mark(&cut)
    } else {
        cut == opened
    }
    &&& cut.inserted(&filled, start, ins)
    &&& cut.same_mark(&filled)
    &&& buffer::group_ended(filled.undo_manager, b1.undo_manager)
    &&& filled.history_ok() ==> b1.history_ok()
    &&& b1 == (BufferInner { undo_manager: b1.undo_manager, ..filled })
}

/// Whether `b1` is the buffer `b0` with a part of its text replaced, in one
/// group.
pub open spec fn part_replaced(
    b0: BufferInner,
    b1: BufferInner,
    start: int,
    end: int,
    ins: Seq<char>,
) -> bool {
    &&& b1.text() == undo::spliced(undo::cut(b0.text(), start, end), start, ins)
    &&& exists|opened: BufferInner, cut: BufferInner, filled: BufferInner| #[trigger]
        part_replaced_through(b0, opened, cut, filled, b1, start, end, ins)
}

/// What an undo does to a buffer, if there is something to undo.
pub open spec fn step_back(b0: BufferInner, b1: BufferInner) -> bool {
    &&& b0.history_ok() ==> b1.history_ok()
    &&& b0.same_settings(&b1)
    &&& b0.same_mark(&b1)
    &&& if can_step_back(b0) {
        b0.undone(&b1, buffer::cursor_before(b1.undo_manager.redo_stack@.last()))
    } else {
        &&& b1.text() == b0.text()
        &&& b1.spans@ == b0.spans@
        &&& b1.undo_manager.redo_stack@ == b0.undo_manager.redo_stack@
        &&& b1.undo_manager.undo_stack@.len() == 0
        &&& b1.undo_manager.pending@.len() == 0
    }
}

pub open spec fn can_step_back(b: BufferInner) -> bool {
    b.undo_manager.pending@.len() + b.undo_manager.undo_stack@.len() > 0
}

/// What a redo does to a buffer, if there is something to redo.
pub open spec fn step_forward(b0: BufferInner, b1: BufferInner) -> bool {
    &&& b0.history_ok() ==> b1.history_ok()
    &&& b0.same_settings(&b1)
    &&& b0.same_mark(&b1)
    &&& if b0.undo_manager.redo_stack@.len() > 0 {
        exists|cursor: int| #[trigger] b0.redone(&b1, cursor)
    } else {
        &&& b1.text() == b0.text()
        &&& b1.spans@ == b0.spans@
        &&& b1.undo_manager.undo_stack@ == b0.undo_manager.undo_stack@
        &&& b1.undo_manager.pending@ == b0.undo_manager.pending@
    }
}

/// Whether an error says that a range is not in a text.
pub open spec fn out_of_range(
    r: Result<NativeResult, KernelError>,
    start: usize,
    end: usize,
    len: int,
) -> bool {
    r matches Err(KernelError::InvalidRange { start: s, end: e, len: l }) && s == start && e
        == end && l == len
}

impl TextResource {
    /// How long the text is.
    pub open spec fn len(&self) -> int {
        self.buffer.text().len() as int
    }

    /// Whether the selection lies in the text.
    pub open spec fn selects_text(&self) -> bool {
        self.selection matches Some(s) ==> s.anchor <= self.len() && s.active <= self.len()
    }

    /// Whether an operation can be done: one that walks the history must find
    /// its positions in the text.
    pub open spec fn can_handle(&self, op: NativeOperation) -> bool {
        match op {
            NativeOperation::Undo { .. } => self.read_only || self.buffer.inner.undo_fits(),
            NativeOperation::Redo { .. } => self.read_only || self.buffer.inner.redo_fits(),
            _ => true,
        }
    }

    pub open spec fn is_modified(&self) -> bool {
        self.text_revision != self.last_saved_revision
    }

    /// Whether a result tells of this text.
    pub open spec fn reported(&self, id: ResourceId, r: Result<NativeResult, KernelError>) -> bool {
        r matches Ok(NativeResult::TextChanged { resource, character_len, line_count, selection })
            && resource == id && character_len == self.len() && line_count == rope::line_count(
            self.buffer.text(),
        ) && selection == self.selection
    }

    /// Whether an operation on this text leads to `after` and to `r`.
    pub open spec fn handled(
        &self,
        after: &Self,
        id: ResourceId,
        op: NativeOperation,
        r: Result<NativeResult, KernelError>,
    ) -> bool {
        let b0 = self.buffer.inner;
        let b1 = after.buffer.inner;
        let refused = r == Err::<NativeResult, KernelError>(KernelError::ReadOnly(id)) && *after
            == *self;
        match op {
            NativeOperation::Insert { at, text, .. } => if at > self.len() {
                out_of_range(r, at, at, self.len()) && *after == *self
            } else if self.read_only {
                refused
            } else {
                &&& b0.inserted(&b1, at as int, text@)
                &&& b0.same_mark(&b1)
                &&& *after == (TextResource {
                    buffer: after.buffer,
                    text_revision: revised(self.text_revision, text@.len() > 0),
                    ..*self
                })
                &&& after.reported(id, r)
            },
            NativeOperation::Delete { start, end, .. } => if !(start <= end <= self.len()) {
                out_of_range(r, start, end, self.len()) && *after == *self
            } else if self.read_only {
                if start == end {
                    after.reported(id, r) && *after == *self
                } else {
                    refused
                }
            } else {
                &&& b0.deleted(&b1, start as int, end as int)
                &&& b0.same_mark(&b1)
                &&& *after == (TextResource {
                    buffer: after.buffer,
                    text_revision: revised(self.text_revision, start < end),
                    selection: clamped(self.selection, after.len()),
                    ..*self
                })
                &&& after.reported(id, r)
            },
            NativeOperation::Replace { start, end, text, .. } => if !(start <= end
                <= self.len()) {
                out_of_range(r, start, end, self.len()) && *after == *self
            } else if self.read_only {
                refused
            } else {
                &&& part_replaced(b0, b1, start as int, end as int, text@)
                &&& *after == (TextResource {
                    buffer: after.buffer,
                    text_revision: revised(
                        self.text_revision,
                        start < end || text@.len() > 0,
                    ),
                    selection: clamped(self.selection, after.len()),
                    ..*self
                })
                &&& after.reported(id, r)
            },
            NativeOperation::SetSelection { selection, .. } => match selection {
                Some(s) if s.anchor > self.len() => out_of_range(
                    r,
                    s.anchor,
                    s.anchor,
                    self.len(),
                ) && *after == *self,
                Some(s) if s.active > self.len() => out_of_range(
                    r,
                    s.active,
                    s.active,
                    self.len(),
                ) && *after == *self,
                _ => *after == (TextResource { selection, ..*self }) && after.reported(id, r),
            },
            NativeOperation::Undo { .. } => if self.read_only {
                refused
            } else {
                &&& step_back(b0, b1)
                &&& *after == (TextResource {
                    buffer: after.buffer,
                    text_revision: revised(self.text_revision, can_step_back(b0)),
                    selection: clamped(self.selection, after.len()),
                    ..*self
                })
                &&& after.reported(id, r)
            },
            NativeOperation::Redo { .. } => if self.read_only {
                refused
            } else {
                &&& step_forward(b0, b1)
                &&& *after == (TextResource {
                    buffer: after.buffer,
                    text_revision: revised(
                        self.text_revision,
                        b0.undo_manager.redo_stack@.len() > 0,
                    ),
                    selection: clamped(self.selection, after.len()),
                    ..*self
                })
                &&& after.reported(id, r)
            },
            _ => true,
        }
    }

    /// Whether a snapshot shows this text.
    pub open spec fn shown_by(&self, id: ResourceId, s: TextSnapshot) -> bool {
        &&& s.resource == id
        &&& s.name@ == self.name@
        &&& s.visited_file == self.visited_file
        &&& s.text_revision == self.text_revision
        &&& s.last_saved_revision == self.last_saved_revision
        &&& s.modified == self.is_modified()
        &&& s.read_only == self.read_only
        &&& s.text@ == self.buffer.text()
        &&& s.character_len == self.len()
        &&& s.line_count == rope::line_count(self.buffer.text())
        &&& s.selection == self.selection
    }

    fn snapshot(&self, id: ResourceId) -> (r: TextSnapshot)
        ensures
            self.shown_by(id, r),
    {
        TextSnapshot {
            resource: id,
            name: self.name.clone(),
            visited_file: self.visited_file.clone(),
            text_revision: self.text_revision,
            last_saved_revision: self.last_saved_revision,
            modified: self.text_revision != self.last_saved_revision,
            read_only: self.read_only,
            text: self.buffer.content(),
            character_len: self.buffer.buffer_len_chars(),
            line_count: self.buffer.buffer_len_lines(),
            selection: self.selection,
        }
    }

    fn text_changed(&self, id: ResourceId) -> (r: Result<NativeResult, KernelError>)
        ensures
            self.reported(id, r),
    {
        Ok(
            NativeResult::TextChanged {
                resource: id,
                character_len: self.buffer.buffer_len_chars(),
                line_count: self.buffer.buffer_len_lines(),
                selection: self.selection,
            },
        )
    }

    fn revise(&mut self, changed: bool)
        ensures
            *final(self) == (TextResource {
                text_revision: revised(old(self).text_revision, changed),
                ..*old(self)
            }),
    {
        if changed {
            self.text_revision = self.text_revision.saturating_add(1);
        }
    }

    fn clamp_selection(&mut self)
        ensures
            *final(self) == (TextResource {
                selection: clamped(old(self).selection, old(self).len()),
                ..*old(self)
            }),
    {
        let len = self.buffer.buffer_len_chars();
        match self.selection {
            Some(s) => {
                self.selection =
                Some(
                    TextSelection {
                        anchor: if s.anchor <= len {
                            s.anchor
                        } else {
                            len
                        },
                        active: if s.active <= len {
                            s.active
                        } else {
                            len
                        },
                    },
                );
            },
            None => (),
        }
    }

    fn insert(&mut self, id: ResourceId, at: usize, text: String) -> (r: Result<
        NativeResult,
        KernelError,
    >)
        ensures
            old(self).handled(
                final(self),
                id,
                NativeOperation::Insert { resource: id, at, text },
                r,
            ),
    {
        let len = self.buffer.buffer_len_chars();
        if at > len {
            return Err(KernelError::InvalidRange { start: at, end: at, len });
        }
        if self.read_only {
            return Err(KernelError::ReadOnly(id));
        }
        let changed = text::char_count(text.as_str()) > 0;
        self.buffer.insert_pos(text, at);
        self.revise(changed);
        self.text_changed(id)
    }

    fn delete(&mut self, id: ResourceId, start: usize, end: usize) -> (r: Result<
        NativeResult,
        KernelError,
    >)
        ensures
            old(self).handled(
                final(self),
                id,
                NativeOperation::Delete { resource: id, start, end },
                r,
            ),
    {
        let len = self.buffer.buffer_len_chars();
        if !(start <= end && end <= len) {
            return Err(KernelError::InvalidRange { start, end, len });
        }
        if self.read_only {
            if start == end {
                return self.text_changed(id);
            }
            return Err(KernelError::ReadOnly(id));
        }
        if start == end {
            self.buffer.delete_pos(start, 0);
        } else {
            self.buffer.delete_region_range(start, end);
        }
        self.revise(start < end);
        self.clamp_selection();
        self.text_changed(id)
    }

    fn replace(&mut self, id: ResourceId, start: usize, end: usize, text: String) -> (r: Result<
        NativeResult,
        KernelError,
    >)
        ensures
            old(self).handled(
                final(self),
                id,
                NativeOperation::Replace { resource: id, start, end, text },
                r,
            ),
    {
        let len = self.buffer.buffer_len_chars();
        if !(start <= end && end <= len) {
            return Err(KernelError::InvalidRange { start, end, len });
        }
        if self.read_only {
            return Err(KernelError::ReadOnly(id));
        }
        let changed = start < end || text::char_count(text.as_str()) > 0;
        let ghost b0 = self.buffer.inner;
        self.buffer.begin_undo_group();
        let ghost opened = self.buffer.inner;
        if start != end {
            self.buffer.delete_region_range(start, end);
        }
        let ghost cut = self.buffer.inner;
        assert(cut.text() =~= undo::cut(b0.text(), start as int, end as int));
        self.buffer.insert_pos(text, start);
        let ghost filled = self.buffer.inner;
        self.buffer.end_undo_group();
        assert(part_replaced_through(
            b0,
            opened,
            cut,
            filled,
            self.buffer.inner,
            start as int,
            end as int,
            text@,
        ));
        self.revise(changed);
        self.clamp_selection();
        self.text_changed(id)
    }

    fn set_selection(&mut self, id: ResourceId, selection: Option<TextSelection>) -> (r: Result<
        NativeResult,
        KernelError,
    >)
        ensures
            old(self).handled(
                final(self),
                id,
                NativeOperation::SetSelection { resource: id, selection },
                r,
            ),
    {
        if let Some(s) = selection {
            let len = self.buffer.buffer_len_chars();
            if s.anchor > len {
                return Err(KernelError::InvalidRange { start: s.anchor, end: s.anchor, len });
            }
            if s.active > len {
                return Err(KernelError::InvalidRange { start: s.active, end: s.active, len });
            }
        }
        self.selection = selection;
        self.text_changed(id)
    }

    fn undo(&mut self, id: ResourceId) -> (r: Result<NativeResult, KernelError>)
        requires
            old(self).can_handle(NativeOperation::Undo { resource: id }),
        ensures
            old(self).handled(final(self), id, NativeOperation::Undo { resource: id }, r),
    {
        if self.read_only {
            return Err(KernelError::ReadOnly(id));
        }
        let changed = self.buffer.undo().is_some();
        self.revise(changed);
        self.clamp_selection();
        self.text_changed(id)
    }

    fn redo(&mut self, id: ResourceId) -> (r: Result<NativeResult, KernelError>)
        requires
            old(self).can_handle(NativeOperation::Redo { resource: id }),
        ensures
            old(self).handled(final(self), id, NativeOperation::Redo { resource: id }, r),
    {
        if self.read_only {
            return Err(KernelError::ReadOnly(id));
        }
        let changed = self.buffer.redo().is_some();
        self.revise(changed);
        self.clamp_selection();
        self.text_changed(id)
    }
}

// --- The kernel ---

/// A place for a resource.
#[derive(Debug)]
pub struct ResourceSlot {
    /// The generation of the resource in the slot, or of the next one.
    pub generation: u32,
    pub resource: Option<TextResource>,
}

/// What the surroundings answer to the operations that need them.
#[derive(Debug)]
pub struct NativeAnswers {
    /// Milliseconds since the start of 1970.
    pub clock_millis: u64,
    /// The path under which a file is watched, or why it is not.
    pub watched: Result<String, String>,
    /// Why a watch could not be ended, if so.
    pub unwatched: Option<String>,
}

impl NativeAnswers {
    /// The answers where no operation asks.
    pub fn none() -> (r: Self)
        ensures
            r.clock_millis == 0,
            r.watched matches Err(m) && m@ == "no file watch is available"@,
            r.unwatched is None,
    {
        NativeAnswers {
            clock_millis: 0,
            watched: Err("no file watch is available".to_owned()),
            unwatched: None,
        }
    }
}

/// Holds texts under numbers, and does what was granted.
#[derive(Debug)]
pub struct NativeKernel {
    pub grants: CapabilityGrants,
    pub slots: Vec<ResourceSlot>,
    /// The slots without a resource.
    pub free: Vec<u32>,
    pub io: IoOwner,
}

/// The generation behind this one. There is no generation 0.
pub open spec fn next_generation(generation: u32) -> u32 {
    if generation < u32::MAX {
        (generation + 1) as u32
    } else {
        1
    }
}

/// What must have been granted for an operation.
pub open spec fn needed(op: NativeOperation) -> Capability {
    match op {
        NativeOperation::Snapshot { .. } => Capability::TextRead,
        NativeOperation::ValidateLayout { .. } => Capability::Layout,
        NativeOperation::ReadFile { .. } => Capability::FileRead,
        NativeOperation::ListDirectory { .. } => Capability::FileRead,
        NativeOperation::WriteFile { .. } => Capability::FileWrite,
        NativeOperation::ReadClockMillis => Capability::ClockRead,
        NativeOperation::SpawnProcess { .. } => Capability::ProcessSpawn,
        NativeOperation::RegisterWatch { .. } => Capability::Watch,
        NativeOperation::UnregisterWatch { .. } => Capability::Watch,
        _ => Capability::TextWrite,
    }
}

/// The resource that an operation is about.
pub open spec fn subject(op: NativeOperation) -> Option<ResourceId> {
    match op {
        NativeOperation::CloseResource { resource } => Some(resource),
        NativeOperation::Snapshot { resource } => Some(resource),
        NativeOperation::Insert { resource, .. } => Some(resource),
        NativeOperation::Delete { resource, .. } => Some(resource),
        NativeOperation::Replace { resource, .. } => Some(resource),
        NativeOperation::SetSelection { resource, .. } => Some(resource),
        NativeOperation::Undo { resource } => Some(resource),
        NativeOperation::Redo { resource } => Some(resource),
        NativeOperation::RegisterWatch { resource, .. } => Some(resource),
        NativeOperation::UnregisterWatch { resource } => Some(resource),
        _ => None,
    }
}

fn needed_capability(op: &NativeOperation) -> (r: Capability)
    ensures
        r == needed(*op),
{
    match op {
        NativeOperation::Snapshot { .. } => Capability::TextRead,
        NativeOperation::ValidateLayout { .. } => Capability::Layout,
        NativeOperation::ReadFile { .. } => Capability::FileRead,
        NativeOperation::ListDirectory { .. } => Capability::FileRead,
        NativeOperation::WriteFile { .. } => Capability::FileWrite,
        NativeOperation::ReadClockMillis => Capability::ClockRead,
        NativeOperation::SpawnProcess { .. } => Capability::ProcessSpawn,
        NativeOperation::RegisterWatch { .. } => Capability::Watch,
        NativeOperation::UnregisterWatch { .. } => Capability::Watch,
        _ => Capability::TextWrite,
    }
}

impl NativeKernel {
    /// The resource with a number, if it is not stale.
    pub open spec fn resource_at(&self, id: ResourceId) -> Option<TextResource> {
        if id.slot < self.slots@.len() && self.slots@[id.slot as int].generation
            == id.generation {
            self.slots@[id.slot as int].resource
        } else {
            None
        }
    }

    /// The free slots are those without a resource, each listed once.
    pub open spec fn wf(&self) -> bool {
        &&& self.grants.wf()
        &&& self.slots@.len() <= MAX_NATIVE_RESOURCES
        &&& self.free@.no_duplicates()
        &&& forall|k: int|
            0 <= k < self.free@.len() ==> (#[trigger] self.free@[k]) < self.slots@.len()
                && self.slots@[self.free@[k] as int].resource is None
        &&& forall|s: int|
            0 <= s < self.slots@.len() ==> {
                &&& (#[trigger] self.slots@[s]).generation >= 1
                &&& self.slots@[s].resource is None ==> self.free@.contains(s as u32)
            }
    }

    /// Whether `after` is this kernel with another resource in a slot.
    pub open spec fn slot_set(&self, after: &Self, id: ResourceId, t: TextResource) -> bool {
        *after == (NativeKernel { slots: after.slots, ..*self }) && after.slots@
            == self.slots@.update(
            id.slot as int,
            ResourceSlot { generation: id.generation, resource: Some(t) },
        )
    }

    /// Whether `after` is this kernel without a resource, whose number is stale.
    pub open spec fn slot_closed(&self, after: &Self, id: ResourceId) -> bool {
        &&& *after == (NativeKernel { slots: after.slots, free: after.free, ..*self })
        &&& after.slots@ == self.slots@.update(
            id.slot as int,
            ResourceSlot { generation: next_generation(id.generation), resource: None },
        )
        &&& after.free@ == self.free@.push(id.slot)
    }

    /// Whether `after` is this kernel with one more resource, which got the
    /// number `id`: in the slot that was freed last, or in a new one.
    pub open spec fn allocated(&self, after: &Self, id: ResourceId, t: TextResource) -> bool {
        if self.free@.len() > 0 {
            &&& id.slot == self.free@.last()
            &&& id.generation == self.slots@[id.slot as int].generation
            &&& *after == (NativeKernel { slots: after.slots, free: after.free, ..*self })
            &&& after.free@ == self.free@.drop_last()
            &&& after.slots@ == self.slots@.update(
                id.slot as int,
                ResourceSlot { generation: id.generation, resource: Some(t) },
            )
        } else {
            &&& id == (ResourceId { slot: self.slots@.len() as u32, generation: 1 })
            &&& *after == (NativeKernel { slots: after.slots, ..*self })
            &&& after.slots@ == self.slots@.push(
                ResourceSlot { generation: 1, resource: Some(t) },
            )
        }
    }

    /// Whether no more resource fits.
    pub open spec fn is_full(&self) -> bool {
        self.free@.len() == 0 && self.slots@.len() >= MAX_NATIVE_RESOURCES
    }

    pub fn new(grants: CapabilityGrants) -> (r: Self)
        requires
            grants.wf(),
        ensures
            r.wf(),
            r.grants == grants,
            r.slots@.len() == 0,
            r.free@.len() == 0,
            r.io.is_idle(),
    {
        NativeKernel { grants, slots: Vec::new(), free: Vec::new(), io: IoOwner::new() }
    }

    pub fn grants(&self) -> (r: &CapabilityGrants)
        ensures
            *r == self.grants,
    {
        &self.grants
    }

    /// Whether a capability was granted.
    pub fn authorize(&self, capability: Capability) -> (r: Result<(), KernelError>)
        ensures
            r == if self.grants.holds(capability) {
                Ok::<(), KernelError>(())
            } else {
                Err(KernelError::CapabilityDenied(capability))
            },
    {
        if self.grants.contains(capability) {
            Ok(())
        } else {
            Err(KernelError::CapabilityDenied(capability))
        }
    }

    /// Takes a buffer in, without copying its text. The name of the text is that
    /// of the buffer.
    pub fn register_buffer(&mut self, buffer: Buffer) -> (r: Result<ResourceId, KernelError>)
        requires
            old(self).wf(),
        ensures
            final(self).wf(),
            if old(self).is_full() {
                &&& r == Err::<ResourceId, KernelError>(
                    KernelError::ResourceExhausted { capacity: MAX_NATIVE_RESOURCES },
                )
                &&& *final(self) == *old(self)
            } else {
                r matches Ok(id) && final(self).resource_at(id) matches Some(t)
                    && old(self).allocated(final(self), id, t) && fresh_text(
                    t,
                    buffer,
                    buffer.inner.object@,
                )
            },
    {
        let name = buffer.object();
        self.allocate(
            TextResource {
                buffer,
                name,
                visited_file: None,
                text_revision: 0,
                last_saved_revision: 0,
                read_only: false,
                selection: None,
                watched_path: None,
            },
        )
    }

    fn allocate(&mut self, resource: TextResource) -> (r: Result<ResourceId, KernelError>)
        requires
            old(self).wf(),
        ensures
            final(self).wf(),
            if old(self).is_full() {
                &&& r == Err::<ResourceId, KernelError>(
                    KernelError::ResourceExhausted { capacity: MAX_NATIVE_RESOURCES },
                )
                &&& *final(self) == *old(self)
            } else {
                r matches Ok(id) && old(self).allocated(final(self), id, resource)
                    && final(self).resource_at(id) == Some(resource)
            },
    {
        let ghost before = *self;
        if self.free.len() > 0 {
            let slot = self.free[self.free.len() - 1];
            self.free.pop();
            assert(before.free@[before.free@.len() - 1] == slot);
            let generation = self.slots[slot as usize].generation;
            self.slots.set(slot as usize, ResourceSlot { generation, resource: Some(resource) });
            proof {
                assert forall|s: int| 0 <= s < self.slots@.len() implies {
                    &&& (#[trigger] self.slots@[s]).generation >= 1
                    &&& self.slots@[s].resource is None ==> self.free@.contains(s as u32)
                } by {
                    assert(before.slots@[s].generation >= 1);
                    if self.slots@[s].resource is None {
                        let k = before.free@.index_of(s as u32);
                        assert(before.free@[k] == s as u32);
                        assert(self.free@[k] == s as u32);
                    }
                }
                assert forall|k: int| 0 <= k < self.free@.len() implies (#[trigger] self.free@[k])
                    < self.slots@.len() && self.slots@[self.free@[k] as int].resource is None by {
                    assert(before.free@[k] == self.free@[k]);
                }
            }
            Ok(ResourceId { slot, generation })
        } else {
            if self.slots.len() >= MAX_NATIVE_RESOURCES {
                return Err(KernelError::ResourceExhausted { capacity: MAX_NATIVE_RESOURCES });
            }
            let slot = self.slots.len() as u32;
            self.slots.push(ResourceSlot { generation: 1, resource: Some(resource) });
            proof {
                assert forall|s: int| 0 <= s < self.slots@.len() implies {
                    &&& (#[trigger] self.slots@[s]).generation >= 1
                    &&& self.slots@[s].resource is None ==> self.free@.contains(s as u32)
                } by {
                    if s < before.slots@.len() {
                        assert(before.slots@[s].generation >= 1);
                    }
                }
            }
            Ok(ResourceId { slot, generation: 1 })
        }
    }

    fn resource(&self, id: ResourceId) -> (r: Option<&TextResource>)
        ensures
            match r {
                Some(t) => self.resource_at(id) == Some(*t),
                None => self.resource_at(id) is None,
            },
    {
        if (id.slot as usize) < self.slots.len() {
            let slot = &self.slots[id.slot as usize];
            if slot.generation == id.generation {
                return slot.resource.as_ref();
            }
        }
        None
    }

    /// A text as it is now.
    pub fn snapshot(&self, resource: ResourceId) -> (r: Result<TextSnapshot, KernelError>)
        ensures
            match self.resource_at(resource) {
                Some(t) => r matches Ok(s) && t.shown_by(resource, s),
                None => r == Err::<TextSnapshot, KernelError>(
                    KernelError::StaleResource(resource),
                ),
            },
    {
        match self.resource(resource) {
            Some(t) => Ok(t.snapshot(resource)),
            None => Err(KernelError::StaleResource(resource)),
        }
    }

    proof fn slot_set_keeps_wf(before: NativeKernel, after: NativeKernel, id: ResourceId)
        requires
            before.wf(),
            before.resource_at(id) is Some,
            after.slots@[id.slot as int].resource is Some,
            before.slot_set(&after, id, after.slots@[id.slot as int].resource->0),
        ensures
            after.wf(),
    {
        assert forall|s: int| 0 <= s < after.slots@.len() implies {
            &&& (#[trigger] after.slots@[s]).generation >= 1
            &&& after.slots@[s].resource is None ==> after.free@.contains(s as u32)
        } by {
            assert(before.slots@[s].generation >= 1);
        }
        assert forall|k: int| 0 <= k < after.free@.len() implies (#[trigger] after.free@[k])
            < after.slots@.len() && after.slots@[after.free@[k] as int].resource is None by {
            assert(before.free@[k] < before.slots@.len());
        }
    }

    /// Closes a resource: its number is stale from now on, even where the watch
    /// on its file could not be ended, which is then told.
    pub fn invalidate_resource(
        &mut self,
        resource: ResourceId,
        unwatched: Option<String>,
    ) -> (r: Result<Option<String>, KernelError>)
        requires
            old(self).wf(),
        ensures
            final(self).wf(),
            match old(self).resource_at(resource) {
                Some(_) => {
                    &&& r matches Ok(told) && match unwatched {
                        Some(m) => told matches Some(t) && t@
                            == "native file-watch operation failed: "@ + m@,
                        None => told is None,
                    }
                    &&& old(self).slot_closed(final(self), resource)
                },
                None => r == Err::<Option<String>, KernelError>(
                    KernelError::StaleResource(resource),
                ) && *final(self) == *old(self),
            },
    {
        if self.resource(resource).is_none() {
            return Err(KernelError::StaleResource(resource));
        }
        let ghost before = *self;
        let generation = if resource.generation == u32::MAX {
            1
        } else {
            resource.generation + 1
        };
        self.slots.set(resource.slot as usize, ResourceSlot { generation, resource: None });
        self.free.push(resource.slot);
        proof {
            assert forall|s: int| 0 <= s < self.slots@.len() implies {
                &&& (#[trigger] self.slots@[s]).generation >= 1
                &&& self.slots@[s].resource is None ==> self.free@.contains(s as u32)
            } by {
                assert(before.slots@[s].generation >= 1);
                if s == resource.slot {
                    assert(self.free@[before.free@.len() as int] == s as u32);
                } else if before.slots@[s].resource is None {
                    let k = before.free@.index_of(s as u32);
                    assert(before.free@[k] == s as u32);
                    assert(self.free@[k] == s as u32);
                }
            }
            assert forall|k: int| 0 <= k < self.free@.len() implies (#[trigger] self.free@[k])
                < self.slots@.len() && self.slots@[self.free@[k] as int].resource is None by {
                if k < before.free@.len() {
                    assert(before.free@[k] < before.slots@.len());
                }
            }
            assert forall|i: int, j: int|
                0 <= i < self.free@.len() && 0 <= j < self.free@.len() && i
                    != j implies self.free@[i] != self.free@[j] by {
                if i == before.free@.len() {
                    assert(before.slots@[before.free@[j] as int].resource is None);
                } else if j == before.free@.len() {
                    assert(before.slots@[before.free@[i] as int].resource is None);
                }
            }
        }
        match unwatched {
            Some(m) => Ok(Some(KernelError::Watch(m).message())),
            None => Ok(None),
        }
    }

    fn set_watched_path(&mut self, resource: ResourceId, path: Option<String>)
        requires
            old(self).wf(),
            old(self).resource_at(resource) is Some,
        ensures
            final(self).wf(),
            old(self).slot_set(
                final(self),
                resource,
                TextResource { watched_path: path, ..old(self).resource_at(resource)->0 },
            ),
    {
        let ghost before = *self;
        let ghost t0 = self.slots@[resource.slot as int].resource->0;
        match &mut self.slots[resource.slot as usize].resource {
            Some(t) => {
                t.watched_path = path;
            },
            None => (),
        }
        proof {
            let t1 = self.slots@[resource.slot as int].resource->0;
            assert(t1 == (TextResource { watched_path: path, ..t0 }));
            assert(self.slots@ =~= before.slots@.update(
                resource.slot as int,
                ResourceSlot { generation: resource.generation, resource: Some(t1) },
            ));
            Self::slot_set_keeps_wf(before, *self, resource);
        }
    }

    fn edit(&mut self, resource: ResourceId, operation: NativeOperation) -> (r: Result<
        NativeResult,
        KernelError,
    >)
        requires
            old(self).wf(),
            old(self).resource_at(resource) is Some,
            old(self).resource_at(resource)->0.can_handle(operation),
            subject(operation) == Some(resource),
            is_edit(operation),
        ensures
            final(self).wf(),
            edited(*old(self), *final(self), resource, operation, r),
    {
        let ghost before = *self;
        let ghost t0 = self.slots@[resource.slot as int].resource->0;
        let r = match &mut self.slots[resource.slot as usize].resource {
            Some(t) => match operation {
                NativeOperation::Insert { resource: id, at, text } => t.insert(id, at, text),
                NativeOperation::Delete { resource: id, start, end } => t.delete(id, start, end),
                NativeOperation::Replace { resource: id, start, end, text } => t.replace(
                    id,
                    start,
                    end,
                    text,
                ),
                NativeOperation::SetSelection { resource: id, selection } => t.set_selection(
                    id,
                    selection,
                ),
                NativeOperation::Undo { resource: id } => t.undo(id),
                NativeOperation::Redo { resource: id } => t.redo(id),
                _ => Err(KernelError::IoRequired),
            },
            None => Err(KernelError::StaleResource(resource)),
        };
        proof {
            let t1 = self.slots@[resource.slot as int].resource->0;
            assert(self.slots@ =~= before.slots@.update(
                resource.slot as int,
                ResourceSlot { generation: resource.generation, resource: Some(t1) },
            ));
            Self::slot_set_keeps_wf(before, *self, resource);
        }
        r
    }

    /// Whether an operation can be executed: one that walks the history of a text
    /// must find its positions in it.
    pub open spec fn can_execute(&self, op: NativeOperation) -> bool {
        self.grants.holds(needed(op)) && subject(op) is Some ==> (self.resource_at(
            subject(op)->0,
        ) matches Some(t) ==> t.can_handle(op))
    }

    /// Whether an operation can be executed. It cannot, either, where the text
    /// would get longer than can be counted.
    pub fn admits(&self, operation: &NativeOperation) -> (r: bool)
        ensures
            r ==> self.can_execute(*operation),
            !r ==> !self.can_execute(*operation) || self.outgrows(*operation),
    {
        let (resource, redo) = match operation {
            NativeOperation::Undo { resource } => (*resource, false),
            NativeOperation::Redo { resource } => (*resource, true),
            _ => return true,
        };
        if !self.grants.contains(needed_capability(operation)) {
            return true;
        }
        match self.resource(resource) {
            None => true,
            Some(t) => {
                let len = t.buffer.buffer_len_chars();
                t.read_only || if redo {
                    t.buffer.inner.undo_manager.redo_lies_in(len)
                } else {
                    t.buffer.inner.undo_manager.undo_lies_in(len)
                }
            },
        }
    }

    /// Whether a walk through the history of a text makes it longer than can be
    /// counted.
    pub open spec fn outgrows(&self, op: NativeOperation) -> bool {
        self.resource_at(subject(op)->0) matches Some(t) && {
            let h = t.buffer.inner.undo_manager;
            if op is Undo {
                h.undo_outgrows(t.len())
            } else {
                undo::outgrows(h.redo_stack@.last(), t.len())
            }
        }
    }

    /// Exchanges the text of a resource for `buffer`. A buffer that is held
    /// elsewhere and registered here is worked on in this way: it is lent, the
    /// operation is executed, and the exchange made again gives it back.
    pub fn lend(&mut self, resource: ResourceId, buffer: &mut Buffer)
        requires
            old(self).wf(),
        ensures
            final(self).wf(),
            old(self).lent(final(self), resource, *old(buffer), *final(buffer)),
    {
        if self.resource(resource).is_none() {
            return;
        }
        let ghost before = *self;
        match &mut self.slots[resource.slot as usize].resource {
            Some(t) => {
                std::mem::swap(&mut t.buffer, buffer);
            },
            None => (),
        }
        proof {
            let t1 = self.slots@[resource.slot as int].resource->0;
            assert(self.slots@ =~= before.slots@.update(
                resource.slot as int,
                ResourceSlot { generation: resource.generation, resource: Some(t1) },
            ));
            Self::slot_set_keeps_wf(before, *self, resource);
        }
    }

    /// Whether `after` is this kernel with the text `given` in place of that of a
    /// resource, and `taken` the one that was there.
    pub open spec fn lent(
        &self,
        after: &Self,
        id: ResourceId,
        given: Buffer,
        taken: Buffer,
    ) -> bool {
        match self.resource_at(id) {
            Some(t) => {
                &&& taken == t.buffer
                &&& self.slot_set(after, id, TextResource { buffer: given, ..t })
            },
            None => taken == given && *after == *self,
        }
    }

    /// Does what is asked for, as far as it was granted.
    pub fn execute(&mut self, operation: NativeOperation, answers: NativeAnswers) -> (r: Result<
        NativeResult,
        KernelError,
    >)
        requires
            old(self).wf(),
            old(self).can_execute(operation),
        ensures
            final(self).wf(),
            executed(*old(self), *final(self), operation, answers, r),
    {
        let capability = needed_capability(&operation);
        if !self.grants.contains(capability) {
            return Err(KernelError::CapabilityDenied(capability));
        }
        match operation {
            NativeOperation::CreateText { name, initial } => {
                let mut buffer = Buffer::new(&[]);
                buffer.load_str(initial.as_str());
                let ghost loaded = buffer;
                let r = self.allocate(
                    TextResource {
                        buffer,
                        name,
                        visited_file: None,
                        text_revision: 0,
                        last_saved_revision: 0,
                        read_only: false,
                        selection: None,
                        watched_path: None,
                    },
                );
                match r {
                    Ok(id) => {
                        assert(final_text(*self, id, name@, initial@));
                        Ok(NativeResult::ResourceCreated(id))
                    },
                    Err(e) => Err(e),
                }
            },
            NativeOperation::CloseResource { resource } => match self.invalidate_resource(
                resource,
                answers.unwatched,
            ) {
                Ok(told) => match told {
                    Some(m) => Err(KernelError::Cleanup(m)),
                    None => Ok(NativeResult::ResourceClosed),
                },
                Err(e) => Err(e),
            },
            NativeOperation::Snapshot { resource } => match self.snapshot(resource) {
                Ok(s) => Ok(NativeResult::Snapshot(s)),
                Err(e) => Err(e),
            },
            NativeOperation::ValidateLayout { layout } => match validate_layout(&layout) {
                Ok(_) => Ok(NativeResult::LayoutValidated),
                Err(e) => Err(e),
            },
            NativeOperation::ReadFile { .. } => Err(KernelError::IoRequired),
            NativeOperation::ListDirectory { .. } => Err(KernelError::IoRequired),
            NativeOperation::WriteFile { .. } => Err(KernelError::IoRequired),
            NativeOperation::SpawnProcess { .. } => Err(KernelError::IoRequired),
            NativeOperation::ReadClockMillis => Ok(NativeResult::ClockMillis(answers.clock_millis)),
            NativeOperation::RegisterWatch { resource, path: _ } => {
                if self.resource(resource).is_none() {
                    return Err(KernelError::StaleResource(resource));
                }
                match answers.watched {
                    Ok(canonical) => {
                        self.set_watched_path(resource, Some(canonical));
                        Ok(NativeResult::WatchRegistered)
                    },
                    Err(m) => Err(KernelError::Watch(m)),
                }
            },
            NativeOperation::UnregisterWatch { resource } => {
                if self.resource(resource).is_none() {
                    return Err(KernelError::StaleResource(resource));
                }
                match answers.unwatched {
                    None => {
                        self.set_watched_path(resource, None);
                        Ok(NativeResult::WatchUnregistered)
                    },
                    Some(m) => Err(KernelError::Watch(m)),
                }
            },
            NativeOperation::Insert { resource, at, text } => {
                if self.resource(resource).is_none() {
                    return Err(KernelError::StaleResource(resource));
                }
                self.edit(resource, NativeOperation::Insert { resource, at, text })
            },
            NativeOperation::Delete { resource, start, end } => {
                if self.resource(resource).is_none() {
                    return Err(KernelError::StaleResource(resource));
                }
                self.edit(resource, NativeOperation::Delete { resource, start, end })
            },
            NativeOperation::Replace { resource, start, end, text } => {
                if self.resource(resource).is_none() {
                    return Err(KernelError::StaleResource(resource));
                }
                self.edit(resource, NativeOperation::Replace { resource, start, end, text })
            },
            NativeOperation::SetSelection { resource, selection } => {
                if self.resource(resource).is_none() {
                    return Err(KernelError::StaleResource(resource));
                }
                self.edit(resource, NativeOperation::SetSelection { resource, selection })
            },
            NativeOperation::Undo { resource } => {
                if self.resource(resource).is_none() {
                    return Err(KernelError::StaleResource(resource));
                }
                self.edit(resource, NativeOperation::Undo { resource })
            },
            NativeOperation::Redo { resource } => {
                if self.resource(resource).is_none() {
                    return Err(KernelError::StaleResource(resource));
                }
                self.edit(resource, NativeOperation::Redo { resource })
            },
        }
    }

    /// Whether a hint is about a file that is watched for a resource.
    pub open spec fn is_current(&self, hint: NativeWatchNotification) -> bool {
        self.resource_at(hint.resource) matches Some(t) && t.watched_path matches Some(p) && p@
            == hint.path@
    }

    /// The hints that are about files that are still watched.
    pub open spec fn current_hints(&self, hints: Seq<NativeWatchNotification>) -> Seq<
        NativeWatchNotification,
    >
        decreases hints.len(),
    {
        if hints.len() == 0 {
            seq![]
        } else if self.is_current(hints.last()) {
            self.current_hints(hints.drop_last()).push(hints.last())
        } else {
            self.current_hints(hints.drop_last())
        }
    }

    /// The hints that are about files that are still watched, in order. What
    /// they mean for a text is for the caller to decide.
    pub fn poll_watch_notifications(&self, hints: Vec<NativeWatchNotification>) -> (r: Vec<
        NativeWatchNotification,
    >)
        ensures
            r@.len() == self.current_hints(hints@).len(),
            forall|i: int|
                0 <= i < r@.len() ==> {
                    &&& (#[trigger] r@[i]).resource == self.current_hints(hints@)[i].resource
                    &&& r@[i].path@ == self.current_hints(hints@)[i].path@
                },
    {
        let mut r: Vec<NativeWatchNotification> = Vec::new();
        let mut i: usize = 0;
        assert(hints@.take(0) =~= seq![]);
        while i < hints.len()
            invariant
                i <= hints@.len(),
                r@.len() == self.current_hints(hints@.take(i as int)).len(),
                forall|k: int|
                    0 <= k < r@.len() ==> {
                        &&& (#[trigger] r@[k]).resource == self.current_hints(
                            hints@.take(i as int),
                        )[k].resource
                        &&& r@[k].path@ == self.current_hints(hints@.take(i as int))[k].path@
                    },
            decreases hints.len() - i,
        {
            assert(hints@.take(i + 1).drop_last() =~= hints@.take(i as int));
            assert(hints@.take(i + 1).last() == hints@[i as int]);
            let hint = &hints[i];
            let current = match self.resource(hint.resource) {
                Some(t) => match &t.watched_path {
                    Some(p) => str_eq(p.as_str(), hint.path.as_str()),
                    None => false,
                },
                None => false,
            };
            if current {
                r.push(
                    NativeWatchNotification { resource: hint.resource, path: hint.path.clone() },
                );
            }
            i = i + 1;
        }
        assert(hints@.take(i as int) =~= hints@);
        r
    }

    /// Admits work outside of the kernel, if it was granted and is within
    /// bounds.
    pub fn prepare_io(&mut self, operation: NativeOperation) -> (r: Result<IoRequest, KernelError>)
        requires
            old(self).wf(),
            old(self).io.wf(),
        ensures
            final(self).wf(),
            final(self).io.wf(),
            *final(self) == (NativeKernel { io: final(self).io, ..*old(self) }),
            match native_io::io_capability(operation) {
                None => r == Err::<IoRequest, KernelError>(KernelError::IoRequired)
                    && *final(self) == *old(self),
                Some(c) => if !old(self).grants.holds(c) {
                    r == Err::<IoRequest, KernelError>(KernelError::CapabilityDenied(c))
                        && *final(self) == *old(self)
                } else {
                    native_io::prepared(old(self).io, final(self).io, operation, r)
                },
            },
    {
        match capability(&operation) {
            None => Err(KernelError::IoRequired),
            Some(c) => {
                if !self.grants.contains(c) {
                    return Err(KernelError::CapabilityDenied(c));
                }
                IoRequest::prepare(&mut self.io, operation)
            },
        }
    }
}

/// Whether an operation changes one text.
pub open spec fn is_edit(op: NativeOperation) -> bool {
    match op {
        NativeOperation::Insert { .. } => true,
        NativeOperation::Delete { .. } => true,
        NativeOperation::Replace { .. } => true,
        NativeOperation::SetSelection { .. } => true,
        NativeOperation::Undo { .. } => true,
        NativeOperation::Redo { .. } => true,
        _ => false,
    }
}

/// Whether `t` is a text as it is taken in.
pub open spec fn fresh_text(t: TextResource, buffer: Buffer, name: Seq<char>) -> bool {
    &&& t.buffer == buffer
    &&& t.name@ == name
    &&& t.visited_file is None
    &&& t.text_revision == 0
    &&& t.last_saved_revision == 0
    &&& !t.read_only
    &&& t.selection is None
    &&& t.watched_path is None
}

/// Whether the text with the number `id` has just been made.
pub open spec fn final_text(
    kernel: NativeKernel,
    id: ResourceId,
    name: Seq<char>,
    initial: Seq<char>,
) -> bool {
    &&& kernel.resource_at(id) matches Some(t)
    &&& fresh_text(t, t.buffer, name)
    &&& t.buffer.text() == initial
    &&& t.buffer.inner.undo_manager.is_blank()
    &&& t.buffer.inner.undo_manager.group_depth == 0
    &&& t.buffer.inner.mark is None
    &&& t.buffer.inner.spans@.len() == 0
}

/// Whether an operation on one text leads from `before` to `after`.
pub open spec fn edited(
    before: NativeKernel,
    after: NativeKernel,
    id: ResourceId,
    op: NativeOperation,
    r: Result<NativeResult, KernelError>,
) -> bool {
    &&& after.resource_at(id) matches Some(t)
    &&& before.slot_set(&after, id, t)
    &&& before.resource_at(id)->0.handled(&t, id, op, r)
}

/// Whether an operation leads from `before` to `after` and to `r`: what was not
/// granted is refused before anything is told of a resource, and a stale number
/// is refused before anything is done.
pub open spec fn executed(
    before: NativeKernel,
    after: NativeKernel,
    op: NativeOperation,
    answers: NativeAnswers,
    r: Result<NativeResult, KernelError>,
) -> bool {
    if !before.grants.holds(needed(op)) {
        &&& r == Err::<NativeResult, KernelError>(KernelError::CapabilityDenied(needed(op)))
        &&& after == before
    } else if subject(op) is Some && before.resource_at(subject(op)->0) is None {
        &&& r == Err::<NativeResult, KernelError>(KernelError::StaleResource(subject(op)->0))
        &&& after == before
    } else {
        match op {
            NativeOperation::CreateText { name, initial } => if before.is_full() {
                &&& r == Err::<NativeResult, KernelError>(
                    KernelError::ResourceExhausted { capacity: MAX_NATIVE_RESOURCES },
                )
                &&& after == before
            } else {
                &&& r matches Ok(NativeResult::ResourceCreated(id))
                &&& final_text(after, id, name@, initial@)
                &&& before.allocated(&after, id, after.resource_at(id)->0)
            },
            NativeOperation::CloseResource { resource } => {
                &&& before.slot_closed(&after, resource)
                &&& match answers.unwatched {
                    Some(m) => r matches Err(KernelError::Cleanup(told)) && told@
                        == "native file-watch operation failed: "@ + m@,
                    None => r == Ok::<NativeResult, KernelError>(NativeResult::ResourceClosed),
                }
            },
            NativeOperation::Snapshot { resource } => {
                &&& after == before
                &&& r matches Ok(NativeResult::Snapshot(s)) && before.resource_at(
                    resource,
                )->0.shown_by(resource, s)
            },
            NativeOperation::ValidateLayout { layout } => {
                &&& after == before
                &&& match layout.fault() {
                    None => r == Ok::<NativeResult, KernelError>(NativeResult::LayoutValidated),
                    Some(f) => r matches Err(KernelError::InvalidLayout(m)) && m@ == f.told(),
                }
            },
            NativeOperation::ReadClockMillis => {
                &&& after == before
                &&& r == Ok::<NativeResult, KernelError>(
                    NativeResult::ClockMillis(answers.clock_millis),
                )
            },
            NativeOperation::RegisterWatch { resource, .. } => match answers.watched {
                Ok(canonical) => {
                    &&& r == Ok::<NativeResult, KernelError>(NativeResult::WatchRegistered)
                    &&& before.slot_set(
                        &after,
                        resource,
                        TextResource {
                            watched_path: Some(canonical),
                            ..before.resource_at(resource)->0
                        },
                    )
                },
                Err(m) => r == Err::<NativeResult, KernelError>(KernelError::Watch(m)) && after
                    == before,
            },
            NativeOperation::UnregisterWatch { resource } => match answers.unwatched {
                None => {
                    &&& r == Ok::<NativeResult, KernelError>(NativeResult::WatchUnregistered)
                    &&& before.slot_set(
                        &after,
                        resource,
                        TextResource { watched_path: None, ..before.resource_at(resource)->0 },
                    )
                },
                Some(m) => r == Err::<NativeResult, KernelError>(KernelError::Watch(m))
                    && after == before,
            },
            _ => if is_edit(op) {
                edited(before, after, subject(op)->0, op, r)
            } else {
                &&& r == Err::<NativeResult, KernelError>(KernelError::IoRequired)
                &&& after == before
            },
        }
    }
}

// --- Laws ---

/// The number of a closed resource is stale, and stays so when its slot is used
/// again.
pub proof fn closed_resource_stays_stale(
    before: NativeKernel,
    closed: NativeKernel,
    reused: NativeKernel,
    old_id: ResourceId,
    new_id: ResourceId,
    t: TextResource,
)
    requires
        before.wf(),
        before.resource_at(old_id) is Some,
        before.slot_closed(&closed, old_id),
        closed.allocated(&reused, new_id, t),
    ensures
        closed.resource_at(old_id) is None,
        reused.resource_at(old_id) is None,
        new_id.slot == old_id.slot,
        new_id.generation != old_id.generation,
        reused.resource_at(new_id) == Some(t),
{
    assert(closed.free@.last() == old_id.slot);
}

/// What was not granted tells and changes nothing, whatever the number.
pub proof fn denial_comes_first(
    before: NativeKernel,
    after: NativeKernel,
    op: NativeOperation,
    answers: NativeAnswers,
    r: Result<NativeResult, KernelError>,
)
    requires
        !before.grants.holds(needed(op)),
        executed(before, after, op, answers, r),
    ensures
        after == before,
        r == Err::<NativeResult, KernelError>(KernelError::CapabilityDenied(needed(op))),
{
}

/// An operation on one resource leaves all others as they are.
pub proof fn other_resources_stay(
    before: NativeKernel,
    after: NativeKernel,
    op: NativeOperation,
    answers: NativeAnswers,
    r: Result<NativeResult, KernelError>,
    other: ResourceId,
)
    requires
        before.wf(),
        executed(before, after, op, answers, r),
        before.resource_at(other) is Some,
        subject(op) != Some(other),
    ensures
        after.resource_at(other) == before.resource_at(other),
{
    if subject(op) is Some && before.resource_at(subject(op)->0) is Some {
        let id = subject(op)->0;
        assert(id.slot != other.slot);
    }
    if op is CreateText && before.free@.len() > 0 {
        assert(before.slots@[before.free@[before.free@.len() - 1] as int].resource is None);
    }
}

/// A mutation that is refused changes nothing.
pub proof fn refused_edit_changes_nothing(
    before: NativeKernel,
    after: NativeKernel,
    op: NativeOperation,
    answers: NativeAnswers,
    r: Result<NativeResult, KernelError>,
)
    requires
        before.wf(),
        is_edit(op),
        executed(before, after, op, answers, r),
        r is Err,
    ensures
        after.slots@ == before.slots@,
        after.free@ == before.free@,
        after.grants == before.grants,
{
    if before.grants.holds(needed(op)) && before.resource_at(subject(op)->0) is Some {
        let id = subject(op)->0;
        assert(after.slots@ =~= before.slots@);
    }
}

/// A selection that lies in the text does so after every edit.
pub proof fn selection_stays_in_text(
    before: TextResource,
    after: TextResource,
    id: ResourceId,
    op: NativeOperation,
    r: Result<NativeResult, KernelError>,
)
    requires
        is_edit(op),
        before.selects_text(),
        before.handled(&after, id, op, r),
    ensures
        after.selects_text(),
{
}

/// A text whose history leads up to it can be undone and redone, and its history
/// leads up to it after every edit.
pub proof fn history_stays_walkable(
    before: TextResource,
    after: TextResource,
    id: ResourceId,
    op: NativeOperation,
    r: Result<NativeResult, KernelError>,
)
    requires
        is_edit(op),
        before.buffer.inner.history_ok(),
        before.handled(&after, id, op, r),
    ensures
        before.can_handle(op),
        after.buffer.inner.history_ok(),
{
    before.buffer.inner.undo_manager.tracked_fits(before.buffer.text());
}

/// A buffer that is lent is one text with the resource: what an operation does to
/// the resource is done to the buffer once it is given back, and the resource
/// has the text again that it had.
pub proof fn lent_buffer_is_worked_on(
    k0: NativeKernel,
    k1: NativeKernel,
    k2: NativeKernel,
    k3: NativeKernel,
    id: ResourceId,
    given: Buffer,
    stand_in: Buffer,
    back: Buffer,
    op: NativeOperation,
    answers: NativeAnswers,
    r: Result<NativeResult, KernelError>,
)
    requires
        k0.resource_at(id) is Some,
        k0.lent(&k1, id, given, stand_in),
        executed(k1, k2, op, answers, r),
        subject(op) == Some(id),
        !(op is CloseResource),
        k2.lent(&k3, id, stand_in, back),
    ensures
        k1.resource_at(id) == Some(TextResource { buffer: given, ..k0.resource_at(id)->0 }),
        k2.resource_at(id) is Some,
        back == (k2.resource_at(id)->0).buffer,
        k3.resource_at(id) == Some(
            TextResource { buffer: (k0.resource_at(id)->0).buffer, ..k2.resource_at(id)->0 },
        ),
{
}

/// One undo gives back what a replacement replaced.
pub proof fn undo_restores_replaced_part(
    before: BufferInner,
    replaced: BufferInner,
    after: BufferInner,
    start: int,
    end: int,
    ins: Seq<char>,
)
    requires
        before.undo_manager.group_depth == 0,
        0 <= start <= end <= before.text().len(),
        part_replaced(before, replaced, start, end, ins),
        step_back(replaced, after),
    ensures
        after.text() == before.text(),
{
    let t = before.text();
    let (opened, cut, filled) = choose|
        opened: BufferInner,
        cut: BufferInner,
        filled: BufferInner,
    | #[trigger] part_replaced_through(before, opened, cut, filled, replaced, start, end, ins);
    let run = filled.undo_manager.pending@;
    assert(opened.undo_manager.pending@.len() == 0);
    let without = undo::cut(t, start, end);
    assert(undo::cut(undo::spliced(without, start, ins), start, start + ins.len()) =~= without);
    if start < end {
        assert(run.len() == 2);
        assert(run.drop_last().len() == 1);
        assert(run.drop_last() == cut.undo_manager.pending@);
        assert(run.drop_last().last() == cut.undo_manager.pending@.last());
        assert(undo::spliced(without, start, t.subrange(start, end)) =~= t);
        reveal_with_fuel(undo::taken_back_seq, 3);
        assert(undo::taken_back_seq(run, replaced.text()) == t);
    } else {
        assert(run.len() == 1);
        assert(run[0] == run.last());
        assert(without =~= t);
    }
}

} // verus!
