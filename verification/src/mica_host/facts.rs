//! What the policy code is told of the editor: facts, each a name and values.

use vstd::prelude::*;
use vstd::string::*;

use crate::ids::{BufferId, WindowId};
use crate::mica_host::source_provider;
use crate::mica_host::source_provider::last_step;
use crate::mica_host::value::Identity;
use crate::native_kernel::ResourceId;
use crate::text::str_chars;
use crate::window::{SplitDirection, SplitRatio};

verus! {

/// A value in a fact.
#[derive(Debug)]
pub enum FactValue {
    Identity(Identity),
    Int(i64),
    Text(String),
    Symbol(String),
    Bool(bool),
    Ratio(SplitRatio),
    List(Vec<Identity>),
}

/// A value in a fact, as a mathematical value.
pub enum FactValueView {
    Identity(Identity),
    Int(i64),
    Text(Seq<char>),
    Symbol(Seq<char>),
    Bool(bool),
    Ratio(SplitRatio),
    List(Seq<Identity>),
}

impl View for FactValue {
    type V = FactValueView;

    open spec fn view(&self) -> FactValueView {
        match self {
            FactValue::Identity(id) => FactValueView::Identity(*id),
            FactValue::Int(n) => FactValueView::Int(*n),
            FactValue::Text(s) => FactValueView::Text(s@),
            FactValue::Symbol(s) => FactValueView::Symbol(s@),
            FactValue::Bool(b) => FactValueView::Bool(*b),
            FactValue::Ratio(r) => FactValueView::Ratio(*r),
            FactValue::List(ids) => FactValueView::List(ids@),
        }
    }
}

/// A fact.
#[derive(Debug)]
pub struct Fact {
    pub relation: String,
    pub values: Vec<FactValue>,
}

/// A fact as a mathematical value.
pub struct FactView {
    pub relation: Seq<char>,
    pub values: Seq<FactValueView>,
}

pub open spec fn value_views(values: Seq<FactValue>) -> Seq<FactValueView> {
    values.map_values(|v: FactValue| v@)
}

impl View for Fact {
    type V = FactView;

    open spec fn view(&self) -> FactView {
        FactView { relation: self.relation@, values: value_views(self.values@) }
    }
}

pub open spec fn fact_views(facts: Seq<Fact>) -> Seq<FactView> {
    facts.map_values(|f: Fact| f@)
}

/// A fact with one value.
pub open spec fn fact1(relation: Seq<char>, a: FactValueView) -> FactView {
    FactView { relation, values: seq![a] }
}

/// A fact with two values.
pub open spec fn fact2(relation: Seq<char>, a: FactValueView, b: FactValueView) -> FactView {
    FactView { relation, values: seq![a, b] }
}

/// A fact with three values.
pub open spec fn fact3(
    relation: Seq<char>,
    a: FactValueView,
    b: FactValueView,
    c: FactValueView,
) -> FactView {
    FactView { relation, values: seq![a, b, c] }
}

/// An identity in a fact.
pub open spec fn named(id: Identity) -> FactValueView {
    FactValueView::Identity(id)
}

/// A number in a fact; too great ones are the greatest there is.
pub open spec fn counted(n: int) -> FactValueView {
    FactValueView::Int(
        if n <= i64::MAX {
            n as i64
        } else {
            i64::MAX
        },
    )
}

pub(crate) fn name_value(id: Identity) -> (r: FactValue)
    ensures
        r@ == named(id),
{
    FactValue::Identity(id)
}

pub(crate) fn int_value(n: u64) -> (r: FactValue)
    ensures
        r@ == counted(n as int),
{
    FactValue::Int(
        if n <= i64::MAX as u64 {
            n as i64
        } else {
            i64::MAX
        },
    )
}

pub(crate) fn text_value(s: &str) -> (r: FactValue)
    ensures
        r@ == FactValueView::Text(s@),
{
    FactValue::Text(s.to_owned())
}

pub(crate) fn symbol_value(s: &str) -> (r: FactValue)
    ensures
        r@ == FactValueView::Symbol(s@),
{
    FactValue::Symbol(s.to_owned())
}

pub(crate) fn say1(facts: &mut Vec<Fact>, relation: &str, a: FactValue)
    ensures
        fact_views(final(facts)@) == fact_views(old(facts)@).push(fact1(relation@, a@)),
{
    let ghost before = fact_views(facts@);
    let values = vec![a];
    assert(value_views(values@) =~= seq![a@]);
    facts.push(Fact { relation: relation.to_owned(), values });
    assert(fact_views(facts@) =~= before.push(fact1(relation@, a@)));
}

pub(crate) fn say2(facts: &mut Vec<Fact>, relation: &str, a: FactValue, b: FactValue)
    ensures
        fact_views(final(facts)@) == fact_views(old(facts)@).push(fact2(relation@, a@, b@)),
{
    let ghost before = fact_views(facts@);
    let values = vec![a, b];
    assert(value_views(values@) =~= seq![a@, b@]);
    facts.push(Fact { relation: relation.to_owned(), values });
    assert(fact_views(facts@) =~= before.push(fact2(relation@, a@, b@)));
}

pub(crate) fn say3(facts: &mut Vec<Fact>, relation: &str, a: FactValue, b: FactValue, c: FactValue)
    ensures
        fact_views(final(facts)@) == fact_views(old(facts)@).push(fact3(relation@, a@, b@, c@)),
{
    let ghost before = fact_views(facts@);
    let values = vec![a, b, c];
    assert(value_views(values@) =~= seq![a@, b@, c@]);
    facts.push(Fact { relation: relation.to_owned(), values });
    assert(fact_views(facts@) =~= before.push(fact3(relation@, a@, b@, c@)));
}

// --- Buffers ---

/// What is told of a buffer.
#[derive(Debug)]
pub struct MicaBufferMetadata {
    pub name: String,
    pub kind: String,
    pub visited_file: Option<String>,
    pub file_extension: Option<String>,
    pub text_revision: u64,
    pub last_saved_revision: u64,
    pub modified: bool,
    pub read_only: bool,
}

/// A letter of the Latin alphabet in lower case.
pub open spec fn small(c: char) -> char {
    if 'A' as u32 <= c as u32 <= 'Z' as u32 {
        (c as u32 + 32) as char
    } else {
        c
    }
}

/// The place of the last dot behind the first character.
pub open spec fn last_dot(name: Seq<char>) -> Option<int>
    decreases name.len(),
{
    if name.len() <= 1 {
        None
    } else if name.last() == '.' {
        Some(name.len() - 1)
    } else {
        last_dot(name.drop_last())
    }
}

/// What stands behind the last dot of the name of a file, in lower case. A dot
/// in front of the name is part of the name.
pub open spec fn extension(path: Seq<char>) -> Option<Seq<char>> {
    let steps = source_provider::steps(path);
    if steps.len() == 0 || steps.last() == ".."@ {
        None
    } else {
        match last_dot(steps.last()) {
            Some(i) => Some(steps.last().skip(i + 1).map_values(|c: char| small(c))),
            None => None,
        }
    }
}

fn small_char(c: char) -> (r: char)
    ensures
        r == small(c),
{
    if 'A' <= c && c <= 'Z' {
        let n: u8 = (c as u32 + 32) as u8;
        n as char
    } else {
        c
    }
}

/// What stands behind the last dot of the name of a file, in lower case.
pub fn file_extension(path: &str) -> (r: Option<String>)
    ensures
        match r {
            Some(e) => extension(path@) == Some(e@),
            None => extension(path@) is None,
        },
{
    let name = match last_step(path) {
        Some(name) => name,
        None => return None,
    };
    let chars = str_chars(name.as_str());
    let mut i: usize = chars.len();
    assert(chars@.take(i as int) =~= chars@);
    while i > 1
        invariant
            i <= chars@.len(),
            extension(path@) == match last_dot(chars@.take(i as int)) {
                Some(k) => Some(chars@.skip(k + 1).map_values(|c: char| small(c))),
                None => None,
            },
        decreases i,
    {
        assert(chars@.take(i as int).drop_last() =~= chars@.take(i - 1));
        assert(chars@.take(i as int).last() == chars@[i - 1]);
        if chars[i - 1] == '.' {
            let mut r = String::new();
            let mut j: usize = i;
            let ghost goal = chars@.skip(i as int).map_values(|c: char| small(c));
            assert(r@ =~= goal.take(0));
            while j < chars.len()
                invariant
                    i <= j <= chars@.len(),
                    goal == chars@.skip(i as int).map_values(|c: char| small(c)),
                    r@ == goal.take(j - i),
                decreases chars.len() - j,
            {
                r.push(small_char(chars[j]));
                j = j + 1;
                assert(r@ =~= goal.take(j - i));
            }
            assert(goal.take(j - i) =~= goal);
            return Some(r);
        }
        i = i - 1;
    }
    None
}

impl MicaBufferMetadata {
    pub fn new(
        name: String,
        kind: String,
        visited_file: Option<String>,
        text_revision: u64,
        last_saved_revision: u64,
        modified: bool,
        read_only: bool,
    ) -> (r: Self)
        ensures
            r.name == name,
            r.kind == kind,
            r.visited_file == visited_file,
            match visited_file {
                Some(path) => match r.file_extension {
                    Some(e) => extension(path@) == Some(e@),
                    None => extension(path@) is None,
                },
                None => r.file_extension is None,
            },
            r.text_revision == text_revision,
            r.last_saved_revision == last_saved_revision,
            r.modified == modified,
            r.read_only == read_only,
    {
        let file_extension = match &visited_file {
            Some(path) => file_extension(path.as_str()),
            None => None,
        };
        MicaBufferMetadata {
            name,
            kind,
            visited_file,
            file_extension,
            text_revision,
            last_saved_revision,
            modified,
            read_only,
        }
    }

    pub(crate) fn copy(&self) -> (r: Self)
        ensures
            r == *self,
    {
        MicaBufferMetadata {
            name: self.name.clone(),
            kind: self.kind.clone(),
            visited_file: self.visited_file.clone(),
            file_extension: self.file_extension.clone(),
            text_revision: self.text_revision,
            last_saved_revision: self.last_saved_revision,
            modified: self.modified,
            read_only: self.read_only,
        }
    }
}

/// A buffer that the policy code knows.
#[derive(Debug)]
pub struct BufferRecord {
    pub id: BufferId,
    /// The name of the buffer.
    pub logical: Identity,
    /// The name of its text.
    pub native: Identity,
    pub resource: ResourceId,
    pub metadata: MicaBufferMetadata,
    /// What the visited file is called within the workspace.
    pub source_path: Option<String>,
}

/// The facts on the file that a buffer visits.
pub open spec fn file_facts(b: BufferRecord) -> Seq<FactView> {
    let visited = match b.metadata.visited_file {
        Some(path) => {
            let first = seq![
                fact2("roe/BufferVisitedFile"@, named(b.logical), FactValueView::Text(path@)),
            ];
            match b.source_path {
                Some(relative) => first.push(
                    fact2(
                        "roe/BufferSourcePath"@,
                        named(b.logical),
                        FactValueView::Text(relative@),
                    ),
                ),
                None => first,
            }
        },
        None => Seq::<FactView>::empty(),
    };
    match b.metadata.file_extension {
        Some(e) => visited.push(
            fact2("roe/BufferFileExtension"@, named(b.logical), FactValueView::Text(e@)),
        ),
        None => visited,
    }
}

/// The facts on what a buffer is.
pub open spec fn kind_facts(b: BufferRecord) -> Seq<FactView> {
    seq![
        fact1("roe/LogicalBuffer"@, named(b.logical)),
        fact2("roe/BufferName"@, named(b.logical), FactValueView::Text(b.metadata.name@)),
        fact2("roe/BufferKind"@, named(b.logical), FactValueView::Symbol(b.metadata.kind@)),
    ]
}

/// The facts on the state of a buffer, and on who may use it.
pub open spec fn state_facts(b: BufferRecord, actor: Identity) -> Seq<FactView> {
    seq![
        fact2(
            "roe/NativeBufferRevision"@,
            named(b.logical),
            counted(b.metadata.text_revision as int),
        ),
        fact2(
            "roe/BufferLastSavedRevision"@,
            named(b.logical),
            counted(b.metadata.last_saved_revision as int),
        ),
        fact2("roe/BufferModified"@, named(b.logical), FactValueView::Bool(b.metadata.modified)),
        fact2("roe/BufferReadOnly"@, named(b.logical), FactValueView::Bool(b.metadata.read_only)),
        fact2("roe/NativeTextResource"@, named(b.logical), named(b.native)),
        fact2(
            "roe/NativeResourceGeneration"@,
            named(b.native),
            counted(b.resource.generation as int),
        ),
        fact2("roe/CanUseBuffer"@, named(actor), named(b.logical)),
    ]
}

pub(crate) fn say_file(facts: &mut Vec<Fact>, b: &BufferRecord)
    ensures
        fact_views(final(facts)@) == fact_views(old(facts)@) + file_facts(*b),
{
    let ghost before = fact_views(facts@);
    match &b.metadata.visited_file {
        Some(path) => {
            say2(
                facts,
                "roe/BufferVisitedFile",
                name_value(b.logical),
                text_value(path.as_str()),
            );
            match &b.source_path {
                Some(relative) => {
                    say2(
                        facts,
                        "roe/BufferSourcePath",
                        name_value(b.logical),
                        text_value(relative.as_str()),
                    );
                },
                None => (),
            }
        },
        None => (),
    }
    match &b.metadata.file_extension {
        Some(e) => {
            say2(
                facts,
                "roe/BufferFileExtension",
                name_value(b.logical),
                text_value(e.as_str()),
            );
        },
        None => (),
    }
    assert(fact_views(facts@) =~= before + file_facts(*b));
}

pub(crate) fn say_kind(facts: &mut Vec<Fact>, b: &BufferRecord)
    ensures
        fact_views(final(facts)@) == fact_views(old(facts)@) + kind_facts(*b),
{
    let ghost before = fact_views(facts@);
    say1(facts, "roe/LogicalBuffer", name_value(b.logical));
    say2(
        facts,
        "roe/BufferName",
        name_value(b.logical),
        text_value(b.metadata.name.as_str()),
    );
    say2(
        facts,
        "roe/BufferKind",
        name_value(b.logical),
        symbol_value(b.metadata.kind.as_str()),
    );
    assert(fact_views(facts@) =~= before + kind_facts(*b));
}

pub(crate) fn say_state(facts: &mut Vec<Fact>, b: &BufferRecord, actor: Identity)
    ensures
        fact_views(final(facts)@) == fact_views(old(facts)@) + state_facts(*b, actor),
{
    let ghost before = fact_views(facts@);
    say2(
        facts,
        "roe/NativeBufferRevision",
        name_value(b.logical),
        int_value(b.metadata.text_revision),
    );
    say2(
        facts,
        "roe/BufferLastSavedRevision",
        name_value(b.logical),
        int_value(b.metadata.last_saved_revision),
    );
    say2(
        facts,
        "roe/BufferModified",
        name_value(b.logical),
        FactValue::Bool(b.metadata.modified),
    );
    say2(
        facts,
        "roe/BufferReadOnly",
        name_value(b.logical),
        FactValue::Bool(b.metadata.read_only),
    );
    say2(facts, "roe/NativeTextResource", name_value(b.logical), name_value(b.native));
    say2(
        facts,
        "roe/NativeResourceGeneration",
        name_value(b.native),
        int_value(b.resource.generation as u64),
    );
    say2(facts, "roe/CanUseBuffer", name_value(actor), name_value(b.logical));
    assert(fact_views(facts@) =~= before + state_facts(*b, actor));
}

// --- Views ---

/// A view that the policy code knows.
#[derive(Debug, Clone, Copy, PartialEq, Eq, Structural)]
pub struct ViewRecord {
    pub id: WindowId,
    /// The name of the view.
    pub logical: Identity,
    /// The buffer that it shows.
    pub buffer: BufferId,
    pub cursor: usize,
    pub mark: Option<usize>,
}

/// The facts on a view that shows the buffer with a name.
pub open spec fn view_facts(v: ViewRecord, buffer: Identity) -> Seq<FactView> {
    let first = seq![
        fact1("roe/View"@, named(v.logical)),
        fact2("roe/ViewBuffer"@, named(v.logical), named(buffer)),
        fact2("roe/ViewCursor"@, named(v.logical), counted(v.cursor as int)),
    ];
    match v.mark {
        Some(mark) => first.push(
            fact2("roe/ViewMark"@, named(v.logical), counted(mark as int)),
        ).push(
            fact3(
                "roe/ViewSelection"@,
                named(v.logical),
                counted(mark as int),
                counted(v.cursor as int),
            ),
        ),
        None => first,
    }
}

pub(crate) fn say_view(facts: &mut Vec<Fact>, v: &ViewRecord, buffer: Identity)
    ensures
        fact_views(final(facts)@) == fact_views(old(facts)@) + view_facts(*v, buffer),
{
    let ghost before = fact_views(facts@);
    say1(facts, "roe/View", name_value(v.logical));
    say2(facts, "roe/ViewBuffer", name_value(v.logical), name_value(buffer));
    say2(facts, "roe/ViewCursor", name_value(v.logical), int_value(v.cursor as u64));
    match v.mark {
        Some(mark) => {
            say2(facts, "roe/ViewMark", name_value(v.logical), int_value(mark as u64));
            say3(
                facts,
                "roe/ViewSelection",
                name_value(v.logical),
                int_value(mark as u64),
                int_value(v.cursor as u64),
            );
        },
        None => (),
    }
    assert(fact_views(facts@) =~= before + view_facts(*v, buffer));
}

// --- Sources ---

/// The facts on the workspace as a source.
pub open spec fn source_facts(repository: Identity, revision: Identity, root: Seq<char>) -> Seq<
    FactView,
> {
    seq![
        fact1("source/Repository"@, named(repository)),
        fact2("source/RepositoryName"@, named(repository), FactValueView::Text("workspace"@)),
        fact2("source/RepositoryRoot"@, named(repository), FactValueView::Text(root)),
        fact1("source/Revision"@, named(revision)),
        fact2("source/RevisionOf"@, named(revision), named(repository)),
        fact2("source/RevisionKind"@, named(revision), FactValueView::Text("worktree"@)),
        fact2("source/RevisionLabel"@, named(revision), FactValueView::Text("live worktree"@)),
    ]
}

/// Tells of the workspace as a source.
pub fn source_context_facts(
    facts: &mut Vec<Fact>,
    repository: Identity,
    revision: Identity,
    root: &str,
)
    ensures
        fact_views(final(facts)@) == fact_views(old(facts)@) + source_facts(
            repository,
            revision,
            root@,
        ),
{
    let ghost before = fact_views(facts@);
    say1(facts, "source/Repository", name_value(repository));
    say2(facts, "source/RepositoryName", name_value(repository), text_value("workspace"));
    say2(facts, "source/RepositoryRoot", name_value(repository), text_value(root));
    say1(facts, "source/Revision", name_value(revision));
    say2(facts, "source/RevisionOf", name_value(revision), name_value(repository));
    say2(facts, "source/RevisionKind", name_value(revision), text_value("worktree"));
    say2(facts, "source/RevisionLabel", name_value(revision), text_value("live worktree"));
    assert(fact_views(facts@) =~= before + source_facts(repository, revision, root@));
}

// --- Layout ---

/// A fact on how the frame is divided.
#[derive(Debug, Clone, Copy, PartialEq, Eq, Structural)]
pub enum LayoutFact {
    View(Identity),
    Root { frame: Identity, root: Identity },
    First { parent: Identity, child: Identity },
    Second { parent: Identity, child: Identity },
    Axis { view: Identity, direction: SplitDirection },
    Ratio { view: Identity, ratio: SplitRatio },
    Next { current: Identity, next: Identity },
}

pub open spec fn axis_name(direction: SplitDirection) -> Seq<char> {
    match direction {
        SplitDirection::Horizontal => "horizontal"@,
        SplitDirection::Vertical => "vertical"@,
    }
}

impl View for LayoutFact {
    type V = FactView;

    open spec fn view(&self) -> FactView {
        match *self {
            LayoutFact::View(view) => fact1("roe/View"@, named(view)),
            LayoutFact::Root { frame, root } => fact2(
                "roe/FrameRootView"@,
                named(frame),
                named(root),
            ),
            LayoutFact::First { parent, child } => fact2(
                "roe/ViewFirstChild"@,
                named(parent),
                named(child),
            ),
            LayoutFact::Second { parent, child } => fact2(
                "roe/ViewSecondChild"@,
                named(parent),
                named(child),
            ),
            LayoutFact::Axis { view, direction } => fact2(
                "roe/ViewSplitAxis"@,
                named(view),
                FactValueView::Symbol(axis_name(direction)),
            ),
            LayoutFact::Ratio { view, ratio } => fact2(
                "roe/ViewSplitRatio"@,
                named(view),
                FactValueView::Ratio(ratio),
            ),
            LayoutFact::Next { current, next } => fact2(
                "roe/NextView"@,
                named(current),
                named(next),
            ),
        }
    }
}

/// Facts on the layout, as facts.
pub open spec fn layout_views(facts: Seq<LayoutFact>) -> Seq<FactView> {
    facts.map_values(|f: LayoutFact| f@)
}

/// Tells of the layout.
pub fn say_layout(facts: &mut Vec<Fact>, layout: &Vec<LayoutFact>)
    ensures
        fact_views(final(facts)@) == fact_views(old(facts)@) + layout_views(layout@),
{
    let ghost before = fact_views(facts@);
    let ghost goal = layout_views(layout@);
    let mut i: usize = 0;
    assert(before + goal.take(0) =~= before);
    while i < layout.len()
        invariant
            i <= layout@.len(),
            goal == layout_views(layout@),
            fact_views(facts@) == before + goal.take(i as int),
        decreases layout.len() - i,
    {
        match layout[i] {
            LayoutFact::View(view) => {
                say1(facts, "roe/View", name_value(view));
            },
            LayoutFact::Root { frame, root } => {
                say2(facts, "roe/FrameRootView", name_value(frame), name_value(root));
            },
            LayoutFact::First { parent, child } => {
                say2(facts, "roe/ViewFirstChild", name_value(parent), name_value(child));
            },
            LayoutFact::Second { parent, child } => {
                say2(facts, "roe/ViewSecondChild", name_value(parent), name_value(child));
            },
            LayoutFact::Axis { view, direction } => {
                let axis = match direction {
                    SplitDirection::Horizontal => "horizontal",
                    SplitDirection::Vertical => "vertical",
                };
                say2(facts, "roe/ViewSplitAxis", name_value(view), symbol_value(axis));
            },
            LayoutFact::Ratio { view, ratio } => {
                say2(facts, "roe/ViewSplitRatio", name_value(view), FactValue::Ratio(ratio));
            },
            LayoutFact::Next { current, next } => {
                say2(facts, "roe/NextView", name_value(current), name_value(next));
            },
        }
        assert(goal[i as int] == layout@[i as int]@);
        assert((before + goal.take(i as int)).push(goal[i as int]) =~= before + goal.take(i + 1));
        i = i + 1;
    }
    assert(goal.take(i as int) =~= goal);
}

} // verus!
