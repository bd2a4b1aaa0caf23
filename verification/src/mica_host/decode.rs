//! What the policy code asks for, checked before anything is done.

use vstd::prelude::*;
use vstd::string::*;

use crate::ids::{BufferId, WindowId};
use crate::mica_host::context::{find_named_buffer, find_named_view, MicaHost};
use crate::mica_host::events::MicaHostAction;
use crate::mica_host::layout::{copy_path, NodeRecord};
use crate::mica_host::value::{Identity, Value};
use crate::mica_host::{context, layout};
use crate::text;
use crate::text::{concat2, concat3, str_eq};
use crate::window::{OpenType, SplitDirection};

verus! {

/// The most candidates of a prompt.
pub const MAX_PROMPT_CANDIDATES: usize = 256;

/// The most places that a search shows.
pub const MAX_SEARCH_MATCHES: usize = 1_024;

// --- Fields ---

/// A field, or that it is missing.
pub open spec fn field_in(value: Value, name: Seq<char>) -> Result<Value, Seq<char>> {
    match value.field(name) {
        Some(v) => Ok(v),
        None => Err("Mica effect requires "@ + name),
    }
}

/// The text of a field.
pub open spec fn text_in(value: Value, name: Seq<char>) -> Result<Seq<char>, Seq<char>> {
    match field_in(value, name) {
        Err(m) => Err(m),
        Ok(v) => match v.text() {
            Some(s) => Ok(s),
            None => Err("Mica effect "@ + name + " must be a string"@),
        },
    }
}

/// The symbol of a field.
pub open spec fn symbol_in(value: Value, name: Seq<char>) -> Result<Seq<char>, Seq<char>> {
    match field_in(value, name) {
        Err(m) => Err(m),
        Ok(v) => match v.symbol() {
            Some(s) => Ok(s),
            None => Err("Mica effect "@ + name + " must be a symbol"@),
        },
    }
}

/// The position in a field.
pub open spec fn position_in(value: Value, name: Seq<char>) -> Result<usize, Seq<char>> {
    match field_in(value, name) {
        Err(m) => Err(m),
        Ok(v) => match v.position() {
            Some(n) => Ok(n),
            None => Err("Mica effect "@ + name + " must be a nonnegative integer"@),
        },
    }
}

/// The number in a field.
pub open spec fn number_in(value: Value, name: Seq<char>, otherwise: Seq<char>) -> Result<
    i64,
    Seq<char>,
> {
    match field_in(value, name) {
        Err(m) => Err(m),
        Ok(v) => match v.number() {
            Some(n) => Ok(n),
            None => Err(otherwise),
        },
    }
}

/// The identity in a field.
pub open spec fn identity_in(value: Value, name: Seq<char>, otherwise: Seq<char>) -> Result<
    Identity,
    Seq<char>,
> {
    match field_in(value, name) {
        Err(m) => Err(m),
        Ok(v) => match v.identity() {
            Some(id) => Ok(id),
            None => Err(otherwise),
        },
    }
}

/// Whether a result is the one that is meant.
pub open spec fn agrees<T>(r: Result<T, String>, goal: Result<T, Seq<char>>) -> bool {
    match goal {
        Ok(v) => r matches Ok(w) && w == v,
        Err(m) => r matches Err(e) && e@ == m,
    }
}

/// Whether a text is the one that is meant.
pub open spec fn reads(r: Result<String, String>, goal: Result<Seq<char>, Seq<char>>) -> bool {
    match goal {
        Ok(v) => r matches Ok(w) && w@ == v,
        Err(m) => r matches Err(e) && e@ == m,
    }
}

pub(crate) fn field<'a>(value: &'a Value, name: &str) -> (r: Result<&'a Value, String>)
    ensures
        match field_in(*value, name@) {
            Ok(v) => r matches Ok(w) && *w == v,
            Err(m) => r matches Err(e) && e@ == m,
        },
{
    match value.get(name) {
        Some(v) => Ok(v),
        None => Err(concat2("Mica effect requires ", name)),
    }
}

pub(crate) fn string(value: &Value, name: &str) -> (r: Result<String, String>)
    ensures
        reads(r, text_in(*value, name@)),
{
    match field(value, name) {
        Err(m) => Err(m),
        Ok(v) => match v.as_text() {
            Some(s) => Ok(s.clone()),
            None => Err(concat3("Mica effect ", name, " must be a string")),
        },
    }
}

pub(crate) fn symbol(value: &Value, name: &str) -> (r: Result<String, String>)
    ensures
        reads(r, symbol_in(*value, name@)),
{
    match field(value, name) {
        Err(m) => Err(m),
        Ok(v) => match v.as_symbol() {
            Some(s) => Ok(s.clone()),
            None => Err(concat3("Mica effect ", name, " must be a symbol")),
        },
    }
}

pub(crate) fn position(value: &Value, name: &str) -> (r: Result<usize, String>)
    ensures
        agrees(r, position_in(*value, name@)),
{
    match field(value, name) {
        Err(m) => Err(m),
        Ok(v) => match v.as_position() {
            Some(n) => Ok(n),
            None => Err(concat3("Mica effect ", name, " must be a nonnegative integer")),
        },
    }
}

pub(crate) fn number(value: &Value, name: &str, otherwise: &str) -> (r: Result<i64, String>)
    ensures
        agrees(r, number_in(*value, name@, otherwise@)),
{
    match field(value, name) {
        Err(m) => Err(m),
        Ok(v) => match v.as_int() {
            Some(n) => Ok(n),
            None => Err(otherwise.to_owned()),
        },
    }
}

fn identity(value: &Value, name: &str, otherwise: &str) -> (r: Result<Identity, String>)
    ensures
        agrees(r, identity_in(*value, name@, otherwise@)),
{
    match field(value, name) {
        Err(m) => Err(m),
        Ok(v) => match v.as_identity() {
            Some(id) => Ok(id),
            None => Err(otherwise.to_owned()),
        },
    }
}

// --- Actions of the host ---

/// What the host is asked to do, as a mathematical value.
pub enum HostActionView {
    AgentOpen { view: WindowId, name: Seq<char>, text: Seq<char> },
    AgentUpdate { buffer: BufferId, text: Seq<char> },
    StartAgent,
    ShowTypeout {
        view: WindowId,
        buffer: BufferId,
        kind: Seq<char>,
        title: Seq<char>,
        text: Seq<char>,
    },
    DismissTypeout,
    PageTypeout { forward: bool },
    Echo(Seq<char>),
    Quit,
    Redraw,
    Split { view: WindowId, direction: SplitDirection },
    SelectView { view: WindowId },
    DeleteView { view: WindowId },
    CollapseToView { view: WindowId },
    BeginLayoutDrag { view: WindowId },
    PointerDown { view: WindowId, position: usize, anchor: usize },
    PointerMove { view: WindowId, position: usize, anchor: usize },
    PointerUp,
    Scroll { view: WindowId, line: usize, column: usize },
    SplitRatio { path: Seq<usize>, ratio: u32 },
    InvalidateSyntax { view: WindowId },
    Indent {
        view: WindowId,
        buffer: BufferId,
        revision: u64,
        newline: bool,
        width: usize,
        tab_width: usize,
    },
    Save { buffer: BufferId },
    SaveAs { buffer: BufferId, path: Seq<char> },
    CreateBuffer { view: WindowId, name: Seq<char> },
    EvalRegion { buffer: BufferId, view: WindowId },
    EvalBuffer { buffer: BufferId, unit: Seq<char> },
    SelectBuffer { buffer: BufferId },
    KillBuffer { buffer: BufferId, replacement: BufferId },
    OpenFile { path: Seq<char>, kind: OpenType },
}

impl View for MicaHostAction {
    type V = HostActionView;

    open spec fn view(&self) -> HostActionView {
        match self {
            MicaHostAction::AgentOpen { view, name, text } => HostActionView::AgentOpen {
                view: *view,
                name: name@,
                text: text@,
            },
            MicaHostAction::AgentUpdate { buffer, text } => HostActionView::AgentUpdate {
                buffer: *buffer,
                text: text@,
            },
            MicaHostAction::StartAgent => HostActionView::StartAgent,
            MicaHostAction::ShowTypeout { view, buffer, kind, title, text } =>
                HostActionView::ShowTypeout {
                view: *view,
                buffer: *buffer,
                kind: kind@,
                title: title@,
                text: text@,
            },
            MicaHostAction::DismissTypeout => HostActionView::DismissTypeout,
            MicaHostAction::PageTypeout { forward } => HostActionView::PageTypeout {
                forward: *forward,
            },
            MicaHostAction::Echo(text) => HostActionView::Echo(text@),
            MicaHostAction::Quit => HostActionView::Quit,
            MicaHostAction::Redraw => HostActionView::Redraw,
            MicaHostAction::Split { view, direction } => HostActionView::Split {
                view: *view,
                direction: *direction,
            },
            MicaHostAction::SelectView { view } => HostActionView::SelectView { view: *view },
            MicaHostAction::DeleteView { view } => HostActionView::DeleteView { view: *view },
            MicaHostAction::CollapseToView { view } => HostActionView::CollapseToView {
                view: *view,
            },
            MicaHostAction::BeginLayoutDrag { view } => HostActionView::BeginLayoutDrag {
                view: *view,
            },
            MicaHostAction::PointerDown { view, position, anchor } => HostActionView::PointerDown {
                view: *view,
                position: *position,
                anchor: *anchor,
            },
            MicaHostAction::PointerMove { view, position, anchor } => HostActionView::PointerMove {
                view: *view,
                position: *position,
                anchor: *anchor,
            },
            MicaHostAction::PointerUp => HostActionView::PointerUp,
            MicaHostAction::Scroll { view, line, column } => HostActionView::Scroll {
                view: *view,
                line: *line,
                column: *column,
            },
            MicaHostAction::SplitRatio { path, ratio } => HostActionView::SplitRatio {
                path: path@,
                ratio: *ratio,
            },
            MicaHostAction::InvalidateSyntax { view } => HostActionView::InvalidateSyntax {
                view: *view,
            },
            MicaHostAction::Indent { view, buffer, revision, newline, width, tab_width } =>
                HostActionView::Indent {
                view: *view,
                buffer: *buffer,
                revision: *revision,
                newline: *newline,
                width: *width,
                tab_width: *tab_width,
            },
            MicaHostAction::Save { buffer } => HostActionView::Save { buffer: *buffer },
            MicaHostAction::SaveAs { buffer, path } => HostActionView::SaveAs {
                buffer: *buffer,
                path: path@,
            },
            MicaHostAction::CreateBuffer { view, name } => HostActionView::CreateBuffer {
                view: *view,
                name: name@,
            },
            MicaHostAction::EvalRegion { buffer, view } => HostActionView::EvalRegion {
                buffer: *buffer,
                view: *view,
            },
            MicaHostAction::EvalBuffer { buffer, unit } => HostActionView::EvalBuffer {
                buffer: *buffer,
                unit: unit@,
            },
            MicaHostAction::SelectBuffer { buffer } => HostActionView::SelectBuffer {
                buffer: *buffer,
            },
            MicaHostAction::KillBuffer { buffer, replacement } => HostActionView::KillBuffer {
                buffer: *buffer,
                replacement: *replacement,
            },
            MicaHostAction::OpenFile { path, kind } => HostActionView::OpenFile {
                path: path@,
                kind: *kind,
            },
        }
    }
}

/// The way to the first split with a name.
pub open spec fn path_named(nodes: Seq<layout::NodeView>, logical: Identity) -> Option<Seq<usize>>
    decreases nodes.len(),
{
    if nodes.len() == 0 {
        None
    } else if nodes[0].logical == logical {
        Some(nodes[0].path)
    } else {
        path_named(nodes.skip(1), logical)
    }
}

fn find_path(nodes: &Vec<NodeRecord>, logical: Identity) -> (r: Option<Vec<usize>>)
    ensures
        match r {
            Some(path) => path_named(layout::node_views(nodes@), logical) == Some(path@),
            None => path_named(layout::node_views(nodes@), logical) is None,
        },
{
    let ghost all = layout::node_views(nodes@);
    let mut i: usize = 0;
    assert(all.skip(0) =~= all);
    while i < nodes.len()
        invariant
            i <= nodes@.len(),
            all == layout::node_views(nodes@),
            path_named(all, logical) == path_named(all.skip(i as int), logical),
        decreases nodes.len() - i,
    {
        assert(all.skip(i as int)[0] == all[i as int]);
        assert(all.skip(i as int).skip(1) =~= all.skip(i + 1));
        if nodes[i].logical == logical {
            return Some(copy_path(&nodes[i].path));
        }
        i = i + 1;
    }
    None
}

/// Whether bits stand for a single-precision number from 0 to 1.
pub open spec fn is_ratio(bits: u32) -> bool {
    bits <= 0x3f80_0000 || bits == 0x8000_0000
}

pub(crate) fn has_service(services: &Vec<String>, name: &str) -> (r: bool)
    ensures
        r == text::views(services@).contains(name@),
{
    let mut i: usize = 0;
    while i < services.len()
        invariant
            i <= services@.len(),
            forall|k: int| 0 <= k < i ==> #[trigger] services@[k]@ != name@,
        decreases services.len() - i,
    {
        if str_eq(services[i].as_str(), name) {
            assert(text::views(services@)[i as int] == name@);
            return true;
        }
        i = i + 1;
    }
    proof {
        let v = text::views(services@);
        assert forall|k: int| 0 <= k < v.len() implies v[k] != name@ by {
            assert(services@[k]@ != name@);
        }
    }
    false
}

impl MicaHost {
    /// The buffer in a field.
    pub open spec fn buffer_in(&self, value: Value, name: Seq<char>) -> Result<
        BufferId,
        Seq<char>,
    > {
        match identity_in(value, name, "Mica buffer must be an identity"@) {
            Err(m) => Err(m),
            Ok(logical) => match context::record_named(self.buffers@, logical) {
                Some(b) => Ok(b.id),
                None => Err("Mica effect "@ + name + " refers to a stale buffer"@),
            },
        }
    }

    /// The view in a field.
    pub open spec fn view_in(&self, value: Value) -> Result<WindowId, Seq<char>> {
        match identity_in(value, "view"@, "Mica view must be an identity"@) {
            Err(m) => Err(m),
            Ok(logical) => match context::view_named(self.views@, logical) {
                Some(v) => Ok(v.id),
                None => Err("Mica effect refers to a stale view"@),
            },
        }
    }

    pub(crate) fn decode_buffer(&self, value: &Value, name: &str) -> (r: Result<BufferId, String>)
        ensures
            agrees(r, self.buffer_in(*value, name@)),
    {
        match identity(value, name, "Mica buffer must be an identity") {
            Err(m) => Err(m),
            Ok(logical) => match find_named_buffer(&self.buffers, logical) {
                Some(i) => Ok(self.buffers[i].id),
                None => Err(concat3("Mica effect ", name, " refers to a stale buffer")),
            },
        }
    }

    fn decode_view(&self, value: &Value) -> (r: Result<WindowId, String>)
        ensures
            agrees(r, self.view_in(*value)),
    {
        match identity(value, "view", "Mica view must be an identity") {
            Err(m) => Err(m),
            Ok(logical) => match find_named_view(&self.views, logical) {
                Some(v) => Ok(v.id),
                None => Err("Mica effect refers to a stale view".to_owned()),
            },
        }
    }

    /// Whether the text of a buffer may be read and written by the policy code.
    pub open spec fn may_indent(&self, logical: Identity) -> bool {
        &&& context::record_named(self.buffers@, logical) is Some
        &&& text::views(self.services@).contains("text_read"@)
        &&& text::views(self.services@).contains("text_write"@)
    }

    /// The indentation that is asked for.
    pub open spec fn indent_in(&self, value: Value) -> Result<HostActionView, Seq<char>> {
        match identity_in(value, "buffer"@, "indent buffer must be an identity"@) {
            Err(m) => Err(m),
            Ok(logical) => if !self.may_indent(logical) {
                Err("indentation is not authorized for this endpoint, buffer, or service"@)
            } else {
                match self.view_in(value) {
                    Err(m) => Err(m),
                    Ok(view) => match self.buffer_in(value, "buffer"@) {
                        Err(m) => Err(m),
                        Ok(buffer) => match position_in(value, "revision"@) {
                            Err(m) => Err(m),
                            Ok(revision) => match field_in(value, "newline"@) {
                                Err(m) => Err(m),
                                Ok(Value::Bool(newline)) => match position_in(value, "width"@) {
                                    Err(m) => Err(m),
                                    Ok(width) => match position_in(value, "tab_width"@) {
                                        Err(m) => Err(m),
                                        Ok(tab_width) => Ok(
                                            HostActionView::Indent {
                                                view,
                                                buffer,
                                                revision: revision as u64,
                                                newline,
                                                width,
                                                tab_width,
                                            },
                                        ),
                                    },
                                },
                                Ok(_) => Err("indent newline must be a boolean"@),
                            },
                        },
                    },
                }
            },
        }
    }

    /// The ratio of a split that is asked for.
    pub open spec fn ratio_in(&self, value: Value) -> Result<HostActionView, Seq<char>> {
        match identity_in(value, "node"@, "Mica split node must be an identity"@) {
            Err(m) => Err(m),
            Ok(node) => match path_named(layout::node_views(self.layout_nodes@), node) {
                None => Err("Mica split node is stale"@),
                Some(path) => match field_in(value, "ratio"@) {
                    Err(m) => Err(m),
                    Ok(Value::Float(ratio)) => if is_ratio(ratio) {
                        Ok(HostActionView::SplitRatio { path, ratio })
                    } else {
                        Err("invalid Mica split ratio"@)
                    },
                    Ok(_) => Err("Mica split ratio must be a float"@),
                },
            },
        }
    }

    /// The action of the host that is asked for, or what is wrong with it.
    pub open spec fn host_action_in(&self, value: Value) -> Result<HostActionView, Seq<char>> {
        match symbol_in(value, "action"@) {
            Err(m) => Err(m),
            Ok(name) => {
                if name == "indent_line"@ {
                    self.indent_in(value)
                } else if name == "set_split_ratio"@ {
                    self.ratio_in(value)
                } else if name == "start_agent"@ {
                    Ok(HostActionView::StartAgent)
                } else if name == "show_typeout"@ {
                    match self.view_in(value) {
                        Err(m) => Err(m),
                        Ok(x0) => match self.buffer_in(value, "buffer"@) {
                            Err(m) => Err(m),
                            Ok(x1) => match symbol_in(value, "typeout_kind"@) {
                                Err(m) => Err(m),
                                Ok(x2) => match text_in(value, "title"@) {
                                    Err(m) => Err(m),
                                    Ok(x3) => match text_in(value, "text"@) {
                                        Err(m) => Err(m),
                                        Ok(x4) => Ok(HostActionView::ShowTypeout { view: x0, buffer: x1, kind: x2, title: x3, text: x4 }),
                                    },
                                },
                            },
                        },
                    }
                } else if name == "dismiss_typeout"@ {
                    Ok(HostActionView::DismissTypeout)
                } else if name == "typeout_page_forward"@ {
                    Ok(HostActionView::PageTypeout { forward: true })
                } else if name == "typeout_page_backward"@ {
                    Ok(HostActionView::PageTypeout { forward: false })
                } else if name == "echo"@ {
                    match text_in(value, "text"@) {
                        Err(m) => Err(m),
                        Ok(x0) => Ok(HostActionView::Echo(x0)),
                    }
                } else if name == "quit"@ {
                    Ok(HostActionView::Quit)
                } else if name == "redraw"@ {
                    Ok(HostActionView::Redraw)
                } else if name == "split_horizontal"@ {
                    match self.view_in(value) {
                        Err(m) => Err(m),
                        Ok(x0) => Ok(HostActionView::Split { view: x0, direction: SplitDirection::Horizontal }),
                    }
                } else if name == "split_vertical"@ {
                    match self.view_in(value) {
                        Err(m) => Err(m),
                        Ok(x0) => Ok(HostActionView::Split { view: x0, direction: SplitDirection::Vertical }),
                    }
                } else if name == "other_window"@ {
                    match self.view_in(value) {
                        Err(m) => Err(m),
                        Ok(x0) => Ok(HostActionView::SelectView { view: x0 }),
                    }
                } else if name == "delete_window"@ {
                    match self.view_in(value) {
                        Err(m) => Err(m),
                        Ok(x0) => Ok(HostActionView::DeleteView { view: x0 }),
                    }
                } else if name == "delete_other_windows"@ {
                    match self.view_in(value) {
                        Err(m) => Err(m),
                        Ok(x0) => Ok(HostActionView::CollapseToView { view: x0 }),
                    }
                } else if name == "begin_layout_drag"@ {
                    match self.view_in(value) {
                        Err(m) => Err(m),
                        Ok(x0) => Ok(HostActionView::BeginLayoutDrag { view: x0 }),
                    }
                } else if name == "set_view_scroll"@ {
                    match self.view_in(value) {
                        Err(m) => Err(m),
                        Ok(x0) => match position_in(value, "line"@) {
                            Err(m) => Err(m),
                            Ok(x1) => match position_in(value, "column"@) {
                                Err(m) => Err(m),
                                Ok(x2) => Ok(HostActionView::Scroll { view: x0, line: x1, column: x2 }),
                            },
                        },
                    }
                } else if name == "invalidate_syntax"@ {
                    match self.view_in(value) {
                        Err(m) => Err(m),
                        Ok(x0) => Ok(HostActionView::InvalidateSyntax { view: x0 }),
                    }
                } else if name == "save_buffer"@ {
                    match self.buffer_in(value, "buffer"@) {
                        Err(m) => Err(m),
                        Ok(x0) => Ok(HostActionView::Save { buffer: x0 }),
                    }
                } else if name == "save_buffer_as_selected"@ {
                    match self.buffer_in(value, "buffer"@) {
                        Err(m) => Err(m),
                        Ok(x0) => match text_in(value, "path"@) {
                            Err(m) => Err(m),
                            Ok(x1) => Ok(HostActionView::SaveAs { buffer: x0, path: x1 }),
                        },
                    }
                } else if name == "create_buffer"@ {
                    match self.view_in(value) {
                        Err(m) => Err(m),
                        Ok(x0) => match text_in(value, "buffer_name"@) {
                            Err(m) => Err(m),
                            Ok(x1) => Ok(HostActionView::CreateBuffer { view: x0, name: x1 }),
                        },
                    }
                } else if name == "eval_region"@ {
                    match self.buffer_in(value, "buffer"@) {
                        Err(m) => Err(m),
                        Ok(x0) => match self.view_in(value) {
                            Err(m) => Err(m),
                            Ok(x1) => Ok(HostActionView::EvalRegion { buffer: x0, view: x1 }),
                        },
                    }
                } else if name == "eval_buffer"@ {
                    match self.buffer_in(value, "buffer"@) {
                        Err(m) => Err(m),
                        Ok(x0) => match symbol_in(value, "unit"@) {
                            Err(m) => Err(m),
                            Ok(x1) => Ok(HostActionView::EvalBuffer { buffer: x0, unit: x1 }),
                        },
                    }
                } else if name == "switch_buffer_selected"@ {
                    match self.buffer_in(value, "buffer"@) {
                        Err(m) => Err(m),
                        Ok(x0) => Ok(HostActionView::SelectBuffer { buffer: x0 }),
                    }
                } else if name == "kill_buffer_selected"@ {
                    match self.buffer_in(value, "buffer"@) {
                        Err(m) => Err(m),
                        Ok(x0) => match self.buffer_in(value, "replacement"@) {
                            Err(m) => Err(m),
                            Ok(x1) => Ok(HostActionView::KillBuffer { buffer: x0, replacement: x1 }),
                        },
                    }
                } else if name == "find_file_selected"@ {
                    match text_in(value, "path"@) {
                        Err(m) => Err(m),
                        Ok(x0) => Ok(HostActionView::OpenFile { path: x0, kind: OpenType::New }),
                    }
                } else if name == "visit_file_selected"@ {
                    match text_in(value, "path"@) {
                        Err(m) => Err(m),
                        Ok(x0) => Ok(HostActionView::OpenFile { path: x0, kind: OpenType::Visit }),
                    }
                } else if name == "agent_render"@ {
                    match symbol_in(value, "phase"@) {
                        Err(m) => Err(m),
                        Ok(phase) => if phase == "open"@ {
                            match self.view_in(value) {
                                Err(m) => Err(m),
                                Ok(x0) => match text_in(value, "buffer_name"@) {
                                    Err(m) => Err(m),
                                    Ok(x1) => match text_in(value, "text"@) {
                                        Err(m) => Err(m),
                                        Ok(x2) => Ok(HostActionView::AgentOpen { view: x0, name: x1, text: x2 }),
                                    },
                                },
                            }
                        } else if phase == "update"@ {
                            match self.buffer_in(value, "buffer"@) {
                                Err(m) => Err(m),
                                Ok(x0) => match text_in(value, "text"@) {
                                    Err(m) => Err(m),
                                    Ok(x1) => Ok(HostActionView::AgentUpdate { buffer: x0, text: x1 }),
                                },
                            }
                        } else {
                            Err("unknown Mica agent-render phase"@)
                        },
                    }
                } else if name == "pointer_selection"@ {
                    match symbol_in(value, "phase"@) {
                        Err(m) => Err(m),
                        Ok(phase) => if phase == "down"@ {
                            match self.view_in(value) {
                                Err(m) => Err(m),
                                Ok(x0) => match position_in(value, "position"@) {
                                    Err(m) => Err(m),
                                    Ok(x1) => match position_in(value, "anchor"@) {
                                        Err(m) => Err(m),
                                        Ok(x2) => Ok(HostActionView::PointerDown { view: x0, position: x1, anchor: x2 }),
                                    },
                                },
                            }
                        } else if phase == "move"@ {
                            match self.view_in(value) {
                                Err(m) => Err(m),
                                Ok(x0) => match position_in(value, "position"@) {
                                    Err(m) => Err(m),
                                    Ok(x1) => match position_in(value, "anchor"@) {
                                        Err(m) => Err(m),
                                        Ok(x2) => Ok(HostActionView::PointerMove { view: x0, position: x1, anchor: x2 }),
                                    },
                                },
                            }
                        } else if phase == "up"@ {
                            Ok(HostActionView::PointerUp)
                        } else {
                            Err("unknown Mica pointer phase"@)
                        },
                    }
                } else {
                    Err("unknown Mica host action: "@ + name)
                }
            },
        }
    }

    fn decode_indent(&self, value: &Value) -> (r: Result<MicaHostAction, String>)
        ensures
            match self.indent_in(*value) {
                Ok(a) => r matches Ok(b) && b@ == a,
                Err(m) => r matches Err(e) && e@ == m,
            },
    {
        let logical = match identity(value, "buffer", "indent buffer must be an identity") {
            Ok(x) => x,
            Err(m) => return Err(m),
        };
        if find_named_buffer(&self.buffers, logical).is_none() || !has_service(
            &self.services,
            "text_read",
        ) || !has_service(&self.services, "text_write") {
            return Err(
                "indentation is not authorized for this endpoint, buffer, or service".to_owned(),
            );
        }
        let view = match self.decode_view(value) {
            Ok(x) => x,
            Err(m) => return Err(m),
        };
        let buffer = match self.decode_buffer(value, "buffer") {
            Ok(x) => x,
            Err(m) => return Err(m),
        };
        let revision = match position(value, "revision") {
            Ok(x) => x,
            Err(m) => return Err(m),
        };
        let newline = match field(value, "newline") {
            Ok(v) => match v {
                Value::Bool(b) => *b,
                _ => return Err("indent newline must be a boolean".to_owned()),
            },
            Err(m) => return Err(m),
        };
        let width = match position(value, "width") {
            Ok(x) => x,
            Err(m) => return Err(m),
        };
        let tab_width = match position(value, "tab_width") {
            Ok(x) => x,
            Err(m) => return Err(m),
        };
        Ok(
            MicaHostAction::Indent {
                view,
                buffer,
                revision: revision as u64,
                newline,
                width,
                tab_width,
            },
        )
    }

    fn decode_ratio(&self, value: &Value) -> (r: Result<MicaHostAction, String>)
        ensures
            match self.ratio_in(*value) {
                Ok(a) => r matches Ok(b) && b@ == a,
                Err(m) => r matches Err(e) && e@ == m,
            },
    {
        let node = match identity(value, "node", "Mica split node must be an identity") {
            Ok(x) => x,
            Err(m) => return Err(m),
        };
        let path = match find_path(&self.layout_nodes, node) {
            Some(path) => path,
            None => return Err("Mica split node is stale".to_owned()),
        };
        match field(value, "ratio") {
            Err(m) => Err(m),
            Ok(v) => match v {
                Value::Float(bits) => {
                    if *bits <= 0x3f80_0000 || *bits == 0x8000_0000 {
                        Ok(MicaHostAction::SplitRatio { path, ratio: *bits })
                    } else {
                        Err("invalid Mica split ratio".to_owned())
                    }
                },
                _ => Err("Mica split ratio must be a float".to_owned()),
            },
        }
    }

    /// The action of the host that is asked for.
    pub fn decode_host_action(&self, value: &Value) -> (r: Result<MicaHostAction, String>)
        ensures
            match self.host_action_in(*value) {
                Ok(a) => r matches Ok(b) && b@ == a,
                Err(m) => r matches Err(e) && e@ == m,
            },
    {
        let name = match symbol(value, "action") {
            Ok(x) => x,
            Err(m) => return Err(m),
        };
        if str_eq(name.as_str(), "indent_line") {
            return self.decode_indent(value);
        }
        if str_eq(name.as_str(), "set_split_ratio") {
            return self.decode_ratio(value);
        }
        if str_eq(name.as_str(), "start_agent") {
            return Ok(MicaHostAction::StartAgent);
        }
        if str_eq(name.as_str(), "show_typeout") {
            let x0 = match self.decode_view(value) {
                Ok(x) => x,
                Err(m) => return Err(m),
            };
            let x1 = match self.decode_buffer(value, "buffer") {
                Ok(x) => x,
                Err(m) => return Err(m),
            };
            let x2 = match symbol(value, "typeout_kind") {
                Ok(x) => x,
                Err(m) => return Err(m),
            };
            let x3 = match string(value, "title") {
                Ok(x) => x,
                Err(m) => return Err(m),
            };
            let x4 = match string(value, "text") {
                Ok(x) => x,
                Err(m) => return Err(m),
            };
            return Ok(MicaHostAction::ShowTypeout { view: x0, buffer: x1, kind: x2, title: x3, text: x4 });
        }
        if str_eq(name.as_str(), "dismiss_typeout") {
            return Ok(MicaHostAction::DismissTypeout);
        }
        if str_eq(name.as_str(), "typeout_page_forward") {
            return Ok(MicaHostAction::PageTypeout { forward: true });
        }
        if str_eq(name.as_str(), "typeout_page_backward") {
            return Ok(MicaHostAction::PageTypeout { forward: false });
        }
        if str_eq(name.as_str(), "echo") {
            let x0 = match string(value, "text") {
                Ok(x) => x,
                Err(m) => return Err(m),
            };
            return Ok(MicaHostAction::Echo(x0));
        }
        if str_eq(name.as_str(), "quit") {
            return Ok(MicaHostAction::Quit);
        }
        if str_eq(name.as_str(), "redraw") {
            return Ok(MicaHostAction::Redraw);
        }
        if str_eq(name.as_str(), "split_horizontal") {
            let x0 = match self.decode_view(value) {
                Ok(x) => x,
                Err(m) => return Err(m),
            };
            return Ok(MicaHostAction::Split { view: x0, direction: SplitDirection::Horizontal });
        }
        if str_eq(name.as_str(), "split_vertical") {
            let x0 = match self.decode_view(value) {
                Ok(x) => x,
                Err(m) => return Err(m),
            };
            return Ok(MicaHostAction::Split { view: x0, direction: SplitDirection::Vertical });
        }
        if str_eq(name.as_str(), "other_window") {
            let x0 = match self.decode_view(value) {
                Ok(x) => x,
                Err(m) => return Err(m),
            };
            return Ok(MicaHostAction::SelectView { view: x0 });
        }
        if str_eq(name.as_str(), "delete_window") {
            let x0 = match self.decode_view(value) {
                Ok(x) => x,
                Err(m) => return Err(m),
            };
            return Ok(MicaHostAction::DeleteView { view: x0 });
        }
        if str_eq(name.as_str(), "delete_other_windows") {
            let x0 = match self.decode_view(value) {
                Ok(x) => x,
                Err(m) => return Err(m),
            };
            return Ok(MicaHostAction::CollapseToView { view: x0 });
        }
        if str_eq(name.as_str(), "begin_layout_drag") {
            let x0 = match self.decode_view(value) {
                Ok(x) => x,
                Err(m) => return Err(m),
            };
            return Ok(MicaHostAction::BeginLayoutDrag { view: x0 });
        }
        if str_eq(name.as_str(), "set_view_scroll") {
            let x0 = match self.decode_view(value) {
                Ok(x) => x,
                Err(m) => return Err(m),
            };
            let x1 = match position(value, "line") {
                Ok(x) => x,
                Err(m) => return Err(m),
            };
            let x2 = match position(value, "column") {
                Ok(x) => x,
                Err(m) => return Err(m),
            };
            return Ok(MicaHostAction::Scroll { view: x0, line: x1, column: x2 });
        }
        if str_eq(name.as_str(), "invalidate_syntax") {
            let x0 = match self.decode_view(value) {
                Ok(x) => x,
                Err(m) => return Err(m),
            };
            return Ok(MicaHostAction::InvalidateSyntax { view: x0 });
        }
        if str_eq(name.as_str(), "save_buffer") {
            let x0 = match self.decode_buffer(value, "buffer") {
                Ok(x) => x,
                Err(m) => return Err(m),
            };
            return Ok(MicaHostAction::Save { buffer: x0 });
        }
        if str_eq(name.as_str(), "save_buffer_as_selected") {
            let x0 = match self.decode_buffer(value, "buffer") {
                Ok(x) => x,
                Err(m) => return Err(m),
            };
            let x1 = match string(value, "path") {
                Ok(x) => x,
                Err(m) => return Err(m),
            };
            return Ok(MicaHostAction::SaveAs { buffer: x0, path: x1 });
        }
        if str_eq(name.as_str(), "create_buffer") {
            let x0 = match self.decode_view(value) {
                Ok(x) => x,
                Err(m) => return Err(m),
            };
            let x1 = match string(value, "buffer_name") {
                Ok(x) => x,
                Err(m) => return Err(m),
            };
            return Ok(MicaHostAction::CreateBuffer { view: x0, name: x1 });
        }
        if str_eq(name.as_str(), "eval_region") {
            let x0 = match self.decode_buffer(value, "buffer") {
                Ok(x) => x,
                Err(m) => return Err(m),
            };
            let x1 = match self.decode_view(value) {
                Ok(x) => x,
                Err(m) => return Err(m),
            };
            return Ok(MicaHostAction::EvalRegion { buffer: x0, view: x1 });
        }
        if str_eq(name.as_str(), "eval_buffer") {
            let x0 = match self.decode_buffer(value, "buffer") {
                Ok(x) => x,
                Err(m) => return Err(m),
            };
            let x1 = match symbol(value, "unit") {
                Ok(x) => x,
                Err(m) => return Err(m),
            };
            return Ok(MicaHostAction::EvalBuffer { buffer: x0, unit: x1 });
        }
        if str_eq(name.as_str(), "switch_buffer_selected") {
            let x0 = match self.decode_buffer(value, "buffer") {
                Ok(x) => x,
                Err(m) => return Err(m),
            };
            return Ok(MicaHostAction::SelectBuffer { buffer: x0 });
        }
        if str_eq(name.as_str(), "kill_buffer_selected") {
            let x0 = match self.decode_buffer(value, "buffer") {
                Ok(x) => x,
                Err(m) => return Err(m),
            };
            let x1 = match self.decode_buffer(value, "replacement") {
                Ok(x) => x,
                Err(m) => return Err(m),
            };
            return Ok(MicaHostAction::KillBuffer { buffer: x0, replacement: x1 });
        }
        if str_eq(name.as_str(), "find_file_selected") {
            let x0 = match string(value, "path") {
                Ok(x) => x,
                Err(m) => return Err(m),
            };
            return Ok(MicaHostAction::OpenFile { path: x0, kind: OpenType::New });
        }
        if str_eq(name.as_str(), "visit_file_selected") {
            let x0 = match string(value, "path") {
                Ok(x) => x,
                Err(m) => return Err(m),
            };
            return Ok(MicaHostAction::OpenFile { path: x0, kind: OpenType::Visit });
        }
        if str_eq(name.as_str(), "agent_render") {
            let phase = match symbol(value, "phase") {
                Ok(x) => x,
                Err(m) => return Err(m),
            };
            if str_eq(phase.as_str(), "open") {
                let x0 = match self.decode_view(value) {
                    Ok(x) => x,
                    Err(m) => return Err(m),
                };
                let x1 = match string(value, "buffer_name") {
                    Ok(x) => x,
                    Err(m) => return Err(m),
                };
                let x2 = match string(value, "text") {
                    Ok(x) => x,
                    Err(m) => return Err(m),
                };
                return Ok(MicaHostAction::AgentOpen { view: x0, name: x1, text: x2 });
            }
            if str_eq(phase.as_str(), "update") {
                let x0 = match self.decode_buffer(value, "buffer") {
                    Ok(x) => x,
                    Err(m) => return Err(m),
                };
                let x1 = match string(value, "text") {
                    Ok(x) => x,
                    Err(m) => return Err(m),
                };
                return Ok(MicaHostAction::AgentUpdate { buffer: x0, text: x1 });
            }
            return Err("unknown Mica agent-render phase".to_owned());
        }
        if str_eq(name.as_str(), "pointer_selection") {
            let phase = match symbol(value, "phase") {
                Ok(x) => x,
                Err(m) => return Err(m),
            };
            if str_eq(phase.as_str(), "down") {
                let x0 = match self.decode_view(value) {
                    Ok(x) => x,
                    Err(m) => return Err(m),
                };
                let x1 = match position(value, "position") {
                    Ok(x) => x,
                    Err(m) => return Err(m),
                };
                let x2 = match position(value, "anchor") {
                    Ok(x) => x,
                    Err(m) => return Err(m),
                };
                return Ok(MicaHostAction::PointerDown { view: x0, position: x1, anchor: x2 });
            }
            if str_eq(phase.as_str(), "move") {
                let x0 = match self.decode_view(value) {
                    Ok(x) => x,
                    Err(m) => return Err(m),
                };
                let x1 = match position(value, "position") {
                    Ok(x) => x,
                    Err(m) => return Err(m),
                };
                let x2 = match position(value, "anchor") {
                    Ok(x) => x,
                    Err(m) => return Err(m),
                };
                return Ok(MicaHostAction::PointerMove { view: x0, position: x1, anchor: x2 });
            }
            if str_eq(phase.as_str(), "up") {
                return Ok(MicaHostAction::PointerUp);
            }
            return Err("unknown Mica pointer phase".to_owned());
        }
        Err(concat2("unknown Mica host action: ", name.as_str()))
    }
}

} // verus!
