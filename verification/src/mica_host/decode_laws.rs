//! What the policy code asks the host to do: each action, written as a table, is
//! read as what was written.

use vstd::prelude::*;
use vstd::string::*;

use crate::ids::{BufferId, WindowId};
use crate::mica_host::context::MicaHost;
use crate::mica_host::events::MicaHostAction;
use crate::mica_host::facts::{BufferRecord, ViewRecord};
use crate::mica_host::layout::NodeView;
use crate::mica_host::value::{Identity, Value, ValueEntry};
use crate::mica_host::{context, decode, layout, value};
use crate::text;
use crate::window::{OpenType, SplitDirection};

verus! {

// --- Fields ---

/// Whether an entry of a table has a symbol as its key.
pub open spec fn is_keyed(entry: ValueEntry, name: Seq<char>) -> bool {
    entry.key matches Value::Symbol(s) && s@ == name
}

proof fn entry_found(entries: Seq<ValueEntry>, name: Seq<char>, i: int)
    requires
        0 <= i < entries.len(),
        is_keyed(entries[i], name),
        forall|k: int| 0 <= k < i ==> !is_keyed(#[trigger] entries[k], name),
    ensures
        value::entry_named(entries, name) == Some(entries[i].value),
    decreases i,
{
    if i > 0 {
        assert(!is_keyed(entries[0], name));
        let rest = entries.skip(1);
        assert forall|k: int| 0 <= k < i - 1 implies !is_keyed(#[trigger] rest[k], name) by {
            assert(rest[k] == entries[k + 1]);
        }
        entry_found(rest, name, i - 1);
    }
}

proof fn entry_missing(entries: Seq<ValueEntry>, name: Seq<char>)
    requires
        forall|k: int| 0 <= k < entries.len() ==> !is_keyed(#[trigger] entries[k], name),
    ensures
        value::entry_named(entries, name) is None,
    decreases entries.len(),
{
    if entries.len() > 0 {
        assert(!is_keyed(entries[0], name));
        let rest = entries.skip(1);
        assert forall|k: int| 0 <= k < rest.len() implies !is_keyed(#[trigger] rest[k], name) by {
            assert(rest[k] == entries[k + 1]);
        }
        entry_missing(rest, name);
    }
}

/// A field of a table is the value of the first entry with its name, and there is
/// none where no entry has it.
pub proof fn fields_are_the_entries_of_a_table(entries: Vec<ValueEntry>, name: Seq<char>, i: int)
    ensures
        0 <= i < entries@.len() && is_keyed(entries@[i], name) && (forall|k: int|
            0 <= k < i ==> !is_keyed(#[trigger] entries@[k], name)) ==> Value::Table(
            entries,
        ).field(name) == Some(entries@[i].value),
        (forall|k: int|
            0 <= k < entries@.len() ==> !is_keyed(#[trigger] entries@[k], name)) ==> Value::Table(
            entries,
        ).field(name) is None,
{
    if 0 <= i < entries@.len() && is_keyed(entries@[i], name) && (forall|k: int|
        0 <= k < i ==> !is_keyed(#[trigger] entries@[k], name)) {
        entry_found(entries@, name, i);
    }
    if forall|k: int| 0 <= k < entries@.len() ==> !is_keyed(#[trigger] entries@[k], name) {
        entry_missing(entries@, name);
    }
}

pub open spec fn text_under(value: Value, name: Seq<char>, s: Seq<char>) -> bool {
    value.field(name) matches Some(Value::Text(t)) && t@ == s
}

pub open spec fn symbol_under(value: Value, name: Seq<char>, s: Seq<char>) -> bool {
    value.field(name) matches Some(Value::Symbol(t)) && t@ == s
}

pub open spec fn number_under(value: Value, name: Seq<char>, n: int) -> bool {
    value.field(name) matches Some(Value::Int(m)) && m == n
}

pub open spec fn flag_under(value: Value, name: Seq<char>, flag: bool) -> bool {
    value.field(name) matches Some(Value::Bool(b)) && b == flag
}

// --- Names ---

/// Whether `logical` is the name of a buffer: its record is the first with that
/// name.
pub open spec fn names_buffer(host: MicaHost, logical: Identity, id: BufferId) -> bool {
    exists|i: int|
        {
            &&& 0 <= i < host.buffers@.len()
            &&& (#[trigger] host.buffers@[i]).logical == logical
            &&& host.buffers@[i].id == id
            &&& forall|k: int| 0 <= k < i ==> (#[trigger] host.buffers@[k]).logical != logical
        }
}

/// Whether `logical` is the name of a view.
pub open spec fn names_view(host: MicaHost, logical: Identity, id: WindowId) -> bool {
    exists|i: int|
        {
            &&& 0 <= i < host.views@.len()
            &&& (#[trigger] host.views@[i]).logical == logical
            &&& host.views@[i].id == id
            &&& forall|k: int| 0 <= k < i ==> (#[trigger] host.views@[k]).logical != logical
        }
}

/// Whether `logical` is the name of the split at the end of a way.
pub open spec fn names_split(host: MicaHost, logical: Identity, path: Seq<usize>) -> bool {
    exists|i: int|
        {
            &&& 0 <= i < host.layout_nodes@.len()
            &&& (#[trigger] host.layout_nodes@[i]).logical == logical
            &&& host.layout_nodes@[i].path@ == path
            &&& forall|k: int|
                0 <= k < i ==> (#[trigger] host.layout_nodes@[k]).logical != logical
        }
}

proof fn record_found(records: Seq<BufferRecord>, logical: Identity)
    ensures
        match context::record_named(records, logical) {
            None => forall|k: int|
                0 <= k < records.len() ==> (#[trigger] records[k]).logical != logical,
            Some(r) => exists|i: int|
                {
                    &&& 0 <= i < records.len()
                    &&& #[trigger] records[i] == r
                    &&& r.logical == logical
                    &&& forall|k: int| 0 <= k < i ==> (#[trigger] records[k]).logical != logical
                },
        },
    decreases records.len(),
{
    if records.len() > 0 && records[0].logical != logical {
        let rest = records.skip(1);
        record_found(rest, logical);
        match context::record_named(rest, logical) {
            None => {
                assert forall|k: int| 0 <= k < records.len() implies (
                #[trigger] records[k]).logical != logical by {
                    if k > 0 {
                        assert(rest[k - 1].logical != logical);
                    }
                }
            },
            Some(r) => {
                let i = choose|i: int|
                    {
                        &&& 0 <= i < rest.len()
                        &&& #[trigger] rest[i] == r
                        &&& r.logical == logical
                        &&& forall|k: int| 0 <= k < i ==> (#[trigger] rest[k]).logical != logical
                    };
                assert(records[i + 1] == r);
                assert forall|k: int| 0 <= k < i + 1 implies (#[trigger] records[k]).logical
                    != logical by {
                    if k > 0 {
                        assert(rest[k - 1].logical != logical);
                    }
                }
            },
        }
    }
}

proof fn view_found(records: Seq<ViewRecord>, logical: Identity)
    ensures
        match context::view_named(records, logical) {
            None => forall|k: int|
                0 <= k < records.len() ==> (#[trigger] records[k]).logical != logical,
            Some(r) => exists|i: int|
                {
                    &&& 0 <= i < records.len()
                    &&& #[trigger] records[i] == r
                    &&& r.logical == logical
                    &&& forall|k: int| 0 <= k < i ==> (#[trigger] records[k]).logical != logical
                },
        },
    decreases records.len(),
{
    if records.len() > 0 && records[0].logical != logical {
        let rest = records.skip(1);
        view_found(rest, logical);
        match context::view_named(rest, logical) {
            None => {
                assert forall|k: int| 0 <= k < records.len() implies (
                #[trigger] records[k]).logical != logical by {
                    if k > 0 {
                        assert(rest[k - 1].logical != logical);
                    }
                }
            },
            Some(r) => {
                let i = choose|i: int|
                    {
                        &&& 0 <= i < rest.len()
                        &&& #[trigger] rest[i] == r
                        &&& r.logical == logical
                        &&& forall|k: int| 0 <= k < i ==> (#[trigger] rest[k]).logical != logical
                    };
                assert(records[i + 1] == r);
                assert forall|k: int| 0 <= k < i + 1 implies (#[trigger] records[k]).logical
                    != logical by {
                    if k > 0 {
                        assert(rest[k - 1].logical != logical);
                    }
                }
            },
        }
    }
}

proof fn split_found(nodes: Seq<NodeView>, logical: Identity)
    ensures
        match decode::path_named(nodes, logical) {
            None => forall|k: int| 0 <= k < nodes.len() ==> (#[trigger] nodes[k]).logical != logical,
            Some(path) => exists|i: int|
                {
                    &&& 0 <= i < nodes.len()
                    &&& (#[trigger] nodes[i]).path == path
                    &&& nodes[i].logical == logical
                    &&& forall|k: int| 0 <= k < i ==> (#[trigger] nodes[k]).logical != logical
                },
        },
    decreases nodes.len(),
{
    if nodes.len() > 0 && nodes[0].logical != logical {
        let rest = nodes.skip(1);
        split_found(rest, logical);
        match decode::path_named(rest, logical) {
            None => {
                assert forall|k: int| 0 <= k < nodes.len() implies (#[trigger] nodes[k]).logical
                    != logical by {
                    if k > 0 {
                        assert(rest[k - 1].logical != logical);
                    }
                }
            },
            Some(path) => {
                let i = choose|i: int|
                    {
                        &&& 0 <= i < rest.len()
                        &&& (#[trigger] rest[i]).path == path
                        &&& rest[i].logical == logical
                        &&& forall|k: int| 0 <= k < i ==> (#[trigger] rest[k]).logical != logical
                    };
                assert(nodes[i + 1] == rest[i]);
                assert forall|k: int| 0 <= k < i + 1 implies (#[trigger] nodes[k]).logical
                    != logical by {
                    if k > 0 {
                        assert(rest[k - 1].logical != logical);
                    }
                }
            },
        }
    }
}

pub(crate) proof fn buffer_is_named(host: MicaHost, logical: Identity, id: BufferId)
    ensures
        names_buffer(host, logical, id) <==> (context::record_named(host.buffers@, logical)
            matches Some(r) && r.id == id),
{
    let records = host.buffers@;
    record_found(records, logical);
    if names_buffer(host, logical, id) {
        let i = choose|i: int|
            {
                &&& 0 <= i < records.len()
                &&& (#[trigger] records[i]).logical == logical
                &&& records[i].id == id
                &&& forall|k: int| 0 <= k < i ==> (#[trigger] records[k]).logical != logical
            };
        match context::record_named(records, logical) {
            None => {},
            Some(r) => {
                let j = choose|j: int|
                    {
                        &&& 0 <= j < records.len()
                        &&& #[trigger] records[j] == r
                        &&& r.logical == logical
                        &&& forall|k: int| 0 <= k < j ==> (#[trigger] records[k]).logical != logical
                    };
                assert(i == j) by {
                    if i < j {
                        assert(records[i].logical != logical);
                    }
                    if j < i {
                        assert(records[j].logical != logical);
                    }
                }
            },
        }
    }
}

pub(crate) proof fn view_is_named(host: MicaHost, logical: Identity, id: WindowId)
    ensures
        names_view(host, logical, id) <==> (context::view_named(host.views@, logical) matches Some(
            r,
        ) && r.id == id),
{
    let records = host.views@;
    view_found(records, logical);
    if names_view(host, logical, id) {
        let i = choose|i: int|
            {
                &&& 0 <= i < records.len()
                &&& (#[trigger] records[i]).logical == logical
                &&& records[i].id == id
                &&& forall|k: int| 0 <= k < i ==> (#[trigger] records[k]).logical != logical
            };
        match context::view_named(records, logical) {
            None => {},
            Some(r) => {
                let j = choose|j: int|
                    {
                        &&& 0 <= j < records.len()
                        &&& #[trigger] records[j] == r
                        &&& r.logical == logical
                        &&& forall|k: int| 0 <= k < j ==> (#[trigger] records[k]).logical != logical
                    };
                assert(i == j) by {
                    if i < j {
                        assert(records[i].logical != logical);
                    }
                    if j < i {
                        assert(records[j].logical != logical);
                    }
                }
            },
        }
    }
}

proof fn split_is_named(host: MicaHost, logical: Identity, path: Seq<usize>)
    ensures
        names_split(host, logical, path) <==> decode::path_named(
            layout::node_views(host.layout_nodes@),
            logical,
        ) == Some(path),
{
    let nodes = layout::node_views(host.layout_nodes@);
    split_found(nodes, logical);
    if names_split(host, logical, path) {
        let i = choose|i: int|
            {
                &&& 0 <= i < host.layout_nodes@.len()
                &&& (#[trigger] host.layout_nodes@[i]).logical == logical
                &&& host.layout_nodes@[i].path@ == path
                &&& forall|k: int|
                    0 <= k < i ==> (#[trigger] host.layout_nodes@[k]).logical != logical
            };
        assert(nodes[i].logical == logical && nodes[i].path == path);
        match decode::path_named(nodes, logical) {
            None => {},
            Some(found) => {
                let j = choose|j: int|
                    {
                        &&& 0 <= j < nodes.len()
                        &&& (#[trigger] nodes[j]).path == found
                        &&& nodes[j].logical == logical
                        &&& forall|k: int| 0 <= k < j ==> (#[trigger] nodes[k]).logical != logical
                    };
                assert(i == j) by {
                    if i < j {
                        assert(nodes[i].logical != logical);
                    }
                    if j < i {
                        assert(nodes[j].logical == host.layout_nodes@[j].logical);
                        assert(host.layout_nodes@[j].logical != logical);
                    }
                }
            },
        }
    }
    if decode::path_named(nodes, logical) == Some(path) {
        let j = choose|j: int|
            {
                &&& 0 <= j < nodes.len()
                &&& (#[trigger] nodes[j]).path == path
                &&& nodes[j].logical == logical
                &&& forall|k: int| 0 <= k < j ==> (#[trigger] nodes[k]).logical != logical
            };
        assert(host.layout_nodes@[j].logical == logical);
        assert forall|k: int| 0 <= k < j implies (#[trigger] host.layout_nodes@[k]).logical
            != logical by {
            assert(nodes[k].logical != logical);
        }
    }
}

pub open spec fn buffer_under(
    host: MicaHost,
    value: Value,
    name: Seq<char>,
    id: BufferId,
) -> bool {
    value.field(name) matches Some(Value::Identity(logical)) && names_buffer(host, logical, id)
}

pub open spec fn view_under(host: MicaHost, value: Value, id: WindowId) -> bool {
    value.field("view"@) matches Some(Value::Identity(logical)) && names_view(host, logical, id)
}

pub(crate) proof fn buffers_are_read(host: MicaHost, value: Value, name: Seq<char>)
    ensures
        forall|id: BufferId| #[trigger]
            buffer_under(host, value, name, id) <==> host.buffer_in(value, name) == Ok::<
                BufferId,
                Seq<char>,
            >(id),
{
    assert forall|id: BufferId| #[trigger]
        buffer_under(host, value, name, id) <==> host.buffer_in(value, name) == Ok::<
            BufferId,
            Seq<char>,
        >(id) by {
        match value.field(name) {
            Some(Value::Identity(logical)) => {
                buffer_is_named(host, logical, id);
            },
            _ => {},
        }
    }
}

pub(crate) proof fn views_are_read(host: MicaHost, value: Value)
    ensures
        forall|id: WindowId| #[trigger]
            view_under(host, value, id) <==> host.view_in(value) == Ok::<WindowId, Seq<char>>(id),
        forall|id: WindowId| #[trigger]
            view_under(host, value, id) <==> host.known_view(value) == Some(id),
{
    assert forall|id: WindowId| #[trigger]
        view_under(host, value, id) <==> host.view_in(value) == Ok::<WindowId, Seq<char>>(id)
    by {
        match value.field("view"@) {
            Some(Value::Identity(logical)) => {
                view_is_named(host, logical, id);
            },
            _ => {},
        }
    }
    assert forall|id: WindowId| #[trigger]
        view_under(host, value, id) <==> host.known_view(value) == Some(id) by {
        match value.field("view"@) {
            Some(Value::Identity(logical)) => {
                view_is_named(host, logical, id);
            },
            _ => {},
        }
    }
}

// --- Actions of the host ---

/// Whether a table names an action.
pub open spec fn names_action(value: Value, name: Seq<char>) -> bool {
    symbol_under(value, "action"@, name)
}

/// Whether a table asks for an action: it names it, and has what it is done with
/// under the names of its fields.
pub open spec fn asks(host: MicaHost, value: Value, action: MicaHostAction) -> bool {
    match action {
        MicaHostAction::AgentOpen { view, name, text } => {
            &&& names_action(value, "agent_render"@)
            &&& symbol_under(value, "phase"@, "open"@)
            &&& view_under(host, value, view)
            &&& text_under(value, "buffer_name"@, name@)
            &&& text_under(value, "text"@, text@)
        },
        MicaHostAction::AgentUpdate { buffer, text } => {
            &&& names_action(value, "agent_render"@)
            &&& symbol_under(value, "phase"@, "update"@)
            &&& buffer_under(host, value, "buffer"@, buffer)
            &&& text_under(value, "text"@, text@)
        },
        MicaHostAction::StartAgent => names_action(value, "start_agent"@),
        MicaHostAction::ShowTypeout { view, buffer, kind, title, text } => {
            &&& names_action(value, "show_typeout"@)
            &&& view_under(host, value, view)
            &&& buffer_under(host, value, "buffer"@, buffer)
            &&& symbol_under(value, "typeout_kind"@, kind@)
            &&& text_under(value, "title"@, title@)
            &&& text_under(value, "text"@, text@)
        },
        MicaHostAction::DismissTypeout => names_action(value, "dismiss_typeout"@),
        MicaHostAction::PageTypeout { forward } => names_action(
                value,
            if forward {
                "typeout_page_forward"@
            } else {
                "typeout_page_backward"@
            },
        ),
        MicaHostAction::Echo(text) => names_action(value, "echo"@) && text_under(value, "text"@, text@),
        MicaHostAction::Quit => names_action(value, "quit"@),
        MicaHostAction::Redraw => names_action(value, "redraw"@),
        MicaHostAction::Split { view, direction } => {
            &&& view_under(host, value, view)
            &&& names_action(
                value,
                match direction {
                    SplitDirection::Horizontal => "split_horizontal"@,
                    SplitDirection::Vertical => "split_vertical"@,
                },
            )
        },
        MicaHostAction::SelectView { view } => names_action(value, "other_window"@) && view_under(
            host,
            value,
            view,
        ),
        MicaHostAction::DeleteView { view } => names_action(value, "delete_window"@) && view_under(
            host,
            value,
            view,
        ),
        MicaHostAction::CollapseToView { view } => names_action(value, "delete_other_windows"@) && view_under(
            host,
            value,
            view,
        ),
        MicaHostAction::BeginLayoutDrag { view } => names_action(value, "begin_layout_drag"@) && view_under(
            host,
            value,
            view,
        ),
        MicaHostAction::PointerDown { view, position, anchor } => {
            &&& names_action(value, "pointer_selection"@)
            &&& symbol_under(value, "phase"@, "down"@)
            &&& view_under(host, value, view)
            &&& number_under(value, "position"@, position as int)
            &&& number_under(value, "anchor"@, anchor as int)
        },
        MicaHostAction::PointerMove { view, position, anchor } => {
            &&& names_action(value, "pointer_selection"@)
            &&& symbol_under(value, "phase"@, "move"@)
            &&& view_under(host, value, view)
            &&& number_under(value, "position"@, position as int)
            &&& number_under(value, "anchor"@, anchor as int)
        },
        MicaHostAction::PointerUp => names_action(value, "pointer_selection"@) && symbol_under(
            value,
            "phase"@,
            "up"@,
        ),
        MicaHostAction::Scroll { view, line, column } => {
            &&& names_action(value, "set_view_scroll"@)
            &&& view_under(host, value, view)
            &&& number_under(value, "line"@, line as int)
            &&& number_under(value, "column"@, column as int)
        },
        MicaHostAction::SplitRatio { path, ratio } => {
            &&& names_action(value, "set_split_ratio"@)
            &&& value.field("node"@) matches Some(Value::Identity(logical)) && names_split(
                host,
                logical,
                path@,
            )
            &&& value.field("ratio"@) == Some(Value::Float(ratio))
            &&& ratio <= 0x3f80_0000 || ratio == 0x8000_0000
        },
        MicaHostAction::InvalidateSyntax { view } => names_action(value, "invalidate_syntax"@) && view_under(
            host,
            value,
            view,
        ),
        MicaHostAction::Indent { view, buffer, revision, newline, width, tab_width } => {
            &&& names_action(value, "indent_line"@)
            &&& text::views(host.services@).contains("text_read"@)
            &&& text::views(host.services@).contains("text_write"@)
            &&& view_under(host, value, view)
            &&& buffer_under(host, value, "buffer"@, buffer)
            &&& revision <= usize::MAX
            &&& number_under(value, "revision"@, revision as int)
            &&& flag_under(value, "newline"@, newline)
            &&& number_under(value, "width"@, width as int)
            &&& number_under(value, "tab_width"@, tab_width as int)
        },
        MicaHostAction::Save { buffer } => names_action(value, "save_buffer"@) && buffer_under(
            host,
            value,
            "buffer"@,
            buffer,
        ),
        MicaHostAction::SaveAs { buffer, path } => {
            &&& names_action(value, "save_buffer_as_selected"@)
            &&& buffer_under(host, value, "buffer"@, buffer)
            &&& text_under(value, "path"@, path@)
        },
        MicaHostAction::CreateBuffer { view, name } => {
            &&& names_action(value, "create_buffer"@)
            &&& view_under(host, value, view)
            &&& text_under(value, "buffer_name"@, name@)
        },
        MicaHostAction::EvalRegion { buffer, view } => {
            &&& names_action(value, "eval_region"@)
            &&& buffer_under(host, value, "buffer"@, buffer)
            &&& view_under(host, value, view)
        },
        MicaHostAction::EvalBuffer { buffer, unit } => {
            &&& names_action(value, "eval_buffer"@)
            &&& buffer_under(host, value, "buffer"@, buffer)
            &&& symbol_under(value, "unit"@, unit@)
        },
        MicaHostAction::SelectBuffer { buffer } => names_action(value, "switch_buffer_selected"@)
            && buffer_under(host, value, "buffer"@, buffer),
        MicaHostAction::KillBuffer { buffer, replacement } => {
            &&& names_action(value, "kill_buffer_selected"@)
            &&& buffer_under(host, value, "buffer"@, buffer)
            &&& buffer_under(host, value, "replacement"@, replacement)
        },
        MicaHostAction::OpenFile { path, kind } => {
            &&& names_action(
                value,
                match kind {
                    OpenType::New => "find_file_selected"@,
                    OpenType::Visit => "visit_file_selected"@,
                },
            )
            &&& text_under(value, "path"@, path@)
        },
    }
}

/// An action that a table asks for is what the table is read as.
pub proof fn actions_are_read_as_they_are_written(
    host: MicaHost,
    value: Value,
    action: MicaHostAction,
)
    requires
        asks(host, value, action),
    ensures
        host.host_action_in(value) == Ok::<decode::HostActionView, Seq<char>>(action@),
{
    reveal_strlit("agent_render");
    assert("agent_render"@.len() == 12);
    reveal_strlit("begin_layout_drag");
    assert("begin_layout_drag"@.len() == 17);
    reveal_strlit("create_buffer");
    assert("create_buffer"@.len() == 13);
    reveal_strlit("delete_other_windows");
    assert("delete_other_windows"@.len() == 20);
    reveal_strlit("delete_window");
    assert("delete_window"@.len() == 13);
    reveal_strlit("dismiss_typeout");
    assert("dismiss_typeout"@.len() == 15);
    reveal_strlit("down");
    assert("down"@.len() == 4);
    reveal_strlit("echo");
    assert("echo"@.len() == 4);
    reveal_strlit("eval_buffer");
    assert("eval_buffer"@.len() == 11);
    reveal_strlit("eval_region");
    assert("eval_region"@.len() == 11);
    reveal_strlit("find_file_selected");
    assert("find_file_selected"@.len() == 18);
    reveal_strlit("indent_line");
    assert("indent_line"@.len() == 11);
    reveal_strlit("invalidate_syntax");
    assert("invalidate_syntax"@.len() == 17);
    reveal_strlit("kill_buffer_selected");
    assert("kill_buffer_selected"@.len() == 20);
    reveal_strlit("move");
    assert("move"@.len() == 4);
    reveal_strlit("open");
    assert("open"@.len() == 4);
    reveal_strlit("other_window");
    assert("other_window"@.len() == 12);
    reveal_strlit("pointer_selection");
    assert("pointer_selection"@.len() == 17);
    reveal_strlit("quit");
    assert("quit"@.len() == 4);
    reveal_strlit("redraw");
    assert("redraw"@.len() == 6);
    reveal_strlit("save_buffer");
    assert("save_buffer"@.len() == 11);
    reveal_strlit("save_buffer_as_selected");
    assert("save_buffer_as_selected"@.len() == 23);
    reveal_strlit("set_split_ratio");
    assert("set_split_ratio"@.len() == 15);
    reveal_strlit("set_view_scroll");
    assert("set_view_scroll"@.len() == 15);
    reveal_strlit("show_typeout");
    assert("show_typeout"@.len() == 12);
    reveal_strlit("split_horizontal");
    assert("split_horizontal"@.len() == 16);
    reveal_strlit("split_vertical");
    assert("split_vertical"@.len() == 14);
    reveal_strlit("start_agent");
    assert("start_agent"@.len() == 11);
    reveal_strlit("switch_buffer_selected");
    assert("switch_buffer_selected"@.len() == 22);
    reveal_strlit("typeout_page_backward");
    assert("typeout_page_backward"@.len() == 21);
    reveal_strlit("typeout_page_forward");
    assert("typeout_page_forward"@.len() == 20);
    reveal_strlit("up");
    assert("up"@.len() == 2);
    reveal_strlit("update");
    assert("update"@.len() == 6);
    reveal_strlit("visit_file_selected");
    assert("visit_file_selected"@.len() == 19);
    assert("agent_render"@[0] == 'a');
    assert("begin_layout_drag"@[0] == 'b');
    assert("create_buffer"@[0] == 'c');
    assert("delete_other_windows"@[0] == 'd');
    assert("delete_window"@[0] == 'd');
    assert("dismiss_typeout"@[0] == 'd');
    assert("down"@[0] == 'd');
    assert("echo"@[0] == 'e');
    assert("eval_buffer"@[0] == 'e');
    assert("eval_buffer"@[5] == 'b');
    assert("eval_region"@[0] == 'e');
    assert("eval_region"@[5] == 'r');
    assert("indent_line"@[0] == 'i');
    assert("invalidate_syntax"@[0] == 'i');
    assert("kill_buffer_selected"@[0] == 'k');
    assert("move"@[0] == 'm');
    assert("open"@[0] == 'o');
    assert("other_window"@[0] == 'o');
    assert("pointer_selection"@[0] == 'p');
    assert("quit"@[0] == 'q');
    assert("redraw"@[0] == 'r');
    assert("save_buffer"@[0] == 's');
    assert("save_buffer"@[1] == 'a');
    assert("set_split_ratio"@[0] == 's');
    assert("set_split_ratio"@[4] == 's');
    assert("set_view_scroll"@[0] == 's');
    assert("set_view_scroll"@[4] == 'v');
    assert("show_typeout"@[0] == 's');
    assert("start_agent"@[0] == 's');
    assert("start_agent"@[1] == 't');
    assert("typeout_page_forward"@[0] == 't');
    assert("update"@[0] == 'u');
    buffers_are_read(host, value, "buffer"@);
    buffers_are_read(host, value, "replacement"@);
    views_are_read(host, value);
    match action {
        MicaHostAction::SplitRatio { path, ratio } => {
            match value.field("node"@) {
                Some(Value::Identity(logical)) => {
                    split_is_named(host, logical, path@);
                },
                _ => {},
            }
        },
        MicaHostAction::Indent { buffer, .. } => {
            match value.field("buffer"@) {
                Some(Value::Identity(logical)) => {
                    buffer_is_named(host, logical, buffer);
                },
                _ => {},
            }
        },
        _ => {},
    }
}

pub(crate) proof fn reads_buffer(host: MicaHost, value: Value, name: Seq<char>, id: BufferId)
    ensures
        buffer_under(host, value, name, id) <==> host.buffer_in(value, name) == Ok::<
            BufferId,
            Seq<char>,
        >(id),
{
    buffers_are_read(host, value, name);
}

pub(crate) proof fn reads_view(host: MicaHost, value: Value, id: WindowId)
    ensures
        view_under(host, value, id) <==> host.view_in(value) == Ok::<WindowId, Seq<char>>(id),
{
    views_are_read(host, value);
}

/// What a table is read as, it asks for: no field is made up, and none is stale.
#[verifier::rlimit(60)]
pub proof fn actions_are_written_as_they_are_read(
    host: MicaHost,
    value: Value,
    action: MicaHostAction,
)
    requires
        host.host_action_in(value) == Ok::<decode::HostActionView, Seq<char>>(action@),
    ensures
        asks(host, value, action),
{
    match action {
        MicaHostAction::AgentOpen { view, .. } => reads_view(host, value, view),
        MicaHostAction::AgentUpdate { buffer, .. } => reads_buffer(host, value, "buffer"@, buffer),
        MicaHostAction::ShowTypeout { view, buffer, .. } => {
            reads_view(host, value, view);
            reads_buffer(host, value, "buffer"@, buffer);
        },
        MicaHostAction::Split { view, .. } => reads_view(host, value, view),
        MicaHostAction::SelectView { view } => reads_view(host, value, view),
        MicaHostAction::DeleteView { view } => reads_view(host, value, view),
        MicaHostAction::CollapseToView { view } => reads_view(host, value, view),
        MicaHostAction::BeginLayoutDrag { view } => reads_view(host, value, view),
        MicaHostAction::PointerDown { view, .. } => reads_view(host, value, view),
        MicaHostAction::PointerMove { view, .. } => reads_view(host, value, view),
        MicaHostAction::Scroll { view, .. } => reads_view(host, value, view),
        MicaHostAction::SplitRatio { path, .. } => {
            match value.field("node"@) {
                Some(Value::Identity(logical)) => {
                    split_is_named(host, logical, path@);
                },
                _ => {},
            }
        },
        MicaHostAction::InvalidateSyntax { view } => reads_view(host, value, view),
        MicaHostAction::Indent { view, buffer, .. } => {
            reads_view(host, value, view);
            reads_buffer(host, value, "buffer"@, buffer);
        },
        MicaHostAction::Save { buffer } => reads_buffer(host, value, "buffer"@, buffer),
        MicaHostAction::SaveAs { buffer, .. } => reads_buffer(host, value, "buffer"@, buffer),
        MicaHostAction::CreateBuffer { view, .. } => reads_view(host, value, view),
        MicaHostAction::EvalRegion { buffer, view } => {
            reads_view(host, value, view);
            reads_buffer(host, value, "buffer"@, buffer);
        },
        MicaHostAction::EvalBuffer { buffer, .. } => reads_buffer(host, value, "buffer"@, buffer),
        MicaHostAction::SelectBuffer { buffer } => reads_buffer(host, value, "buffer"@, buffer),
        MicaHostAction::KillBuffer { buffer, replacement } => {
            reads_buffer(host, value, "buffer"@, buffer);
            reads_buffer(host, value, "replacement"@, replacement);
        },
        _ => {},
    }
}

} // verus!
