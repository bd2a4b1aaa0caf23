//! What scripts are told, and what their answers come to.

use vstd::arithmetic::div_mod;
use vstd::arithmetic::power2;
use vstd::prelude::*;
use vstd::string::*;

use crate::julia_calls;
use crate::julia_calls::{CallStage, CallStep, CommandCall};
use crate::julia_runtime;
use crate::julia_runtime::{
    JuliaBufferOp, JuliaCommandResult, JuliaEntry, JuliaValue, TaskOutcome, DOUBLE_UNIT,
};
use crate::keys::{CursorDirection, KeyAction};
use crate::mode::{ActionPosition, ModeActionView, ModeResultView};
use crate::scripted_mode;
use crate::scripted_mode::{JuliaModeAction, ScriptedMode};
use crate::window::OpenType;

verus! {

// --- Dictionaries ---

/// The entry of a key that comes last counts, and a key without an entry has no
/// value.
pub proof fn last_entry_counts(entries: Seq<JuliaEntry>, key: Seq<char>, i: int)
    requires
        -1 <= i < entries.len(),
        i >= 0 ==> entries[i].key@ == key,
        forall|k: int| i < k < entries.len() ==> (#[trigger] entries[k]).key@ != key,
    ensures
        i >= 0 ==> julia_runtime::entry_value(entries, key) == Some(entries[i].value),
        i < 0 ==> julia_runtime::entry_value(entries, key) is None,
    decreases entries.len(),
{
    if entries.len() > 0 {
        let init = entries.drop_last();
        if i < entries.len() - 1 {
            assert(entries[entries.len() - 1].key@ != key);
            assert forall|k: int| i < k < init.len() implies (#[trigger] init[k]).key@ != key by {
                assert(init[k] == entries[k]);
            }
            last_entry_counts(init, key, i);
        }
    }
}

// --- Commands ---

/// Whether a field is this text.
pub open spec fn has_text(v: JuliaValue, key: Seq<char>, t: Seq<char>) -> bool {
    v.field(key) matches Some(JuliaValue::Text(s)) && s@ == t
}

/// Whether a field is this number.
pub open spec fn has_number(v: JuliaValue, key: Seq<char>, n: int) -> bool {
    v.field(key) matches Some(JuliaValue::Int(m)) && m == n
}

/// Whether the answer of a script asks for an operation on the buffer.
pub open spec fn asks_for(v: JuliaValue, op: JuliaBufferOp) -> bool {
    match op {
        JuliaBufferOp::Insert { pos, text } => has_text(v, "type"@, "insert"@) && has_number(
            v,
            "pos"@,
            pos as int,
        ) && has_text(v, "text"@, text@),
        JuliaBufferOp::Delete { start, end } => has_text(v, "type"@, "delete"@) && has_number(
            v,
            "start"@,
            start as int,
        ) && has_number(v, "end"@, end as int),
        JuliaBufferOp::Replace { start, end, text } => has_text(v, "type"@, "replace"@)
            && has_number(v, "start"@, start as int) && has_number(v, "end"@, end as int)
            && has_text(v, "text"@, text@),
        JuliaBufferOp::SetCursor(pos) => has_text(v, "type"@, "set_cursor"@) && has_number(
            v,
            "pos"@,
            pos as int,
        ),
        JuliaBufferOp::SetMark(pos) => has_text(v, "type"@, "set_mark"@) && has_number(
            v,
            "pos"@,
            pos as int,
        ),
        JuliaBufferOp::ClearMark => has_text(v, "type"@, "clear_mark"@),
        JuliaBufferOp::SetContent(text) => has_text(v, "type"@, "set_content"@) && has_text(
            v,
            "content"@,
            text@,
        ),
    }
}

/// Whether two operations are the same.
pub open spec fn same_op(a: JuliaBufferOp, b: JuliaBufferOp) -> bool {
    match (a, b) {
        (
            JuliaBufferOp::Insert { pos: p, text: s },
            JuliaBufferOp::Insert { pos: q, text: t },
        ) => p == q && s@ == t@,
        (
            JuliaBufferOp::Replace { start: x, end: y, text: s },
            JuliaBufferOp::Replace { start: u, end: v, text: t },
        ) => x == u && y == v && s@ == t@,
        (JuliaBufferOp::SetContent(s), JuliaBufferOp::SetContent(t)) => s@ == t@,
        _ => a == b,
    }
}

proof fn kinds_differ()
    ensures
        "echo"@ != "error"@,
        "echo"@ != "insert"@,
        "echo"@ != "delete"@,
        "echo"@ != "replace"@,
        "echo"@ != "set_cursor"@,
        "echo"@ != "set_mark"@,
        "echo"@ != "clear_mark"@,
        "echo"@ != "set_content"@,
        "error"@ != "insert"@,
        "error"@ != "delete"@,
        "error"@ != "replace"@,
        "error"@ != "set_cursor"@,
        "error"@ != "set_mark"@,
        "error"@ != "clear_mark"@,
        "error"@ != "set_content"@,
        "insert"@ != "delete"@,
        "insert"@ != "replace"@,
        "insert"@ != "set_cursor"@,
        "insert"@ != "set_mark"@,
        "insert"@ != "clear_mark"@,
        "insert"@ != "set_content"@,
        "delete"@ != "replace"@,
        "delete"@ != "set_cursor"@,
        "delete"@ != "set_mark"@,
        "delete"@ != "clear_mark"@,
        "delete"@ != "set_content"@,
        "replace"@ != "set_cursor"@,
        "replace"@ != "set_mark"@,
        "replace"@ != "clear_mark"@,
        "replace"@ != "set_content"@,
        "set_cursor"@ != "set_mark"@,
        "set_cursor"@ != "clear_mark"@,
        "set_cursor"@ != "set_content"@,
        "set_mark"@ != "clear_mark"@,
        "set_mark"@ != "set_content"@,
        "clear_mark"@ != "set_content"@,
        "unknown"@ != "insert"@,
        "unknown"@ != "delete"@,
        "unknown"@ != "replace"@,
{
    reveal_strlit("echo");
    reveal_strlit("error");
    reveal_strlit("insert");
    reveal_strlit("delete");
    reveal_strlit("replace");
    reveal_strlit("set_cursor");
    reveal_strlit("set_mark");
    reveal_strlit("clear_mark");
    reveal_strlit("set_content");
    reveal_strlit("unknown");
    assert("echo"@.len() == 4);
    assert("error"@.len() == 5);
    assert("insert"@.len() == 6 && "insert"@[0] == 'i');
    assert("delete"@.len() == 6 && "delete"@[0] == 'd');
    assert("replace"@.len() == 7 && "replace"@[0] == 'r');
    assert("set_cursor"@.len() == 10 && "set_cursor"@[0] == 's');
    assert("set_mark"@.len() == 8);
    assert("clear_mark"@.len() == 10 && "clear_mark"@[0] == 'c');
    assert("set_content"@.len() == 11);
    assert("unknown"@.len() == 7 && "unknown"@[0] == 'u');
}

/// What a command asks for is what is read of its answer: the operation with the
/// positions and the text that the answer holds.
pub proof fn operations_are_read_as_they_are_written(
    v: JuliaValue,
    op: JuliaBufferOp,
    r: JuliaCommandResult,
)
    requires
        asks_for(v, op),
        julia_runtime::command_decoded(Some(v), r),
    ensures
        r matches JuliaCommandResult::BufferOps(ops) && ops@.len() == 1 && same_op(ops@[0], op),
{
    kinds_differ();
}

/// A message is shown as a message, and an error as an error.
pub proof fn messages_are_read_as_they_are_written(
    v: JuliaValue,
    message: Seq<char>,
    r: JuliaCommandResult,
)
    requires
        julia_runtime::command_decoded(Some(v), r),
        has_text(v, "message"@, message),
    ensures
        has_text(v, "type"@, "echo"@) ==> (r matches JuliaCommandResult::Echo(m) && m@ == message),
        has_text(v, "type"@, "error"@) ==> (r matches JuliaCommandResult::Error(m) && m@
            == message),
{
    kinds_differ();
}

/// Nothing is done to the buffer but what an answer names.
pub proof fn only_named_operations_are_done(
    v: JuliaValue,
    r: JuliaCommandResult,
    name: Seq<char>,
)
    requires
        julia_runtime::command_decoded(Some(v), r),
        has_text(v, "type"@, name),
        r is BufferOps,
    ensures
        r matches JuliaCommandResult::BufferOps(ops) && ops@.len() == 1 && match ops@[0] {
            JuliaBufferOp::Insert { .. } => name == "insert"@,
            JuliaBufferOp::Delete { .. } => name == "delete"@,
            JuliaBufferOp::Replace { .. } => name == "replace"@,
            JuliaBufferOp::SetCursor(_) => name == "set_cursor"@,
            JuliaBufferOp::SetMark(_) => name == "set_mark"@,
            JuliaBufferOp::ClearMark => name == "clear_mark"@,
            JuliaBufferOp::SetContent(_) => name == "set_content"@,
        },
{
    kinds_differ();
}

/// The stages of a call, counted.
pub open spec fn stage_number(stage: CallStage) -> int {
    match stage {
        CallStage::Module => 0,
        CallStage::Function => 1,
        CallStage::Context => 2,
        CallStage::Command => 3,
    }
}

/// A call goes from stage to stage, and asks at each what belongs to it. It ends
/// with more than an error only at the last one, so only where the module and
/// the function are there.
pub proof fn calls_go_from_stage_to_stage(
    c: CommandCall,
    d: CommandCall,
    answer: TaskOutcome<JuliaValue>,
    step: CallStep,
)
    requires
        c.stepped(&d, answer, step),
    ensures
        step matches CallStep::Evaluate(s) ==> stage_number(d.stage) == stage_number(c.stage) + 1
            && s@ == d.question() && answer is Done,
        step is Finish ==> d == c,
        d.name == c.name,
        d.context == c.context,
        c.stage != CallStage::Command && step is Finish ==> match step->Finish_0 {
            TaskOutcome::NotDispatched => answer is NotDispatched,
            TaskOutcome::NotFinished => answer is NotFinished,
            TaskOutcome::Done(r) => r is Error,
            TaskOutcome::Failed(_) => false,
        },
        stage_number(c.stage) < 2 && step is Evaluate ==> answer == TaskOutcome::Done(
            JuliaValue::Bool(true),
        ),
{
}

// --- Modes ---

/// Whether a dictionary of a script asks for an action of a mode.
pub open spec fn asks_for_action(m: ScriptedMode, v: JuliaValue, a: ModeActionView) -> bool {
    match a {
        ModeActionView::ClearText => has_text(v, "type"@, "clear_text"@),
        ModeActionView::InsertText(position, s) => has_text(v, "type"@, "insert_text"@)
            && has_text(v, "text"@, s) && match position {
            ActionPosition::Absolute(row, col) => row == 0 && col == 0 && has_text(
                v,
                "position"@,
                "start"@,
            ),
            ActionPosition::End => has_text(v, "position"@, "end"@),
            ActionPosition::Cursor => has_text(v, "position"@, "cursor"@) || v.field(
                "position"@,
            ) is None,
        },
        ModeActionView::OpenFile { path, open_type } => has_text(v, "type"@, "open_file"@)
            && has_text(v, "path"@, path) && has_text(
            v,
            "open_type"@,
            if open_type == OpenType::Visit {
                "visit"@
            } else {
                "new"@
            },
        ),
        ModeActionView::ExecuteCommand(name) => has_text(v, "type"@, "execute_command"@)
            && has_text(v, "command"@, name),
        ModeActionView::SwitchToBuffer(id) => has_text(v, "type"@, "switch_buffer"@) && (exists|
            i: int,
        | #[trigger]
            has_number(v, "buffer_index"@, i) && 0 <= i < m.buffer_id_map@.len() <= usize::MAX
                && m.buffer_id_map@[i] == id),
        ModeActionView::KillBuffer(id) => has_text(v, "type"@, "kill_buffer"@) && (exists|i: int|
         #[trigger]
            has_number(v, "buffer_index"@, i) && 0 <= i < m.buffer_id_map@.len() <= usize::MAX
                && m.buffer_id_map@[i] == id),
        ModeActionView::CursorUp => has_text(v, "type"@, "cursor_up"@),
        ModeActionView::CursorDown => has_text(v, "type"@, "cursor_down"@),
        ModeActionView::CursorLeft => has_text(v, "type"@, "cursor_left"@),
        ModeActionView::CursorRight => has_text(v, "type"@, "cursor_right"@),
        _ => false,
    }
}

proof fn actions_differ()
    ensures
        "clear_text"@ != "insert_text"@,
        "clear_text"@ != "open_file"@,
        "clear_text"@ != "execute_command"@,
        "clear_text"@ != "switch_buffer"@,
        "clear_text"@ != "kill_buffer"@,
        "clear_text"@ != "cursor_up"@,
        "clear_text"@ != "cursor_down"@,
        "clear_text"@ != "cursor_left"@,
        "clear_text"@ != "cursor_right"@,
        "insert_text"@ != "open_file"@,
        "insert_text"@ != "execute_command"@,
        "insert_text"@ != "switch_buffer"@,
        "insert_text"@ != "kill_buffer"@,
        "insert_text"@ != "cursor_up"@,
        "insert_text"@ != "cursor_down"@,
        "insert_text"@ != "cursor_left"@,
        "insert_text"@ != "cursor_right"@,
        "open_file"@ != "execute_command"@,
        "open_file"@ != "switch_buffer"@,
        "open_file"@ != "kill_buffer"@,
        "open_file"@ != "cursor_up"@,
        "open_file"@ != "cursor_down"@,
        "open_file"@ != "cursor_left"@,
        "open_file"@ != "cursor_right"@,
        "execute_command"@ != "switch_buffer"@,
        "execute_command"@ != "kill_buffer"@,
        "execute_command"@ != "cursor_up"@,
        "execute_command"@ != "cursor_down"@,
        "execute_command"@ != "cursor_left"@,
        "execute_command"@ != "cursor_right"@,
        "switch_buffer"@ != "kill_buffer"@,
        "switch_buffer"@ != "cursor_up"@,
        "switch_buffer"@ != "cursor_down"@,
        "switch_buffer"@ != "cursor_left"@,
        "switch_buffer"@ != "cursor_right"@,
        "kill_buffer"@ != "cursor_up"@,
        "kill_buffer"@ != "cursor_down"@,
        "kill_buffer"@ != "cursor_left"@,
        "kill_buffer"@ != "cursor_right"@,
        "cursor_up"@ != "cursor_down"@,
        "cursor_up"@ != "cursor_left"@,
        "cursor_up"@ != "cursor_right"@,
        "cursor_down"@ != "cursor_left"@,
        "cursor_down"@ != "cursor_right"@,
        "cursor_left"@ != "cursor_right"@,
        "start"@ != "end"@,
        "start"@ != "cursor"@,
        "end"@ != "cursor"@,
        "visit"@ != "new"@,
{
    reveal_strlit("clear_text");
    reveal_strlit("insert_text");
    reveal_strlit("open_file");
    reveal_strlit("execute_command");
    reveal_strlit("switch_buffer");
    reveal_strlit("kill_buffer");
    reveal_strlit("cursor_up");
    reveal_strlit("cursor_down");
    reveal_strlit("cursor_left");
    reveal_strlit("cursor_right");
    reveal_strlit("start");
    reveal_strlit("end");
    reveal_strlit("cursor");
    reveal_strlit("visit");
    reveal_strlit("new");
    assert("clear_text"@.len() == 10);
    assert("insert_text"@.len() == 11 && "insert_text"@[0] == 'i');
    assert("open_file"@.len() == 9 && "open_file"@[0] == 'o');
    assert("execute_command"@.len() == 15);
    assert("switch_buffer"@.len() == 13);
    assert("kill_buffer"@.len() == 11 && "kill_buffer"@[0] == 'k');
    assert("cursor_up"@.len() == 9 && "cursor_up"@[0] == 'c');
    assert("cursor_down"@.len() == 11 && "cursor_down"@[0] == 'c' && "cursor_down"@[7] == 'd');
    assert("cursor_left"@.len() == 11 && "cursor_left"@[0] == 'c' && "cursor_left"@[7] == 'l');
    assert("cursor_right"@.len() == 12);
    assert("start"@.len() == 5);
    assert("end"@.len() == 3);
    assert("cursor"@.len() == 6);
    assert("visit"@.len() == 5);
    assert("new"@.len() == 3);
}

/// What a script asks a mode to do is what is done.
pub proof fn mode_actions_are_read_as_they_are_written(
    m: ScriptedMode,
    v: JuliaValue,
    a: JuliaModeAction,
    wanted: ModeActionView,
)
    requires
        asks_for_action(m, v, wanted),
        julia_runtime::action_decoded(v, a),
    ensures
        m.action_meant(a) == Some(wanted),
{
    actions_differ();
}

/// The actions of a script are done in order, and those that are not known are
/// left out.
pub proof fn mode_actions_keep_their_order(
    m: ScriptedMode,
    actions: Seq<JuliaModeAction>,
    last: JuliaModeAction,
)
    ensures
        m.action_meant(last) matches Some(a) ==> m.actions_meant(actions.push(last))
            == m.actions_meant(actions).push(a),
        m.action_meant(last) is None ==> m.actions_meant(actions.push(last)) == m.actions_meant(
            actions,
        ),
        m.actions_meant(Seq::<JuliaModeAction>::empty()).len() == 0,
{
    assert(actions.push(last).drop_last() =~= actions);
}

// --- Literals ---

/// What the characters between the quotes of a literal stand for; nothing where
/// a quote would end it early, or a value be filled in.
pub open spec fn read_back(s: Seq<char>) -> Option<Seq<char>>
    decreases s.len(),
{
    if s.len() == 0 {
        Some(Seq::<char>::empty())
    } else if s[0] == '"' || s[0] == '$' {
        None
    } else if s[0] != '\\' {
        behind(s[0], read_back(s.skip(1)))
    } else if s.len() >= 4 && s[1] == 'x' && s[2] == '0' && s[3] == '0' {
        behind('\0', read_back(s.skip(4)))
    } else if s.len() < 2 {
        None
    } else if s[1] == 'n' {
        behind('\n', read_back(s.skip(2)))
    } else if s[1] == 'r' {
        behind('\r', read_back(s.skip(2)))
    } else if s[1] == '"' || s[1] == '\\' || s[1] == '$' {
        behind(s[1], read_back(s.skip(2)))
    } else {
        None
    }
}

/// A text behind a character.
pub open spec fn behind(c: char, rest: Option<Seq<char>>) -> Option<Seq<char>> {
    match rest {
        Some(t) => Some(seq![c] + t),
        None => None,
    }
}

proof fn first_is_written_first(s: Seq<char>)
    requires
        s.len() > 0,
    ensures
        julia_calls::all_written(s) == julia_calls::written(s[0]) + julia_calls::all_written(
            s.skip(1),
        ),
    decreases s.len(),
{
    let init = s.drop_last();
    let rest = s.skip(1);
    if init.len() > 0 {
        first_is_written_first(init);
        assert(init.skip(1) =~= rest.drop_last());
        assert(julia_calls::all_written(s) =~= julia_calls::written(s[0])
            + julia_calls::all_written(rest));
    } else {
        assert(init =~= seq![]);
        assert(rest =~= seq![]);
        assert(julia_calls::all_written(s) =~= julia_calls::written(s[0])
            + julia_calls::all_written(rest));
    }
}

/// A literal stands for the text that it was made of: no character of the text
/// ends it, and none has a value filled in.
pub proof fn literals_stand_for_their_text(s: Seq<char>)
    ensures
        read_back(julia_calls::all_written(s)) == Some(s),
        julia_calls::literal(s).len() == julia_calls::all_written(s).len() + 2,
        julia_calls::literal(s)[0] == '"',
        julia_calls::literal(s).last() == '"',
    decreases s.len(),
{
    let all = julia_calls::all_written(s);
    if s.len() > 0 {
        let rest = s.skip(1);
        first_is_written_first(s);
        literals_stand_for_their_text(rest);
        let w = julia_calls::written(s[0]);
        assert(all.skip(w.len() as int) =~= julia_calls::all_written(rest));
        assert(all[0] == w[0]);
        if w.len() >= 2 {
            assert(all[1] == w[1]);
        }
        if w.len() >= 4 {
            assert(all[2] == w[2] && all[3] == w[3]);
        }
        assert(seq![s[0]] + rest =~= s);
        assert(read_back(all) == behind(s[0], read_back(julia_calls::all_written(rest))));
    } else {
        assert(s =~= Seq::<char>::empty());
    }
}

// --- Settings ---

proof fn no_dot(s: Seq<char>)
    requires
        !s.contains('.'),
    ensures
        julia_runtime::first_dot(s) is None,
    decreases s.len(),
{
    if s.len() > 0 {
        let init = s.drop_last();
        assert(s[s.len() - 1] != '.') by {
            assert(s.contains(s[s.len() - 1]));
        }
        assert forall|k: int| 0 <= k < init.len() implies init[k] != '.' by {
            assert(s.contains(s[k]));
        }
        no_dot(init);
    }
}

proof fn dot_behind(outer: Seq<char>, rest: Seq<char>)
    requires
        !outer.contains('.'),
    ensures
        julia_runtime::first_dot(outer + seq!['.'] + rest) == Some(outer.len() as int),
    decreases rest.len(),
{
    let all = outer + seq!['.'] + rest;
    if rest.len() > 0 {
        dot_behind(outer, rest.drop_last());
        assert(all.drop_last() =~= outer + seq!['.'] + rest.drop_last());
    } else {
        no_dot(outer);
        assert(all.drop_last() =~= outer);
        assert(all.last() == '.');
    }
}

/// A name without a dot names a setting, and one with a dot a setting within a
/// group. A name with more dots names nothing.
pub proof fn dotted_names_lead_into_groups(
    config: JuliaValue,
    group: Seq<char>,
    name: Seq<char>,
    more: Seq<char>,
)
    requires
        !group.contains('.'),
        !name.contains('.'),
    ensures
        julia_runtime::config_place(config, name) == config.field(name),
        julia_runtime::config_place(config, group + seq!['.'] + name) == match config.field(
            group,
        ) {
            Some(inner) => inner.field(name),
            None => None,
        },
        julia_runtime::config_place(config, group + seq!['.'] + (name + seq!['.'] + more)) is None,
{
    no_dot(name);
    let one = group + seq!['.'] + name;
    dot_behind(group, name);
    assert(one.skip(group.len() as int + 1) =~= name);
    assert(one.take(group.len() as int) =~= group);
    let rest = name + seq!['.'] + more;
    let two = group + seq!['.'] + rest;
    dot_behind(group, rest);
    dot_behind(name, more);
    assert(two.skip(group.len() as int + 1) =~= rest);
}

/// The whole part of a number from 1 up to 2 to the 52nd is the greatest whole
/// number that is not greater. The number is a sum of parts of its unit: so many
/// parts make one.
pub proof fn whole_part_is_not_greater(fraction: u64, exponent: u64)
    requires
        fraction < DOUBLE_UNIT,
        1023 <= exponent < 1075,
    ensures
        ({
            let bits = (exponent * DOUBLE_UNIT + fraction) as u64;
            let n = julia_runtime::whole_part(bits);
            let one = power2::pow2((1075 - exponent) as nat);
            &&& 0 <= n
            &&& n * one <= DOUBLE_UNIT + fraction
            &&& DOUBLE_UNIT + fraction < (n + 1) * one
        }),
{
    let bits = (exponent * DOUBLE_UNIT + fraction) as u64;
    let unit = DOUBLE_UNIT as int;
    assert(exponent * DOUBLE_UNIT + fraction < 0x8000_0000_0000_0000) by (nonlinear_arith)
        requires
            exponent < 1075,
            fraction < DOUBLE_UNIT,
            DOUBLE_UNIT == 0x10_0000_0000_0000,
    ;
    assert(bits == exponent * DOUBLE_UNIT + fraction);
    assert(bits as int / unit == exponent && bits as int % unit == fraction) by {
        div_mod::lemma_fundamental_div_mod_converse(
            bits as int,
            unit,
            exponent as int,
            fraction as int,
        );
    }
    let s = DOUBLE_UNIT + fraction;
    let one = power2::pow2((1075 - exponent) as nat) as int;
    power2::lemma_pow2_pos((1075 - exponent) as nat);
    div_mod::lemma_fundamental_div_mod(s as int, one);
    div_mod::lemma_mod_bound(s as int, one);
    let n = s as int / one;
    div_mod::lemma_div_nonincreasing(s as int, one);
    div_mod::lemma_div_pos_is_pos(s as int, one);
    assert(n * one <= s && s < (n + 1) * one) by (nonlinear_arith)
        requires
            s == one * n + s as int % one,
            0 <= s as int % one < one,
    ;
    assert(julia_runtime::whole_part(bits) == n);
}

// --- Names of keys ---

/// A name with its words parted by low lines, in small letters.
pub open spec fn parted(s: Seq<char>) -> Seq<char>
    decreases s.len(),
{
    if s.len() == 0 {
        seq![]
    } else {
        let c = s.last();
        let front = parted(s.drop_last());
        if !('A' <= c <= 'Z') {
            front.push(c)
        } else if s.len() == 1 {
            front.push((c as int + 32) as char)
        } else {
            front.push('_').push((c as int + 32) as char)
        }
    }
}

/// A script is told of a direction by the name that it has in the source, with
/// its words parted.
#[verifier::rlimit(40)]
pub proof fn directions_are_named_as_in_the_source(d: CursorDirection)
    ensures
        scripted_mode::direction_name(d) == parted(scripted_mode::direction_source(d)),
{
    match d {
        CursorDirection::Left => {
            reveal_strlit("Left");
            reveal_strlit("left");
            assert(parted("Left"@) =~= "left"@) by {
                reveal_with_fuel(parted, 5);
            }
        },
        CursorDirection::Right => {
            reveal_strlit("Right");
            reveal_strlit("right");
            assert(parted("Right"@) =~= "right"@) by {
                reveal_with_fuel(parted, 6);
            }
        },
        CursorDirection::Up => {
            reveal_strlit("Up");
            reveal_strlit("up");
            assert(parted("Up"@) =~= "up"@) by {
                reveal_with_fuel(parted, 3);
            }
        },
        CursorDirection::Down => {
            reveal_strlit("Down");
            reveal_strlit("down");
            assert(parted("Down"@) =~= "down"@) by {
                reveal_with_fuel(parted, 5);
            }
        },
        CursorDirection::LineEnd => {
            reveal_strlit("LineEnd");
            reveal_strlit("line_end");
            assert(parted("LineEnd"@) =~= "line_end"@) by {
                reveal_with_fuel(parted, 8);
            }
        },
        CursorDirection::LineStart => {
            reveal_strlit("LineStart");
            reveal_strlit("line_start");
            assert(parted("LineStart"@) =~= "line_start"@) by {
                reveal_with_fuel(parted, 10);
            }
        },
        CursorDirection::BufferStart => {
            reveal_strlit("BufferStart");
            reveal_strlit("buffer_start");
            assert(parted("BufferStart"@) =~= "buffer_start"@) by {
                reveal_with_fuel(parted, 12);
            }
        },
        CursorDirection::BufferEnd => {
            reveal_strlit("BufferEnd");
            reveal_strlit("buffer_end");
            assert(parted("BufferEnd"@) =~= "buffer_end"@) by {
                reveal_with_fuel(parted, 10);
            }
        },
        CursorDirection::PageUp => {
            reveal_strlit("PageUp");
            reveal_strlit("page_up");
            assert(parted("PageUp"@) =~= "page_up"@) by {
                reveal_with_fuel(parted, 7);
            }
        },
        CursorDirection::PageDown => {
            reveal_strlit("PageDown");
            reveal_strlit("page_down");
            assert(parted("PageDown"@) =~= "page_down"@) by {
                reveal_with_fuel(parted, 9);
            }
        },
        CursorDirection::WordForward => {
            reveal_strlit("WordForward");
            reveal_strlit("word_forward");
            assert(parted("WordForward"@) =~= "word_forward"@) by {
                reveal_with_fuel(parted, 12);
            }
        },
        CursorDirection::WordBackward => {
            reveal_strlit("WordBackward");
            reveal_strlit("word_backward");
            assert(parted("WordBackward"@) =~= "word_backward"@) by {
                reveal_with_fuel(parted, 13);
            }
        },
        CursorDirection::ParagraphForward => {
            reveal_strlit("ParagraphForward");
            reveal_strlit("paragraph_forward");
            assert(parted("ParagraphForward"@) =~= "paragraph_forward"@) by {
                reveal_with_fuel(parted, 17);
            }
        },
        CursorDirection::ParagraphBackward => {
            reveal_strlit("ParagraphBackward");
            reveal_strlit("paragraph_backward");
            assert(parted("ParagraphBackward"@) =~= "paragraph_backward"@) by {
                reveal_with_fuel(parted, 18);
            }
        },
    }
}

/// A script is told what kind of key came, and what belongs to it: the character,
/// the direction or the name of the command.
pub proof fn keys_are_told_by_their_kind(c: char, d: CursorDirection, name: String)
    ensures
        scripted_mode::key_dict(KeyAction::AlphaNumeric(c))["type"@] == "alphanumeric"@,
        scripted_mode::key_dict(KeyAction::AlphaNumeric(c))["char"@] == seq![c],
        scripted_mode::key_dict(KeyAction::Cursor(d))["type"@] == "cursor"@,
        scripted_mode::key_dict(KeyAction::Cursor(d))["direction"@] == parted(
            scripted_mode::direction_source(d),
        ),
        scripted_mode::key_dict(KeyAction::Command(name))["type"@] == "command"@,
        scripted_mode::key_dict(KeyAction::Command(name))["name"@] == name@,
        scripted_mode::key_dict(KeyAction::Delete)["type"@] == "delete"@,
        scripted_mode::key_dict(KeyAction::Backspace)["type"@] == "backspace"@,
        scripted_mode::key_dict(KeyAction::Enter)["type"@] == "enter"@,
        scripted_mode::key_dict(KeyAction::Tab)["type"@] == "tab"@,
        scripted_mode::key_dict(KeyAction::Escape)["type"@] == "escape"@,
        scripted_mode::key_dict(KeyAction::Cancel)["type"@] == "cancel"@,
{
    reveal_strlit("type");
    reveal_strlit("char");
    reveal_strlit("direction");
    reveal_strlit("name");
    assert("type"@.len() == 4 && "type"@[0] == 't');
    assert("char"@.len() == 4 && "char"@[0] == 'c');
    assert("direction"@.len() == 9);
    assert("name"@.len() == 4 && "name"@[0] == 'n');
    directions_are_named_as_in_the_source(d);
}

/// With the first key a script is told that it begins, what kind the key was, and
/// all that it has to know; later only of the key.
pub proof fn first_key_tells_what_is_to_be_known(
    m: ScriptedMode,
    action: KeyAction,
    param: Seq<char>,
)
    requires
        !m.init_params@.contains_key("type"@),
    ensures
        m.initialized ==> m.question(action) == scripted_mode::key_dict(action),
        !m.initialized ==> {
            &&& m.question(action)["type"@] == "init"@
            &&& m.question(action)["original_type"@] == scripted_mode::key_dict(action)["type"@]
            &&& m.init_params@.contains_key(param) && param != "original_type"@ ==> m.question(
                action,
            ).contains_key(param) && m.question(action)[param] == m.init_params@[param]
        },
{
    reveal_strlit("type");
    reveal_strlit("original_type");
    assert("type"@.len() == 4);
    assert("original_type"@.len() == 13);
    assert(scripted_mode::key_dict(action).contains_key("type"@));
}

/// What a script says of a key is what becomes of it: it is consumed, or only
/// annotated, with all actions; anything else leaves the key to others.
pub proof fn answers_are_taken_as_they_are_meant(
    m: ScriptedMode,
    result: scripted_mode::JuliaModeResult,
)
    ensures
        m.converted(result) is Consumed <==> result.result_type@ == "consumed"@,
        m.converted(result) is Annotated <==> result.result_type@ == "annotated"@,
        m.converted(result) matches ModeResultView::Consumed(actions) ==> actions
            == m.actions_meant(result.actions@),
        m.converted(result) matches ModeResultView::Annotated(actions) ==> actions
            == m.actions_meant(result.actions@),
{
    reveal_strlit("consumed");
    reveal_strlit("annotated");
    assert("consumed"@.len() == 8);
    assert("annotated"@.len() == 9);
}

} // verus!
