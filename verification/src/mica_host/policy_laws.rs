//! What the policy code declares, how it is put in, and what comes of it.

use vstd::prelude::*;
use vstd::string::*;

use crate::mica_host::context::MicaHost;
use crate::mica_host::dispatch;
use crate::mica_host::dispatch::{DriverEvent, MicaKeyResult};
use crate::mica_host::events::{MicaEvent, MicaEventBatch};
use crate::mica_host::syntax_policy;
use crate::mica_host::syntax_policy::{IndentRuleView, PlanView, SyntaxPlan, MAX_SYNTAX_PLANS};
use crate::mica_host::units::{UnitEvent, UnitReplacement, UnitStage, UnitStep};
use crate::mica_host::value;
use crate::mica_host::value::{SizeFault, Value, ValueEntry, MAX_VALUE_DEPTH};
use crate::text;

verus! {

// --- Grammars ---

/// Whether a value describes a rule.
pub open spec fn describes_rule(v: Value, rule: IndentRuleView) -> bool {
    &&& v.field("query"@) matches Some(Value::Text(s)) && s@ == rule.query
    &&& v.field("anchor"@) matches Some(Value::Symbol(s)) && s@ == rule.anchor
    &&& v.field("offset"@) == Some(Value::Int(rule.offset))
    &&& v.field("precedence"@) == Some(Value::Int(rule.precedence))
}

/// Whether a value describes a grammar.
pub open spec fn describes_plan(v: Value, plan: PlanView) -> bool {
    &&& v.field("grammar"@) matches Some(Value::Symbol(s)) && s@ == plan.grammar
    &&& v.field("query"@) matches Some(Value::Text(s)) && s@ == plan.query
    &&& v.field("rules"@) matches Some(Value::List(rules)) && rules@.len() == plan.rules.len()
        && forall|i: int|
        0 <= i < plan.rules.len() ==> describes_rule(rules@[i], #[trigger] plan.rules[i])
}

proof fn rules_are_read(items: Seq<Value>, rules: Seq<IndentRuleView>)
    requires
        items.len() == rules.len(),
        forall|i: int| 0 <= i < rules.len() ==> describes_rule(items[i], #[trigger] rules[i]),
    ensures
        syntax_policy::rules_of(items) == Ok::<Seq<IndentRuleView>, Seq<char>>(rules),
    decreases items.len(),
{
    if items.len() > 0 {
        let n = items.len() - 1;
        let before = rules.drop_last();
        assert forall|i: int| 0 <= i < before.len() implies describes_rule(
            items.drop_last()[i],
            #[trigger] before[i],
        ) by {
            assert(before[i] == rules[i]);
        }
        rules_are_read(items.drop_last(), before);
        assert(describes_rule(items[n], rules[n]));
        assert(before.push(rules.last()) =~= rules);
    } else {
        assert(rules =~= seq![]);
    }
}

/// A grammar is read as it is described, with its rules in order.
pub proof fn grammars_are_read_as_they_are_described(v: Value, plan: PlanView)
    requires
        describes_plan(v, plan),
        plan.rules.len() <= MAX_SYNTAX_PLANS,
    ensures
        syntax_policy::plan_of(v) == Ok::<PlanView, Seq<char>>(plan),
{
    let rules = v.field("rules"@)->0->List_0;
    rules_are_read(rules@, plan.rules);
}

proof fn sound_counts(items: Seq<Value>)
    ensures
        syntax_policy::sound(items) <= items.len(),
        (forall|i: int|
            0 <= i < items.len() ==> syntax_policy::plan_of(#[trigger] items[i]) is Ok)
            ==> syntax_policy::sound(items) == items.len(),
    decreases items.len(),
{
    if items.len() > 0 {
        let init = items.drop_last();
        sound_counts(init);
        if forall|i: int| 0 <= i < items.len() ==> syntax_policy::plan_of(#[trigger] items[i]) is Ok {
            assert forall|i: int| 0 <= i < init.len() implies syntax_policy::plan_of(
                #[trigger] init[i],
            ) is Ok by {
                assert(init[i] == items[i]);
            }
            assert(syntax_policy::plan_of(items[items.len() - 1]) is Ok);
        }
    }
}

/// Where all that is declared is in order, all of it is taken, in order.
pub proof fn sound_declarations_are_taken(
    items: Vec<Value>,
    views: Seq<PlanView>,
    plans: Seq<SyntaxPlan>,
    fault: Option<String>,
)
    requires
        syntax_policy::declared(Value::List(items), plans, fault),
        items@.len() == views.len() <= MAX_SYNTAX_PLANS,
        forall|i: int|
            0 <= i < views.len() ==> describes_plan(items@[i], #[trigger] views[i])
                && views[i].rules.len() <= MAX_SYNTAX_PLANS,
    ensures
        fault is None,
        plans.len() == views.len(),
        forall|i: int| 0 <= i < plans.len() ==> (#[trigger] plans[i])@ == views[i],
{
    assert forall|i: int| 0 <= i < items@.len() implies syntax_policy::plan_of(
        #[trigger] items@[i],
    ) == Ok::<PlanView, Seq<char>>(views[i]) by {
        assert(describes_plan(items@[i], views[i]));
        grammars_are_read_as_they_are_described(items@[i], views[i]);
    }
    sound_counts(items@);
}

// --- Units ---

/// A unit that is put in is the source that was given: it takes the place of one
/// that is loaded, and only that. Once its syntax policy is found valid, it is
/// loaded.
pub proof fn accepted_unit_is_loaded(
    states: Seq<UnitReplacement>,
    hosts: Seq<MicaHost>,
    steps: Seq<UnitStep>,
    first: UnitEvent,
)
    requires
        states.len() == 4,
        hosts.len() == 4,
        steps.len() == 3,
        states[0].wf(),
        states[0].stage == UnitStage::Saving || states[0].stage == UnitStage::Checking,
        states[0].stepped(&states[1], hosts[0], hosts[1], first, steps[0]),
        steps[0] is FileIn,
        states[1].stepped(&states[2], hosts[1], hosts[2], UnitEvent::Done(Ok(())), steps[1]),
        states[2].stepped(
            &states[3],
            hosts[2],
            hosts[3],
            UnitEvent::SyntaxChecked(Ok(())),
            steps[2],
        ),
    ensures
        steps[0] matches UnitStep::FileIn { source, replace } && source@ == states[0].source@
            && replace == (states[0].stage == UnitStage::Saving),
        steps[1] is CheckSyntax,
        steps[2] == UnitStep::Finish(Ok(())),
        hosts[3].is_loaded(states[0].unit@),
        forall|u: Seq<char>| #[trigger]
            hosts[3].is_loaded(u) ==> hosts[0].is_loaded(u) || u == states[0].unit@,
        forall|u: Seq<char>| #[trigger] hosts[0].is_loaded(u) ==> hosts[3].is_loaded(u),
        hosts[3].buffers == hosts[0].buffers && hosts[3].services == hosts[0].services,
{
}

/// What the driver fails at ends a replacement, and nothing counts as loaded by
/// it.
pub proof fn failed_unit_changes_nothing(
    u: UnitReplacement,
    v: UnitReplacement,
    before: MicaHost,
    after: MicaHost,
    why: String,
    step: UnitStep,
)
    requires
        u.stepped(&v, before, after, UnitEvent::Done(Err(why)), step) || u.stepped(
            &v,
            before,
            after,
            UnitEvent::Saved(Err(why)),
            step,
        ),
    ensures
        after == before,
        v.stage == UnitStage::Over,
        step matches UnitStep::Finish(r) && r is Err,
{
}

// --- Events ---

/// Events are taken one by one and in order. What does not fit is not taken, and
/// the batch says so.
pub proof fn events_are_taken_in_order(
    before: MicaHost,
    after: MicaHost,
    event: DriverEvent,
    batch: MicaEventBatch,
    filled: MicaEventBatch,
)
    requires
        dispatch::recorded(before, after, event, batch, filled),
    ensures
        batch.events@.is_prefix_of(filled.events@),
        filled.events@.len() <= batch.events@.len() + 1,
        filled.events@.len() == batch.events@.len() && !(event is TaskCompleted) && !(event
            is TaskSuspended) ==> filled.overloaded,
        filled.events@.len() > batch.events@.len() ==> !filled.overloaded,
{
    if !(event is TaskCompleted || event is TaskSuspended) {
        let (seen, e) = choose|seen: MicaHost, e: MicaEvent| #[trigger]
            dispatch::recorded_as(before, seen, after, event, batch, filled, e);
        assert(dispatch::recorded_as(before, seen, after, event, batch, filled, e));
    }
}

/// A prompt that was taken is active until its end is taken; keys go to it as
/// long.
pub proof fn prompt_is_active_until_its_end(
    before: MicaHost,
    after: MicaHost,
    event: DriverEvent,
    batch: MicaEventBatch,
    filled: MicaEventBatch,
)
    requires
        dispatch::recorded(before, after, event, batch, filled),
        filled.events@.len() > batch.events@.len(),
    ensures
        filled.events@.last() is Prompt ==> after.prompt_active,
        filled.events@.last() is PromptClosed ==> !after.prompt_active,
{
    let (seen, e) = choose|seen: MicaHost, e: MicaEvent| #[trigger]
        dispatch::recorded_as(before, seen, after, event, batch, filled, e);
    assert(dispatch::recorded_as(before, seen, after, event, batch, filled, e));
}

// --- Keys ---

/// Keys are told with all those of the prefix in front of them: behind two keys
/// that came to a prefix, a third one is told with both.
pub proof fn keys_are_told_with_their_prefix(
    h0: MicaHost,
    h1: MicaHost,
    h2: MicaHost,
    first: Seq<char>,
    second: Seq<char>,
    third: Seq<char>,
    r1: MicaKeyResult,
    r2: MicaKeyResult,
)
    requires
        h0.pending_key_prefix is None,
        h0.settled(&h1, first, MicaKeyResult::Prefix, r1),
        h1.settled(&h2, second, MicaKeyResult::Prefix, r2),
    ensures
        h0.full_sequence(first) == first,
        h1.full_sequence(second) == first + seq![' '] + second,
        h2.full_sequence(third) == first + seq![' '] + second + seq![' '] + third,
        r1 is Prefix && r2 is Prefix,
{
    reveal_strlit(" ");
    assert(" "@ =~= seq![' ']);
}

/// A key that came to something ends the prefix: the next one is told alone. Keys
/// behind a prefix that mean nothing are told as undefined, all of them; a key
/// alone that means nothing is left to others.
pub proof fn settled_keys_end_the_prefix(
    h: MicaHost,
    g: MicaHost,
    sequence: Seq<char>,
    key: MicaKeyResult,
    r: MicaKeyResult,
    next: Seq<char>,
)
    requires
        h.settled(&g, sequence, key, r),
        !(key is Prefix),
    ensures
        g.pending_key_prefix is None,
        g.full_sequence(next) == next,
        key is Handled || key is Failed ==> r == key,
        key is Unbound && h.pending_key_prefix is None ==> r is Unbound,
        key is Unbound ==> (h.pending_key_prefix matches Some(prefix) ==> r
            matches MicaKeyResult::Failed(m) && prefix@.is_prefix_of(m@) && text::found_at(
            m@,
            sequence,
            prefix@.len() as int + 1,
        )),
{
    reveal_strlit(" ");
    if key is Unbound && h.pending_key_prefix is Some {
        let prefix = h.pending_key_prefix->0@;
        let m = r->Failed_0@;
        assert(m.subrange(0, prefix.len() as int) =~= prefix);
        let at = prefix.len() as int + 1;
        assert(m.subrange(at, at + sequence.len()) =~= sequence);
    }
}

// --- Sizes ---

/// The bytes of a value and of all that is in it.
pub open spec fn bytes_within(v: Value) -> nat
    decreases v,
{
    value::own_bytes(v) + match v {
        Value::List(items) => bytes_in_list(items@),
        Value::Table(entries) => bytes_in_table(entries@),
        _ => 0,
    }
}

/// The bytes of values together.
pub open spec fn bytes_in_list(items: Seq<Value>) -> nat
    decreases items,
{
    if items.len() == 0 {
        0
    } else {
        bytes_within(items[0]) + bytes_in_list(items.skip(1))
    }
}

/// The bytes of entries together.
pub open spec fn bytes_in_table(entries: Seq<ValueEntry>) -> nat
    decreases entries,
{
    if entries.len() == 0 {
        0
    } else {
        bytes_within(entries[0].key) + bytes_within(entries[0].value) + bytes_in_table(
            entries.skip(1),
        )
    }
}

/// What is taken off a budget for a value is its bytes, with those of all that is
/// in it. Where there is not as much the value is too large, unless it is too
/// deep.
pub proof fn value_takes_its_bytes(v: Value, budget: int, depth: int)
    requires
        0 <= budget,
    ensures
        match value::left_of(v, budget, depth) {
            Ok(rest) => rest + bytes_within(v) == budget && rest >= 0,
            Err(SizeFault::TooLarge) => bytes_within(v) > budget,
            Err(SizeFault::TooDeep) => true,
        },
        depth > MAX_VALUE_DEPTH ==> value::left_of(v, budget, depth) == Err::<int, SizeFault>(
            SizeFault::TooDeep,
        ),
    decreases v,
{
    if depth <= MAX_VALUE_DEPTH && value::own_bytes(v) <= budget {
        let rest = budget - value::own_bytes(v);
        match v {
            Value::List(items) => {
                list_takes_its_bytes(items@, rest, depth + 1);
            },
            Value::Table(entries) => {
                table_takes_its_bytes(entries@, rest, depth + 1);
            },
            _ => {},
        }
    }
}

proof fn list_takes_its_bytes(items: Seq<Value>, budget: int, depth: int)
    requires
        0 <= budget,
    ensures
        match value::left_of_list(items, budget, depth) {
            Ok(rest) => rest + bytes_in_list(items) == budget && rest >= 0,
            Err(SizeFault::TooLarge) => bytes_in_list(items) > budget,
            Err(SizeFault::TooDeep) => true,
        },
    decreases items,
{
    if items.len() > 0 {
        value_takes_its_bytes(items[0], budget, depth);
        if value::left_of(items[0], budget, depth) is Ok {
            list_takes_its_bytes(
                items.skip(1),
                value::left_of(items[0], budget, depth)->Ok_0,
                depth,
            );
        }
    }
}

proof fn table_takes_its_bytes(entries: Seq<ValueEntry>, budget: int, depth: int)
    requires
        0 <= budget,
    ensures
        match value::left_of_table(entries, budget, depth) {
            Ok(rest) => rest + bytes_in_table(entries) == budget && rest >= 0,
            Err(SizeFault::TooLarge) => bytes_in_table(entries) > budget,
            Err(SizeFault::TooDeep) => true,
        },
    decreases entries,
{
    if entries.len() > 0 {
        let key = entries[0].key;
        let held = entries[0].value;
        value_takes_its_bytes(key, budget, depth);
        if value::left_of(key, budget, depth) is Ok {
            let rest = value::left_of(key, budget, depth)->Ok_0;
            value_takes_its_bytes(held, rest, depth);
            if value::left_of(held, rest, depth) is Ok {
                table_takes_its_bytes(
                    entries.skip(1),
                    value::left_of(held, rest, depth)->Ok_0,
                    depth,
                );
            }
        }
    }
}

} // verus!
