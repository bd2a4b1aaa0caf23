//! The grammars and indentation rules that the policy code declares, checked
//! before they are compiled.

use vstd::prelude::*;
use vstd::string::*;

use crate::mica_host::context::MicaHostError;
use crate::mica_host::dispatch::InvocationOutcome;
use crate::mica_host::value::Value;
use crate::text::{concat2, concat3};

verus! {

/// The most grammars, and the most rules of one.
pub const MAX_SYNTAX_PLANS: usize = 64;

/// How a line is indented.
#[derive(Debug)]
pub struct IndentRule {
    pub query: String,
    pub anchor: String,
    pub offset: i64,
    pub precedence: i64,
}

/// A grammar that is to be compiled.
#[derive(Debug)]
pub struct SyntaxPlan {
    pub grammar: String,
    pub query: String,
    pub rules: Vec<IndentRule>,
}

/// A text under a name.
pub open spec fn text_of(value: Value, name: Seq<char>) -> Result<Seq<char>, Seq<char>> {
    match value.field(name) {
        Some(Value::Text(s)) => Ok(s@),
        _ => Err("syntax "@ + name + " must be a string"@),
    }
}

/// A symbol under a name.
pub open spec fn symbol_of(value: Value, name: Seq<char>) -> Result<Seq<char>, Seq<char>> {
    match value.field(name) {
        Some(Value::Symbol(s)) => Ok(s@),
        _ => Err("syntax "@ + name + " must be a symbol"@),
    }
}

/// A number under a name.
pub open spec fn number_of(value: Value, name: Seq<char>) -> Result<i64, Seq<char>> {
    match value.field(name) {
        Some(Value::Int(n)) => Ok(n),
        _ => Err("syntax "@ + name + " must be an integer"@),
    }
}

fn string(value: &Value, name: &str) -> (r: Result<String, String>)
    ensures
        match text_of(*value, name@) {
            Ok(s) => r matches Ok(t) && t@ == s,
            Err(m) => r matches Err(e) && e@ == m,
        },
{
    match value.get(name) {
        Some(v) => match v {
            Value::Text(s) => Ok(s.clone()),
            _ => Err(concat3("syntax ", name, " must be a string")),
        },
        None => Err(concat3("syntax ", name, " must be a string")),
    }
}

fn symbol(value: &Value, name: &str) -> (r: Result<String, String>)
    ensures
        match symbol_of(*value, name@) {
            Ok(s) => r matches Ok(t) && t@ == s,
            Err(m) => r matches Err(e) && e@ == m,
        },
{
    match value.get(name) {
        Some(v) => match v {
            Value::Symbol(s) => Ok(s.clone()),
            _ => Err(concat3("syntax ", name, " must be a symbol")),
        },
        None => Err(concat3("syntax ", name, " must be a symbol")),
    }
}

fn integer(value: &Value, name: &str) -> (r: Result<i64, String>)
    ensures
        match number_of(*value, name@) {
            Ok(n) => r matches Ok(m) && m == n,
            Err(m) => r matches Err(e) && e@ == m,
        },
{
    match value.get(name) {
        Some(v) => match v {
            Value::Int(n) => Ok(*n),
            _ => Err(concat3("syntax ", name, " must be an integer")),
        },
        None => Err(concat3("syntax ", name, " must be an integer")),
    }
}

/// How a line is indented, as a mathematical value.
pub struct IndentRuleView {
    pub query: Seq<char>,
    pub anchor: Seq<char>,
    pub offset: i64,
    pub precedence: i64,
}

impl View for IndentRule {
    type V = IndentRuleView;

    open spec fn view(&self) -> IndentRuleView {
        IndentRuleView {
            query: self.query@,
            anchor: self.anchor@,
            offset: self.offset,
            precedence: self.precedence,
        }
    }
}

pub open spec fn rule_views(rules: Seq<IndentRule>) -> Seq<IndentRuleView> {
    rules.map_values(|r: IndentRule| r@)
}

/// The rule that a value describes.
pub open spec fn rule_of(value: Value) -> Result<IndentRuleView, Seq<char>> {
    match text_of(value, "query"@) {
        Err(m) => Err(m),
        Ok(query) => match symbol_of(value, "anchor"@) {
            Err(m) => Err(m),
            Ok(anchor) => match number_of(value, "offset"@) {
                Err(m) => Err(m),
                Ok(offset) => match number_of(value, "precedence"@) {
                    Err(m) => Err(m),
                    Ok(precedence) => Ok(IndentRuleView { query, anchor, offset, precedence }),
                },
            },
        },
    }
}

/// The rules that values describe, or what is wrong with the first that is not
/// in order.
pub open spec fn rules_of(items: Seq<Value>) -> Result<Seq<IndentRuleView>, Seq<char>>
    decreases items.len(),
{
    if items.len() == 0 {
        Ok(seq![])
    } else {
        match rules_of(items.drop_last()) {
            Err(m) => Err(m),
            Ok(before) => match rule_of(items.last()) {
                Err(m) => Err(m),
                Ok(rule) => Ok(before.push(rule)),
            },
        }
    }
}

proof fn rules_fault_stays(items: Seq<Value>, k: int)
    requires
        0 <= k <= items.len(),
        rules_of(items.take(k)) is Err,
    ensures
        rules_of(items) == rules_of(items.take(k)),
    decreases items.len(),
{
    if k < items.len() {
        assert(items.drop_last().take(k) =~= items.take(k));
        rules_fault_stays(items.drop_last(), k);
    } else {
        assert(items.take(k) =~= items);
    }
}

fn decode_rule(value: &Value) -> (r: Result<IndentRule, String>)
    ensures
        match rule_of(*value) {
            Ok(a) => r matches Ok(b) && b@ == a,
            Err(m) => r matches Err(e) && e@ == m,
        },
{
    let query = match string(value, "query") {
        Ok(x) => x,
        Err(m) => return Err(m),
    };
    let anchor = match symbol(value, "anchor") {
        Ok(x) => x,
        Err(m) => return Err(m),
    };
    let offset = match integer(value, "offset") {
        Ok(x) => x,
        Err(m) => return Err(m),
    };
    let precedence = match integer(value, "precedence") {
        Ok(x) => x,
        Err(m) => return Err(m),
    };
    Ok(IndentRule { query, anchor, offset, precedence })
}

/// The grammars that are declared, if they are a list of which there are not too
/// many.
pub fn plan_list(value: &Value) -> (r: Result<&Vec<Value>, String>)
    ensures
        match value.elements() {
            None => r matches Err(m) && m@ == "syntax plans must be a list"@,
            Some(items) => if items.len() > MAX_SYNTAX_PLANS {
                r matches Err(m) && m@ == "syntax parser limit exceeded"@
            } else {
                r matches Ok(plans) && plans@ == items
            },
        },
{
    match value.as_list() {
        None => Err("syntax plans must be a list".to_owned()),
        Some(plans) => {
            if plans.len() > MAX_SYNTAX_PLANS {
                Err("syntax parser limit exceeded".to_owned())
            } else {
                Ok(plans)
            }
        },
    }
}

/// A grammar as a mathematical value.
pub struct PlanView {
    pub grammar: Seq<char>,
    pub query: Seq<char>,
    pub rules: Seq<IndentRuleView>,
}

impl View for SyntaxPlan {
    type V = PlanView;

    open spec fn view(&self) -> PlanView {
        PlanView { grammar: self.grammar@, query: self.query@, rules: rule_views(self.rules@) }
    }
}

/// The grammar that a value describes, or what is wrong with it.
pub open spec fn plan_of(value: Value) -> Result<PlanView, Seq<char>> {
    match symbol_of(value, "grammar"@) {
        Err(m) => Err(m),
        Ok(grammar) => match text_of(value, "query"@) {
            Err(m) => Err(m),
            Ok(query) => match value.field("rules"@) {
                None => Err("missing indentation rules"@),
                Some(list) => match list.elements() {
                    None => Err("indentation rules must be a list"@),
                    Some(items) => if items.len() > MAX_SYNTAX_PLANS {
                        Err("indentation rule limit exceeded"@)
                    } else {
                        match rules_of(items) {
                            Err(m) => Err(m),
                            Ok(rules) => Ok(PlanView { grammar, query, rules }),
                        }
                    },
                },
            },
        },
    }
}

/// The grammar that a value describes.
pub fn decode_plan(value: &Value) -> (r: Result<SyntaxPlan, String>)
    ensures
        match plan_of(*value) {
            Ok(a) => r matches Ok(b) && a == b@,
            Err(m) => r matches Err(e) && e@ == m,
        },
{
    let grammar = match symbol(value, "grammar") {
        Ok(x) => x,
        Err(m) => return Err(m),
    };
    let query = match string(value, "query") {
        Ok(x) => x,
        Err(m) => return Err(m),
    };
    let items = match value.get("rules") {
        None => return Err("missing indentation rules".to_owned()),
        Some(list) => match list.as_list() {
            None => return Err("indentation rules must be a list".to_owned()),
            Some(items) => items,
        },
    };
    if items.len() > MAX_SYNTAX_PLANS {
        return Err("indentation rule limit exceeded".to_owned());
    }
    let mut rules: Vec<IndentRule> = Vec::new();
    let mut i: usize = 0;
    assert(items@.take(0) =~= seq![]);
    assert(rule_views(rules@) =~= seq![]);
    while i < items.len()
        invariant
            i <= items@.len() <= MAX_SYNTAX_PLANS,
            rules_of(items@.take(i as int)) == Ok::<Seq<IndentRuleView>, Seq<char>>(
                rule_views(rules@),
            ),
            symbol_of(*value, "grammar"@) == Ok::<Seq<char>, Seq<char>>(grammar@),
            text_of(*value, "query"@) == Ok::<Seq<char>, Seq<char>>(query@),
            value.field("rules"@) matches Some(list) && list.elements() == Some(items@),
        decreases items.len() - i,
    {
        let ghost before = rule_views(rules@);
        assert(items@.take(i + 1).drop_last() =~= items@.take(i as int));
        assert(items@.take(i + 1).last() == items@[i as int]);
        match decode_rule(&items[i]) {
            Ok(rule) => {
                rules.push(rule);
                assert(rule_views(rules@) =~= before.push(rule@));
            },
            Err(m) => {
                proof {
                    rules_fault_stays(items@, i + 1);
                }
                return Err(m);
            },
        }
        i = i + 1;
    }
    assert(items@.take(i as int) =~= items@);
    Ok(SyntaxPlan { grammar, query, rules })
}

// --- All that is declared ---

/// How many grammars come before the first that is not in order.
pub open spec fn sound(items: Seq<Value>) -> nat
    decreases items.len(),
{
    if items.len() == 0 {
        0
    } else {
        let before = sound(items.drop_last());
        if before == items.len() - 1 && plan_of(items.last()) is Ok {
            items.len()
        } else {
            before
        }
    }
}

proof fn sound_stays(items: Seq<Value>, k: int)
    requires
        0 <= k < items.len(),
        sound(items.take(k)) == k,
        plan_of(items[k]) is Err,
    ensures
        sound(items) == k,
    decreases items.len(),
{
    if k < items.len() - 1 {
        assert(items.drop_last().take(k) =~= items.take(k));
        sound_stays(items.drop_last(), k);
    } else {
        assert(items.drop_last() =~= items.take(k));
    }
}

/// Whether `plans` are the declared grammars up to the first that is not in
/// order, and `fault` what is wrong with that one.
pub open spec fn declared(
    value: Value,
    plans: Seq<SyntaxPlan>,
    fault: Option<String>,
) -> bool {
    match value.elements() {
        None => plans.len() == 0 && (fault matches Some(m) && m@ == "syntax plans must be a list"@),
        Some(items) => if items.len() > MAX_SYNTAX_PLANS {
            plans.len() == 0 && (fault matches Some(m) && m@ == "syntax parser limit exceeded"@)
        } else {
            let k = sound(items) as int;
            &&& plans.len() == k
            &&& forall|i: int|
                0 <= i < k ==> plan_of(items[i]) == Ok::<PlanView, Seq<char>>(
                    (#[trigger] plans[i])@,
                )
            &&& if k < items.len() {
                fault matches Some(m) && plan_of(items[k]) == Err::<PlanView, Seq<char>>(m@)
            } else {
                fault is None
            }
        },
    }
}

/// The declared grammars up to the first that is not in order, and what is wrong
/// with that one.
pub fn decode_plans(value: &Value) -> (r: (Vec<SyntaxPlan>, Option<String>))
    ensures
        declared(*value, r.0@, r.1),
{
    let mut plans: Vec<SyntaxPlan> = Vec::new();
    let items = match plan_list(value) {
        Ok(items) => items,
        Err(m) => return (plans, Some(m)),
    };
    let mut i: usize = 0;
    assert(items@.take(0) =~= seq![]);
    while i < items.len()
        invariant
            i <= items@.len() <= MAX_SYNTAX_PLANS,
            value.elements() == Some(items@),
            sound(items@.take(i as int)) == i,
            plans@.len() == i,
            forall|k: int|
                0 <= k < i ==> plan_of(items@[k]) == Ok::<PlanView, Seq<char>>(
                    (#[trigger] plans@[k])@,
                ),
        decreases items.len() - i,
    {
        assert(items@.take(i + 1).drop_last() =~= items@.take(i as int));
        match decode_plan(&items[i]) {
            Ok(plan) => {
                plans.push(plan);
            },
            Err(m) => {
                proof {
                    sound_stays(items@, i as int);
                }
                return (plans, Some(m));
            },
        }
        i = i + 1;
    }
    assert(items@.take(i as int) =~= items@);
    (plans, None)
}

/// The grammars that the policy code declares; `shown` is how the outcome of
/// asking for them is shown.
pub fn asked_plans(outcome: InvocationOutcome, shown: &str) -> (r: Result<
    (Vec<SyntaxPlan>, Option<String>),
    MicaHostError,
>)
    ensures
        match outcome {
            InvocationOutcome::Completed(value) => r matches Ok(p) && declared(value, p.0@, p.1),
            _ => r matches Err(MicaHostError::Policy(m)) && m@
                == "syntax validation did not complete: "@ + shown@,
        },
{
    match outcome {
        InvocationOutcome::Completed(value) => Ok(decode_plans(&value)),
        _ => Err(MicaHostError::Policy(concat2("syntax validation did not complete: ", shown))),
    }
}

/// Whether what is declared holds. The grammars are compiled in order, up to the
/// first trouble; a fault stands behind all that were compiled.
pub fn settle_plans(trouble: Option<String>, fault: Option<String>) -> (r: Result<
    (),
    MicaHostError,
>)
    ensures
        match (trouble, fault) {
            (Some(m), _) => r matches Err(MicaHostError::Policy(n)) && n == m,
            (None, Some(m)) => r matches Err(MicaHostError::Policy(n)) && n == m,
            (None, None) => r is Ok,
        },
{
    match (trouble, fault) {
        (Some(m), _) => Err(MicaHostError::Policy(m)),
        (None, Some(m)) => Err(MicaHostError::Policy(m)),
        (None, None) => Ok(()),
    }
}

} // verus!
