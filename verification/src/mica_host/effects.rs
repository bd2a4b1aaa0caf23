//! Effects of the policy code: what is published, shown, prompted for and
//! searched.

use vstd::prelude::*;
use vstd::string::*;

use crate::ids::{BufferId, WindowId};
use crate::mica_host::context::{find_named_buffer, find_named_view, MicaHost};
use crate::mica_host::decode::{
    field, number, position, string, symbol, MAX_PROMPT_CANDIDATES, MAX_SEARCH_MATCHES,
};
use crate::mica_host::events::{
    HighlightRule, MicaEvent, MicaNativeAction, MicaPolicyFact, MicaPresentationEffect,
    MicaPromptUpdate, MicaSearchFinish, MicaSearchUpdate, SearchMatch, MAX_BATCH_BYTES,
    MAX_POLICY_FACTS,
};
use crate::mica_host::facts::ViewRecord;
use crate::mica_host::value::{measure, Identity, SizeFault, Value};
use crate::mica_host::{context, decode, events, value};
use crate::native_io::is_before;
use crate::session::MAX_TEXT_CHARS_PER_INPUT;
use crate::text::{char_count, concat2, concat3, decimal_string, str_eq};
use crate::{native_io, text};

verus! {

// --- Published facts ---

/// How captures of a grammar are shown, as a mathematical value.
pub struct RuleView {
    pub capture: Seq<char>,
    pub face: Seq<char>,
    pub precedence: i64,
}

impl View for HighlightRule {
    type V = RuleView;

    open spec fn view(&self) -> RuleView {
        RuleView { capture: self.capture@, face: self.face@, precedence: self.precedence }
    }
}

pub open spec fn rule_views(rules: Seq<HighlightRule>) -> Seq<RuleView> {
    rules.map_values(|r: HighlightRule| r@)
}

/// Whether a rule stands in front of another: by capture, then by face, then by
/// precedence.
pub open spec fn rule_precedes(a: RuleView, b: RuleView) -> bool {
    if a.capture != b.capture {
        native_io::precedes(a.capture, b.capture)
    } else if a.face != b.face {
        native_io::precedes(a.face, b.face)
    } else {
        a.precedence < b.precedence
    }
}

/// The rules with one more in its place; the same where it is there already.
pub open spec fn with_rule(rules: Seq<RuleView>, rule: RuleView) -> Seq<RuleView>
    decreases rules.len(),
{
    if rules.len() == 0 {
        seq![rule]
    } else if rules.last() == rule {
        rules
    } else if rule_precedes(rules.last(), rule) {
        rules.push(rule)
    } else {
        with_rule(rules.drop_last(), rule).push(rules.last())
    }
}

/// The rule that a value describes.
pub open spec fn rule_in(value: Value) -> Result<RuleView, Seq<char>> {
    match decode::symbol_in(value, "capture"@) {
        Err(m) => Err(m),
        Ok(capture) => match decode::text_in(value, "face"@) {
            Err(m) => Err(m),
            Ok(face) => match decode::number_in(
                value,
                "precedence"@,
                "highlight precedence must be an integer"@,
            ) {
                Err(m) => Err(m),
                Ok(precedence) => Ok(RuleView { capture, face, precedence }),
            },
        },
    }
}

/// The rules that values describe, in order and each once.
pub open spec fn rules_in(items: Seq<Value>) -> Result<Seq<RuleView>, Seq<char>>
    decreases items.len(),
{
    if items.len() == 0 {
        Ok(seq![])
    } else {
        match rules_in(items.drop_last()) {
            Err(m) => Err(m),
            Ok(rules) => match rule_in(items.last()) {
                Err(m) => Err(m),
                Ok(rule) => Ok(with_rule(rules, rule)),
            },
        }
    }
}

fn same_rule(a: &HighlightRule, b: &HighlightRule) -> (r: bool)
    ensures
        r == (a@ == b@),
{
    str_eq(a.capture.as_str(), b.capture.as_str()) && str_eq(a.face.as_str(), b.face.as_str())
        && a.precedence == b.precedence
}

fn is_rule_before(a: &HighlightRule, b: &HighlightRule) -> (r: bool)
    ensures
        r == rule_precedes(a@, b@),
{
    if !str_eq(a.capture.as_str(), b.capture.as_str()) {
        is_before(a.capture.as_str(), b.capture.as_str())
    } else if !str_eq(a.face.as_str(), b.face.as_str()) {
        is_before(a.face.as_str(), b.face.as_str())
    } else {
        a.precedence < b.precedence
    }
}

fn insert_rule(rules: &mut Vec<HighlightRule>, rule: HighlightRule)
    ensures
        rule_views(final(rules)@) == with_rule(rule_views(old(rules)@), rule@),
{
    let ghost all = rule_views(rules@);
    let ghost before = rules@;
    let mut i: usize = rules.len();
    assert(all.take(i as int) =~= all);
    assert(all.skip(i as int) =~= seq![]);
    assert(with_rule(all, rule@) =~= with_rule(all.take(i as int), rule@) + all.skip(i as int));
    while i > 0
        invariant
            i <= rules@.len(),
            rules@ == before,
            before == old(rules)@,
            all == rule_views(before),
            with_rule(all, rule@) == with_rule(all.take(i as int), rule@) + all.skip(i as int),
        decreases i,
    {
        assert(all.take(i as int).last() == rules@[i - 1]@);
        assert(all.take(i as int).drop_last() =~= all.take(i - 1));
        if same_rule(&rules[i - 1], &rule) {
            assert(all.take(i as int) + all.skip(i as int) =~= all);
            return;
        }
        if is_rule_before(&rules[i - 1], &rule) {
            rules.insert(i, rule);
            assert(rule_views(rules@) =~= all.take(i as int).push(rule@) + all.skip(i as int));
            return;
        }
        assert(with_rule(all.take(i - 1), rule@).push(all[i - 1]) + all.skip(i as int)
            =~= with_rule(all.take(i - 1), rule@) + all.skip(i - 1));
        i = i - 1;
    }
    rules.insert(0, rule);
    assert(all.take(0) =~= seq![]);
    assert(rule_views(rules@) =~= seq![rule@] + all.skip(0));
}

fn decode_rule(value: &Value) -> (r: Result<HighlightRule, String>)
    ensures
        match rule_in(*value) {
            Ok(a) => r matches Ok(b) && b@ == a,
            Err(m) => r matches Err(e) && e@ == m,
        },
{
    let capture = match symbol(value, "capture") {
        Ok(x) => x,
        Err(m) => return Err(m),
    };
    let face = match string(value, "face") {
        Ok(x) => x,
        Err(m) => return Err(m),
    };
    let precedence = match number(
        value,
        "precedence",
        "highlight precedence must be an integer",
    ) {
        Ok(x) => x,
        Err(m) => return Err(m),
    };
    Ok(HighlightRule { capture, face, precedence })
}

proof fn rules_fault_stays(items: Seq<Value>, k: int)
    requires
        0 <= k <= items.len(),
        rules_in(items.take(k)) is Err,
    ensures
        rules_in(items) == rules_in(items.take(k)),
    decreases items.len(),
{
    if k < items.len() {
        assert(items.drop_last().take(k) =~= items.take(k));
        rules_fault_stays(items.drop_last(), k);
    } else {
        assert(items.take(k) =~= items);
    }
}

fn decode_rules(items: &Vec<Value>) -> (r: Result<Vec<HighlightRule>, String>)
    ensures
        match rules_in(items@) {
            Ok(a) => r matches Ok(b) && rule_views(b@) == a,
            Err(m) => r matches Err(e) && e@ == m,
        },
{
    let mut rules: Vec<HighlightRule> = Vec::new();
    let mut i: usize = 0;
    assert(items@.take(0) =~= seq![]);
    assert(rule_views(rules@) =~= seq![]);
    while i < items.len()
        invariant
            i <= items@.len(),
            rules_in(items@.take(i as int)) == Ok::<Seq<RuleView>, Seq<char>>(rule_views(rules@)),
        decreases items.len() - i,
    {
        assert(items@.take(i + 1).drop_last() =~= items@.take(i as int));
        assert(items@.take(i + 1).last() == items@[i as int]);
        match decode_rule(&items[i]) {
            Ok(rule) => insert_rule(&mut rules, rule),
            Err(m) => {
                proof {
                    rules_fault_stays(items@, i + 1);
                }
                return Err(m);
            },
        }
        i = i + 1;
    }
    assert(items@.take(i as int) =~= items@);
    Ok(rules)
}

/// A published fact as a mathematical value.
pub enum PolicyFactView {
    Parser { mode: Seq<char>, grammar: Seq<char>, query: Seq<char> },
    Injection { mode: Seq<char>, grammar: Seq<char>, query: Seq<char>, highlights: Seq<char> },
    Indentation {
        mode: Seq<char>,
        query: Seq<char>,
        anchor: Seq<char>,
        offset: i64,
        precedence: i64,
    },
    Mode { buffer: BufferId, name: Seq<char> },
    Face { name: Seq<char>, attribute: Seq<char>, value: Seq<char> },
    Configuration { key: Seq<char>, value: Seq<char> },
    Syntax { buffer: BufferId, kind: Seq<char>, pattern: Seq<char>, precedence: i64 },
    Highlight { mode: Seq<char>, capture: Seq<char>, face: Seq<char>, precedence: i64 },
    Highlights { buffer: BufferId, rules: Seq<RuleView> },
}

impl View for MicaPolicyFact {
    type V = PolicyFactView;

    open spec fn view(&self) -> PolicyFactView {
        match self {
            MicaPolicyFact::Parser { mode, grammar, query } => PolicyFactView::Parser {
                mode: mode@,
                grammar: grammar@,
                query: query@,
            },
            MicaPolicyFact::Injection { mode, grammar, query, highlights } =>
                PolicyFactView::Injection {
                mode: mode@,
                grammar: grammar@,
                query: query@,
                highlights: highlights@,
            },
            MicaPolicyFact::Indentation { mode, query, anchor, offset, precedence } =>
                PolicyFactView::Indentation {
                mode: mode@,
                query: query@,
                anchor: anchor@,
                offset: *offset,
                precedence: *precedence,
            },
            MicaPolicyFact::Mode { buffer, name } => PolicyFactView::Mode {
                buffer: *buffer,
                name: name@,
            },
            MicaPolicyFact::Face { name, attribute, value } => PolicyFactView::Face {
                name: name@,
                attribute: attribute@,
                value: value@,
            },
            MicaPolicyFact::Configuration { key, value } => PolicyFactView::Configuration {
                key: key@,
                value: value@,
            },
            MicaPolicyFact::Syntax { buffer, kind, pattern, precedence } =>
                PolicyFactView::Syntax {
                buffer: *buffer,
                kind: kind@,
                pattern: pattern@,
                precedence: *precedence,
            },
            MicaPolicyFact::Highlight { mode, capture, face, precedence } =>
                PolicyFactView::Highlight {
                mode: mode@,
                capture: capture@,
                face: face@,
                precedence: *precedence,
            },
            MicaPolicyFact::Highlights { buffer, rules } => PolicyFactView::Highlights {
                buffer: *buffer,
                rules: rule_views(rules@),
            },
        }
    }
}

/// The text of the value that is published; `formatted` is what the policy code
/// calls a value that is no text.
pub open spec fn policy_value_in(value: Value, formatted: Seq<char>) -> Result<
    Seq<char>,
    Seq<char>,
> {
    match decode::field_in(value, "value"@) {
        Err(m) => Err(m),
        Ok(v) => match v.text() {
            Some(s) => Ok(s),
            None => Ok(formatted),
        },
    }
}

fn policy_value(value: &Value, formatted: &str) -> (r: Result<String, String>)
    ensures
        decode::reads(r, policy_value_in(*value, formatted@)),
{
    match field(value, "value") {
        Err(m) => Err(m),
        Ok(v) => match v.as_text() {
            Some(s) => Ok(s.clone()),
            None => Ok(formatted.to_owned()),
        },
    }
}

impl MicaHost {
    /// The rules for a buffer that are published.
    pub open spec fn highlights_in(&self, value: Value) -> Result<PolicyFactView, Seq<char>> {
        match decode::field_in(value, "rules"@) {
            Err(m) => Err(m),
            Ok(list) => match list.elements() {
                None => Err("highlight rules must be a list"@),
                Some(items) => if items.len() > MAX_POLICY_FACTS {
                    Err("highlight rules exceed the 256-rule limit"@)
                } else {
                    match rules_in(items) {
                        Err(m) => Err(m),
                        Ok(rules) => match self.buffer_in(value, "buffer"@) {
                            Err(m) => Err(m),
                            Ok(buffer) => Ok(PolicyFactView::Highlights { buffer, rules }),
                        },
                    }
                },
            },
        }
    }

    /// The fact that is published, or what is wrong with it.
    pub open spec fn policy_fact_in(&self, value: Value, formatted: Seq<char>) -> Result<
        PolicyFactView,
        Seq<char>,
    > {
        match decode::symbol_in(value, "kind"@) {
            Err(m) => Err(m),
            Ok(kind) => {
                if kind == "highlight_policy"@ {
                    self.highlights_in(value)
                } else if kind == "parser_policy"@ {
                    match decode::text_in(value, "mode"@) {
                        Err(m) => Err(m),
                        Ok(x0) => match decode::symbol_in(value, "grammar"@) {
                            Err(m) => Err(m),
                            Ok(x1) => match decode::text_in(value, "query"@) {
                                Err(m) => Err(m),
                                Ok(x2) => Ok(PolicyFactView::Parser { mode: x0, grammar: x1, query: x2 }),
                            },
                        },
                    }
                } else if kind == "injection_policy"@ {
                    match decode::text_in(value, "mode"@) {
                        Err(m) => Err(m),
                        Ok(x0) => match decode::symbol_in(value, "grammar"@) {
                            Err(m) => Err(m),
                            Ok(x1) => match decode::text_in(value, "query"@) {
                                Err(m) => Err(m),
                                Ok(x2) => match decode::text_in(value, "highlights"@) {
                                    Err(m) => Err(m),
                                    Ok(x3) => Ok(PolicyFactView::Injection { mode: x0, grammar: x1, query: x2, highlights: x3 }),
                                },
                            },
                        },
                    }
                } else if kind == "indentation_policy"@ {
                    match decode::text_in(value, "mode"@) {
                        Err(m) => Err(m),
                        Ok(x0) => match decode::text_in(value, "query"@) {
                            Err(m) => Err(m),
                            Ok(x1) => match decode::symbol_in(value, "anchor"@) {
                                Err(m) => Err(m),
                                Ok(x2) => match decode::number_in(value, "offset"@, "indentation offset must be an integer"@) {
                                    Err(m) => Err(m),
                                    Ok(x3) => match decode::number_in(value, "precedence"@, "Mica precedence must be an integer"@) {
                                        Err(m) => Err(m),
                                        Ok(x4) => Ok(PolicyFactView::Indentation { mode: x0, query: x1, anchor: x2, offset: x3, precedence: x4 }),
                                    },
                                },
                            },
                        },
                    }
                } else if kind == "mode_policy"@ {
                    match self.buffer_in(value, "buffer"@) {
                        Err(m) => Err(m),
                        Ok(x0) => match decode::text_in(value, "name"@) {
                            Err(m) => Err(m),
                            Ok(x1) => Ok(PolicyFactView::Mode { buffer: x0, name: x1 }),
                        },
                    }
                } else if kind == "face_policy"@ {
                    match decode::text_in(value, "face"@) {
                        Err(m) => Err(m),
                        Ok(x0) => match decode::symbol_in(value, "attribute"@) {
                            Err(m) => Err(m),
                            Ok(x1) => match policy_value_in(value, formatted) {
                                Err(m) => Err(m),
                                Ok(x2) => Ok(PolicyFactView::Face { name: x0, attribute: x1, value: x2 }),
                            },
                        },
                    }
                } else if kind == "configuration_policy"@ {
                    match decode::symbol_in(value, "key"@) {
                        Err(m) => Err(m),
                        Ok(x0) => match policy_value_in(value, formatted) {
                            Err(m) => Err(m),
                            Ok(x1) => Ok(PolicyFactView::Configuration { key: x0, value: x1 }),
                        },
                    }
                } else if kind == "syntax_policy"@ {
                    match self.buffer_in(value, "buffer"@) {
                        Err(m) => Err(m),
                        Ok(x0) => match decode::symbol_in(value, "syntax_kind"@) {
                            Err(m) => Err(m),
                            Ok(x1) => match decode::text_in(value, "pattern"@) {
                                Err(m) => Err(m),
                                Ok(x2) => match decode::number_in(value, "precedence"@, "Mica precedence must be an integer"@) {
                                    Err(m) => Err(m),
                                    Ok(x3) => Ok(PolicyFactView::Syntax { buffer: x0, kind: x1, pattern: x2, precedence: x3 }),
                                },
                            },
                        },
                    }
                } else {
                    Err("unknown Mica policy fact: "@ + kind)
                }
            },
        }
    }

    fn decode_highlights(&self, value: &Value) -> (r: Result<MicaPolicyFact, String>)
        ensures
            match self.highlights_in(*value) {
                Ok(a) => r matches Ok(b) && b@ == a,
                Err(m) => r matches Err(e) && e@ == m,
            },
    {
        let items = match field(value, "rules") {
            Err(m) => return Err(m),
            Ok(list) => match list.as_list() {
                Some(items) => items,
                None => return Err("highlight rules must be a list".to_owned()),
            },
        };
        if items.len() > MAX_POLICY_FACTS {
            return Err("highlight rules exceed the 256-rule limit".to_owned());
        }
        let rules = match decode_rules(items) {
            Ok(rules) => rules,
            Err(m) => return Err(m),
        };
        match self.decode_buffer(value, "buffer") {
            Ok(buffer) => Ok(MicaPolicyFact::Highlights { buffer, rules }),
            Err(m) => Err(m),
        }
    }

    /// The fact that is published.
    pub fn decode_policy_fact(&self, value: &Value, formatted: &str) -> (r: Result<
        MicaPolicyFact,
        String,
    >)
        ensures
            match self.policy_fact_in(*value, formatted@) {
                Ok(a) => r matches Ok(b) && b@ == a,
                Err(m) => r matches Err(e) && e@ == m,
            },
    {
        let kind = match symbol(value, "kind") {
            Ok(x) => x,
            Err(m) => return Err(m),
        };
        if str_eq(kind.as_str(), "highlight_policy") {
            return self.decode_highlights(value);
        }
        if str_eq(kind.as_str(), "parser_policy") {
            let x0 = match string(value, "mode") {
                Ok(x) => x,
                Err(m) => return Err(m),
            };
            let x1 = match symbol(value, "grammar") {
                Ok(x) => x,
                Err(m) => return Err(m),
            };
            let x2 = match string(value, "query") {
                Ok(x) => x,
                Err(m) => return Err(m),
            };
            return Ok(MicaPolicyFact::Parser { mode: x0, grammar: x1, query: x2 });
        }
        if str_eq(kind.as_str(), "injection_policy") {
            let x0 = match string(value, "mode") {
                Ok(x) => x,
                Err(m) => return Err(m),
            };
            let x1 = match symbol(value, "grammar") {
                Ok(x) => x,
                Err(m) => return Err(m),
            };
            let x2 = match string(value, "query") {
                Ok(x) => x,
                Err(m) => return Err(m),
            };
            let x3 = match string(value, "highlights") {
                Ok(x) => x,
                Err(m) => return Err(m),
            };
            return Ok(MicaPolicyFact::Injection { mode: x0, grammar: x1, query: x2, highlights: x3 });
        }
        if str_eq(kind.as_str(), "indentation_policy") {
            let x0 = match string(value, "mode") {
                Ok(x) => x,
                Err(m) => return Err(m),
            };
            let x1 = match string(value, "query") {
                Ok(x) => x,
                Err(m) => return Err(m),
            };
            let x2 = match symbol(value, "anchor") {
                Ok(x) => x,
                Err(m) => return Err(m),
            };
            let x3 = match number(value, "offset", "indentation offset must be an integer") {
                Ok(x) => x,
                Err(m) => return Err(m),
            };
            let x4 = match number(value, "precedence", "Mica precedence must be an integer") {
                Ok(x) => x,
                Err(m) => return Err(m),
            };
            return Ok(MicaPolicyFact::Indentation { mode: x0, query: x1, anchor: x2, offset: x3, precedence: x4 });
        }
        if str_eq(kind.as_str(), "mode_policy") {
            let x0 = match self.decode_buffer(value, "buffer") {
                Ok(x) => x,
                Err(m) => return Err(m),
            };
            let x1 = match string(value, "name") {
                Ok(x) => x,
                Err(m) => return Err(m),
            };
            return Ok(MicaPolicyFact::Mode { buffer: x0, name: x1 });
        }
        if str_eq(kind.as_str(), "face_policy") {
            let x0 = match string(value, "face") {
                Ok(x) => x,
                Err(m) => return Err(m),
            };
            let x1 = match symbol(value, "attribute") {
                Ok(x) => x,
                Err(m) => return Err(m),
            };
            let x2 = match policy_value(value, formatted) {
                Ok(x) => x,
                Err(m) => return Err(m),
            };
            return Ok(MicaPolicyFact::Face { name: x0, attribute: x1, value: x2 });
        }
        if str_eq(kind.as_str(), "configuration_policy") {
            let x0 = match symbol(value, "key") {
                Ok(x) => x,
                Err(m) => return Err(m),
            };
            let x1 = match policy_value(value, formatted) {
                Ok(x) => x,
                Err(m) => return Err(m),
            };
            return Ok(MicaPolicyFact::Configuration { key: x0, value: x1 });
        }
        if str_eq(kind.as_str(), "syntax_policy") {
            let x0 = match self.decode_buffer(value, "buffer") {
                Ok(x) => x,
                Err(m) => return Err(m),
            };
            let x1 = match symbol(value, "syntax_kind") {
                Ok(x) => x,
                Err(m) => return Err(m),
            };
            let x2 = match string(value, "pattern") {
                Ok(x) => x,
                Err(m) => return Err(m),
            };
            let x3 = match number(value, "precedence", "Mica precedence must be an integer") {
                Ok(x) => x,
                Err(m) => return Err(m),
            };
            return Ok(MicaPolicyFact::Syntax { buffer: x0, kind: x1, pattern: x2, precedence: x3 });
        }
        Err(concat2("unknown Mica policy fact: ", kind.as_str()))
    }
}

/// What the policy code calls the value of a fact.
pub open spec fn formatted_at(formatted: Seq<String>, i: int) -> Seq<char> {
    if 0 <= i < formatted.len() {
        formatted[i]@
    } else {
        Seq::<char>::empty()
    }
}

pub open spec fn policy_views(facts: Seq<MicaPolicyFact>) -> Seq<PolicyFactView> {
    facts.map_values(|f: MicaPolicyFact| f@)
}

impl MicaHost {
    /// The facts that are published, or what is wrong with the first that is not
    /// in order.
    pub open spec fn policy_facts_in(&self, items: Seq<Value>, formatted: Seq<String>) -> Result<
        Seq<PolicyFactView>,
        Seq<char>,
    >
        decreases items.len(),
    {
        if items.len() == 0 {
            Ok(seq![])
        } else {
            match self.policy_facts_in(items.drop_last(), formatted) {
                Err(m) => Err(m),
                Ok(facts) => match self.policy_fact_in(
                    items.last(),
                    formatted_at(formatted, items.len() - 1),
                ) {
                    Err(m) => Err(m),
                    Ok(fact) => Ok(facts.push(fact)),
                },
            }
        }
    }

    proof fn facts_fault_stays(&self, items: Seq<Value>, formatted: Seq<String>, k: int)
        requires
            0 <= k <= items.len(),
            self.policy_facts_in(items.take(k), formatted) is Err,
        ensures
            self.policy_facts_in(items, formatted) == self.policy_facts_in(
                items.take(k),
                formatted,
            ),
        decreases items.len(),
    {
        if k < items.len() {
            assert(items.drop_last().take(k) =~= items.take(k));
            self.facts_fault_stays(items.drop_last(), formatted, k);
        } else {
            assert(items.take(k) =~= items);
        }
    }

    fn decode_policy_facts(&self, items: &Vec<Value>, formatted: &Vec<String>) -> (r: Result<
        Vec<MicaPolicyFact>,
        String,
    >)
        ensures
            match self.policy_facts_in(items@, formatted@) {
                Ok(a) => r matches Ok(b) && policy_views(b@) == a,
                Err(m) => r matches Err(e) && e@ == m,
            },
    {
        let mut facts: Vec<MicaPolicyFact> = Vec::new();
        let mut i: usize = 0;
        assert(items@.take(0) =~= seq![]);
        assert(policy_views(facts@) =~= seq![]);
        while i < items.len()
            invariant
                i <= items@.len(),
                self.policy_facts_in(items@.take(i as int), formatted@) == Ok::<
                    Seq<PolicyFactView>,
                    Seq<char>,
                >(policy_views(facts@)),
            decreases items.len() - i,
        {
            let ghost before = policy_views(facts@);
            assert(items@.take(i + 1).drop_last() =~= items@.take(i as int));
            assert(items@.take(i + 1).last() == items@[i as int]);
            let name = if i < formatted.len() {
                formatted[i].clone()
            } else {
                String::new()
            };
            assert(name@ =~= formatted_at(formatted@, i as int));
            match self.decode_policy_fact(&items[i], name.as_str()) {
                Ok(fact) => {
                    facts.push(fact);
                    assert(policy_views(facts@) =~= before.push(fact@));
                },
                Err(m) => {
                    proof {
                        self.facts_fault_stays(items@, formatted@, i + 1);
                    }
                    return Err(m);
                },
            }
            i = i + 1;
        }
        assert(items@.take(i as int) =~= items@);
        Ok(facts)
    }
}

// --- Prompts ---

/// The text that a row of candidates shows.
pub open spec fn candidate_in(row: Value) -> Option<Seq<char>> {
    match row.elements() {
        Some(items) if items.len() > 0 => items[0].text(),
        _ => None,
    }
}

/// The candidates in rows, if all are in order.
pub open spec fn candidates_in(rows: Seq<Value>) -> Option<Seq<Seq<char>>>
    decreases rows.len(),
{
    if rows.len() == 0 {
        Some(seq![])
    } else {
        match (candidates_in(rows.drop_last()), candidate_in(rows.last())) {
            (Some(before), Some(s)) => Some(before.push(s)),
            _ => None,
        }
    }
}

/// A prompt as a mathematical value.
pub struct PromptView {
    pub prefix: Seq<char>,
    pub query: Seq<char>,
    pub selected: usize,
    pub candidates: Seq<Seq<char>>,
}

/// The prompt that is to be shown, if it is in order. A search shows one without
/// candidates.
pub open spec fn prompt_in(value: Value) -> Option<PromptView> {
    match (
        decode::text_in(value, "prefix"@),
        decode::text_in(value, "query"@),
        decode::position_in(value, "selected"@),
        value.field("candidates"@),
    ) {
        (Ok(prefix), Ok(query), Ok(selected), Some(list)) => match list.elements() {
            Some(rows) if rows.len() <= MAX_PROMPT_CANDIDATES => match candidates_in(rows) {
                Some(candidates) if rows.len() == 0 || selected < rows.len() => Some(
                    PromptView { prefix, query, selected, candidates },
                ),
                _ => None,
            },
            _ => None,
        },
        _ => None,
    }
}

impl View for MicaPromptUpdate {
    type V = PromptView;

    open spec fn view(&self) -> PromptView {
        PromptView {
            prefix: self.prefix@,
            query: self.query@,
            selected: self.selected,
            candidates: text::views(self.candidates@),
        }
    }
}

proof fn missing_candidate_stays(rows: Seq<Value>, k: int)
    requires
        0 <= k <= rows.len(),
        candidates_in(rows.take(k)) is None,
    ensures
        candidates_in(rows) is None,
    decreases rows.len(),
{
    if k < rows.len() {
        assert(rows.drop_last().take(k) =~= rows.take(k));
        missing_candidate_stays(rows.drop_last(), k);
    } else {
        assert(rows.take(k) =~= rows);
    }
}

fn decode_candidate(row: &Value) -> (r: Option<String>)
    ensures
        match r {
            Some(s) => candidate_in(*row) == Some(s@),
            None => candidate_in(*row) is None,
        },
{
    match row.as_list() {
        Some(items) => {
            if items.len() == 0 {
                return None;
            }
            match items[0].as_text() {
                Some(s) => Some(s.clone()),
                None => None,
            }
        },
        None => None,
    }
}

/// The prompt that is to be shown, if it is in order.
pub fn prompt_update(value: &Value) -> (r: Option<MicaPromptUpdate>)
    ensures
        match r {
            Some(p) => prompt_in(*value) == Some(p@),
            None => prompt_in(*value) is None,
        },
{
    let prefix = match string(value, "prefix") {
        Ok(x) => x,
        Err(_) => return None,
    };
    let query = match string(value, "query") {
        Ok(x) => x,
        Err(_) => return None,
    };
    let selected = match position(value, "selected") {
        Ok(x) => x,
        Err(_) => return None,
    };
    let rows = match value.get("candidates") {
        Some(list) => match list.as_list() {
            Some(rows) => rows,
            None => return None,
        },
        None => return None,
    };
    if rows.len() > MAX_PROMPT_CANDIDATES {
        return None;
    }
    let mut candidates: Vec<String> = Vec::new();
    let mut i: usize = 0;
    assert(rows@.take(0) =~= seq![]);
    assert(text::views(candidates@) =~= seq![]);
    while i < rows.len()
        invariant
            i <= rows@.len() <= MAX_PROMPT_CANDIDATES,
            candidates_in(rows@.take(i as int)) == Some(text::views(candidates@)),
            decode::text_in(*value, "prefix"@) == Ok::<Seq<char>, Seq<char>>(prefix@),
            decode::text_in(*value, "query"@) == Ok::<Seq<char>, Seq<char>>(query@),
            decode::position_in(*value, "selected"@) == Ok::<usize, Seq<char>>(selected),
            value.field("candidates"@) matches Some(list) && list.elements() == Some(rows@),
        decreases rows.len() - i,
    {
        let ghost before = text::views(candidates@);
        assert(rows@.take(i + 1).drop_last() =~= rows@.take(i as int));
        assert(rows@.take(i + 1).last() == rows@[i as int]);
        match decode_candidate(&rows[i]) {
            Some(s) => {
                candidates.push(s);
                assert(text::views(candidates@) =~= before.push(s@));
            },
            None => {
                proof {
                    missing_candidate_stays(rows@, i + 1);
                }
                return None;
            },
        }
        i = i + 1;
    }
    assert(rows@.take(i as int) =~= rows@);
    if rows.len() > 0 && selected >= rows.len() {
        return None;
    }
    Some(MicaPromptUpdate { prefix, query, selected, candidates })
}

// --- Searches ---

/// The place that a row describes.
pub open spec fn match_in(row: Value) -> Option<SearchMatch> {
    match row.elements() {
        Some(items) if items.len() >= 2 => match (items[0].position(), items[1].position()) {
            (Some(start), Some(end)) if start <= end => Some(SearchMatch { start, end }),
            _ => None,
        },
        _ => None,
    }
}

/// The places that rows describe, if all are in order.
pub open spec fn matches_in(rows: Seq<Value>) -> Option<Seq<SearchMatch>>
    decreases rows.len(),
{
    if rows.len() == 0 {
        Some(seq![])
    } else {
        match (matches_in(rows.drop_last()), match_in(rows.last())) {
            (Some(before), Some(m)) => Some(before.push(m)),
            _ => None,
        }
    }
}

proof fn missing_match_stays(rows: Seq<Value>, k: int)
    requires
        0 <= k <= rows.len(),
        matches_in(rows.take(k)) is None,
    ensures
        matches_in(rows) is None,
    decreases rows.len(),
{
    if k < rows.len() {
        assert(rows.drop_last().take(k) =~= rows.take(k));
        missing_match_stays(rows.drop_last(), k);
    } else {
        assert(rows.take(k) =~= rows);
    }
}

fn decode_match(row: &Value) -> (r: Option<SearchMatch>)
    ensures
        r == match_in(*row),
{
    match row.as_list() {
        Some(items) => {
            if items.len() < 2 {
                return None;
            }
            match (items[0].as_position(), items[1].as_position()) {
                (Some(start), Some(end)) => {
                    if start <= end {
                        Some(SearchMatch { start, end })
                    } else {
                        None
                    }
                },
                _ => None,
            }
        },
        None => None,
    }
}

/// A field as an identity.
pub open spec fn identity_field(value: Value, name: Seq<char>) -> Option<Identity> {
    match value.field(name) {
        Some(v) => v.identity(),
        None => None,
    }
}

/// A field as a position.
pub open spec fn position_field(value: Value, name: Seq<char>) -> Option<usize> {
    match value.field(name) {
        Some(v) => v.position(),
        None => None,
    }
}

fn get_identity(value: &Value, name: &str) -> (r: Option<Identity>)
    ensures
        r == identity_field(*value, name@),
{
    match value.get(name) {
        Some(v) => v.as_identity(),
        None => None,
    }
}

fn get_position(value: &Value, name: &str) -> (r: Option<usize>)
    ensures
        r == position_field(*value, name@),
{
    match value.get(name) {
        Some(v) => v.as_position(),
        None => None,
    }
}

/// What a search found, as a mathematical value.
pub struct SearchView {
    pub view: WindowId,
    pub matches: Seq<SearchMatch>,
    pub selected: Option<usize>,
}

/// The end of a search, as a mathematical value.
pub struct SearchEndView {
    pub view: WindowId,
    pub original_cursor: usize,
    pub query: Seq<char>,
    pub accepted: bool,
}

impl MicaHost {
    /// The view with the name in a field.
    pub open spec fn known_view(&self, value: Value) -> Option<WindowId> {
        match identity_field(value, "view"@) {
            Some(logical) => match context::view_named(self.views@, logical) {
                Some(v) => Some(v.id),
                None => None,
            },
            None => None,
        }
    }

    fn find_known_view(&self, value: &Value) -> (r: Option<WindowId>)
        ensures
            r == self.known_view(*value),
    {
        match get_identity(value, "view") {
            Some(logical) => match find_named_view(&self.views, logical) {
                Some(v) => Some(v.id),
                None => None,
            },
            None => None,
        }
    }

    /// What a search found, if it is in order.
    pub open spec fn search_in(&self, value: Value) -> Option<SearchView> {
        match (self.known_view(value), value.field("matches"@)) {
            (Some(view), Some(list)) => match list.elements() {
                Some(rows) if rows.len() <= MAX_SEARCH_MATCHES => match matches_in(rows) {
                    Some(matches) => Some(
                        SearchView { view, matches, selected: position_field(value, "selected"@) },
                    ),
                    None => None,
                },
                _ => None,
            },
            _ => None,
        }
    }

    fn search_update(&self, value: &Value) -> (r: Option<MicaSearchUpdate>)
        ensures
            match r {
                Some(u) => self.search_in(*value) == Some(
                    SearchView { view: u.view, matches: u.matches@, selected: u.selected },
                ),
                None => self.search_in(*value) is None,
            },
    {
        let view = match self.find_known_view(value) {
            Some(view) => view,
            None => return None,
        };
        let rows = match value.get("matches") {
            Some(list) => match list.as_list() {
                Some(rows) => rows,
                None => return None,
            },
            None => return None,
        };
        if rows.len() > MAX_SEARCH_MATCHES {
            return None;
        }
        let mut found: Vec<SearchMatch> = Vec::new();
        let mut i: usize = 0;
        assert(rows@.take(0) =~= seq![]);
        while i < rows.len()
            invariant
                i <= rows@.len() <= MAX_SEARCH_MATCHES,
                matches_in(rows@.take(i as int)) == Some(found@),
                self.known_view(*value) == Some(view),
                value.field("matches"@) matches Some(list) && list.elements() == Some(rows@),
            decreases rows.len() - i,
        {
            assert(rows@.take(i + 1).drop_last() =~= rows@.take(i as int));
            assert(rows@.take(i + 1).last() == rows@[i as int]);
            match decode_match(&rows[i]) {
                Some(m) => {
                    found.push(m);
                },
                None => {
                    proof {
                        missing_match_stays(rows@, i + 1);
                    }
                    return None;
                },
            }
            i = i + 1;
        }
        assert(rows@.take(i as int) =~= rows@);
        let selected = get_position(value, "selected");
        Some(MicaSearchUpdate { view, matches: found, selected })
    }

    /// The end of a search, if it is in order.
    pub open spec fn search_end_in(&self, value: Value) -> Option<SearchEndView> {
        match (
            self.known_view(value),
            position_field(value, "original"@),
            value.field("query"@),
            value.field("accepted"@),
        ) {
            (
                Some(view),
                Some(original_cursor),
                Some(Value::Text(query)),
                Some(Value::Bool(accepted)),
            ) => Some(SearchEndView { view, original_cursor, query: query@, accepted }),
            _ => None,
        }
    }

    fn search_finish(&self, value: &Value) -> (r: Option<MicaSearchFinish>)
        ensures
            match r {
                Some(f) => self.search_end_in(*value) == Some(
                    SearchEndView {
                        view: f.view,
                        original_cursor: f.original_cursor,
                        query: f.query@,
                        accepted: f.accepted,
                    },
                ),
                None => self.search_end_in(*value) is None,
            },
    {
        let view = match self.find_known_view(value) {
            Some(view) => view,
            None => return None,
        };
        let original_cursor = match get_position(value, "original") {
            Some(n) => n,
            None => return None,
        };
        let query = match value.get("query") {
            Some(v) => match v {
                Value::Text(s) => s.clone(),
                _ => return None,
            },
            None => return None,
        };
        let accepted = match value.get("accepted") {
            Some(v) => match v {
                Value::Bool(b) => *b,
                _ => return None,
            },
            None => return None,
        };
        Some(MicaSearchFinish { view, original_cursor, query, accepted })
    }

    /// What is shown of a view now, if it is in order.
    pub open spec fn presentation_in(&self, value: Value) -> Option<MicaPresentationEffect> {
        match (
            identity_field(value, "buffer"@),
            identity_field(value, "view"@),
            position_field(value, "cursor"@),
        ) {
            (Some(buffer), Some(view), Some(cursor)) => match (
                context::record_named(self.buffers@, buffer),
                context::view_named(self.views@, view),
            ) {
                (Some(b), Some(v)) => Some(
                    MicaPresentationEffect { buffer: b.id, view: v.id, cursor },
                ),
                _ => None,
            },
            _ => None,
        }
    }

    fn presentation_effect(&self, value: &Value) -> (r: Option<MicaPresentationEffect>)
        ensures
            r == self.presentation_in(*value),
    {
        match (
            get_identity(value, "buffer"),
            get_identity(value, "view"),
            get_position(value, "cursor"),
        ) {
            (Some(buffer), Some(view), Some(cursor)) => match (
                find_named_buffer(&self.buffers, buffer),
                find_named_view(&self.views, view),
            ) {
                (Some(b), Some(v)) => Some(
                    MicaPresentationEffect { buffer: self.buffers[b].id, view: v.id, cursor },
                ),
                _ => None,
            },
            _ => None,
        }
    }

    /// The records in which the cursor of a view is noted.
    pub open spec fn cursor_noted(views: Seq<ViewRecord>, id: WindowId, cursor: usize) -> Seq<
        ViewRecord,
    > {
        views.map_values(
            |v: ViewRecord|
                if v.id == id {
                    ViewRecord { cursor, ..v }
                } else {
                    v
                },
        )
    }

    fn note_cursor(&mut self, id: WindowId, cursor: usize)
        ensures
            *final(self) == (MicaHost { views: final(self).views, ..*old(self) }),
            final(self).views@ == Self::cursor_noted(old(self).views@, id, cursor),
    {
        let ghost all = self.views@;
        let ghost goal = Self::cursor_noted(all, id, cursor);
        let mut i: usize = 0;
        assert(self.views@ =~= goal.take(0) + all.skip(0));
        while i < self.views.len()
            invariant
                i <= all.len() == self.views@.len(),
                all == old(self).views@,
                goal == Self::cursor_noted(all, id, cursor),
                *self == (MicaHost { views: self.views, ..*old(self) }),
                self.views@ == goal.take(i as int) + all.skip(i as int),
            decreases all.len() - i,
        {
            assert(self.views@[i as int] == all[i as int]);
            let v = self.views[i];
            if v.id == id {
                self.views.set(
                    i,
                    ViewRecord {
                        id: v.id,
                        logical: v.logical,
                        buffer: v.buffer,
                        cursor,
                        mark: v.mark,
                    },
                );
            }
            assert(self.views@[i as int] == goal[i as int]);
            assert(self.views@ =~= goal.take(i + 1) + all.skip(i + 1));
            i = i + 1;
        }
        assert(self.views@ =~= goal);
    }

    /// Whether a result is an error with a message.
    pub open spec fn fails(r: Result<MicaEvent, String>, why: Seq<char>) -> bool {
        r matches Err(m) && m@ == why
    }

    /// Whether `r` is the edit that is asked for, or what is wrong with it.
    pub open spec fn edit_decoded(value: Value, r: Result<MicaEvent, String>) -> bool {
        match decode::symbol_in(value, "action"@) {
            Err(m) => Self::fails(r, m),
            Ok(name) => {
                let given = value.field("text"@) is Some;
                match decode::text_in(value, "text"@) {
                    Err(m) if given => Self::fails(r, m),
                    Ok(text) if given && text.len() > MAX_TEXT_CHARS_PER_INPUT => Self::fails(
                        r,
                        "Mica native text exceeds the character limit"@,
                    ),
                    goal => if name == "insert_text"@ {
                        if given {
                            r matches Ok(MicaEvent::Native(MicaNativeAction::InsertText(s)))
                                && s@ == goal->Ok_0
                        } else {
                            Self::fails(r, "Mica insert_text requires text"@)
                        }
                    } else {
                        match events::edit_named(name) {
                            Some(action) => r matches Ok(MicaEvent::Native(a)) && a == action,
                            None => Self::fails(r, "unknown Mica native action: "@ + name),
                        }
                    },
                }
            },
        }
    }

    fn decode_edit(value: &Value) -> (r: Result<MicaEvent, String>)
        ensures
            Self::edit_decoded(*value, r),
    {
        let name = match symbol(value, "action") {
            Ok(x) => x,
            Err(m) => return Err(m),
        };
        let text = if value.get("text").is_some() {
            match string(value, "text") {
                Ok(s) => {
                    if char_count(s.as_str()) > MAX_TEXT_CHARS_PER_INPUT {
                        return Err("Mica native text exceeds the character limit".to_owned());
                    }
                    Some(s)
                },
                Err(m) => return Err(m),
            }
        } else {
            None
        };
        match MicaNativeAction::decode(name.as_str(), text) {
            Ok(action) => Ok(MicaEvent::Native(action)),
            Err(m) => Err(m),
        }
    }

    /// Whether `r` are the facts that are published, or what is wrong with them.
    pub open spec fn publication_decoded(
        &self,
        value: Value,
        formatted: Seq<String>,
        r: Result<MicaEvent, String>,
    ) -> bool {
        match decode::field_in(value, "facts"@) {
            Err(m) => Self::fails(r, m),
            Ok(list) => match list.elements() {
                None => Self::fails(r, "Mica policy facts must be a list"@),
                Some(items) => if items.len() > MAX_POLICY_FACTS {
                    Self::fails(
                        r,
                        "Mica policy fact limit of "@ + text::decimal(MAX_POLICY_FACTS as nat)
                            + " exceeded"@,
                    )
                } else {
                    match self.policy_facts_in(items, formatted) {
                        Err(m) => Self::fails(r, m),
                        Ok(facts) => r matches Ok(MicaEvent::Policy(p)) && policy_views(p@)
                            == facts,
                    }
                },
            },
        }
    }

    fn decode_publication(&self, value: &Value, formatted: &Vec<String>) -> (r: Result<
        MicaEvent,
        String,
    >)
        ensures
            self.publication_decoded(*value, formatted@, r),
    {
        let items = match field(value, "facts") {
            Err(m) => return Err(m),
            Ok(list) => match list.as_list() {
                Some(items) => items,
                None => return Err("Mica policy facts must be a list".to_owned()),
            },
        };
        if items.len() > MAX_POLICY_FACTS {
            return Err(
                concat3(
                    "Mica policy fact limit of ",
                    decimal_string(MAX_POLICY_FACTS as u64).as_str(),
                    " exceeded",
                ),
            );
        }
        match self.decode_policy_facts(items, formatted) {
            Ok(facts) => Ok(MicaEvent::Policy(facts)),
            Err(m) => Err(m),
        }
    }

    /// Whether an effect comes to `r`, and leaves the host as `after`: only the
    /// cursor of a view that is shown anew is noted.
    pub open spec fn effect_decoded(
        &self,
        after: &Self,
        target: Identity,
        value: Value,
        formatted: Seq<String>,
        r: Result<MicaEvent, String>,
    ) -> bool {
        if target != self.names.session {
            Self::fails(r, "Mica effect targeted another session"@) && *after == *self
        } else {
            match value::left_of(value, MAX_BATCH_BYTES as int, 0) {
                Err(SizeFault::TooDeep) => Self::fails(
                    r,
                    "Mica effect exceeds the nesting limit"@,
                ) && *after == *self,
                Err(SizeFault::TooLarge) => Self::fails(r, "Mica effect exceeds the byte limit"@)
                    && *after == *self,
                Ok(_) => match decode::symbol_in(value, "kind"@) {
                    Err(m) => Self::fails(r, m) && *after == *self,
                    Ok(kind) => if kind == "presentation_invalidated"@ {
                        match self.presentation_in(value) {
                            Some(effect) => {
                                &&& r matches Ok(MicaEvent::Presentation(e)) && e == effect
                                &&& *after == (MicaHost { views: after.views, ..*self })
                                &&& after.views@ == Self::cursor_noted(
                                    self.views@,
                                    effect.view,
                                    effect.cursor,
                                )
                            },
                            None => Self::fails(r, "malformed Mica presentation effect"@)
                                && *after == *self,
                        }
                    } else {
                        *after == *self && if kind == "host_action"@ {
                            match self.host_action_in(value) {
                                Ok(a) => r matches Ok(MicaEvent::Host(b)) && b@ == a,
                                Err(m) => Self::fails(r, m),
                            }
                        } else if kind == "native_action"@ {
                            Self::edit_decoded(value, r)
                        } else if kind == "policy_snapshot"@ {
                            self.publication_decoded(value, formatted, r)
                        } else if kind == "prompt_update"@ {
                            match prompt_in(value) {
                                Some(p) => r matches Ok(MicaEvent::Prompt(q)) && q@ == p,
                                None => Self::fails(r, "malformed Mica prompt effect"@),
                            }
                        } else if kind == "prompt_close"@ {
                            r matches Ok(MicaEvent::PromptClosed)
                        } else if kind == "search_update"@ {
                            match self.search_in(value) {
                                Some(s) => r matches Ok(MicaEvent::Search(u)) && s == (SearchView {
                                    view: u.view,
                                    matches: u.matches@,
                                    selected: u.selected,
                                }),
                                None => Self::fails(r, "malformed Mica search effect"@),
                            }
                        } else if kind == "search_finish"@ {
                            match self.search_end_in(value) {
                                Some(s) => r matches Ok(MicaEvent::SearchFinished(f)) && s == (
                                SearchEndView {
                                    view: f.view,
                                    original_cursor: f.original_cursor,
                                    query: f.query@,
                                    accepted: f.accepted,
                                }),
                                None => Self::fails(r, "malformed Mica search-finish effect"@),
                            }
                        } else {
                            Self::fails(r, "unknown Mica effect kind: "@ + kind)
                        }
                    },
                },
            }
        }
    }

    /// What an effect comes to. `formatted` says what the policy code calls the
    /// values of published facts.
    pub fn decode_effect(&mut self, target: Identity, value: &Value, formatted: &Vec<String>) -> (r:
        Result<MicaEvent, String>)
        ensures
            old(self).effect_decoded(final(self), target, *value, formatted@, r),
    {
        if target != self.names.session {
            return Err("Mica effect targeted another session".to_owned());
        }
        match measure(value, MAX_BATCH_BYTES, 0) {
            Ok(_) => (),
            Err(f) => {
                return match f {
                    SizeFault::TooDeep => Err("Mica effect exceeds the nesting limit".to_owned()),
                    SizeFault::TooLarge => Err("Mica effect exceeds the byte limit".to_owned()),
                };
            },
        }
        let kind = match symbol(value, "kind") {
            Ok(x) => x,
            Err(m) => return Err(m),
        };
        let kind = kind.as_str();
        if str_eq(kind, "presentation_invalidated") {
            return match self.presentation_effect(value) {
                Some(effect) => {
                    self.note_cursor(effect.view, effect.cursor);
                    Ok(MicaEvent::Presentation(effect))
                },
                None => Err("malformed Mica presentation effect".to_owned()),
            };
        }
        if str_eq(kind, "host_action") {
            return match self.decode_host_action(value) {
                Ok(action) => Ok(MicaEvent::Host(action)),
                Err(m) => Err(m),
            };
        }
        if str_eq(kind, "native_action") {
            return Self::decode_edit(value);
        }
        if str_eq(kind, "policy_snapshot") {
            return self.decode_publication(value, formatted);
        }
        if str_eq(kind, "prompt_update") {
            return match prompt_update(value) {
                Some(prompt) => Ok(MicaEvent::Prompt(prompt)),
                None => Err("malformed Mica prompt effect".to_owned()),
            };
        }
        if str_eq(kind, "prompt_close") {
            return Ok(MicaEvent::PromptClosed);
        }
        if str_eq(kind, "search_update") {
            return match self.search_update(value) {
                Some(search) => Ok(MicaEvent::Search(search)),
                None => Err("malformed Mica search effect".to_owned()),
            };
        }
        if str_eq(kind, "search_finish") {
            return match self.search_finish(value) {
                Some(search) => Ok(MicaEvent::SearchFinished(search)),
                None => Err("malformed Mica search-finish effect".to_owned()),
            };
        }
        Err(concat2("unknown Mica effect kind: ", kind))
    }
}

// --- Laws ---

/// The rules of a publication are in order, and each is there once.
pub open spec fn rules_ordered(rules: Seq<RuleView>) -> bool {
    forall|i: int, j: int|
        0 <= i < j < rules.len() ==> rule_precedes(#[trigger] rules[i], #[trigger] rules[j])
}

proof fn rule_order_is_total(a: RuleView, b: RuleView)
    ensures
        a == b || rule_precedes(a, b) || rule_precedes(b, a),
{
    native_io::precedes_is_total(a.capture, b.capture);
    native_io::precedes_is_total(a.face, b.face);
}

proof fn rule_order_is_transitive(a: RuleView, b: RuleView, c: RuleView)
    requires
        rule_precedes(a, b),
        rule_precedes(b, c),
    ensures
        rule_precedes(a, c),
{
    if a.capture != b.capture && b.capture != c.capture {
        native_io::precedes_is_transitive(a.capture, b.capture, c.capture);
        if a.capture == c.capture {
            native_io::precedes_is_no_loop(a.capture);
        }
    } else if a.capture == b.capture && b.capture == c.capture && a.face != b.face && b.face
        != c.face {
        native_io::precedes_is_transitive(a.face, b.face, c.face);
        if a.face == c.face {
            native_io::precedes_is_no_loop(a.face);
        }
    }
}

/// A rule that is put in keeps the rules in order.
pub proof fn with_rule_keeps_order(rules: Seq<RuleView>, rule: RuleView)
    requires
        rules_ordered(rules),
    ensures
        rules_ordered(with_rule(rules, rule)),
        forall|x: RuleView| #[trigger]
            with_rule(rules, rule).contains(x) <==> rules.contains(x) || x == rule,
    decreases rules.len(),
{
    let r = with_rule(rules, rule);
    if rules.len() == 0 {
        assert(r[0] == rule);
    } else if rules.last() == rule {
        assert(rules[rules.len() - 1] == rule);
    } else if rule_precedes(rules.last(), rule) {
        assert forall|i: int, j: int| 0 <= i < j < r.len() implies rule_precedes(
            #[trigger] r[i],
            #[trigger] r[j],
        ) by {
            if j == rules.len() && i < rules.len() - 1 {
                assert(rule_precedes(rules[i], rules[rules.len() - 1]));
                rule_order_is_transitive(rules[i], rules.last(), rule);
            }
        }
        assert forall|x: RuleView| #[trigger] r.contains(x) <==> rules.contains(x) || x
            == rule by {
            if rules.contains(x) {
                assert(r[rules.index_of(x)] == x);
            }
            assert(r[rules.len() as int] == rule);
        }
    } else {
        let rest = rules.drop_last();
        assert forall|i: int, j: int| 0 <= i < j < rest.len() implies rule_precedes(
            #[trigger] rest[i],
            #[trigger] rest[j],
        ) by {
            assert(rule_precedes(rules[i], rules[j]));
        }
        with_rule_keeps_order(rest, rule);
        rule_order_is_total(rules.last(), rule);
        let inner = with_rule(rest, rule);
        assert forall|i: int, j: int| 0 <= i < j < r.len() implies rule_precedes(
            #[trigger] r[i],
            #[trigger] r[j],
        ) by {
            if j == inner.len() {
                assert(inner.contains(inner[i]));
                assert(r[j] == rules.last());
                if inner[i] != rule {
                    assert(rest.contains(inner[i]));
                    let k = rest.index_of(inner[i]);
                    assert(rule_precedes(rules[k], rules[rules.len() - 1]));
                }
            }
        }
        assert forall|x: RuleView| #[trigger] r.contains(x) <==> rules.contains(x) || x
            == rule by {
            if r.contains(x) {
                let k = r.index_of(x);
                if k < inner.len() {
                    assert(inner[k] == x);
                    assert(inner.contains(x));
                    if x != rule {
                        assert(rest.contains(x));
                        assert(rules[rest.index_of(x)] == x);
                    }
                } else {
                    assert(rules[rules.len() - 1] == x);
                }
            }
            if rules.contains(x) {
                let k = rules.index_of(x);
                if k < rest.len() {
                    assert(rest[k] == x);
                    assert(inner.contains(x));
                    assert(r[inner.index_of(x)] == x);
                } else {
                    assert(r[inner.len() as int] == x);
                }
            }
            if x == rule {
                assert(inner.contains(x));
                assert(r[inner.index_of(x)] == x);
            }
        }
    }
}

/// The rules of a publication are in order, and each is there once.
pub proof fn published_rules_are_ordered(items: Seq<Value>)
    ensures
        rules_in(items) matches Ok(rules) ==> rules_ordered(rules),
    decreases items.len(),
{
    if items.len() > 0 {
        published_rules_are_ordered(items.drop_last());
        if rules_in(items.drop_last()) is Ok && rule_in(items.last()) is Ok {
            with_rule_keeps_order(rules_in(items.drop_last())->Ok_0, rule_in(items.last())->Ok_0);
        }
    }
}

/// An effect for another session, or one that is too large or too deep, leaves
/// the host as it is and comes to an error.
pub proof fn foreign_effects_change_nothing(
    before: MicaHost,
    after: MicaHost,
    target: Identity,
    value: Value,
    formatted: Seq<String>,
    r: Result<MicaEvent, String>,
)
    requires
        before.effect_decoded(&after, target, value, formatted, r),
        target != before.names.session || value::left_of(value, MAX_BATCH_BYTES as int, 0) is Err,
    ensures
        after == before,
        r is Err,
{
}

} // verus!
