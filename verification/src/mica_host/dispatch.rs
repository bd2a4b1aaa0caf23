//! What goes to the policy code, and what comes of it: keys, verbs, units of
//! policy, evaluations and events.

use vstd::prelude::*;
use vstd::string::*;

use crate::ids::{BufferId, WindowId};
use crate::mica_host::context::{find_buffer, MicaHost, MicaHostError};
use crate::mica_host::decode::has_service;
use crate::mica_host::events::{MicaEvent, MicaEventBatch};
use crate::mica_host::facts::{
    int_value, name_value, say1, symbol_value, text_value, Fact, FactValue,
};
use crate::mica_host::layout::{find_node_name, find_view_name};
use crate::mica_host::value::{Identity, Value};
use crate::mica_host::{bridge, context, facts, layout};
use crate::session::MAX_SESSION_VIEWS;
use crate::text::{concat2, concat3, decimal_string, str_eq};
use crate::window::SplitRatio;
use crate::{scripted_mode, text};

verus! {

/// How many events of the policy code wait to be taken.
pub const EVENT_QUEUE_CAPACITY: usize = 256;

/// How many requests to the outside go on at once.
pub const EXTERNAL_REQUEST_CAPACITY: usize = 16;

/// How much waits for subscribers.
pub const SUBSCRIPTION_QUEUE_BUDGET: usize = 64;

/// How many tasks run, wait, or are kept after their end.
pub const ACTIVE_TASK_CAPACITY: usize = 128;

pub const SUSPENDED_TASK_CAPACITY: usize = 64;

pub const TIMER_CAPACITY: usize = 64;

pub const TERMINAL_TASK_RETENTION: usize = 256;

/// How long a task may run, how often it is tried again, and how deep its calls
/// go.
pub const INSTRUCTION_BUDGET: usize = 250_000;

pub const MAX_TASK_RETRIES: usize = 4;

pub const MAX_CALL_DEPTH: usize = 32;

// --- Keys ---

/// What a key came to.
#[derive(Debug, Clone, PartialEq, Eq)]
pub enum MicaKeyResult {
    Unbound,
    Prefix,
    Handled,
    Failed(String),
}

/// What a task came to. Values and reasons are told in words.
#[derive(Debug)]
pub enum InvocationOutcome {
    Completed(Value),
    Aborted(String),
    Failed(String),
    Cancelled(String),
}

/// A task and whom it belongs to, in words.
#[derive(Debug)]
pub struct TaskName {
    pub task_id: u64,
    pub selector: String,
    pub endpoint: String,
    pub session: String,
}

/// How a task failed, in words.
pub open spec fn failure(task: TaskName, class: Seq<char>, why: Seq<char>) -> Seq<char> {
    "Mica task "@ + text::decimal(task.task_id as nat) + " selector="@ + task.selector@
        + " endpoint="@ + task.endpoint@ + " session="@ + task.session@ + " failure_class="@
        + class + ": "@ + why
}

fn tell_failure(task: &TaskName, class: &str, why: &str) -> (r: String)
    ensures
        r@ == failure(*task, class@, why@),
{
    let mut r = concat2("Mica task ", decimal_string(task.task_id).as_str());
    r.append(" selector=");
    r.append(task.selector.as_str());
    r.append(" endpoint=");
    r.append(task.endpoint.as_str());
    r.append(" session=");
    r.append(task.session.as_str());
    r.append(" failure_class=");
    r.append(class);
    r.append(": ");
    r.append(why);
    r
}

/// What a key comes to with the task that it started.
pub fn key_result(task: &TaskName, outcome: InvocationOutcome) -> (r: MicaKeyResult)
    ensures
        match outcome {
            InvocationOutcome::Completed(value) => if value.symbol() == Some("unbound"@) {
                r is Unbound
            } else if value.symbol() == Some("prefix"@) {
                r is Prefix
            } else {
                r is Handled
            },
            InvocationOutcome::Aborted(m) => r matches MicaKeyResult::Failed(f) && f@ == failure(
                *task,
                "aborted"@,
                m@,
            ),
            InvocationOutcome::Failed(m) => r matches MicaKeyResult::Failed(f) && f@ == failure(
                *task,
                "failed"@,
                m@,
            ),
            InvocationOutcome::Cancelled(m) => r matches MicaKeyResult::Failed(f) && f@
                == failure(*task, "cancelled"@, m@),
        },
{
    match outcome {
        InvocationOutcome::Completed(value) => {
            match value.as_symbol() {
                Some(s) => {
                    if str_eq(s.as_str(), "unbound") {
                        MicaKeyResult::Unbound
                    } else if str_eq(s.as_str(), "prefix") {
                        MicaKeyResult::Prefix
                    } else {
                        MicaKeyResult::Handled
                    }
                },
                None => MicaKeyResult::Handled,
            }
        },
        InvocationOutcome::Aborted(m) => MicaKeyResult::Failed(
            tell_failure(task, "aborted", m.as_str()),
        ),
        InvocationOutcome::Failed(m) => MicaKeyResult::Failed(
            tell_failure(task, "failed", m.as_str()),
        ),
        InvocationOutcome::Cancelled(m) => MicaKeyResult::Failed(
            tell_failure(task, "cancelled", m.as_str()),
        ),
    }
}

/// A value under a name, for a verb.
#[derive(Debug)]
pub struct Argument {
    pub name: String,
    pub value: FactValue,
}

/// A value under a name as a mathematical value.
pub struct ArgumentView {
    pub name: Seq<char>,
    pub value: facts::FactValueView,
}

impl View for Argument {
    type V = ArgumentView;

    open spec fn view(&self) -> ArgumentView {
        ArgumentView { name: self.name@, value: self.value@ }
    }
}

pub open spec fn argument_views(arguments: Seq<Argument>) -> Seq<ArgumentView> {
    arguments.map_values(|a: Argument| a@)
}

pub open spec fn argument(name: Seq<char>, value: facts::FactValueView) -> ArgumentView {
    ArgumentView { name, value }
}

fn give(arguments: &mut Vec<Argument>, name: &str, value: FactValue)
    ensures
        argument_views(final(arguments)@) == argument_views(old(arguments)@).push(
            argument(name@, value@),
        ),
{
    let ghost before = argument_views(arguments@);
    arguments.push(Argument { name: name.to_owned(), value });
    assert(argument_views(arguments@) =~= before.push(argument(name@, value@)));
}

/// A verb of the policy code and what it is given.
#[derive(Debug)]
pub struct VerbCall {
    pub selector: String,
    pub arguments: Vec<Argument>,
}

/// Whether a call is that of a verb with arguments.
pub open spec fn is_call(c: VerbCall, selector: Seq<char>, arguments: Seq<ArgumentView>) -> bool {
    c.selector@ == selector && argument_views(c.arguments@) == arguments
}

impl MicaHost {
    /// Who calls: stands behind the arguments of each verb.
    pub open spec fn caller(&self) -> Seq<ArgumentView> {
        seq![
            argument("actor"@, facts::named(self.names.actor)),
            argument("session"@, facts::named(self.names.session)),
        ]
    }

    /// The keys so far: those of a prefix, and one more.
    pub open spec fn full_sequence(&self, sequence: Seq<char>) -> Seq<char> {
        match self.pending_key_prefix {
            Some(prefix) => prefix@ + " "@ + sequence,
            None => sequence,
        }
    }

    /// The call that a key leads to: while a prompt is shown, it gets the key.
    pub fn key_call(&self, sequence: &str) -> (r: Result<VerbCall, MicaHostError>)
        ensures
            if self.closed {
                r matches Err(e) && e is Closed
            } else {
                r matches Ok(c) && is_call(
                    c,
                    if self.prompt_active {
                        "roe/prompt_key"@
                    } else {
                        "roe/dispatch_key"@
                    },
                    self.caller().push(
                        argument(
                            "sequence"@,
                            facts::FactValueView::Text(self.full_sequence(sequence@)),
                        ),
                    ),
                )
            },
    {
        if self.closed {
            return Err(MicaHostError::Closed);
        }
        let full = self.compose(sequence);
        let selector = if self.prompt_active {
            "roe/prompt_key"
        } else {
            "roe/dispatch_key"
        };
        let mut arguments: Vec<Argument> = Vec::new();
        assert(argument_views(arguments@) =~= seq![]);
        give(&mut arguments, "actor", name_value(self.names.actor));
        give(&mut arguments, "session", name_value(self.names.session));
        give(&mut arguments, "sequence", text_value(full.as_str()));
        assert(argument_views(arguments@) =~= self.caller().push(
            argument("sequence"@, facts::FactValueView::Text(self.full_sequence(sequence@))),
        ));
        Ok(VerbCall { selector: selector.to_owned(), arguments })
    }

    fn compose(&self, sequence: &str) -> (r: String)
        ensures
            r@ == self.full_sequence(sequence@),
    {
        match &self.pending_key_prefix {
            Some(prefix) => concat3(prefix.as_str(), " ", sequence),
            None => sequence.to_owned(),
        }
    }

    /// Whether `after` is this host after a key came to `key`, and `r` what is told
    /// of it.
    pub open spec fn settled(
        &self,
        after: &Self,
        sequence: Seq<char>,
        key: MicaKeyResult,
        r: MicaKeyResult,
    ) -> bool {
        &&& if self.pending_key_prefix is Some && key is Unbound {
            r matches MicaKeyResult::Failed(m) && m@ == self.full_sequence(sequence)
                + " is undefined"@
        } else {
            r == key
        }
        &&& *after == (MicaHost { pending_key_prefix: after.pending_key_prefix, ..*self })
        &&& match after.pending_key_prefix {
            Some(prefix) => key is Prefix && prefix@ == self.full_sequence(sequence),
            None => !(key is Prefix),
        }
    }

    /// Notes what a key came to: a prefix waits for the next key, and keys behind
    /// a prefix that mean nothing are told as undefined.
    pub fn key_settled(&mut self, sequence: &str, key: MicaKeyResult) -> (r: MicaKeyResult)
        ensures
            old(self).settled(final(self), sequence@, key, r),
    {
        let full = self.compose(sequence);
        match key {
            MicaKeyResult::Prefix => {
                self.pending_key_prefix = Some(full);
                MicaKeyResult::Prefix
            },
            MicaKeyResult::Unbound => {
                let had_prefix = self.pending_key_prefix.is_some();
                self.pending_key_prefix = None;
                if had_prefix {
                    MicaKeyResult::Failed(concat2(full.as_str(), " is undefined"))
                } else {
                    MicaKeyResult::Unbound
                }
            },
            other => {
                self.pending_key_prefix = None;
                other
            },
        }
    }

    // --- Verbs ---

    /// The call of a verb with arguments of its own.
    fn verb(&self, selector: &str, arguments: Vec<Argument>) -> (r: Result<
        VerbCall,
        MicaHostError,
    >)
        ensures
            if self.closed {
                r matches Err(e) && e is Closed
            } else {
                r matches Ok(c) && is_call(
                    c,
                    selector@,
                    argument_views(arguments@) + self.caller(),
                )
            },
    {
        if self.closed {
            return Err(MicaHostError::Closed);
        }
        let ghost own = argument_views(arguments@);
        let mut arguments = arguments;
        give(&mut arguments, "actor", name_value(self.names.actor));
        give(&mut arguments, "session", name_value(self.names.session));
        assert(argument_views(arguments@) =~= own + self.caller());
        Ok(VerbCall { selector: selector.to_owned(), arguments })
    }

    /// Whether `r` is the call of a verb, or says that there is no session.
    pub open spec fn calls(
        &self,
        r: Result<VerbCall, MicaHostError>,
        selector: Seq<char>,
        own: Seq<ArgumentView>,
    ) -> bool {
        if self.closed {
            r matches Err(e) && e is Closed
        } else {
            r matches Ok(c) && is_call(c, selector, own + self.caller())
        }
    }

    /// The call that tells of the pointer.
    pub fn pointer_call(&self, view: WindowId, position: usize, phase: &str, button: &str) -> (r:
        Result<VerbCall, MicaHostError>)
        ensures
            match layout::view_name(self.views@, view) {
                None => r matches Err(e) && e is MissingIdentity,
                Some(name) => self.calls(
                    r,
                    "roe/pointer_event"@,
                    seq![
                        argument("view"@, facts::named(name)),
                        argument("position"@, facts::counted(position as int)),
                        argument("phase"@, facts::FactValueView::Symbol(phase@)),
                        argument("button"@, facts::FactValueView::Symbol(button@)),
                    ],
                ),
            },
    {
        let name = match find_view_name(&self.views, view) {
            Some(name) => name,
            None => return Err(MicaHostError::MissingIdentity),
        };
        let mut arguments: Vec<Argument> = Vec::new();
        give(&mut arguments, "view", name_value(name));
        give(&mut arguments, "position", int_value(position as u64));
        give(&mut arguments, "phase", symbol_value(phase));
        give(&mut arguments, "button", symbol_value(button));
        assert(argument_views(arguments@) =~= seq![
            argument("view"@, facts::named(name)),
            argument("position"@, facts::counted(position as int)),
            argument("phase"@, facts::FactValueView::Symbol(phase@)),
            argument("button"@, facts::FactValueView::Symbol(button@)),
        ]);
        self.verb("roe/pointer_event", arguments)
    }

    /// The call that scrolls a view.
    pub fn scroll_call(&self, view: WindowId, line: usize, column: usize) -> (r: Result<
        VerbCall,
        MicaHostError,
    >)
        ensures
            match layout::view_name(self.views@, view) {
                None => r matches Err(e) && e is MissingIdentity,
                Some(name) => self.calls(
                    r,
                    "roe/set_view_scroll"@,
                    seq![
                        argument("view"@, facts::named(name)),
                        argument("line"@, facts::counted(line as int)),
                        argument("column"@, facts::counted(column as int)),
                    ],
                ),
            },
    {
        let name = match find_view_name(&self.views, view) {
            Some(name) => name,
            None => return Err(MicaHostError::MissingIdentity),
        };
        let mut arguments: Vec<Argument> = Vec::new();
        give(&mut arguments, "view", name_value(name));
        give(&mut arguments, "line", int_value(line as u64));
        give(&mut arguments, "column", int_value(column as u64));
        assert(argument_views(arguments@) =~= seq![
            argument("view"@, facts::named(name)),
            argument("line"@, facts::counted(line as int)),
            argument("column"@, facts::counted(column as int)),
        ]);
        self.verb("roe/set_view_scroll", arguments)
    }

    /// The call that moves the border of a split.
    pub fn ratio_call(&self, path: &Vec<usize>, ratio: SplitRatio) -> (r: Result<
        VerbCall,
        MicaHostError,
    >)
        ensures
            match layout::node_name(layout::node_views(self.layout_nodes@), path@) {
                None => r matches Err(e) && e is MissingIdentity,
                Some(name) => self.calls(
                    r,
                    "roe/set_split_ratio"@,
                    seq![
                        argument("node"@, facts::named(name)),
                        argument("ratio"@, facts::FactValueView::Ratio(ratio)),
                    ],
                ),
            },
    {
        let name = match find_node_name(&self.layout_nodes, path) {
            Some(name) => name,
            None => return Err(MicaHostError::MissingIdentity),
        };
        let mut arguments: Vec<Argument> = Vec::new();
        give(&mut arguments, "node", name_value(name));
        give(&mut arguments, "ratio", FactValue::Ratio(ratio));
        assert(argument_views(arguments@) =~= seq![
            argument("node"@, facts::named(name)),
            argument("ratio"@, facts::FactValueView::Ratio(ratio)),
        ]);
        self.verb("roe/set_split_ratio", arguments)
    }

    /// The call that shows what an evaluation came to.
    pub fn present_evaluation_call(
        &self,
        view: WindowId,
        buffer: BufferId,
        text: &str,
        failed: bool,
    ) -> (r: Result<VerbCall, MicaHostError>)
        ensures
            match (
                layout::view_name(self.views@, view),
                context::buffer_record(self.buffers@, buffer),
            ) {
                (Some(v), Some(b)) => self.calls(
                    r,
                    "roe/present_evaluation_result"@,
                    seq![
                        argument("view"@, facts::named(v)),
                        argument("buffer"@, facts::named(b.logical)),
                        argument("text"@, facts::FactValueView::Text(text@)),
                        argument("failed"@, facts::FactValueView::Bool(failed)),
                    ],
                ),
                _ => r matches Err(e) && e is MissingIdentity,
            },
    {
        let v = match find_view_name(&self.views, view) {
            Some(name) => name,
            None => return Err(MicaHostError::MissingIdentity),
        };
        let b = match find_buffer(&self.buffers, buffer) {
            Some(i) => self.buffers[i].logical,
            None => return Err(MicaHostError::MissingIdentity),
        };
        let mut arguments: Vec<Argument> = Vec::new();
        give(&mut arguments, "view", name_value(v));
        give(&mut arguments, "buffer", name_value(b));
        give(&mut arguments, "text", text_value(text));
        give(&mut arguments, "failed", FactValue::Bool(failed));
        assert(argument_views(arguments@) =~= seq![
            argument("view"@, facts::named(v)),
            argument("buffer"@, facts::named(b)),
            argument("text"@, facts::FactValueView::Text(text@)),
            argument("failed"@, facts::FactValueView::Bool(failed)),
        ]);
        self.verb("roe/present_evaluation_result", arguments)
    }

    /// The call of a verb that needs nothing but who calls, such as the one that
    /// publishes facts.
    pub fn plain_call(&self, selector: &str) -> (r: Result<VerbCall, MicaHostError>)
        ensures
            self.calls(r, selector@, Seq::<ArgumentView>::empty()),
    {
        let arguments: Vec<Argument> = Vec::new();
        assert(argument_views(arguments@) =~= Seq::<ArgumentView>::empty());
        self.verb(selector, arguments)
    }

    /// The names of buffers, if all have one.
    pub open spec fn buffer_names(&self, ids: Seq<BufferId>) -> Option<Seq<Identity>>
        decreases ids.len(),
    {
        if ids.len() == 0 {
            Some(seq![])
        } else {
            match (
                self.buffer_names(ids.drop_last()),
                context::buffer_record(self.buffers@, ids.last()),
            ) {
                (Some(before), Some(b)) => Some(before.push(b.logical)),
                _ => None,
            }
        }
    }

    proof fn nameless_stays(&self, ids: Seq<BufferId>, k: int)
        requires
            0 <= k <= ids.len(),
            self.buffer_names(ids.take(k)) is None,
        ensures
            self.buffer_names(ids) is None,
        decreases ids.len(),
    {
        if k < ids.len() {
            assert(ids.drop_last().take(k) =~= ids.take(k));
            self.nameless_stays(ids.drop_last(), k);
        } else {
            assert(ids.take(k) =~= ids);
        }
    }

    /// The call that tells which buffers were asked for at the start.
    pub fn startup_call(&self, buffers: &Vec<BufferId>) -> (r: Result<VerbCall, MicaHostError>)
        ensures
            if buffers@.len() > MAX_SESSION_VIEWS {
                r matches Err(MicaHostError::Policy(m)) && m@ == "startup buffer limit exceeded"@
            } else {
                match self.buffer_names(buffers@) {
                    None => r matches Err(MicaHostError::Policy(m)) && m@
                        == "startup buffer no longer exists"@,
                    Some(names) => self.calls(
                        r,
                        "roe/initialize_startup"@,
                        seq![argument("buffers"@, facts::FactValueView::List(names))],
                    ),
                }
            },
    {
        if buffers.len() > MAX_SESSION_VIEWS {
            return Err(MicaHostError::Policy("startup buffer limit exceeded".to_owned()));
        }
        let mut names: Vec<Identity> = Vec::new();
        let mut i: usize = 0;
        assert(buffers@.take(0) =~= seq![]);
        while i < buffers.len()
            invariant
                i <= buffers@.len() <= MAX_SESSION_VIEWS,
                self.buffer_names(buffers@.take(i as int)) == Some(names@),
            decreases buffers.len() - i,
        {
            assert(buffers@.take(i + 1).drop_last() =~= buffers@.take(i as int));
            assert(buffers@.take(i + 1).last() == buffers@[i as int]);
            match find_buffer(&self.buffers, buffers[i]) {
                Some(k) => {
                    names.push(self.buffers[k].logical);
                },
                None => {
                    proof {
                        self.nameless_stays(buffers@, i + 1);
                    }
                    return Err(
                        MicaHostError::Policy("startup buffer no longer exists".to_owned()),
                    );
                },
            }
            i = i + 1;
        }
        assert(buffers@.take(i as int) =~= buffers@);
        let mut arguments: Vec<Argument> = Vec::new();
        let ghost all = names@;
        give(&mut arguments, "buffers", FactValue::List(names));
        assert(argument_views(arguments@) =~= seq![
            argument("buffers"@, facts::FactValueView::List(all)),
        ]);
        self.verb("roe/initialize_startup", arguments)
    }

    // --- Units of policy ---

    /// Whether a unit is loaded.
    pub open spec fn is_loaded(&self, unit: Seq<char>) -> bool {
        text::views(self.loaded_units@).contains(unit)
    }

    fn has_unit(&self, unit: &str) -> (r: bool)
        ensures
            r == self.is_loaded(unit@),
    {
        has_service(&self.loaded_units, unit)
    }

    /// The unit that is to be loaded next before the policy code can be used.
    pub open spec fn missing_unit(&self) -> Option<Seq<char>> {
        if !self.first_wave_loaded {
            Some("roe/first-wave"@)
        } else if !self.is_loaded("roe/rust"@) {
            Some("roe/rust"@)
        } else if !self.is_loaded("roe/agent"@) {
            Some("roe/agent"@)
        } else {
            None
        }
    }

    /// The unit that is to be loaded next before the policy code can be used.
    pub fn next_unit(&self) -> (r: Option<&'static str>)
        ensures
            match r {
                Some(s) => self.missing_unit() == Some(s@),
                None => self.missing_unit() is None,
            },
    {
        if !self.first_wave_loaded {
            Some("roe/first-wave")
        } else if !self.has_unit("roe/rust") {
            Some("roe/rust")
        } else if !self.has_unit("roe/agent") {
            Some("roe/agent")
        } else {
            None
        }
    }

    /// Whether a unit is to be put in the place of the one that is loaded, rather
    /// than added.
    pub fn replaces(&self, unit: &str) -> (r: bool)
        ensures
            r == self.is_loaded(unit@),
    {
        self.has_unit(unit)
    }

    /// Whether `after` is this host with a unit loaded.
    pub open spec fn noted(&self, after: &Self, unit: Seq<char>, valid: bool) -> bool {
        &&& *after == (MicaHost {
            loaded_units: after.loaded_units,
            first_wave_loaded: after.first_wave_loaded,
            ..*self
        })
        &&& forall|u: Seq<char>| #[trigger]
            after.is_loaded(u) <==> self.is_loaded(u) || u == unit
        &&& after.first_wave_loaded == (self.first_wave_loaded || (valid && unit
            == "roe/first-wave"@))
    }

    /// Notes that a unit is loaded. Where what it declares is not valid it was
    /// taken back, but stays known, so that the next one takes its place.
    pub fn unit_loaded(&mut self, unit: &str, valid: bool)
        ensures
            old(self).noted(final(self), unit@, valid),
    {
        let ghost before = text::views(self.loaded_units@);
        if !self.has_unit(unit) {
            self.loaded_units.push(unit.to_owned());
            assert(text::views(self.loaded_units@) =~= before.push(unit@));
        }
        if valid && str_eq(unit, "roe/first-wave") {
            self.first_wave_loaded = true;
        }
        proof {
            assert forall|u: Seq<char>| #[trigger] self.is_loaded(u) <==> old(self).is_loaded(u)
                || u == unit@ by {
                bridge::pushed_holds(before, unit@, u);
            }
        }
    }

    // --- Packages ---

    /// Turns a package on or off. Gives the facts on all that are off.
    pub fn set_package_enabled(&mut self, package: Identity, enabled: bool) -> (r: Vec<Fact>)
        ensures
            *final(self) == (MicaHost {
                disabled_packages: final(self).disabled_packages,
                ..*old(self)
            }),
            forall|p: Identity| #[trigger]
                final(self).disabled_packages@.contains(p) <==> if p == package {
                    !enabled
                } else {
                    old(self).disabled_packages@.contains(p)
                },
            facts::fact_views(r@) == final(self).disabled_packages@.map_values(
                |p: Identity| facts::fact1("roe/PackageDisabled"@, facts::named(p)),
            ),
    {
        let mut kept: Vec<Identity> = Vec::new();
        let ghost all = self.disabled_packages@;
        let mut i: usize = 0;
        while i < self.disabled_packages.len()
            invariant
                i <= self.disabled_packages@.len(),
                all == self.disabled_packages@,
                *self == *old(self),
                forall|p: Identity| #[trigger]
                    kept@.contains(p) <==> all.take(i as int).contains(p) && p != package,
            decreases self.disabled_packages.len() - i,
        {
            let ghost before = kept@;
            let ghost seen = all.take(i as int);
            let next = self.disabled_packages[i];
            assert(all.take(i + 1) =~= seen.push(next));
            if next != package {
                kept.push(next);
            }
            proof {
                assert forall|p: Identity| #[trigger]
                    kept@.contains(p) <==> all.take(i + 1).contains(p) && p != package by {
                    pushed_names(before, next, p);
                    pushed_names(seen, next, p);
                    assert(before.contains(p) <==> seen.contains(p) && p != package);
                }
            }
            i = i + 1;
        }
        assert(all.take(i as int) =~= all);
        let ghost others = kept@;
        if !enabled {
            kept.push(package);
        }
        self.disabled_packages = kept;
        proof {
            assert forall|p: Identity| #[trigger]
                self.disabled_packages@.contains(p) <==> if p == package {
                    !enabled
                } else {
                    old(self).disabled_packages@.contains(p)
                } by {
                pushed_names(others, package, p);
                assert(others.contains(p) <==> all.contains(p) && p != package);
            }
        }
        let mut r: Vec<Fact> = Vec::new();
        let ghost goal = self.disabled_packages@.map_values(
            |p: Identity| facts::fact1("roe/PackageDisabled"@, facts::named(p)),
        );
        let mut j: usize = 0;
        assert(facts::fact_views(r@) =~= goal.take(0));
        while j < self.disabled_packages.len()
            invariant
                j <= self.disabled_packages@.len(),
                goal == self.disabled_packages@.map_values(
                    |p: Identity| facts::fact1("roe/PackageDisabled"@, facts::named(p)),
                ),
                facts::fact_views(r@) == goal.take(j as int),
            decreases self.disabled_packages.len() - j,
        {
            say1(&mut r, "roe/PackageDisabled", name_value(self.disabled_packages[j]));
            assert(goal.take(j + 1) =~= goal.take(j as int).push(goal[j as int]));
            j = j + 1;
        }
        assert(goal.take(j as int) =~= goal);
        r
    }

    // --- Events ---

    /// The event that something in the policy code comes to, if any; and what it
    /// does to the host.
    pub open spec fn noticed(
        &self,
        after: &Self,
        event: DriverEvent,
        r: Option<MicaEvent>,
    ) -> bool {
        match event {
            DriverEvent::Effect { target, value, formatted } => exists|
                decoded: Result<MicaEvent, String>,
            | #[trigger]
                self.effect_decoded(after, target, value, formatted@, decoded) && match decoded {
                    Ok(e) => r == Some(e),
                    Err(m) => r matches Some(MicaEvent::Error(n)) && n == m,
                },
            DriverEvent::TaskAborted { task_id, error } => {
                &&& *after == *self
                &&& r matches Some(MicaEvent::Error(m)) && m@ == "Mica background task "@
                    + text::decimal(task_id as nat) + " aborted: "@ + error@
            },
            DriverEvent::TaskFailed { task_id, error } => {
                &&& *after == *self
                &&& r matches Some(MicaEvent::Error(m)) && m@ == "Mica background task "@
                    + text::decimal(task_id as nat) + " failed: "@ + error@
            },
            DriverEvent::TaskCancelled { task_id } => *after == *self && r == Some(
                MicaEvent::TaskCancelled(task_id),
            ),
            DriverEvent::SubscriptionReady { mailbox } => *after == *self && r == Some(
                MicaEvent::SubscriptionReady(mailbox),
            ),
            DriverEvent::TaskCompleted { .. } => *after == *self && r is None,
            DriverEvent::TaskSuspended { .. } => *after == *self && r is None,
        }
    }

    fn notice(&mut self, event: DriverEvent) -> (r: Option<MicaEvent>)
        ensures
            old(self).noticed(final(self), event, r),
    {
        match event {
            DriverEvent::Effect { target, value, formatted } => {
                let decoded = self.decode_effect(target, &value, &formatted);
                assert(old(self).effect_decoded(self, target, value, formatted@, decoded));
                match decoded {
                    Ok(e) => Some(e),
                    Err(m) => Some(MicaEvent::Error(m)),
                }
            },
            DriverEvent::TaskAborted { task_id, error } => {
                let mut m = concat3(
                    "Mica background task ",
                    decimal_string(task_id).as_str(),
                    " aborted: ",
                );
                m.append(error.as_str());
                Some(MicaEvent::Error(m))
            },
            DriverEvent::TaskFailed { task_id, error } => {
                let mut m = concat3(
                    "Mica background task ",
                    decimal_string(task_id).as_str(),
                    " failed: ",
                );
                m.append(error.as_str());
                Some(MicaEvent::Error(m))
            },
            DriverEvent::TaskCancelled { task_id } => Some(MicaEvent::TaskCancelled(task_id)),
            DriverEvent::SubscriptionReady { mailbox } => Some(
                MicaEvent::SubscriptionReady(mailbox),
            ),
            DriverEvent::TaskCompleted { task_id: _ } => None,
            DriverEvent::TaskSuspended { task_id: _ } => None,
        }
    }

    /// Takes something that happened in the policy code into a batch. Whether a
    /// prompt is shown is noted only for events that were taken.
    pub fn record_background_event(&mut self, event: DriverEvent, batch: &mut MicaEventBatch)
        requires
            old(batch).wf(),
        ensures
            final(batch).wf(),
            recorded(*old(self), *final(self), event, *old(batch), *final(batch)),
    {
        let ghost before = *self;
        match self.notice(event) {
            Some(e) => {
                let ghost seen = *self;
                let prompt = match &e {
                    MicaEvent::Prompt(_) => Some(true),
                    MicaEvent::PromptClosed => Some(false),
                    _ => None,
                };
                if batch.push(e) {
                    if let Some(active) = prompt {
                        self.prompt_active = active;
                    }
                }
                assert(before.noticed(&seen, event, Some(e)));
                assert(recorded_as(before, seen, *self, event, *old(batch), *batch, e));
            },
            None => (),
        }
    }

    /// The state of the session, in words.
    pub open spec fn diagnosis(
        &self,
        endpoint: Seq<char>,
        actor: Seq<char>,
        session: Seq<char>,
    ) -> Seq<char> {
        "endpoint="@ + endpoint + " actor="@ + actor + " session="@ + session
            + " first_wave_loaded="@ + scripted_mode::truth(self.first_wave_loaded)
            + " buffers="@ + text::decimal(self.buffers@.len()) + " views="@ + text::decimal(
            self.views@.len(),
        ) + " disabled_packages="@ + text::decimal(self.disabled_packages@.len()) + " closed="@
            + scripted_mode::truth(self.closed)
    }

    /// The state of the session, in words; `endpoint`, `actor` and `session` are
    /// what the policy code calls them.
    pub fn recovery_diagnostics(&self, endpoint: &str, actor: &str, session: &str) -> (r: String)
        ensures
            r@ == self.diagnosis(endpoint@, actor@, session@),
    {
        let mut r = concat3("endpoint=", endpoint, " actor=");
        r.append(actor);
        r.append(" session=");
        r.append(session);
        r.append(" first_wave_loaded=");
        r.append(
            if self.first_wave_loaded {
                "true"
            } else {
                "false"
            },
        );
        r.append(" buffers=");
        r.append(decimal_string(self.buffers.len() as u64).as_str());
        r.append(" views=");
        r.append(decimal_string(self.views.len() as u64).as_str());
        r.append(" disabled_packages=");
        r.append(decimal_string(self.disabled_packages.len() as u64).as_str());
        r.append(" closed=");
        r.append(
            if self.closed {
                "true"
            } else {
                "false"
            },
        );
        r
    }

    /// Closes the session. Says whether it was open; the events that waited come
    /// with it.
    pub fn close(&mut self) -> (r: Option<MicaEventBatch>)
        requires
            old(self).deferred_events.wf(),
        ensures
            final(self).closed,
            final(self).deferred_events.wf(),
            if old(self).closed {
                r is None && *final(self) == *old(self)
            } else {
                &&& r == Some(old(self).deferred_events)
                &&& final(self).deferred_events.events@.len() == 0
                &&& !final(self).deferred_events.overloaded
                &&& *final(self) == (MicaHost {
                    closed: true,
                    deferred_events: final(self).deferred_events,
                    ..*old(self)
                })
            },
    {
        if self.closed {
            return None;
        }
        self.closed = true;
        let mut taken = MicaEventBatch::new();
        std::mem::swap(&mut taken, &mut self.deferred_events);
        Some(taken)
    }
}

/// What a call of a verb comes to: only that it failed counts.
pub fn verb_result(key: MicaKeyResult) -> (r: Result<(), MicaHostError>)
    ensures
        match key {
            MicaKeyResult::Failed(m) => r matches Err(MicaHostError::Policy(n)) && n == m,
            _ => r is Ok,
        },
{
    match key {
        MicaKeyResult::Failed(m) => Err(MicaHostError::Policy(m)),
        _ => Ok(()),
    }
}

/// What an evaluation comes to; `formatted` is what the policy code calls the
/// value.
pub fn evaluation_result(outcome: InvocationOutcome, formatted: String) -> (r: Result<
    String,
    MicaHostError,
>)
    ensures
        match outcome {
            InvocationOutcome::Completed(_) => r matches Ok(s) && s == formatted,
            InvocationOutcome::Aborted(m) => r matches Err(MicaHostError::Policy(n)) && n@
                == "evaluation aborted: "@ + m@,
            InvocationOutcome::Failed(m) => r matches Err(MicaHostError::Policy(n)) && n@
                == "evaluation failed: "@ + m@,
            InvocationOutcome::Cancelled(m) => r matches Err(MicaHostError::Policy(n)) && n@
                == "evaluation cancelled: "@ + m@,
        },
{
    match outcome {
        InvocationOutcome::Completed(_) => Ok(formatted),
        InvocationOutcome::Aborted(m) => Err(
            MicaHostError::Policy(concat2("evaluation aborted: ", m.as_str())),
        ),
        InvocationOutcome::Failed(m) => Err(
            MicaHostError::Policy(concat2("evaluation failed: ", m.as_str())),
        ),
        InvocationOutcome::Cancelled(m) => Err(
            MicaHostError::Policy(concat2("evaluation cancelled: ", m.as_str())),
        ),
    }
}

/// Something that happened in the policy code.
#[derive(Debug)]
pub enum DriverEvent {
    Effect { target: Identity, value: Value, formatted: Vec<String> },
    TaskAborted { task_id: u64, error: String },
    TaskFailed { task_id: u64, error: String },
    TaskCancelled { task_id: u64 },
    SubscriptionReady { mailbox: u64 },
    TaskCompleted { task_id: u64 },
    TaskSuspended { task_id: u64 },
}

/// Whether an event of the host was recorded: `seen` is the host once the event
/// was understood.
pub open spec fn recorded_as(
    before: MicaHost,
    seen: MicaHost,
    after: MicaHost,
    event: DriverEvent,
    batch: MicaEventBatch,
    filled: MicaEventBatch,
    e: MicaEvent,
) -> bool {
    &&& before.noticed(&seen, event, Some(e))
    &&& if batch.takes(e) {
        &&& filled.events@ == batch.events@.push(e)
        &&& !filled.overloaded
        &&& after == (MicaHost {
            prompt_active: match e {
                MicaEvent::Prompt(_) => true,
                MicaEvent::PromptClosed => false,
                _ => seen.prompt_active,
            },
            ..seen
        })
    } else {
        filled.events@ == batch.events@ && filled.overloaded && after == seen
    }
}

/// Whether something that happened in the policy code was taken into a batch.
pub open spec fn recorded(
    before: MicaHost,
    after: MicaHost,
    event: DriverEvent,
    batch: MicaEventBatch,
    filled: MicaEventBatch,
) -> bool {
    if event is TaskCompleted || event is TaskSuspended {
        after == before && filled == batch
    } else {
        exists|seen: MicaHost, e: MicaEvent| #[trigger]
            recorded_as(before, seen, after, event, batch, filled, e)
    }
}

proof fn pushed_names(all: Seq<Identity>, last: Identity, p: Identity)
    ensures
        all.push(last).contains(p) <==> all.contains(p) || p == last,
{
    if all.contains(p) {
        assert(all.push(last)[all.index_of(p)] == p);
    }
    assert(all.push(last)[all.len() as int] == last);
}

/// Keys that follow a prefix are told together with it, until something comes of
/// them.
pub proof fn prefix_is_kept_until_settled(
    before: MicaHost,
    after: MicaHost,
    first: Seq<char>,
    second: Seq<char>,
)
    requires
        before.pending_key_prefix is None,
        after.pending_key_prefix matches Some(p) && p@ == before.full_sequence(first),
    ensures
        after.full_sequence(second) == first + " "@ + second,
{
}

} // verus!
