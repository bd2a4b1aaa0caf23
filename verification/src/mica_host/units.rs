//! Putting a unit of policy code in the place of another.

use vstd::prelude::*;
use vstd::string::*;

use crate::mica_host::context::{MicaHost, MicaHostError};
use crate::text::str_eq;

verus! {

/// How far a unit is in.
#[derive(Debug, Clone, Copy, PartialEq, Eq, Structural)]
pub enum UnitStage {
    /// What stands in its place is being saved.
    Saving,
    /// The source of a unit that is added is being checked.
    Checking,
    /// The unit is being put in.
    Filing,
    /// What it says of syntax is being checked.
    CheckingSyntax,
    /// What stood in its place is being put back.
    Restoring,
    Over,
}

/// What is to be done about a unit.
#[derive(Debug)]
pub enum UnitStep {
    /// The source of the loaded unit is to be saved.
    Save,
    /// A source is to be checked.
    Check(String),
    /// A source is to be put in, in place of the loaded unit or beside the others.
    FileIn { source: String, replace: bool },
    /// What the policy code says of syntax is to be checked.
    CheckSyntax,
    /// It is over.
    Finish(Result<(), MicaHostError>),
}

/// What came of a step.
#[derive(Debug)]
pub enum UnitEvent {
    /// The loaded unit was saved, as this source, or why not.
    Saved(Result<String, String>),
    /// A source was checked or put in, or why not.
    Done(Result<(), String>),
    SyntaxChecked(Result<(), MicaHostError>),
}

/// A unit that is being put in the place of another, or added.
#[derive(Debug)]
pub struct UnitReplacement {
    pub unit: String,
    pub source: String,
    /// Whether a unit of that name was loaded.
    pub replaces: bool,
    /// What stood in its place. Nothing, where it is added.
    pub previous: String,
    pub stage: UnitStage,
    /// What is wrong with the syntax policy.
    pub fault: Option<MicaHostError>,
}

/// Whether a step ends with an error of the driver.
pub open spec fn driver_failed(step: UnitStep, why: String) -> bool {
    step == UnitStep::Finish(Err(MicaHostError::Driver(why)))
}

/// Whether a step puts a source in.
pub open spec fn files_in(step: UnitStep, text: Seq<char>, instead: bool) -> bool {
    step matches UnitStep::FileIn { source, replace } && source@ == text && replace == instead
}

impl UnitReplacement {
    /// Whether the state is one that comes up.
    pub open spec fn wf(&self) -> bool {
        &&& (self.stage == UnitStage::Restoring) == (self.fault is Some)
        &&& self.stage == UnitStage::Saving ==> self.replaces
        &&& !self.replaces ==> self.previous@ == Seq::<char>::empty()
    }

    /// Whether an event answers what is being done.
    pub open spec fn awaits(&self, event: UnitEvent) -> bool {
        match self.stage {
            UnitStage::Saving => event is Saved,
            UnitStage::Checking => event is Done,
            UnitStage::Filing => event is Done,
            UnitStage::CheckingSyntax => event is SyntaxChecked,
            UnitStage::Restoring => event is Done,
            UnitStage::Over => false,
        }
    }

    /// Starts to put a unit in. One that is loaded is saved first; the source of
    /// one that is not is checked.
    pub fn start(host: &MicaHost, unit: &str, source: String) -> (r: (Self, UnitStep))
        ensures
            r.0.wf(),
            r.0.unit@ == unit@,
            r.0.source == source,
            r.0.replaces == host.is_loaded(unit@),
            r.0.previous@ == Seq::<char>::empty(),
            r.0.fault is None,
            if host.is_loaded(unit@) {
                r.0.stage == UnitStage::Saving && r.1 is Save
            } else {
                r.0.stage == UnitStage::Checking && (r.1 matches UnitStep::Check(s) && s@ == source@)
            },
    {
        let replaces = host.replaces(unit);
        let step = if replaces {
            UnitStep::Save
        } else {
            UnitStep::Check(source.clone())
        };
        let previous = String::new();
        assert(previous@ =~= Seq::<char>::empty());
        (
            UnitReplacement {
                unit: unit.to_owned(),
                source,
                replaces,
                previous,
                stage: if replaces {
                    UnitStage::Saving
                } else {
                    UnitStage::Checking
                },
                fault: None,
            },
            step,
        )
    }

    /// Whether `after` is this replacement at another stage, with all else as it
    /// was.
    pub open spec fn at(&self, after: &Self, stage: UnitStage) -> bool {
        *after == (UnitReplacement { stage, ..*self })
    }

    /// What an event leads to. A unit whose syntax policy is not valid is taken
    /// back: what stood in its place is put in again, or nothing, and the unit
    /// counts as loaded, so that the next one takes its place.
    pub open spec fn stepped(
        &self,
        after: &Self,
        host: MicaHost,
        host_after: MicaHost,
        event: UnitEvent,
        step: UnitStep,
    ) -> bool {
        match (self.stage, event) {
            (UnitStage::Saving, UnitEvent::Saved(Ok(previous))) => {
                &&& *after == (UnitReplacement { previous, stage: UnitStage::Filing, ..*self })
                &&& files_in(step, self.source@, true)
                &&& host_after == host
            },
            (UnitStage::Saving, UnitEvent::Saved(Err(e))) => {
                &&& self.at(after, UnitStage::Over)
                &&& driver_failed(step, e)
                &&& host_after == host
            },
            (UnitStage::Checking, UnitEvent::Done(Ok(()))) => {
                &&& self.at(after, UnitStage::Filing)
                &&& files_in(step, self.source@, false)
                &&& host_after == host
            },
            (UnitStage::Filing, UnitEvent::Done(Ok(()))) => {
                &&& self.at(after, UnitStage::CheckingSyntax)
                &&& step is CheckSyntax
                &&& host_after == host
            },
            (UnitStage::CheckingSyntax, UnitEvent::SyntaxChecked(Ok(()))) => {
                &&& self.at(after, UnitStage::Over)
                &&& step == UnitStep::Finish(Ok(()))
                &&& host.noted(&host_after, self.unit@, true)
            },
            (UnitStage::CheckingSyntax, UnitEvent::SyntaxChecked(Err(e))) => {
                &&& *after == (UnitReplacement {
                    stage: UnitStage::Restoring,
                    fault: Some(e),
                    ..*self
                })
                &&& files_in(step, self.previous@, true)
                &&& host_after == host
            },
            (UnitStage::Restoring, UnitEvent::Done(Ok(()))) => {
                &&& *after == (UnitReplacement { stage: UnitStage::Over, fault: None, ..*self })
                &&& step == UnitStep::Finish(Err(self.fault->0))
                &&& host.noted(&host_after, self.unit@, false)
            },
            (UnitStage::Restoring, UnitEvent::Done(Err(e))) => {
                &&& *after == (UnitReplacement { stage: UnitStage::Over, fault: None, ..*self })
                &&& driver_failed(step, e)
                &&& host_after == host
            },
            (_, UnitEvent::Done(Err(e))) => {
                &&& self.at(after, UnitStage::Over)
                &&& driver_failed(step, e)
                &&& host_after == host
            },
            _ => false,
        }
    }

    /// Takes what came of the last step.
    pub fn step(&mut self, host: &mut MicaHost, event: UnitEvent) -> (step: UnitStep)
        requires
            old(self).wf(),
            old(self).awaits(event),
        ensures
            final(self).wf(),
            old(self).stepped(final(self), *old(host), *final(host), event, step),
    {
        match event {
            UnitEvent::Saved(saved) => match saved {
                Ok(previous) => {
                    self.previous = previous;
                    self.stage = UnitStage::Filing;
                    UnitStep::FileIn { source: self.source.clone(), replace: true }
                },
                Err(e) => {
                    self.stage = UnitStage::Over;
                    UnitStep::Finish(Err(MicaHostError::Driver(e)))
                },
            },
            UnitEvent::Done(done) => {
                let fault = self.fault.take();
                match done {
                    Err(e) => {
                        self.stage = UnitStage::Over;
                        UnitStep::Finish(Err(MicaHostError::Driver(e)))
                    },
                    Ok(()) => match fault {
                        Some(fault) => {
                            self.stage = UnitStage::Over;
                            host.unit_loaded(self.unit.as_str(), false);
                            UnitStep::Finish(Err(fault))
                        },
                        None => if self.stage == UnitStage::Checking {
                            self.stage = UnitStage::Filing;
                            UnitStep::FileIn { source: self.source.clone(), replace: false }
                        } else {
                            self.stage = UnitStage::CheckingSyntax;
                            UnitStep::CheckSyntax
                        },
                    },
                }
            },
            UnitEvent::SyntaxChecked(checked) => match checked {
                Ok(()) => {
                    self.stage = UnitStage::Over;
                    host.unit_loaded(self.unit.as_str(), true);
                    UnitStep::Finish(Ok(()))
                },
                Err(e) => {
                    self.fault = Some(e);
                    self.stage = UnitStage::Restoring;
                    UnitStep::FileIn { source: self.previous.clone(), replace: true }
                },
            },
        }
    }
}

/// A unit that is put in the place of another, and whose syntax policy is not
/// valid, is taken back: the source that was saved is put in again, the fault is
/// what it comes to, and of the host no more changes than that the unit is known.
pub proof fn rejected_unit_is_taken_back(
    states: Seq<UnitReplacement>,
    hosts: Seq<MicaHost>,
    steps: Seq<UnitStep>,
    saved: String,
    fault: MicaHostError,
)
    requires
        states.len() == 5,
        hosts.len() == 5,
        steps.len() == 4,
        states[0].wf(),
        states[0].stage == UnitStage::Saving,
        states[0].stepped(&states[1], hosts[0], hosts[1], UnitEvent::Saved(Ok(saved)), steps[0]),
        states[1].stepped(&states[2], hosts[1], hosts[2], UnitEvent::Done(Ok(())), steps[1]),
        states[2].stepped(
            &states[3],
            hosts[2],
            hosts[3],
            UnitEvent::SyntaxChecked(Err(fault)),
            steps[2],
        ),
        states[3].stepped(&states[4], hosts[3], hosts[4], UnitEvent::Done(Ok(())), steps[3]),
    ensures
        files_in(steps[0], states[0].source@, true),
        files_in(steps[2], saved@, true),
        steps[3] == UnitStep::Finish(Err(fault)),
        hosts[4] == (MicaHost { loaded_units: hosts[4].loaded_units, ..hosts[0] }),
        forall|u: Seq<char>| #[trigger]
            hosts[4].is_loaded(u) <==> hosts[0].is_loaded(u) || u == states[0].unit@,
{
}

// --- The units that come with the editor ---

/// Whether a unit is written out only once those of the editor are loaded.
pub fn is_written_out_loaded(unit: &str) -> (r: bool)
    ensures
        r == (unit@ == "roe/first-wave"@ || unit@ == "roe/rust"@),
{
    str_eq(unit, "roe/first-wave") || str_eq(unit, "roe/rust")
}

/// The units that are put back, in order.
pub fn restored_units() -> (r: Vec<&'static str>)
    ensures
        r@.len() == 3,
        r@[0]@ == "roe/first-wave"@,
        r@[1]@ == "roe/agent"@,
        r@[2]@ == "roe/rust"@,
{
    vec!["roe/first-wave", "roe/agent", "roe/rust"]
}

} // verus!
