//! How a frontend works through what a session hands to it.
//!
//! A run takes the outputs one after the other, in order. It says what is to be
//! done next and is told what came of it, so that showing, waiting and the
//! clipboard stay with the frontend.

use vstd::prelude::*;
use vstd::string::*;

use crate::renderer::PresentationStreamError;
use crate::session::{
    FrontendServiceRequest, FrontendServiceResponse, FrontendServiceResult, LifecycleEvent,
    PresentationUpdate, SessionEpoch, SessionOutput, MAX_FRONTEND_REQUESTS,
    MAX_FRONTEND_TEXT_CHARS,
};
use crate::text::{char_count, concat2};

verus! {

/// The most outputs that one run takes.
pub const MAX_OUTPUT_CASCADE: usize = 64;

/// Why a run ended early.
#[derive(Debug)]
pub enum FrontendOutputError {
    Session(String),
    Presentation(PresentationStreamError),
    Io(String),
    Overloaded,
    MissingSnapshot,
}

impl FrontendOutputError {
    /// The error, in words.
    pub open spec fn told(&self) -> Seq<char> {
        match self {
            FrontendOutputError::Session(m) => "session output failed: "@ + m@,
            FrontendOutputError::Presentation(e) => "presentation resynchronization failed: "@
                + e.told(),
            FrontendOutputError::Io(m) => "frontend output failed: "@ + m@,
            FrontendOutputError::Overloaded => "frontend output cascade exceeds its bound"@,
            FrontendOutputError::MissingSnapshot => "snapshot recovery returned no full snapshot"@,
        }
    }

    /// The error, in words.
    pub fn message(&self) -> (r: String)
        ensures
            r@ == self.told(),
    {
        match self {
            FrontendOutputError::Session(m) => concat2("session output failed: ", m.as_str()),
            FrontendOutputError::Presentation(e) => concat2(
                "presentation resynchronization failed: ",
                e.message().as_str(),
            ),
            FrontendOutputError::Io(m) => concat2("frontend output failed: ", m.as_str()),
            FrontendOutputError::Overloaded => 
                "frontend output cascade exceeds its bound".to_owned(),
            FrontendOutputError::MissingSnapshot => 
                "snapshot recovery returned no full snapshot".to_owned(),
        }
    }
}

/// Whether a session ends with this event.
pub open spec fn is_end(event: LifecycleEvent) -> bool {
    match event {
        LifecycleEvent::QuitRequested => true,
        LifecycleEvent::AttachmentClosed { .. } => true,
        LifecycleEvent::WorkspaceTerminated => true,
        LifecycleEvent::Fatal(_) => true,
        _ => false,
    }
}

/// Whether a session ends with one of these events.
pub open spec fn holds_end(events: Seq<LifecycleEvent>) -> bool {
    exists|i: int| 0 <= i < events.len() && is_end(#[trigger] events[i])
}

/// Whether a session ends with one of these events.
pub fn report_lifecycle(events: &Vec<LifecycleEvent>) -> (quit: bool)
    ensures
        quit == holds_end(events@),
{
    let mut i: usize = 0;
    while i < events.len()
        invariant
            i <= events@.len(),
            forall|k: int| 0 <= k < i ==> !is_end(#[trigger] events@[k]),
        decreases events.len() - i,
    {
        match &events[i] {
            LifecycleEvent::QuitRequested => {
                return true;
            },
            LifecycleEvent::AttachmentClosed { reason: _ } => {
                return true;
            },
            LifecycleEvent::WorkspaceTerminated => {
                return true;
            },
            LifecycleEvent::Fatal(_) => {
                return true;
            },
            _ => (),
        }
        i = i + 1;
    }
    false
}

/// What a run waits for.
#[derive(Debug)]
pub enum Waiting {
    Nothing,
    /// That an update is shown.
    Shown { is_delta: bool },
    /// For a full snapshot.
    Snapshot,
    /// That the full snapshot is shown; what came with it is kept.
    Recovery(SessionOutput),
    /// For what a session says to an answer.
    Answer,
}

/// What is to be done next.
#[derive(Debug)]
pub enum OutputAction {
    /// Show an update.
    Accept(PresentationUpdate),
    /// Ask the session for a full snapshot.
    Recover,
    /// Answer a request, and hand the answer to the session.
    Handle(FrontendServiceRequest),
    /// All is done. Says whether the session ends.
    Finish(bool),
    Fail(FrontendOutputError),
}

/// What came of it.
#[derive(Debug)]
pub enum OutputEvent {
    /// The run starts.
    Start,
    /// The update is shown.
    Accepted,
    /// The update does not fit what is shown.
    Refused(PresentationStreamError),
    /// What the session said when it was asked for a full snapshot.
    Recovered(SessionOutput),
    /// What the session said to an answer.
    Completed(SessionOutput),
}

/// A run through the outputs of a session.
#[derive(Debug)]
pub struct OutputRun {
    /// The outputs that are still to be taken.
    pub pending: Vec<SessionOutput>,
    /// The requests of the present output that are still to be answered.
    pub requests: Vec<FrontendServiceRequest>,
    pub quit: bool,
    /// How many outputs have been taken.
    pub applied: usize,
    /// The epoch and revision of the latest full snapshot that was asked for.
    pub recovered: Option<RecoveredState>,
    pub waiting: Waiting,
}

/// The epoch and revision of a full snapshot.
#[derive(Debug, Clone, Copy, PartialEq, Eq, Structural)]
pub struct RecoveredState {
    pub epoch: SessionEpoch,
    pub revision: u64,
}

/// A run as a mathematical value.
pub struct RunView {
    pub pending: Seq<SessionOutput>,
    pub requests: Seq<FrontendServiceRequest>,
    pub quit: bool,
    pub applied: int,
    pub recovered: Option<RecoveredState>,
    pub waiting: Waiting,
}

/// Whether an update is one that a full snapshot already holds.
pub open spec fn is_stale(update: PresentationUpdate, recovered: Option<RecoveredState>) -> bool {
    match (update, recovered) {
        (PresentationUpdate::Delta(delta), Some(r)) => delta.epoch == r.epoch && delta.revision.0
            <= r.revision,
        _ => false,
    }
}

/// How a run goes on while it waits for nothing: the requests of the present
/// output are answered in order, then the next output is taken.
pub open spec fn advanced(run: RunView) -> (RunView, OutputAction)
    decreases run.pending.len(),
{
    if run.requests.len() > 0 {
        if run.pending.len() >= MAX_FRONTEND_REQUESTS {
            (run, OutputAction::Fail(FrontendOutputError::Overloaded))
        } else {
            (
                RunView { requests: run.requests.skip(1), waiting: Waiting::Answer, ..run },
                OutputAction::Handle(run.requests[0]),
            )
        }
    } else if run.pending.len() == 0 {
        (run, OutputAction::Finish(run.quit))
    } else {
        let output = run.pending[0];
        let applied = run.applied + 1;
        let taken = RunView { pending: run.pending.skip(1), applied, ..run };
        if applied > MAX_OUTPUT_CASCADE || output.frontend_requests@.len()
            > MAX_FRONTEND_REQUESTS {
            (taken, OutputAction::Fail(FrontendOutputError::Overloaded))
        } else {
            let opened = RunView {
                requests: output.frontend_requests@,
                quit: run.quit || holds_end(output.lifecycle@),
                ..taken
            };
            match output.presentation {
                Some(update) if !is_stale(update, run.recovered) => (
                    RunView { waiting: Waiting::Shown { is_delta: update is Delta }, ..opened },
                    OutputAction::Accept(update),
                ),
                _ => advanced(opened),
            }
        }
    }
}

/// What remains of an output once its snapshot and its events are taken.
pub open spec fn is_rest(rest: SessionOutput, output: SessionOutput) -> bool {
    &&& rest.lifecycle@.len() == 0
    &&& rest.presentation is None
    &&& rest.frontend_requests == output.frontend_requests
}

impl OutputRun {
    pub open spec fn view(&self) -> RunView {
        RunView {
            pending: self.pending@,
            requests: self.requests@,
            quit: self.quit,
            applied: self.applied as int,
            recovered: self.recovered,
            waiting: self.waiting,
        }
    }

    /// The number of outputs, and of those that wait, is bounded.
    pub open spec fn wf(&self) -> bool {
        &&& self.applied <= MAX_OUTPUT_CASCADE
        &&& self.pending@.len() <= MAX_FRONTEND_REQUESTS + 1
        &&& self.waiting is Answer ==> self.pending@.len() < MAX_FRONTEND_REQUESTS
        &&& (self.waiting is Shown || self.waiting is Snapshot || self.waiting is Recovery)
            ==> self.pending@.len() <= MAX_FRONTEND_REQUESTS
    }

    /// Whether the run waits for an event.
    pub open spec fn awaits(&self, event: OutputEvent) -> bool {
        match event {
            OutputEvent::Start => self.waiting is Nothing,
            OutputEvent::Accepted => self.waiting is Shown || self.waiting is Recovery,
            OutputEvent::Refused(_) => self.waiting is Shown || self.waiting is Recovery,
            OutputEvent::Recovered(_) => self.waiting is Snapshot,
            OutputEvent::Completed(_) => self.waiting is Answer,
        }
    }

    /// A run that starts with one output.
    pub fn new(output: SessionOutput) -> (r: Self)
        ensures
            r.wf(),
            r.pending@ == seq![output],
            r.requests@.len() == 0,
            !r.quit,
            r.applied == 0,
            r.recovered is None,
            r.waiting is Nothing,
    {
        OutputRun {
            pending: vec![output],
            requests: Vec::new(),
            quit: false,
            applied: 0,
            recovered: None,
            waiting: Waiting::Nothing,
        }
    }

    fn advance(&mut self) -> (r: OutputAction)
        requires
            old(self).wf(),
            old(self).waiting is Nothing,
        ensures
            r is Fail || final(self).wf(),
            final(self)@ == advanced(old(self)@).0,
            r == advanced(old(self)@).1,
    {
        while self.requests.len() == 0 && self.pending.len() > 0
            invariant
                self.wf(),
                self.waiting is Nothing,
                advanced(self@) == advanced(old(self)@),
            decreases self.pending.len(),
        {
            let ghost before = self@;
            let output = self.pending.remove(0);
            self.applied = self.applied + 1;
            assert(self.pending@ =~= before.pending.skip(1));
            if self.applied > MAX_OUTPUT_CASCADE || output.frontend_requests.len()
                > MAX_FRONTEND_REQUESTS {
                return OutputAction::Fail(FrontendOutputError::Overloaded);
            }
            if report_lifecycle(&output.lifecycle) {
                self.quit = true;
            }
            self.requests = output.frontend_requests;
            match output.presentation {
                Some(update) => {
                    let is_delta = match &update {
                        PresentationUpdate::Delta(_) => true,
                        PresentationUpdate::Full(_) => false,
                    };
                    let stale = match (&update, &self.recovered) {
                        (PresentationUpdate::Delta(delta), Some(r)) => delta.epoch == r.epoch
                            && delta.revision.0 <= r.revision,
                        _ => false,
                    };
                    if !stale {
                        self.waiting = Waiting::Shown { is_delta };
                        return OutputAction::Accept(update);
                    }
                },
                None => (),
            }
        }
        if self.requests.len() > 0 {
            if self.pending.len() >= MAX_FRONTEND_REQUESTS {
                return OutputAction::Fail(FrontendOutputError::Overloaded);
            }
            let ghost before = self@;
            let request = self.requests.remove(0);
            assert(self.requests@ =~= before.requests.skip(1));
            self.waiting = Waiting::Answer;
            return OutputAction::Handle(request);
        }
        OutputAction::Finish(self.quit)
    }

    /// Goes on after an event, and says what is to be done next.
    pub fn step(&mut self, event: OutputEvent) -> (r: OutputAction)
        requires
            old(self).wf(),
            old(self).awaits(event),
        ensures
            r is Fail || final(self).wf(),
            stepped(old(self)@, event, final(self)@, r),
    {
        let ghost before = self@;
        match event {
            OutputEvent::Start => self.advance(),
            OutputEvent::Accepted => {
                let mut waited = Waiting::Nothing;
                std::mem::swap(&mut waited, &mut self.waiting);
                match waited {
                    Waiting::Recovery(rest) => {
                        if rest.frontend_requests.len() > MAX_FRONTEND_REQUESTS {
                            return OutputAction::Fail(FrontendOutputError::Overloaded);
                        }
                        self.pending.insert(0, rest);
                        assert(self.pending@ =~= seq![rest] + before.pending);
                        self.advance()
                    },
                    _ => self.advance(),
                }
            },
            OutputEvent::Refused(error) => match &self.waiting {
                Waiting::Shown { is_delta } => {
                    if *is_delta {
                        self.waiting = Waiting::Snapshot;
                        OutputAction::Recover
                    } else {
                        OutputAction::Fail(FrontendOutputError::Presentation(error))
                    }
                },
                _ => OutputAction::Fail(FrontendOutputError::Presentation(error)),
            },
            OutputEvent::Recovered(output) => {
                if report_lifecycle(&output.lifecycle) {
                    self.quit = true;
                }
                match output.presentation {
                    Some(update) => match update {
                        PresentationUpdate::Full(snapshot) => {
                            self.recovered =
                            Some(
                                RecoveredState {
                                    epoch: snapshot.epoch,
                                    revision: snapshot.revision.0,
                                },
                            );
                            self.waiting =
                            Waiting::Recovery(
                                SessionOutput {
                                    lifecycle: Vec::new(),
                                    presentation: None,
                                    frontend_requests: output.frontend_requests,
                                },
                            );
                            OutputAction::Accept(PresentationUpdate::Full(snapshot))
                        },
                        _ => OutputAction::Fail(FrontendOutputError::MissingSnapshot),
                    },
                    None => OutputAction::Fail(FrontendOutputError::MissingSnapshot),
                }
            },
            OutputEvent::Completed(output) => {
                self.pending.push(output);
                self.waiting = Waiting::Nothing;
                self.advance()
            },
        }
    }
}

/// Whether an event leads a run from `before` to `after` and to what is to be
/// done next. A delta that does not fit makes the run ask for a full snapshot;
/// a full snapshot that does not fit ends it.
pub open spec fn stepped(
    before: RunView,
    event: OutputEvent,
    after: RunView,
    r: OutputAction,
) -> bool {
    let free = RunView { waiting: Waiting::Nothing, ..before };
    match event {
        OutputEvent::Start => (after, r) == advanced(before),
        OutputEvent::Accepted => match before.waiting {
            Waiting::Recovery(rest) => if rest.frontend_requests@.len() > MAX_FRONTEND_REQUESTS {
                r matches OutputAction::Fail(e) && e is Overloaded
            } else {
                (after, r) == advanced(
                    RunView { pending: seq![rest] + before.pending, ..free },
                )
            },
            _ => (after, r) == advanced(free),
        },
        OutputEvent::Refused(error) => if before.waiting matches Waiting::Shown { is_delta }
            && is_delta {
            r is Recover && after == (RunView { waiting: Waiting::Snapshot, ..before })
        } else {
            r matches OutputAction::Fail(FrontendOutputError::Presentation(e)) && e == error
        },
        OutputEvent::Recovered(output) => match output.presentation {
            Some(PresentationUpdate::Full(snapshot)) => {
                &&& r == OutputAction::Accept(PresentationUpdate::Full(snapshot))
                &&& after.waiting matches Waiting::Recovery(rest)
                &&& is_rest(rest, output)
                &&& after == (RunView {
                    quit: before.quit || holds_end(output.lifecycle@),
                    recovered: Some(
                        RecoveredState {
                            epoch: snapshot.epoch,
                            revision: snapshot.revision.0,
                        },
                    ),
                    waiting: after.waiting,
                    ..before
                })
            },
            _ => r matches OutputAction::Fail(e) && e is MissingSnapshot,
        },
        OutputEvent::Completed(output) => (after, r) == advanced(
            RunView { pending: before.pending.push(output), ..free },
        ),
    }
}

/// Once a session is to end, a run says so when it is done: an end that was told
/// is not forgotten.
pub proof fn end_is_not_forgotten(run: RunView)
    requires
        run.quit,
    ensures
        advanced(run).0.quit,
        advanced(run).1 matches OutputAction::Finish(quit) ==> quit,
    decreases run.pending.len(),
{
    if run.requests.len() == 0 && run.pending.len() > 0 {
        let output = run.pending[0];
        let opened = RunView {
            pending: run.pending.skip(1),
            applied: run.applied + 1,
            requests: output.frontend_requests@,
            quit: run.quit || holds_end(output.lifecycle@),
            ..run
        };
        end_is_not_forgotten(opened);
    }
}

/// A run never takes more outputs than it may: what it does next belongs to one
/// of the first ones.
pub proof fn run_is_bounded(run: RunView)
    requires
        run.applied <= MAX_OUTPUT_CASCADE,
    ensures
        advanced(run).0.applied <= MAX_OUTPUT_CASCADE || advanced(run).1 is Fail,
        advanced(run).0.applied >= run.applied,
        advanced(run).1 matches OutputAction::Handle(_) ==> run.pending.len()
            - advanced(run).0.pending.len() == advanced(run).0.applied - run.applied,
    decreases run.pending.len(),
{
    if run.requests.len() == 0 && run.pending.len() > 0 {
        let output = run.pending[0];
        let opened = RunView {
            pending: run.pending.skip(1),
            applied: run.applied + 1,
            requests: output.frontend_requests@,
            quit: run.quit || holds_end(output.lifecycle@),
            ..run
        };
        if opened.applied <= MAX_OUTPUT_CASCADE {
            run_is_bounded(opened);
        }
    }
}

/// After a recovery no delta is shown that the full snapshot already holds.
pub proof fn recovered_deltas_are_skipped(run: RunView)
    ensures
        advanced(run).1 matches OutputAction::Accept(update) ==> !is_stale(update, run.recovered),
    decreases run.pending.len(),
{
    if run.requests.len() == 0 && run.pending.len() > 0 {
        let output = run.pending[0];
        let opened = RunView {
            pending: run.pending.skip(1),
            applied: run.applied + 1,
            requests: output.frontend_requests@,
            quit: run.quit || holds_end(output.lifecycle@),
            ..run
        };
        recovered_deltas_are_skipped(opened);
    }
}

// --- Services ---

/// The services of a frontend that has a clipboard, or knows why not.
#[derive(Debug, Clone)]
pub struct LocalFrontendServices {
    pub has_clipboard: bool,
    pub clipboard_error: Option<String>,
}

/// What a request for a service leads to.
#[derive(Debug)]
pub enum ServiceStep {
    /// It is answered at once.
    Answer(FrontendServiceResult),
    /// The clipboard is to be read.
    ReadClipboard,
    /// The clipboard is to be filled.
    WriteClipboard(String),
}

/// Whether an answer to a request is a refusal.
pub open spec fn refuses(r: FrontendServiceResult, request_id: u64, why: Seq<char>) -> bool {
    &&& r.request_id == request_id
    &&& r.result matches Err(m)
    &&& m@ == why
}

fn refuse(request_id: u64, why: &str) -> (r: FrontendServiceResult)
    ensures
        refuses(r, request_id, why@),
{
    FrontendServiceResult { request_id, result: Err(why.to_owned()) }
}

impl LocalFrontendServices {
    /// The services of a frontend that did, or did not, get at a clipboard.
    pub fn new(clipboard: Result<(), String>) -> (r: Self)
        ensures
            match clipboard {
                Ok(_) => r.has_clipboard && r.clipboard_error is None,
                Err(m) => !r.has_clipboard && r.clipboard_error == Some(m),
            },
    {
        match clipboard {
            Ok(_) => LocalFrontendServices { has_clipboard: true, clipboard_error: None },
            Err(m) => LocalFrontendServices { has_clipboard: false, clipboard_error: Some(m) },
        }
    }

    /// Why there is no clipboard.
    pub open spec fn unavailable(&self) -> Seq<char> {
        match self.clipboard_error {
            Some(m) => m@,
            None => "frontend clipboard is unavailable"@,
        }
    }

    /// What a request leads to: a text that is too long is refused before the
    /// clipboard is touched.
    pub fn handle(&self, request: FrontendServiceRequest) -> (r: ServiceStep)
        ensures
            match request {
                FrontendServiceRequest::WriteClipboard { request_id, contents } => if contents@.len()
                    > MAX_FRONTEND_TEXT_CHARS {
                    r matches ServiceStep::Answer(a) && refuses(
                        a,
                        request_id,
                        "frontend clipboard write exceeds the text limit"@,
                    )
                } else if self.has_clipboard {
                    r matches ServiceStep::WriteClipboard(s) && s == contents
                } else {
                    r matches ServiceStep::Answer(a) && refuses(a, request_id, self.unavailable())
                },
                FrontendServiceRequest::ReadClipboard { request_id } => if self.has_clipboard {
                    r is ReadClipboard
                } else {
                    r matches ServiceStep::Answer(a) && refuses(a, request_id, self.unavailable())
                },
                FrontendServiceRequest::Notify { request_id, .. } => r matches ServiceStep::Answer(
                    a,
                ) && refuses(a, request_id, "frontend notifications are not available"@),
            },
    {
        let why = match &self.clipboard_error {
            Some(m) => m.clone(),
            None => "frontend clipboard is unavailable".to_owned(),
        };
        match request {
            FrontendServiceRequest::WriteClipboard { request_id, contents } => {
                if char_count(contents.as_str()) > MAX_FRONTEND_TEXT_CHARS {
                    ServiceStep::Answer(
                        refuse(request_id, "frontend clipboard write exceeds the text limit"),
                    )
                } else if self.has_clipboard {
                    ServiceStep::WriteClipboard(contents)
                } else {
                    ServiceStep::Answer(refuse(request_id, why.as_str()))
                }
            },
            FrontendServiceRequest::ReadClipboard { request_id } => {
                if self.has_clipboard {
                    ServiceStep::ReadClipboard
                } else {
                    ServiceStep::Answer(refuse(request_id, why.as_str()))
                }
            },
            FrontendServiceRequest::Notify { request_id, message: _ } => ServiceStep::Answer(
                refuse(request_id, "frontend notifications are not available"),
            ),
        }
    }

    /// The answer once the clipboard was read.
    pub fn read_done(&self, request_id: u64, contents: Result<String, String>) -> (r:
        FrontendServiceResult)
        ensures
            r.request_id == request_id,
            match contents {
                Err(m) => r.result == Err::<FrontendServiceResponse, String>(m),
                Ok(s) => if s@.len() > MAX_FRONTEND_TEXT_CHARS {
                    refuses(r, request_id, "frontend clipboard read exceeds the text limit"@)
                } else {
                    r.result == Ok::<FrontendServiceResponse, String>(
                        FrontendServiceResponse::ClipboardContents(Some(s)),
                    )
                },
            },
    {
        match contents {
            Err(m) => FrontendServiceResult { request_id, result: Err(m) },
            Ok(s) => {
                if char_count(s.as_str()) > MAX_FRONTEND_TEXT_CHARS {
                    refuse(request_id, "frontend clipboard read exceeds the text limit")
                } else {
                    FrontendServiceResult {
                        request_id,
                        result: Ok(FrontendServiceResponse::ClipboardContents(Some(s))),
                    }
                }
            },
        }
    }

    /// The answer once the clipboard was filled.
    pub fn write_done(&self, request_id: u64, outcome: Result<(), String>) -> (r:
        FrontendServiceResult)
        ensures
            r.request_id == request_id,
            r.result == match outcome {
                Ok(_) => Ok::<FrontendServiceResponse, String>(FrontendServiceResponse::Completed),
                Err(m) => Err(m),
            },
    {
        FrontendServiceResult {
            request_id,
            result: match outcome {
                Ok(_) => Ok(FrontendServiceResponse::Completed),
                Err(m) => Err(m),
            },
        }
    }
}

} // verus!
