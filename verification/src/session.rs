//! What a session and its frontends say to each other.

use vstd::prelude::*;

verus! {

/// The most requests that one output may put to a frontend.
pub const MAX_FRONTEND_REQUESTS: usize = 64;

/// The longest text that passes through a frontend's clipboard, in characters.
pub const MAX_FRONTEND_TEXT_CHARS: usize = 1_048_576;

/// The most views of a session.
pub const MAX_SESSION_VIEWS: usize = 64;

/// The longest text of one input, in characters.
pub const MAX_TEXT_CHARS_PER_INPUT: usize = 65_536;

/// Counts the states of a presentation.
#[derive(Debug, Clone, Copy, PartialEq, Eq, Structural, Hash)]
pub struct Revision(pub u64);

/// Counts the starts of a session.
#[derive(Debug, Clone, Copy, PartialEq, Eq, Structural, Hash)]
pub struct SessionEpoch(pub u64);

/// All that a frontend shows.
#[derive(Debug, Clone)]
pub struct PresentationSnapshot {
    pub epoch: SessionEpoch,
    pub revision: Revision,
    /// The rows of the screen.
    pub rows: Vec<String>,
}

/// A step from one state of a presentation to the next.
#[derive(Debug, Clone)]
pub struct PresentationDelta {
    pub epoch: SessionEpoch,
    pub base_revision: Revision,
    pub revision: Revision,
    pub snapshot: PresentationSnapshot,
}

#[derive(Debug, Clone)]
pub enum PresentationUpdate {
    Full(PresentationSnapshot),
    Delta(PresentationDelta),
}

/// What happens to a session.
#[derive(Debug)]
pub enum LifecycleEvent {
    Attached,
    QuitRequested,
    AttachmentClosed { reason: String },
    WorkspaceTerminated,
    Warning(String),
    Error(String),
    Fatal(String),
    Overloaded { detail: String },
    RecoveryResult { operation: String, result: Result<String, String> },
}

/// A service that a session asks of its frontend.
#[derive(Debug, Clone)]
pub enum FrontendServiceRequest {
    ReadClipboard { request_id: u64 },
    WriteClipboard { request_id: u64, contents: String },
    Notify { request_id: u64, message: String },
}

impl FrontendServiceRequest {
    pub open spec fn id(&self) -> u64 {
        match self {
            FrontendServiceRequest::ReadClipboard { request_id } => *request_id,
            FrontendServiceRequest::WriteClipboard { request_id, .. } => *request_id,
            FrontendServiceRequest::Notify { request_id, .. } => *request_id,
        }
    }

    /// The number by which the answer is matched to the request.
    pub fn request_id(&self) -> (r: u64)
        ensures
            r == self.id(),
    {
        match self {
            FrontendServiceRequest::ReadClipboard { request_id } => *request_id,
            FrontendServiceRequest::WriteClipboard { request_id, .. } => *request_id,
            FrontendServiceRequest::Notify { request_id, .. } => *request_id,
        }
    }
}

#[derive(Debug, Clone)]
pub enum FrontendServiceResponse {
    ClipboardContents(Option<String>),
    Completed,
}

#[derive(Debug)]
pub struct FrontendServiceResult {
    pub request_id: u64,
    pub result: Result<FrontendServiceResponse, String>,
}

/// What a session hands to a frontend at once.
#[derive(Debug)]
pub struct SessionOutput {
    pub lifecycle: Vec<LifecycleEvent>,
    pub presentation: Option<PresentationUpdate>,
    pub frontend_requests: Vec<FrontendServiceRequest>,
}

} // verus!
