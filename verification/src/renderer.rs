//! What has to be drawn again, and what keeps a renderer in step with its
//! session.

use vstd::prelude::*;
use vstd::string::*;

use crate::ids::{BufferId, WindowId};
use crate::session::{PresentationSnapshot, PresentationUpdate, Revision, SessionEpoch};
use crate::text;
use crate::text::{concat3, decimal_string};

verus! {

/// Why an update does not fit what is shown.
#[derive(Debug, Clone, Copy, PartialEq, Eq, Structural)]
pub enum PresentationStreamError {
    /// The snapshot's metadata differ from those of its envelope.
    SnapshotMismatch,
    EpochGap { received: SessionEpoch, expected: SessionEpoch },
    RevisionGap { received: Revision, expected: Revision },
    /// The revision does not follow its base.
    NonMonotonic { base: Revision, revision: Revision },
}

/// An epoch in words.
pub open spec fn epoch_told(epoch: SessionEpoch) -> Seq<char> {
    "SessionEpoch("@ + text::decimal(epoch.0 as nat) + ")"@
}

/// A revision in words.
pub open spec fn revision_told(revision: Revision) -> Seq<char> {
    "Revision("@ + text::decimal(revision.0 as nat) + ")"@
}

fn tell_epoch(epoch: SessionEpoch) -> (r: String)
    ensures
        r@ == epoch_told(epoch),
{
    concat3("SessionEpoch(", decimal_string(epoch.0).as_str(), ")")
}

fn tell_revision(revision: Revision) -> (r: String)
    ensures
        r@ == revision_told(revision),
{
    concat3("Revision(", decimal_string(revision.0).as_str(), ")")
}

impl PresentationStreamError {
    /// The error, in words.
    pub open spec fn told(self) -> Seq<char> {
        match self {
            PresentationStreamError::SnapshotMismatch =>
                "presentation snapshot metadata does not match its envelope"@,
            PresentationStreamError::EpochGap { received, expected } =>
                "presentation delta belongs to epoch "@ + epoch_told(received) + ", expected "@
                + epoch_told(expected),
            PresentationStreamError::RevisionGap { received, expected } =>
                "presentation delta starts at "@ + revision_told(received) + ", expected "@
                + revision_told(expected),
            PresentationStreamError::NonMonotonic { base, revision } =>
                "presentation revision did not advance by one from "@ + revision_told(base)
                + " to "@ + revision_told(revision),
        }
    }

    /// The error, in words.
    pub fn message(&self) -> (r: String)
        ensures
            r@ == self.told(),
    {
        match self {
            PresentationStreamError::SnapshotMismatch => 
                "presentation snapshot metadata does not match its envelope".to_owned(),
            PresentationStreamError::EpochGap { received, expected } => {
                let mut r = concat3(
                    "presentation delta belongs to epoch ",
                    tell_epoch(*received).as_str(),
                    ", expected ",
                );
                r.append(tell_epoch(*expected).as_str());
                r
            },
            PresentationStreamError::RevisionGap { received, expected } => {
                let mut r = concat3(
                    "presentation delta starts at ",
                    tell_revision(*received).as_str(),
                    ", expected ",
                );
                r.append(tell_revision(*expected).as_str());
                r
            },
            PresentationStreamError::NonMonotonic { base, revision } => {
                let mut r = concat3(
                    "presentation revision did not advance by one from ",
                    tell_revision(*base).as_str(),
                    " to ",
                );
                r.append(tell_revision(*revision).as_str());
                r
            },
        }
    }
}

/// The snapshot that is shown. A delta applies to exactly the snapshot that it
/// names; a full snapshot applies to anything.
#[derive(Debug, Clone)]
pub struct PresentationStreamState {
    pub current: Option<PresentationSnapshot>,
}

/// The revision behind `r`; the last one has none.
pub open spec fn next_revision(r: Revision) -> u64 {
    if r.0 < u64::MAX {
        (r.0 + 1) as u64
    } else {
        u64::MAX
    }
}

impl PresentationStreamState {
    /// Why `update` does not fit what is shown; `None` where it does.
    pub open spec fn refusal(&self, update: PresentationUpdate) -> Option<PresentationStreamError> {
        match update {
            PresentationUpdate::Full(_) => None,
            PresentationUpdate::Delta(delta) => {
                if delta.snapshot.epoch != delta.epoch || delta.snapshot.revision
                    != delta.revision {
                    Some(PresentationStreamError::SnapshotMismatch)
                } else {
                    match self.current {
                        None => Some(
                            PresentationStreamError::RevisionGap {
                                received: delta.base_revision,
                                expected: Revision(0),
                            },
                        ),
                        Some(current) => if delta.epoch != current.epoch {
                            Some(
                                PresentationStreamError::EpochGap {
                                    received: delta.epoch,
                                    expected: current.epoch,
                                },
                            )
                        } else if delta.base_revision != current.revision {
                            Some(
                                PresentationStreamError::RevisionGap {
                                    received: delta.base_revision,
                                    expected: current.revision,
                                },
                            )
                        } else if delta.revision.0 != next_revision(delta.base_revision) {
                            Some(
                                PresentationStreamError::NonMonotonic {
                                    base: delta.base_revision,
                                    revision: delta.revision,
                                },
                            )
                        } else {
                            None
                        },
                    }
                }
            },
        }
    }

    /// The snapshot that `update` brings.
    pub open spec fn brought(update: PresentationUpdate) -> PresentationSnapshot {
        match update {
            PresentationUpdate::Full(snapshot) => snapshot,
            PresentationUpdate::Delta(delta) => delta.snapshot,
        }
    }

    pub fn new() -> (s: Self)
        ensures
            s.current is None,
    {
        PresentationStreamState { current: None }
    }

    /// Takes an update over where it fits, and says why where it does not.
    pub fn apply(&mut self, update: &PresentationUpdate) -> (r: Result<(), PresentationStreamError>)
        ensures
            match old(self).refusal(*update) {
                None => {
                    &&& r is Ok
                    &&& final(self).current matches Some(s) && same_snapshot(
                        s,
                        Self::brought(*update),
                    )
                },
                Some(error) => r == Err::<(), PresentationStreamError>(error) && *final(self)
                    == *old(self),
            },
    {
        match update {
            PresentationUpdate::Full(snapshot) => {
                self.current = Some(copy_snapshot(snapshot));
            },
            PresentationUpdate::Delta(delta) => {
                if delta.snapshot.epoch != delta.epoch || delta.snapshot.revision
                    != delta.revision {
                    return Err(PresentationStreamError::SnapshotMismatch);
                }
                match &self.current {
                    None => {
                        return Err(
                            PresentationStreamError::RevisionGap {
                                received: delta.base_revision,
                                expected: Revision(0),
                            },
                        );
                    },
                    Some(current) => {
                        if delta.epoch != current.epoch {
                            return Err(
                                PresentationStreamError::EpochGap {
                                    received: delta.epoch,
                                    expected: current.epoch,
                                },
                            );
                        }
                        if delta.base_revision != current.revision {
                            return Err(
                                PresentationStreamError::RevisionGap {
                                    received: delta.base_revision,
                                    expected: current.revision,
                                },
                            );
                        }
                        if delta.revision.0 != delta.base_revision.0.saturating_add(1) {
                            return Err(
                                PresentationStreamError::NonMonotonic {
                                    base: delta.base_revision,
                                    revision: delta.revision,
                                },
                            );
                        }
                    },
                }
                self.current = Some(copy_snapshot(&delta.snapshot));
            },
        }
        Ok(())
    }

    /// The snapshot that is shown.
    pub fn current(&self) -> (r: Option<&PresentationSnapshot>)
        ensures
            r == match self.current {
                Some(s) => Some(&s),
                None => None,
            },
    {
        self.current.as_ref()
    }
}

impl Default for PresentationStreamState {
    fn default() -> (s: Self)
        ensures
            s.current is None,
    {
        Self::new()
    }
}

/// Whether two snapshots show the same.
pub open spec fn same_snapshot(a: PresentationSnapshot, b: PresentationSnapshot) -> bool {
    &&& a.epoch == b.epoch
    &&& a.revision == b.revision
    &&& a.rows@ == b.rows@
}

fn copy_snapshot(snapshot: &PresentationSnapshot) -> (r: PresentationSnapshot)
    ensures
        same_snapshot(r, *snapshot),
{
    let rows = crate::text::copy_strings(&snapshot.rows);
    PresentationSnapshot { epoch: snapshot.epoch, revision: snapshot.revision, rows }
}

/// A full snapshot brings a renderer back in step: the delta that follows it
/// fits.
pub proof fn full_snapshot_resynchronizes(
    state: PresentationStreamState,
    full: PresentationSnapshot,
    next: crate::session::PresentationDelta,
)
    requires
        state.current matches Some(shown) && same_snapshot(
            shown,
            PresentationStreamState::brought(PresentationUpdate::Full(full)),
        ),
        next.snapshot.epoch == next.epoch,
        next.snapshot.revision == next.revision,
        next.epoch == full.epoch,
        next.base_revision == full.revision,
        next.revision.0 == full.revision.0 + 1,
    ensures
        state.refusal(PresentationUpdate::Delta(next)) is None,
{
}

/// A delta that was taken over does not fit a second time.
pub proof fn delta_applies_once(
    before: PresentationStreamState,
    after: PresentationStreamState,
    delta: crate::session::PresentationDelta,
)
    requires
        before.refusal(PresentationUpdate::Delta(delta)) is None,
        delta.base_revision.0 < u64::MAX,
        after.current matches Some(shown) && same_snapshot(shown, delta.snapshot),
    ensures
        after.refusal(PresentationUpdate::Delta(delta)) is Some,
{
}

/// A part of what is shown that has to be drawn again.
#[derive(Debug, Clone, Copy, PartialEq, Eq, Structural)]
pub enum DirtyRegion {
    Line { buffer_id: BufferId, line: usize },
    LineRange { buffer_id: BufferId, start_line: usize, end_line: usize },
    CharRange { buffer_id: BufferId, start_char: usize, end_char: usize },
    Buffer { buffer_id: BufferId },
    /// The borders and the modeline of a window.
    WindowChrome { window_id: WindowId },
    Modeline { window_id: WindowId, component: ModelineComponent },
    FullScreen,
}

/// A part of a modeline.
#[derive(Debug, Clone, Copy, PartialEq, Eq, Structural, Hash)]
pub enum ModelineComponent {
    CursorPosition,
    BufferName,
    ModeName,
    All,
}

} // verus!
