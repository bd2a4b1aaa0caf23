//! What the editor is told of its surroundings.

use vstd::prelude::*;

verus! {

/// What the clocks show.
#[derive(Debug, Clone, Copy, PartialEq, Eq, Structural)]
pub struct ClockReading {
    /// Milliseconds of a clock that never goes back.
    pub millis: u64,
    /// Seconds since the start of 1970.
    pub unix_secs: u64,
}

} // verus!
