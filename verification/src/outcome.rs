//! What the driver reports of a socket call that failed.

use vstd::prelude::*;

verus! {

/// A failed socket call, as the driver saw it.
#[derive(Debug, PartialEq, Eq)]
pub struct IoFailure {
    /// The call would have blocked: nothing was there yet, and nothing is
    /// wrong.
    pub would_block: bool,
    /// The operating system's description of the failure.
    pub reason: String,
}

impl IoFailure {
    /// The failure of a call that found nothing to do yet.
    pub fn would_block(reason: String) -> (f: Self)
        ensures
            f.would_block,
            f.reason@ == reason@,
    {
        IoFailure { would_block: true, reason }
    }

    /// A failure for any other cause.
    pub fn fault(reason: String) -> (f: Self)
        ensures
            !f.would_block,
            f.reason@ == reason@,
    {
        IoFailure { would_block: false, reason }
    }
}

} // verus!
