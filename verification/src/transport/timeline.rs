//! A snapshot of where the transport stands.

use vstd::prelude::*;

verus! {

/// The position of the timeline in frames and in musical coordinates.
#[derive(Debug, Clone, Copy, PartialEq, Eq, Structural)]
pub struct TimelinePosition {
    pub current_frame: u64,
    pub bar: u64,
    pub beat: u64,
    pub tick: u64,
    pub tick_within_beat: u64,
}

} // verus!
