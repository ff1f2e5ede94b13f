//! Musical time: tick resolutions, the tempo clock, and grid quantisation.

use vstd::prelude::*;

pub mod clock;
pub mod quantizer;
pub mod resolution;
pub mod timeline;

verus! {

/// Whether the timeline is standing still, held, or moving.
#[derive(Clone, Copy, Debug, PartialEq, Eq, Structural)]
pub enum TransportState {
    Stopped,
    Paused,
    Playing,
}

} // verus!
