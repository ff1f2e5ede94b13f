//! A track waiting for its start frame.

use vstd::prelude::*;
use crate::clip::source::ClipSource;
use crate::track::Track;

verus! {

/// A track together with the timeline frame at which it starts to play.
pub struct ScheduledTrack<S: ClipSource> {
    /// The track to be played.
    pub track: Track<S>,
    /// The frame at which it becomes active.
    pub start_frame: u64,
}

impl<S: ClipSource> ScheduledTrack<S> {
    /// Whether this track is due before `other`: the one with the earlier
    /// start frame goes first.
    pub fn starts_before(&self, other: &Self) -> (earlier: bool)
        ensures
            earlier == (self.start_frame < other.start_frame),
    {
        self.start_frame < other.start_frame
    }
}

} // verus!
