//! The control messages a scheduler takes, and the queue they arrive on.

use vstd::prelude::*;
use crate::clip::source::ClipSource;
use crate::clip::Clip;
use crate::track::{Track, TrackId};
use crate::transport::resolution::TickResolution;

verus! {

/// A change to one parameter of a track, in millionths.
#[derive(Debug, Clone, Copy, PartialEq, Eq, Structural)]
pub enum ParameterChange {
    SetGain(i32),
    SetPan(i32),
}

/// A point in musical time: one-based bar, beat and tick.
#[derive(Debug, Clone, Copy, PartialEq, Eq, Structural)]
pub struct LoopOptions {
    pub bar: u64,
    pub beat: u64,
    pub tick: u64,
}

/// A message from the control side to the scheduler.
pub enum SchedulerCommand<S: ClipSource> {
    /// Play `track` from timeline frame `start_frame` on.
    ScheduleTrack { track: Track<S>, start_frame: u64 },
    /// Add `clip` to the timeline of the active track named `track_id`.
    ScheduleClip { track_id: TrackId, clip: Clip<S> },
    /// Change a parameter of the track named `target_id`.
    ParamChange { target_id: TrackId, change: ParameterChange },
    /// Take the tracks named `target_id` out of the mix.
    StopTrack { target_id: TrackId },
    /// Restart the track named `target_id`.
    RestartTrack { target_id: TrackId },
    /// Change the tempo, in millionths of a beat per minute, and the tick
    /// resolution.
    SetTempo { bpm: u64, resolution: TickResolution },
    /// Switch looping on, between two points in musical time, or off.
    SetLoop { enabled: bool, start: LoopOptions, end: LoopOptions },
    Play,
    Pause,
    Stop,
}

#[verifier::external_type_specification]
#[verifier::external_body]
#[verifier::reject_recursive_types(T)]
pub struct ExConsumer<T>(rtrb::Consumer<T>);

/// The receiving end of the command queue.
pub type SchedulerCommandConsumer<S> = rtrb::Consumer<SchedulerCommand<S>>;

/// Takes the oldest waiting command off the queue with
/// `rtrb::Consumer::pop`; `None` where the queue is empty. Which command
/// comes is up to the producer on the other side: nothing is claimed of it.
#[verifier::external_body]
pub(crate) fn pop_command<S: ClipSource>(
    consumer: &mut rtrb::Consumer<SchedulerCommand<S>>,
) -> (command: Option<SchedulerCommand<S>>) {
    consumer.pop().ok()
}

} // verus!
