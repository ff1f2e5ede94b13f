//! A track of MIDI material. It takes its place among the tracks but is
//! silent in the audio mix.

use vstd::prelude::*;
use crate::sample::Frame;
use crate::track::base::BaseTrack;
use crate::track::{TrackId, TrackType};

verus! {

/// A MIDI track.
#[derive(Debug)]
pub struct MidiTrack {
    pub base: BaseTrack,
}

impl MidiTrack {
    /// A MIDI track with the given name, under a fresh random identifier.
    pub fn new(name: &str) -> (track: Self)
        ensures
            track.base.name@ == name@,
            track.base.track_type == TrackType::Midi,
    {
        Self { base: BaseTrack::new(name, TrackType::Midi) }
    }

    pub fn id(&self) -> (id: TrackId)
        ensures
            id == self.base.id,
    {
        self.base.id()
    }

    pub fn name(&self) -> (name: &str)
        ensures
            name@ == self.base.name@,
    {
        self.base.name()
    }

    pub fn track_type(&self) -> (track_type: TrackType)
        ensures
            track_type == self.base.track_type,
    {
        self.base.track_type()
    }

    /// Fills the buffer with silence.
    pub fn fill_next_samples(&mut self, next_samples: &mut [Frame])
        ensures
            *final(self) == *old(self),
            final(next_samples)@.len() == old(next_samples)@.len(),
            forall|k: int|
                0 <= k < final(next_samples)@.len() ==> #[trigger] final(next_samples)@[k] == (
                    0i32,
                    0i32,
                ),
    {
        crate::track::silence(next_samples);
    }

    /// The next `frame_size` frames of the track.
    pub fn next_samples(&mut self, frame_size: usize) -> (frames: Vec<Frame>)
        ensures
            *final(self) == *old(self),
            frames@.len() == frame_size,
            forall|k: int| 0 <= k < frame_size ==> #[trigger] frames@[k] == (0i32, 0i32),
    {
        let mut buf: Vec<Frame> = crate::track::silent_buffer(frame_size);
        self.fill_next_samples(buf.as_mut_slice());
        buf
    }
}

} // verus!
