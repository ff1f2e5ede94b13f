//! A track that repeats one frame for ever.

use vstd::prelude::*;
use crate::ident::new_uuid;
use crate::sample::Frame;
use crate::track::{TrackId, TrackType};

verus! {

/// A source of one unchanging frame.
#[derive(Debug)]
pub struct ConstantTrack {
    pub id: TrackId,
    pub sample: Frame,
}

impl ConstantTrack {
    /// A track that holds `left` and `right` on its two channels, under a
    /// fresh random identifier.
    pub fn new(left: i32, right: i32) -> (track: Self)
        ensures
            track.sample == (left, right),
    {
        Self { id: TrackId::from(new_uuid()), sample: (left, right) }
    }

    pub fn id(&self) -> (id: TrackId)
        ensures
            id == self.id,
    {
        self.id.duplicate()
    }

    pub fn name(&self) -> (name: &str)
        ensures
            name@ == "Constant"@,
    {
        "Constant"
    }

    pub fn track_type(&self) -> (track_type: TrackType)
        ensures
            track_type == TrackType::Audio,
    {
        TrackType::Audio
    }

    /// Writes the track's frame into every slot of the buffer.
    pub fn fill_next_samples(&mut self, next_sample: &mut [Frame])
        ensures
            *final(self) == *old(self),
            final(next_sample)@.len() == old(next_sample)@.len(),
            forall|k: int|
                0 <= k < final(next_sample)@.len() ==> #[trigger] final(next_sample)@[k] == old(
                    self,
                ).sample,
    {
        let mut i: usize = 0;
        while i < next_sample.len()
            invariant
                *self == *old(self),
                next_sample@.len() == old(next_sample)@.len(),
                forall|k: int| 0 <= k < i ==> #[trigger] next_sample@[k] == self.sample,
            decreases next_sample.len() - i,
        {
            next_sample[i] = self.sample;
            i = i + 1;
        }
    }
}

} // verus!
