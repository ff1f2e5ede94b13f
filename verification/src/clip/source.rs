//! Where a clip gets its frames from.

use vstd::prelude::*;
use crate::sample::{Frame, UNITY};

verus! {

/// A store of stereo frames that can be read at any frame offset.
pub trait ClipSource {
    /// The frame stored at `index`; silence where the source holds none.
    spec fn stored_frame(&self, index: nat) -> Frame;

    /// Reads `frame_count` frames starting at `start_frame`, with silence
    /// for every position the source does not cover.
    fn read_samples(&self, start_frame: u64, frame_count: usize) -> (frames: Vec<Frame>)
        ensures
            frames@.len() == frame_count,
            forall|k: int|
                0 <= k < frame_count ==> frames@[k] == #[trigger] self.stored_frame(
                    (start_frame + k) as nat,
                ),
    ;
}

/// A source that holds full scale on both channels at every position.
#[derive(Debug)]
pub struct ConstOneSource;

impl ClipSource for ConstOneSource {
    open spec fn stored_frame(&self, index: nat) -> Frame {
        (UNITY, UNITY)
    }

    fn read_samples(&self, start_frame: u64, frame_count: usize) -> (frames: Vec<Frame>) {
        let mut frames: Vec<Frame> = Vec::with_capacity(frame_count);
        let mut k: usize = 0;
        while k < frame_count
            invariant
                k <= frame_count,
                frames@.len() == k,
                forall|j: int| 0 <= j < k ==> frames@[j] == (UNITY, UNITY),
            decreases frame_count - k,
        {
            frames.push((UNITY, UNITY));
            k = k + 1;
        }
        frames
    }
}

} // verus!
