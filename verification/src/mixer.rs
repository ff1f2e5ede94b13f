//! Mixing several tracks into one stream.

use vstd::prelude::*;
use crate::clip::source::ClipSource;
use crate::sample::{saturate, saturated, Frame};
use crate::track::{silent_buffer, Track};

verus! {

/// The exact sum, channel by channel, of the frames that the tracks give
/// `k` frames from now.
pub open spec fn tracks_sum<S: ClipSource>(tracks: Seq<Track<S>>, k: nat) -> (int, int)
    decreases tracks.len(),
{
    if tracks.len() == 0 {
        (0, 0)
    } else {
        let rest = tracks_sum(tracks.drop_last(), k);
        let last = tracks.last().frame_at(k);
        (rest.0 + last.0, rest.1 + last.1)
    }
}

/// The mix of the tracks `k` frames from now: the exact sum of their
/// frames, limited to the sample range.
pub open spec fn mixed_frame<S: ClipSource>(tracks: Seq<Track<S>>, k: nat) -> Frame {
    let sum = tracks_sum(tracks, k);
    (saturated(sum.0) as i32, saturated(sum.1) as i32)
}

/// The left sample of a frame for channel zero, the right one otherwise.
pub open spec fn channel_of(frame: Frame, channel: int) -> i32 {
    if channel == 0 {
        frame.0
    } else {
        frame.1
    }
}

/// The sample at `position` of the interleaved stream of `frames`: left,
/// right, left, right.
pub fn interleaved_sample(frames: &[Frame], position: usize) -> (sample: i32)
    requires
        position / 2 < frames@.len(),
    ensures
        sample == channel_of(frames@[position as int / 2], position as int % 2),
{
    let channel: usize = position % 2;
    if channel == 0 {
        frames[position / 2].0
    } else {
        frames[position / 2].1
    }
}

/// Every track of the list after it has given `n` frames.
pub open spec fn all_advanced<S: ClipSource>(tracks: Seq<Track<S>>, n: nat) -> Seq<Track<S>> {
    Seq::new(tracks.len(), |i: int| tracks[i].advanced(n))
}

/// The sum of two lists joined is the sum of their sums.
pub proof fn lemma_tracks_sum_concat<S: ClipSource>(
    a: Seq<Track<S>>,
    b: Seq<Track<S>>,
    k: nat,
)
    ensures
        tracks_sum(a + b, k).0 == tracks_sum(a, k).0 + tracks_sum(b, k).0,
        tracks_sum(a + b, k).1 == tracks_sum(a, k).1 + tracks_sum(b, k).1,
    decreases b.len(),
{
    if b.len() == 0 {
        assert(a + b =~= a);
    } else {
        assert((a + b).drop_last() =~= a + b.drop_last());
        assert((a + b).last() == b.last());
        lemma_tracks_sum_concat(a, b.drop_last(), k);
    }
}

/// The order of two tracks does not change the mix: a list with two of its
/// tracks swapped gives the same frame.
pub proof fn lemma_mix_swap<S: ClipSource>(tracks: Seq<Track<S>>, i: int, j: int, k: nat)
    requires
        0 <= i < tracks.len(),
        0 <= j < tracks.len(),
    ensures
        mixed_frame(tracks.update(i, tracks[j]).update(j, tracks[i]), k) == mixed_frame(tracks, k),
{
    let swapped = tracks.update(i, tracks[j]).update(j, tracks[i]);
    if i == j {
        assert(swapped =~= tracks);
    } else {
        let lo = if i < j {
            i
        } else {
            j
        };
        let hi = if i < j {
            j
        } else {
            i
        };
        let len = tracks.len() as int;
        let head = tracks.subrange(0, lo);
        let mid = tracks.subrange(lo + 1, hi);
        let tail = tracks.subrange(hi + 1, len);
        let first = seq![tracks[lo]];
        let second = seq![tracks[hi]];
        assert(tracks =~= head + first + mid + second + tail);
        assert(swapped =~= head + second + mid + first + tail);
        lemma_tracks_sum_concat(head, first, k);
        lemma_tracks_sum_concat(head + first, mid, k);
        lemma_tracks_sum_concat(head + first + mid, second, k);
        lemma_tracks_sum_concat(head + first + mid + second, tail, k);
        lemma_tracks_sum_concat(head, second, k);
        lemma_tracks_sum_concat(head + second, mid, k);
        lemma_tracks_sum_concat(head + second + mid, first, k);
        lemma_tracks_sum_concat(head + second + mid + first, tail, k);
    }
}

/// Takes the next `frame_count` frames from every track and mixes them
/// into the first `frame_count` frames of `output`: each becomes the exact
/// sum of the tracks' frames, limited to the sample range. `sums` and
/// `scratch` are working space that is overwritten; buffers that are kept
/// between calls are not allocated anew once they have grown to the buffer
/// size.
pub fn mix_tracks_into<S: ClipSource>(
    tracks: &mut Vec<Track<S>>,
    output: &mut [Frame],
    frame_count: usize,
    sums: &mut Vec<(i128, i128)>,
    scratch: &mut Vec<Frame>,
)
    requires
        frame_count <= old(output)@.len(),
    ensures
        final(tracks)@ == all_advanced(old(tracks)@, frame_count as nat),
        final(output)@.len() == old(output)@.len(),
        forall|k: int|
            0 <= k < frame_count ==> #[trigger] final(output)@[k] == mixed_frame(
                old(tracks)@,
                k as nat,
            ),
        forall|k: int|
            frame_count <= k < old(output)@.len() ==> #[trigger] final(output)@[k] == old(
                output,
            )@[k],
{
    sums.clear();
    scratch.clear();
    let mut k: usize = 0;
    while k < frame_count
        invariant
            k <= frame_count,
            sums@.len() == k,
            scratch@.len() == k,
            forall|j: int| 0 <= j < k ==> #[trigger] sums@[j] == (0i128, 0i128),
        decreases frame_count - k,
    {
        sums.push((0, 0));
        scratch.push((0, 0));
        k = k + 1;
    }
    let mut t: usize = 0;
    while t < tracks.len()
        invariant
            t <= tracks@.len(),
            tracks@.len() == old(tracks)@.len(),
            forall|j: int|
                0 <= j < t ==> #[trigger] tracks@[j] == old(tracks)@[j].advanced(
                    frame_count as nat,
                ),
            forall|j: int| t <= j < tracks@.len() ==> #[trigger] tracks@[j] == old(tracks)@[j],
            scratch@.len() == frame_count,
            sums@.len() == frame_count,
            forall|j: int|
                0 <= j < frame_count ==> (#[trigger] sums@[j]).0 == tracks_sum(
                    old(tracks)@.subrange(0, t as int),
                    j as nat,
                ).0 && sums@[j].1 == tracks_sum(old(tracks)@.subrange(0, t as int), j as nat).1,
            forall|j: int|
                0 <= j < frame_count ==> -t * 0x8000_0000 <= (#[trigger] sums@[j]).0 <= t
                    * 0x8000_0000 && -t * 0x8000_0000 <= sums@[j].1 <= t * 0x8000_0000,
        decreases tracks.len() - t,
    {
        let ghost sums_before = sums@;
        tracks[t].fill_next_samples(scratch.as_mut_slice());
        proof {
            assert(old(tracks)@.subrange(0, t + 1).drop_last() =~= old(tracks)@.subrange(
                0,
                t as int,
            ));
        }
        let mut i: usize = 0;
        while i < frame_count
            invariant
                i <= frame_count,
                t < 0xffff_ffff_ffff_ffff,
                scratch@.len() == frame_count,
                sums@.len() == frame_count,
                sums_before.len() == frame_count,
                forall|j: int|
                    0 <= j < frame_count ==> -t * 0x8000_0000 <= (#[trigger] sums_before[j]).0 <= t
                        * 0x8000_0000 && -t * 0x8000_0000 <= sums_before[j].1 <= t * 0x8000_0000,
                forall|j: int|
                    0 <= j < i ==> (#[trigger] sums@[j]).0 == sums_before[j].0 + scratch@[j].0
                        && sums@[j].1 == sums_before[j].1 + scratch@[j].1,
                forall|j: int| i <= j < frame_count ==> #[trigger] sums@[j] == sums_before[j],
            decreases frame_count - i,
        {
            let so_far: (i128, i128) = sums[i];
            let added: Frame = scratch[i];
            sums[i] = (so_far.0 + added.0 as i128, so_far.1 + added.1 as i128);
            i = i + 1;
        }
        t = t + 1;
    }
    proof {
        assert(old(tracks)@.subrange(0, t as int) =~= old(tracks)@);
        assert(tracks@ =~= all_advanced(old(tracks)@, frame_count as nat));
    }
    let mut k: usize = 0;
    while k < frame_count
        invariant
            k <= frame_count <= output@.len(),
            sums@.len() == frame_count,
            output@.len() == old(output)@.len(),
            forall|j: int|
                0 <= j < k ==> #[trigger] output@[j] == (
                    saturated(sums@[j].0 as int) as i32,
                    saturated(sums@[j].1 as int) as i32,
                ),
            forall|j: int| k <= j < output@.len() ==> #[trigger] output@[j] == old(output)@[j],
        decreases frame_count - k,
    {
        let sum: (i128, i128) = sums[k];
        output[k] = (saturate(sum.0), saturate(sum.1));
        k = k + 1;
    }
}

/// Takes the next `frame_size` frames from every track and mixes them:
/// each output frame is the exact sum of the tracks' frames, limited to the
/// sample range.
pub fn mix_tracks<S: ClipSource>(tracks: &mut Vec<Track<S>>, frame_size: usize) -> (mixed: Vec<
    Frame,
>)
    ensures
        final(tracks)@ == all_advanced(old(tracks)@, frame_size as nat),
        mixed@.len() == frame_size,
        forall|k: int|
            0 <= k < frame_size ==> #[trigger] mixed@[k] == mixed_frame(old(tracks)@, k as nat),
{
    let mut mixed: Vec<Frame> = silent_buffer(frame_size);
    let mut sums: Vec<(i128, i128)> = Vec::with_capacity(frame_size);
    let mut scratch: Vec<Frame> = Vec::with_capacity(frame_size);
    mix_tracks_into(tracks, mixed.as_mut_slice(), frame_size, &mut sums, &mut scratch);
    mixed
}

/// A set of tracks that are mixed into one interleaved stream.
pub struct Mixer<S: ClipSource> {
    pub tracks: Vec<Track<S>>,
}

impl<S: ClipSource> Mixer<S> {
    /// A mixer without tracks.
    pub fn new() -> (mixer: Self)
        ensures
            mixer.tracks@.len() == 0,
    {
        Self { tracks: Vec::new() }
    }

    /// Adds a track after the ones the mixer holds.
    pub fn add_track(&mut self, track: Track<S>)
        ensures
            final(self).tracks@ == old(self).tracks@.push(track),
    {
        self.tracks.push(track);
    }

    /// Mixes the next `frame_size` frames of every track and interleaves
    /// the result: left, right, left, right.
    pub fn mix(&mut self, frame_size: usize) -> (interleaved: Vec<i32>)
        ensures
            final(self).tracks@ == all_advanced(old(self).tracks@, frame_size as nat),
            interleaved@.len() == 2 * frame_size,
            forall|j: int|
                0 <= j < 2 * frame_size ==> #[trigger] interleaved@[j] == channel_of(
                    mixed_frame(old(self).tracks@, (j / 2) as nat),
                    j % 2,
                ),
    {
        let mix_buffer: Vec<Frame> = mix_tracks(&mut self.tracks, frame_size);

        let mut interleave_buffer: Vec<i32> = Vec::new();
        let mut i: usize = 0;
        while i < frame_size
            invariant
                i <= frame_size,
                mix_buffer@.len() == frame_size,
                interleave_buffer@.len() == 2 * i,
                forall|j: int|
                    0 <= j < 2 * i ==> #[trigger] interleave_buffer@[j] == channel_of(
                        mix_buffer@[j / 2],
                        j % 2,
                    ),
            decreases frame_size - i,
        {
            let (l, r): (i32, i32) = mix_buffer[i];
            interleave_buffer.push(l);
            interleave_buffer.push(r);
            i = i + 1;
        }
        interleave_buffer
    }
}

} // verus!
