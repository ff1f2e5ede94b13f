//! A wrapper that scales every frame of another track by a gain and a
//! balance between the channels.

use vstd::prelude::*;
use crate::clip::source::ClipSource;
use crate::sample::{clamp, clamped, saturate, saturated, trunc_div, Frame, UNITY};
use crate::scheduler::command::ParameterChange;
use crate::track::{silent_buffer, Track, TrackId, TrackType};

verus! {

/// A track wrapped in a gain and pan stage.
pub struct GainPanTrack<S: ClipSource> {
    pub id: TrackId,
    pub inner: Box<Track<S>>,
    /// The gain in millionths; it multiplies the signal's amplitude.
    pub gain: i32,
    /// The place in the stereo field in millionths: minus a million is
    /// left, zero the centre, a million right. Limited to that range when
    /// applied.
    pub pan: i32,
}

/// One channel after the wrapper: the sample times the gain times half the
/// channel's balance, rounded toward zero and limited to the sample range.
/// The balance is twice the channel's share, from zero to two million.
pub open spec fn balanced_channel(x: int, gain: int, balance: int) -> int {
    saturated(trunc_div(x * gain * balance, 2 * UNITY * UNITY))
}

/// A frame after the wrapper's gain and pan. In the centre each channel
/// keeps half its level; at either end one channel keeps all of it and the
/// other none.
pub open spec fn balanced(frame: Frame, gain: int, pan: int) -> Frame {
    let p = clamped(pan, -(UNITY as int), UNITY as int);
    (
        balanced_channel(frame.0 as int, gain, UNITY - p) as i32,
        balanced_channel(frame.1 as int, gain, UNITY + p) as i32,
    )
}

fn balance_one(x: i32, gain: i32, balance: i32) -> (out: i32)
    requires
        0 <= balance <= 2 * UNITY,
    ensures
        out == balanced_channel(x as int, gain as int, balance as int),
{
    let wide: i128 = x as i128;
    let level: i128 = gain as i128;
    let side: i128 = balance as i128;
    assert(-0x8000_0000 * 0x8000_0000 <= wide * level <= 0x8000_0000 * 0x8000_0000)
        by (nonlinear_arith)
        requires
            -0x8000_0000 <= wide < 0x8000_0000,
            -0x8000_0000 <= level < 0x8000_0000,
    ;
    let gained: i128 = wide * level;
    assert(-0x8000_0000 * 0x8000_0000 * 2_000_000 <= gained * side <= 0x8000_0000 * 0x8000_0000
        * 2_000_000) by (nonlinear_arith)
        requires
            -0x8000_0000 * 0x8000_0000 <= gained <= 0x8000_0000 * 0x8000_0000,
            0 <= side <= 2_000_000,
    ;
    let product: i128 = gained * side;
    saturate(product / 2_000_000_000_000)
}

impl<S: ClipSource> GainPanTrack<S> {
    /// The frame the wrapper gives `k` frames from now.
    pub open spec fn frame_at(self, k: nat) -> Frame {
        balanced(self.inner.frame_at(k), self.gain as int, self.pan as int)
    }

    /// The wrapper after it has given `n` frames.
    pub open spec fn advanced(self, n: nat) -> Self {
        GainPanTrack { inner: Box::new(self.inner.advanced(n)), ..self }
    }

    /// A wrapper around `inner` under the identifier `id`.
    pub fn new(id: &str, inner: Box<Track<S>>, gain: i32, pan: i32) -> (track: Self)
        ensures
            track.id@ == id@,
            track.inner == inner,
            track.gain == gain,
            track.pan == pan,
    {
        Self { id: TrackId::new(id), inner, gain, pan }
    }

    pub fn id(&self) -> (id: TrackId)
        ensures
            id == self.id,
    {
        self.id.duplicate()
    }

    pub fn name(&self) -> (name: &str)
        ensures
            name@ == "GainPan"@,
    {
        "GainPan"
    }

    pub fn track_type(&self) -> (track_type: TrackType)
        ensures
            track_type == TrackType::Audio,
    {
        TrackType::Audio
    }

    /// Lets the wrapped track fill the buffer, then scales every frame.
    pub fn fill_next_samples(&mut self, next_samples: &mut [Frame])
        ensures
            *final(self) == old(self).advanced(old(next_samples)@.len()),
            final(next_samples)@.len() == old(next_samples)@.len(),
            forall|k: int|
                0 <= k < final(next_samples)@.len() ==> #[trigger] final(next_samples)@[k] == old(
                    self,
                ).frame_at(k as nat),
        decreases *old(self),
    {
        let pan: i32 = clamp(self.pan, -UNITY, UNITY);
        let pan_l: i32 = UNITY - pan;
        let pan_r: i32 = UNITY + pan;

        self.inner.fill_next_samples(next_samples);

        let ghost dry = next_samples@;
        let mut i: usize = 0;
        while i < next_samples.len()
            invariant
                next_samples@.len() == dry.len(),
                self.gain == old(self).gain,
                self.pan == old(self).pan,
                pan == clamped(self.pan as int, -(UNITY as int), UNITY as int),
                pan_l == UNITY - pan,
                pan_r == UNITY + pan,
                forall|k: int|
                    0 <= k < i ==> #[trigger] next_samples@[k] == balanced(
                        dry[k],
                        self.gain as int,
                        self.pan as int,
                    ),
                forall|k: int| i <= k < dry.len() ==> #[trigger] next_samples@[k] == dry[k],
            decreases next_samples.len() - i,
        {
            let (l, r): (i32, i32) = next_samples[i];
            next_samples[i] = (balance_one(l, self.gain, pan_l), balance_one(r, self.gain, pan_r));
            i = i + 1;
        }
    }

    /// Applies a parameter change: to this wrapper where `id` names it,
    /// else to whatever the wrapped track makes of it.
    pub fn apply_param_change(&mut self, id: &TrackId, change: &ParameterChange)
        ensures
            Track::GainPan(*final(self)) == Track::GainPan(*old(self)).with_param(id@, *change),
        decreases *old(self),
    {
        if !self.id.matches(id) {
            self.inner.apply_param_change(id, change);
            return ;
        }
        match change {
            ParameterChange::SetGain(val) => {
                self.gain = *val;
            },
            ParameterChange::SetPan(val) => {
                self.pan = *val;
            },
        }
    }

    /// Restarts the wrapped track.
    pub fn reset(&mut self)
        ensures
            Track::GainPan(*final(self)) == Track::GainPan(*old(self)).restarted(),
        decreases *old(self),
    {
        self.inner.reset();
    }

    /// The next `frame_size` frames of the track.
    pub fn next_samples(&mut self, frame_size: usize) -> (frames: Vec<Frame>)
        ensures
            *final(self) == old(self).advanced(frame_size as nat),
            frames@.len() == frame_size,
            forall|k: int|
                0 <= k < frame_size ==> #[trigger] frames@[k] == old(self).frame_at(k as nat),
    {
        let mut buf: Vec<Frame> = silent_buffer(frame_size);
        self.fill_next_samples(buf.as_mut_slice());
        buf
    }
}

} // verus!
