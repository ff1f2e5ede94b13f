//! Tracks: the things a scheduler plays.

use vstd::prelude::*;
use vstd::std_specs::convert::FromSpecImpl;

use crate::clip::source::ClipSource;
use crate::sample::Frame;
use crate::scheduler::command::ParameterChange;
use crate::track::audio::AudioTrack;
use crate::track::constant::ConstantTrack;
use crate::track::gainpan::{balanced, GainPanTrack};
use crate::track::midi::MidiTrack;
use crate::track::sinewave::SineWaveTrack;
use crate::track::wav::WavTrack;

pub mod audio;
pub mod base;
pub mod constant;
pub mod gainpan;
pub mod midi;
pub mod sinewave;
pub mod timeline;
pub mod wav;

verus! {

/// A track's identifier: the text of a UUID, or any other text the owner picks.
#[derive(Clone, PartialEq, Debug)]
pub struct TrackId(String);

impl View for TrackId {
    type V = Seq<char>;

    closed spec fn view(&self) -> Seq<char> {
        self.0@
    }
}

impl TrackId {
    /// The identifier with the given text.
    pub fn new(text: &str) -> (id: Self)
        ensures
            id@ == text@,
    {
        TrackId(text.to_owned())
    }

    /// Whether two identifiers hold the same text.
    pub fn matches(&self, other: &TrackId) -> (same: bool)
        ensures
            same == (self@ == other@),
    {
        self.0 == other.0
    }

    /// A copy of this identifier.
    pub fn duplicate(&self) -> (id: Self)
        ensures
            id == *self,
    {
        TrackId(self.0.clone())
    }
}

impl From<uuid::Uuid> for TrackId {
    /// The identifier whose text is the UUID in its hyphenated form.
    fn from(value: uuid::Uuid) -> (id: Self) {
        TrackId(value.to_string())
    }
}

impl FromSpecImpl<uuid::Uuid> for TrackId {
    /// The text of a UUID is left to the `uuid` crate: nothing is stated of it.
    open spec fn obeys_from_spec() -> bool {
        false
    }

    open spec fn from_spec(value: uuid::Uuid) -> Self {
        arbitrary()
    }
}

/// What kind of material a track carries.
#[derive(Clone, Copy, Debug, PartialEq, Eq, Structural)]
pub enum TrackType {
    Audio,
    Midi,
}

/// Fills a buffer with silence.
pub fn silence(buffer: &mut [Frame])
    ensures
        final(buffer)@.len() == old(buffer)@.len(),
        forall|k: int|
            0 <= k < final(buffer)@.len() ==> #[trigger] final(buffer)@[k] == (0i32, 0i32),
{
    let mut i: usize = 0;
    while i < buffer.len()
        invariant
            buffer@.len() == old(buffer)@.len(),
            forall|k: int| 0 <= k < i ==> #[trigger] buffer@[k] == (0i32, 0i32),
        decreases buffer.len() - i,
    {
        buffer[i] = (0, 0);
        i = i + 1;
    }
}

/// A buffer of `frame_size` silent frames.
pub fn silent_buffer(frame_size: usize) -> (buffer: Vec<Frame>)
    ensures
        buffer@.len() == frame_size,
        forall|k: int| 0 <= k < frame_size ==> #[trigger] buffer@[k] == (0i32, 0i32),
{
    let mut buffer: Vec<Frame> = Vec::with_capacity(frame_size);
    let mut i: usize = 0;
    while i < frame_size
        invariant
            i <= frame_size,
            buffer@.len() == i,
            forall|k: int| 0 <= k < i ==> #[trigger] buffer@[k] == (0i32, 0i32),
        decreases frame_size - i,
    {
        buffer.push((0, 0));
        i = i + 1;
    }
    buffer
}

/// Anything that produces stereo frames for the scheduler to mix.
pub enum Track<S: ClipSource> {
    Audio(AudioTrack<S>),
    Midi(MidiTrack),
    GainPan(GainPanTrack<S>),
    Constant(ConstantTrack),
    SineWave(SineWaveTrack),
    Wav(WavTrack),
}

impl<S: ClipSource> Track<S> {
    /// The text of the track's identifier.
    pub open spec fn id_text(self) -> Seq<char> {
        match self {
            Track::Audio(t) => t.id@,
            Track::Midi(t) => t.base.id@,
            Track::GainPan(t) => t.id@,
            Track::Constant(t) => t.id@,
            Track::SineWave(t) => t.id@,
            Track::Wav(t) => t.id@,
        }
    }

    /// The text of the track's name.
    pub open spec fn name_text(self) -> Seq<char> {
        match self {
            Track::Audio(t) => t.name@,
            Track::Midi(t) => t.base.name@,
            Track::GainPan(t) => "GainPan"@,
            Track::Constant(t) => "Constant"@,
            Track::SineWave(t) => "SineWave"@,
            Track::Wav(t) => t.name@,
        }
    }

    /// The frame the track gives `k` frames from now, if nothing changes it
    /// before then.
    pub open spec fn frame_at(self, k: nat) -> Frame
        decreases self,
    {
        match self {
            Track::Audio(t) => t.frame_at(k),
            Track::Midi(t) => (0i32, 0i32),
            Track::GainPan(t) => balanced((*t.inner).frame_at(k), t.gain as int, t.pan as int),
            Track::Constant(t) => t.sample,
            Track::SineWave(t) => t.frame_at(k),
            Track::Wav(t) => t.frame_at(k),
        }
    }

    /// The track after it has given `n` frames.
    pub open spec fn advanced(self, n: nat) -> Self
        decreases self,
    {
        match self {
            Track::Audio(t) => Track::Audio(t.advanced(n)),
            Track::Midi(t) => self,
            Track::GainPan(t) => Track::GainPan(
                GainPanTrack { inner: Box::new((*t.inner).advanced(n)), ..t },
            ),
            Track::Constant(t) => self,
            Track::SineWave(t) => Track::SineWave(t.advanced(n)),
            Track::Wav(t) => Track::Wav(t.advanced(n)),
        }
    }

    /// The track after a parameter change addressed to `target`. A gain and
    /// pan wrapper named `target` takes the new value; any other wrapper
    /// hands the change to the track it wraps; every other track ignores it.
    pub open spec fn with_param(self, target: Seq<char>, change: ParameterChange) -> Self
        decreases self,
    {
        match self {
            Track::GainPan(t) => if t.id@ == target {
                match change {
                    ParameterChange::SetGain(val) => Track::GainPan(
                        GainPanTrack { gain: val, ..t },
                    ),
                    ParameterChange::SetPan(val) => Track::GainPan(GainPanTrack { pan: val, ..t }),
                }
            } else {
                Track::GainPan(
                    GainPanTrack { inner: Box::new((*t.inner).with_param(target, change)), ..t },
                )
            },
            _ => self,
        }
    }

    /// The track after a restart: an audio track plays again from frame
    /// zero; a buffer track goes back to its first frame; a wrapper restarts
    /// the track it wraps; every other track stays as it is.
    pub open spec fn restarted(self) -> Self
        decreases self,
    {
        match self {
            Track::Audio(t) => Track::Audio(t.restarted()),
            Track::GainPan(t) => Track::GainPan(
                GainPanTrack { inner: Box::new((*t.inner).restarted()), ..t },
            ),
            Track::Wav(t) => Track::Wav(t.restarted()),
            _ => self,
        }
    }

    /// Whether the track carries the identifier `id`.
    pub fn has_id(&self, id: &TrackId) -> (same: bool)
        ensures
            same == (self.id_text() == id@),
    {
        match self {
            Track::Audio(t) => t.id.matches(id),
            Track::Midi(t) => t.base.id.matches(id),
            Track::GainPan(t) => t.id.matches(id),
            Track::Constant(t) => t.id.matches(id),
            Track::SineWave(t) => t.id.matches(id),
            Track::Wav(t) => t.id.matches(id),
        }
    }

    /// The track's identifier.
    pub fn id(&self) -> (id: TrackId)
        ensures
            id@ == self.id_text(),
    {
        match self {
            Track::Audio(t) => t.id(),
            Track::Midi(t) => t.id(),
            Track::GainPan(t) => t.id(),
            Track::Constant(t) => t.id(),
            Track::SineWave(t) => t.id(),
            Track::Wav(t) => t.id(),
        }
    }

    /// The track's name.
    pub fn name(&self) -> (name: &str)
        ensures
            name@ == self.name_text(),
    {
        match self {
            Track::Audio(t) => t.name(),
            Track::Midi(t) => t.name(),
            Track::GainPan(t) => t.name(),
            Track::Constant(t) => t.name(),
            Track::SineWave(t) => t.name(),
            Track::Wav(t) => t.name(),
        }
    }

    /// The kind of material the track carries.
    pub fn track_type(&self) -> (track_type: TrackType)
        ensures
            track_type == (match *self {
                Track::Midi(t) => t.base.track_type,
                _ => TrackType::Audio,
            }),
    {
        match self {
            Track::Audio(t) => t.track_type(),
            Track::Midi(t) => t.track_type(),
            Track::GainPan(t) => t.track_type(),
            Track::Constant(t) => t.track_type(),
            Track::SineWave(t) => t.track_type(),
            Track::Wav(t) => t.track_type(),
        }
    }

    /// Writes the track's next frames over the whole buffer and moves the
    /// track on by as many.
    pub fn fill_next_samples(&mut self, next_samples: &mut [Frame])
        ensures
            *final(self) == old(self).advanced(old(next_samples)@.len()),
            final(next_samples)@.len() == old(next_samples)@.len(),
            forall|k: int|
                0 <= k < final(next_samples)@.len() ==> #[trigger] final(next_samples)@[k] == old(
                    self,
                ).frame_at(k as nat),
        decreases *old(self),
    {
        match self {
            Track::Audio(t) => t.fill_next_samples(next_samples),
            Track::Midi(t) => t.fill_next_samples(next_samples),
            Track::GainPan(t) => t.fill_next_samples(next_samples),
            Track::Constant(t) => t.fill_next_samples(next_samples),
            Track::SineWave(t) => t.fill_next_samples(next_samples),
            Track::Wav(t) => t.fill_next_samples(next_samples),
        }
    }

    /// Applies a parameter change addressed to the track named `id`.
    pub fn apply_param_change(&mut self, id: &TrackId, change: &ParameterChange)
        ensures
            *final(self) == old(self).with_param(id@, *change),
        decreases *old(self),
    {
        match self {
            Track::GainPan(t) => t.apply_param_change(id, change),
            _ => {},
        }
    }

    /// Restarts the track.
    pub fn reset(&mut self)
        ensures
            *final(self) == old(self).restarted(),
        decreases *old(self),
    {
        match self {
            Track::Audio(t) => t.reset(),
            Track::GainPan(t) => t.reset(),
            Track::Wav(t) => t.reset(),
            _ => {},
        }
    }

    /// The next `frame_size` frames of the track.
    pub fn next_samples(&mut self, frame_size: usize) -> (frames: Vec<Frame>)
        ensures
            *final(self) == old(self).advanced(frame_size as nat),
            frames@.len() == frame_size,
            forall|k: int|
                0 <= k < frame_size ==> #[trigger] frames@[k] == old(self).frame_at(k as nat),
    {
        let mut buf: Vec<Frame> = silent_buffer(frame_size);
        self.fill_next_samples(buf.as_mut_slice());
        buf
    }
}

} // verus!
