//! A track that plays an in-memory buffer of decoded PCM frames once
//! through; the same buffer can serve clips as their source.

use vstd::prelude::*;
use crate::clip::source::ClipSource;
use crate::ident::new_uuid;
use crate::sample::{trunc_div, Frame, UNITY};
use crate::track::{silent_buffer, TrackId, TrackType};

verus! {

/// Why a WAV stream could not be made into a track.
#[derive(Debug, Clone, Copy, PartialEq, Eq, Structural)]
pub enum WavError {
    /// The stream is not a WAV stream that can be read.
    ReadFailure,
    /// The stream has no channels or more than two.
    UnsupportedChannelCount,
    /// The stream does not hold integer samples.
    UnsupportedSampleFormat,
}

/// What `hound::WavReader` reads from the WAV stream `bytes`: the channel
/// count of its header, whether its samples are integers, and its samples
/// read at sixteen bits, in stream order, with `None` for each sample that
/// cannot be read so; `None` where the reader refuses the stream.
pub uninterp spec fn wav_contents(bytes: Seq<u8>) -> Option<(u16, bool, Seq<Option<i16>>)>;

/// Reads a WAV stream held in memory with `hound::WavReader::new`, takes
/// the channel count and the sample format from `spec()` and every sample
/// from `into_samples::<i16>()`, keeping a `None` where a sample fails to
/// read. The contract gives what comes back its name and claims nothing
/// more of it.
#[verifier::external_body]
fn read_wav(bytes: &[u8]) -> (contents: Option<(u16, bool, Vec<Option<i16>>)>)
    ensures
        match contents {
            Some(read) => wav_contents(bytes@) == Some((read.0, read.1, read.2@)),
            None => wav_contents(bytes@) is None,
        },
{
    let reader = hound::WavReader::new(bytes).ok()?;
    let spec = reader.spec();
    let integer = match spec.sample_format {
        hound::SampleFormat::Int => true,
        hound::SampleFormat::Float => false,
    };
    let samples = reader.into_samples::<i16>().map(|s| s.ok()).collect();
    Some((spec.channels, integer, samples))
}

/// A sixteen-bit sample as a level: the sample over the largest sixteen-bit
/// value, in millionths, rounded toward zero.
pub open spec fn pcm_level(sample: i16) -> i32 {
    trunc_div(sample * UNITY, i16::MAX as int) as i32
}

/// The levels of the samples that could be read, in their order.
pub open spec fn pcm_levels(raw: Seq<Option<i16>>) -> Seq<i32>
    decreases raw.len(),
{
    if raw.len() == 0 {
        Seq::empty()
    } else {
        let rest = pcm_levels(raw.drop_last());
        match raw.last() {
            Some(sample) => rest.push(pcm_level(sample)),
            None => rest,
        }
    }
}

/// The stereo frames that a stream of levels makes: each level on both
/// channels for one channel; pairs of levels for two, a last level without
/// a partner being left out.
pub open spec fn stereo_frames(levels: Seq<i32>, channels: int) -> Seq<Frame> {
    if channels == 1 {
        Seq::new(levels.len(), |i: int| (levels[i], levels[i]))
    } else {
        Seq::new(levels.len() / 2, |i: int| (levels[2 * i], levels[2 * i + 1]))
    }
}

/// Stereo frames held in memory, with a read position.
#[derive(Debug)]
pub struct WavTrack {
    pub id: TrackId,
    /// The name of the file the frames came from.
    pub name: String,
    /// The frames, left and right.
    pub samples: Vec<Frame>,
    /// The index of the frame that is played next.
    pub position: usize,
}

impl WavTrack {
    /// The frame the track gives `k` frames from now: the stored frame at
    /// that position, or silence past the end.
    pub open spec fn frame_at(self, k: nat) -> Frame {
        if self.position + k < self.samples@.len() {
            self.samples@[self.position + k]
        } else {
            (0i32, 0i32)
        }
    }

    /// The read position after `n` more frames: moved on by `n`, but not
    /// past the end of the frames.
    pub open spec fn position_after(self, n: nat) -> usize {
        if self.position + n <= self.samples@.len() {
            (self.position + n) as usize
        } else if self.position <= self.samples@.len() {
            self.samples@.len() as usize
        } else {
            self.position
        }
    }

    /// The track after it has given `n` frames.
    pub open spec fn advanced(self, n: nat) -> Self {
        WavTrack { position: self.position_after(n), ..self }
    }

    /// The track with its read position back at the first frame.
    pub open spec fn restarted(self) -> Self {
        WavTrack { position: 0, ..self }
    }

    /// What `from_decoded` makes of a stream with the given channel count,
    /// sample format and samples: the frames of the track, or the reason
    /// why there is none.
    pub open spec fn decoded(channels: u16, integer: bool, raw: Seq<Option<i16>>) -> Result<
        Seq<Frame>,
        WavError,
    > {
        if channels == 0 || channels > 2 {
            Err(WavError::UnsupportedChannelCount)
        } else if !integer {
            Err(WavError::UnsupportedSampleFormat)
        } else {
            Ok(stereo_frames(pcm_levels(raw), channels as int))
        }
    }

    /// A track over the frames of a WAV stream held in memory, named
    /// "stream". The stream must have one or two channels of integer
    /// samples; a mono stream is played on both channels.
    pub fn from_stream(bytes: &[u8]) -> (result: Result<Self, WavError>)
        ensures
            match (wav_contents(bytes@), result) {
                (None, Err(e)) => e == WavError::ReadFailure,
                (Some(read), Err(e)) => Self::decoded(read.0, read.1, read.2) == Err::<
                    Seq<Frame>,
                    WavError,
                >(e),
                (Some(read), Ok(track)) => {
                    &&& Self::decoded(read.0, read.1, read.2) == Ok::<Seq<Frame>, WavError>(
                        track.samples@,
                    )
                    &&& track.position == 0
                    &&& track.name@ == "stream"@
                },
                _ => false,
            },
    {
        match read_wav(bytes) {
            None => Err(WavError::ReadFailure),
            Some((channels, integer, raw)) => Self::from_decoded(channels, integer, raw, "stream"),
        }
    }

    /// A track over the samples of a decoded stream: `channels` channels,
    /// integer samples or not, and the samples in stream order with `None`
    /// for each that could not be read.
    pub fn from_decoded(channels: u16, integer: bool, raw: Vec<Option<i16>>, name: &str) -> (result:
        Result<Self, WavError>)
        ensures
            match result {
                Err(e) => Self::decoded(channels, integer, raw@) == Err::<Seq<Frame>, WavError>(e),
                Ok(track) => {
                    &&& Self::decoded(channels, integer, raw@) == Ok::<Seq<Frame>, WavError>(
                        track.samples@,
                    )
                    &&& track.position == 0
                    &&& track.name@ == name@
                },
            },
    {
        if channels == 0 || channels > 2 {
            return Err(WavError::UnsupportedChannelCount);
        }
        if !integer {
            return Err(WavError::UnsupportedSampleFormat);
        }
        let pcm_samples: Vec<Frame> = Self::decode_pcm_samples(&raw, channels);
        Ok(
            Self {
                id: TrackId::from(new_uuid()),
                name: name.to_owned(),
                samples: pcm_samples,
                position: 0,
            },
        )
    }

    /// Turns the samples that could be read into levels and the levels into
    /// stereo frames.
    pub fn decode_pcm_samples(raw: &Vec<Option<i16>>, channels: u16) -> (frames: Vec<Frame>)
        requires
            channels == 1 || channels == 2,
        ensures
            frames@ == stereo_frames(pcm_levels(raw@), channels as int),
    {
        let mut raw_samples: Vec<i32> = Vec::new();
        let mut i: usize = 0;
        while i < raw.len()
            invariant
                i <= raw@.len(),
                raw_samples@ == pcm_levels(raw@.subrange(0, i as int)),
            decreases raw.len() - i,
        {
            proof {
                assert(raw@.subrange(0, i + 1).drop_last() =~= raw@.subrange(0, i as int));
            }
            match raw[i] {
                Some(s) => {
                    let level: i64 = (s as i64 * 1_000_000) / (i16::MAX as i64);
                    raw_samples.push(level as i32);
                },
                None => {},
            }
            i = i + 1;
        }
        proof {
            assert(raw@.subrange(0, i as int) =~= raw@);
        }
        Self::interleave_channels(raw_samples, channels as usize)
    }

    /// Makes stereo frames of a stream of levels; one channel is played on
    /// both sides.
    pub fn interleave_channels(samples: Vec<i32>, channels: usize) -> (frames: Vec<Frame>)
        requires
            channels == 1 || channels == 2,
        ensures
            frames@ == stereo_frames(samples@, channels as int),
    {
        let mut frames: Vec<Frame> = Vec::new();
        if channels == 1 {
            let mut i: usize = 0;
            while i < samples.len()
                invariant
                    i <= samples@.len(),
                    frames@.len() == i,
                    forall|j: int| 0 <= j < i ==> #[trigger] frames@[j] == (samples@[j], samples@[j]),
                decreases samples.len() - i,
            {
                let s: i32 = samples[i];
                frames.push((s, s));
                i = i + 1;
            }
            assert(frames@ =~= stereo_frames(samples@, 1));
        } else {
            let total: usize = samples.len();
            let pairs: usize = total / 2;
            let mut i: usize = 0;
            while i < pairs
                invariant
                    i <= pairs,
                    total == samples@.len(),
                    pairs == total / 2,
                    frames@.len() == i,
                    forall|j: int|
                        0 <= j < i ==> #[trigger] frames@[j] == (
                            samples@[2 * j],
                            samples@[2 * j + 1],
                        ),
                decreases pairs - i,
            {
                frames.push((samples[2 * i], samples[2 * i + 1]));
                i = i + 1;
            }
            assert(frames@ =~= stereo_frames(samples@, 2));
        }
        frames
    }

    /// A track over the given frames, positioned at the first one, under a
    /// fresh random identifier.
    pub fn from_raw_samples(samples: Vec<Frame>) -> (track: Self)
        ensures
            track.samples == samples,
            track.position == 0,
            track.name@ == "raw-samples.wav"@,
    {
        Self {
            id: TrackId::from(new_uuid()),
            name: "raw-samples.wav".to_owned(),
            position: 0,
            samples,
        }
    }

    pub fn id(&self) -> (id: TrackId)
        ensures
            id == self.id,
    {
        self.id.duplicate()
    }

    pub fn name(&self) -> (name: &str)
        ensures
            name@ == self.name@,
    {
        self.name.as_str()
    }

    pub fn track_type(&self) -> (track_type: TrackType)
        ensures
            track_type == TrackType::Audio,
    {
        TrackType::Audio
    }

    /// Copies the next frames into the buffer, with silence once the stored
    /// frames run out, and moves the read position on.
    pub fn fill_next_samples(&mut self, next_samples: &mut [Frame])
        ensures
            *final(self) == old(self).advanced(old(next_samples)@.len()),
            final(next_samples)@.len() == old(next_samples)@.len(),
            forall|k: int|
                0 <= k < final(next_samples)@.len() ==> #[trigger] final(next_samples)@[k] == old(
                    self,
                ).frame_at(k as nat),
    {
        let total: usize = self.samples.len();
        let wanted: usize = next_samples.len();
        let mut i: usize = 0;
        while i < wanted
            invariant
                *self == *old(self),
                total == self.samples@.len(),
                wanted == next_samples@.len(),
                next_samples@.len() == old(next_samples)@.len(),
                forall|k: int| 0 <= k < i ==> #[trigger] next_samples@[k] == self.frame_at(k as nat),
            decreases wanted - i,
        {
            if self.position < total && i < total - self.position {
                next_samples[i] = self.samples[self.position + i];
            } else {
                next_samples[i] = (0, 0);
            }
            i = i + 1;
        }
        if self.position <= total {
            if wanted <= total - self.position {
                self.position = self.position + wanted;
            } else {
                self.position = total;
            }
        }
    }

    /// Puts the read position back at the first frame.
    pub fn reset(&mut self)
        ensures
            *final(self) == old(self).restarted(),
    {
        self.position = 0;
    }

    /// The next `frame_size` frames of the track.
    pub fn next_samples(&mut self, frame_size: usize) -> (frames: Vec<Frame>)
        ensures
            *final(self) == old(self).advanced(frame_size as nat),
            frames@.len() == frame_size,
            forall|k: int|
                0 <= k < frame_size ==> #[trigger] frames@[k] == old(self).frame_at(k as nat),
    {
        let mut buf: Vec<Frame> = silent_buffer(frame_size);
        self.fill_next_samples(buf.as_mut_slice());
        buf
    }
}

impl ClipSource for WavTrack {
    /// The stored frame at `index`, counted from the first one whatever the
    /// read position; silence past the end.
    open spec fn stored_frame(&self, index: nat) -> Frame {
        if index < self.samples@.len() {
            self.samples@[index as int]
        } else {
            (0i32, 0i32)
        }
    }

    fn read_samples(&self, start_frame: u64, frame_count: usize) -> (frames: Vec<Frame>) {
        let total: usize = self.samples.len();
        let mut frames: Vec<Frame> = Vec::with_capacity(frame_count);
        let mut k: usize = 0;
        while k < frame_count
            invariant
                k <= frame_count,
                total == self.samples@.len(),
                frames@.len() == k,
                forall|j: int|
                    0 <= j < k ==> #[trigger] frames@[j] == self.stored_frame(
                        (start_frame + j) as nat,
                    ),
            decreases frame_count - k,
        {
            let at: u128 = start_frame as u128 + k as u128;
            if at < total as u128 {
                frames.push(self.samples[at as usize]);
            } else {
                frames.push((0, 0));
            }
            k = k + 1;
        }
        frames
    }
}

} // verus!
