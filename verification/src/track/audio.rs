//! A track that plays a timeline of audio clips.

use vstd::prelude::*;
use crate::clip::source::ClipSource;
use crate::clip::Clip;
use crate::ident::new_uuid;
use crate::sample::Frame;
use crate::track::timeline::{clips_ordered, rendered_frame, sorted_by_start, TimelineTrack};
use crate::track::{silence, silent_buffer, Track, TrackId, TrackType};

verus! {

/// A timeline of clips together with a play position.
pub struct AudioTrack<S: ClipSource> {
    pub id: TrackId,
    pub name: String,
    pub timeline: TimelineTrack<S>,
    /// The timeline frame that is rendered next.
    pub current_frame: u64,
    /// Whether the track sounds; a track that does not gives silence and
    /// keeps its position.
    pub playing: bool,
}

impl<S: ClipSource> AudioTrack<S> {
    /// The frame the track gives `k` frames from now: the mix of its clips
    /// at that timeline frame while it plays, else silence.
    pub open spec fn frame_at(self, k: nat) -> Frame {
        if self.playing {
            rendered_frame((0i32, 0i32), self.timeline.clips@, self.current_frame + k)
        } else {
            (0i32, 0i32)
        }
    }

    /// The play position after `n` more frames; it holds at the largest
    /// frame number.
    pub open spec fn frame_after(self, n: nat) -> u64 {
        if self.current_frame + n > u64::MAX {
            u64::MAX
        } else {
            (self.current_frame + n) as u64
        }
    }

    /// The track after it has given `n` frames.
    pub open spec fn advanced(self, n: nat) -> Self {
        if self.playing {
            AudioTrack { current_frame: self.frame_after(n), ..self }
        } else {
            self
        }
    }

    /// The track playing again from the start of its timeline.
    pub open spec fn restarted(self) -> Self {
        AudioTrack { current_frame: 0, playing: true, ..self }
    }

    /// A playing track without clips, positioned at frame zero, under a
    /// fresh random identifier that its timeline shares.
    pub fn new(name: &str) -> (track: Self)
        ensures
            track.name@ == name@,
            track.timeline.id == track.id,
            track.timeline.name@ == name@,
            track.timeline.clips@.len() == 0,
            track.current_frame == 0,
            track.playing,
    {
        let id: TrackId = TrackId::from(new_uuid());
        let timeline = TimelineTrack::new(id.duplicate(), name);

        Self { id, name: name.to_owned(), timeline, current_frame: 0, playing: true }
    }

    /// Adds a clip to the track's timeline.
    pub fn add_clip(&mut self, clip: Clip<S>)
        ensures
            final(self).id == old(self).id,
            final(self).name == old(self).name,
            final(self).current_frame == old(self).current_frame,
            final(self).playing == old(self).playing,
            final(self).timeline.id == old(self).timeline.id,
            final(self).timeline.name == old(self).timeline.name,
            final(self).timeline.clips@ == sorted_by_start(old(self).timeline.clips@.push(clip)),
            clips_ordered(final(self).timeline.clips@),
    {
        self.timeline.add_clip(clip);
    }

    /// Puts the play position back at frame zero.
    pub fn reset_position(&mut self)
        ensures
            *final(self) == (AudioTrack { current_frame: 0, ..*old(self) }),
    {
        self.current_frame = 0;
    }

    /// Lets the track sound.
    pub fn start(&mut self)
        ensures
            *final(self) == (AudioTrack { playing: true, ..*old(self) }),
    {
        self.playing = true;
    }

    /// Silences the track and holds its position.
    pub fn stop(&mut self)
        ensures
            *final(self) == (AudioTrack { playing: false, ..*old(self) }),
    {
        self.playing = false;
    }

    /// The audio track behind a track, where the track is one.
    pub fn downcast_to_audio_track(track: &mut Track<S>) -> (audio: Option<&mut AudioTrack<S>>)
        ensures
            match audio {
                Some(found) => *old(track) == Track::Audio(*found) && *final(track) == Track::Audio(
                    *final(found),
                ),
                None => !(*old(track) is Audio) && *final(track) == *old(track),
            },
    {
        match track {
            Track::Audio(audio) => Some(audio),
            _ => None,
        }
    }

    pub fn id(&self) -> (id: TrackId)
        ensures
            id == self.id,
    {
        self.id.duplicate()
    }

    pub fn name(&self) -> (name: &str)
        ensures
            name@ == self.name@,
    {
        self.name.as_str()
    }

    pub fn track_type(&self) -> (track_type: TrackType)
        ensures
            track_type == TrackType::Audio,
    {
        TrackType::Audio
    }

    /// Writes the next stretch of the timeline into the buffer and moves
    /// the play position past it; a track that does not play writes silence.
    pub fn fill_next_samples(&mut self, next_samples: &mut [Frame])
        ensures
            *final(self) == old(self).advanced(old(next_samples)@.len()),
            final(next_samples)@.len() == old(next_samples)@.len(),
            forall|k: int|
                0 <= k < final(next_samples)@.len() ==> #[trigger] final(next_samples)@[k] == old(
                    self,
                ).frame_at(k as nat),
    {
        silence(next_samples);
        if !self.playing {
            return ;
        }
        let frame_count: usize = next_samples.len();
        self.timeline.render_audio(self.current_frame, frame_count, next_samples);

        if frame_count as u64 > u64::MAX - self.current_frame {
            self.current_frame = u64::MAX;
        } else {
            self.current_frame = self.current_frame + frame_count as u64;
        }
    }

    /// Plays the track again from the start of its timeline.
    pub fn reset(&mut self)
        ensures
            *final(self) == old(self).restarted(),
    {
        self.reset_position();
        self.playing = true;
    }

    /// The next `frame_size` frames of the track.
    pub fn next_samples(&mut self, frame_size: usize) -> (frames: Vec<Frame>)
        ensures
            *final(self) == old(self).advanced(frame_size as nat),
            frames@.len() == frame_size,
            forall|k: int|
                0 <= k < frame_size ==> #[trigger] frames@[k] == old(self).frame_at(k as nat),
    {
        let mut buf: Vec<Frame> = silent_buffer(frame_size);
        self.fill_next_samples(buf.as_mut_slice());
        buf
    }
}

} // verus!
