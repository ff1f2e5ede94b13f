//! Clips: positioned, trimmable views into a sample source.

use std::sync::Arc;
use vstd::prelude::*;
use vstd::arithmetic::div_mod::{lemma_div_is_ordered, lemma_div_multiples_vanish, lemma_div_pos_is_pos};
use crate::clip::clip_id::ClipId;
use crate::clip::fades::{Fade, FadeCurve};
use crate::clip::source::ClipSource;
use crate::ident::new_uuid;

pub mod clip_id;
pub mod fades;
pub mod source;

verus! {

/// Where a clip sits on the timeline and how long it lasts, in frames.
#[derive(Debug, Clone, Copy, PartialEq, Eq, Structural)]
pub struct ClipTiming {
    pub start_frame: u64,
    pub duration_frames: u64,
}

/// A clip that plays a stretch of an audio source.
pub struct AudioClip<S: ClipSource> {
    /// The source the clip reads from, shared with any other clip that uses it.
    pub source: Arc<S>,
    /// The source frame at which the clip's first frame is read.
    pub start_offset: u64,
    /// Whether the clip repeats for as long as it is rendered.
    pub looping: bool,
    /// Gain in millionths; limited to zero through four when applied.
    pub gain: i32,
    /// Pan in millionths, from minus a million (left) to a million (right);
    /// limited to that range when applied.
    pub pan: i32,
}

/// The content a clip carries.
pub enum ClipKind<S: ClipSource> {
    Audio(AudioClip<S>),
}

/// A clip with its identity, its place in time, its content and its fades.
pub struct Clip<S: ClipSource> {
    pub id: ClipId,
    pub timing: ClipTiming,
    pub kind: ClipKind<S>,
    pub fade_in: Fade,
    pub fade_out: Fade,
}

/// The fade lengths `(fade_in, fade_out)` that a clip of `duration` frames
/// keeps when asked for lengths `fade_in` and `fade_out`: unchanged where
/// they fit, else shortened in proportion, the fade-in rounded down and the
/// fade-out taking the rest of the clip.
pub open spec fn clamped_fade_lengths(duration: nat, fade_in: nat, fade_out: nat) -> (nat, nat) {
    if fade_in + fade_out > duration {
        let shortened = fade_in * duration / (fade_in + fade_out);
        (shortened, (duration - shortened) as nat)
    } else {
        (fade_in, fade_out)
    }
}

/// Shortened fades fill the clip exactly, and fades that fit are left alone.
pub proof fn lemma_clamped_fades_fit(duration: nat, fade_in: nat, fade_out: nat)
    ensures
        clamped_fade_lengths(duration, fade_in, fade_out).0 + clamped_fade_lengths(
            duration,
            fade_in,
            fade_out,
        ).1 <= duration,
        clamped_fade_lengths(duration, fade_in, fade_out).0 <= fade_in,
        fade_in + fade_out > duration ==> clamped_fade_lengths(duration, fade_in, fade_out).0
            + clamped_fade_lengths(duration, fade_in, fade_out).1 == duration,
{
    if fade_in + fade_out > duration {
        let total: int = (fade_in + fade_out) as int;
        let product: int = (fade_in * duration) as int;
        assert(0 <= product <= duration * total) by (nonlinear_arith)
            requires
                product == fade_in * duration,
                0 <= fade_in <= total,
                0 <= duration,
        ;
        assert(product <= fade_in * total) by (nonlinear_arith)
            requires
                product == fade_in * duration,
                0 <= fade_in,
                0 <= duration <= total,
        ;
        lemma_div_is_ordered(product, duration * total, total);
        lemma_div_multiples_vanish(duration as int, total);
        lemma_div_is_ordered(product, fade_in * total, total);
        lemma_div_multiples_vanish(fade_in as int, total);
        lemma_div_pos_is_pos(product, total);
    }
}

impl<S: ClipSource> Clip<S> {
    /// The frame just past the clip's last one.
    pub open spec fn end_frame(self) -> int {
        self.timing.start_frame + self.timing.duration_frames
    }

    /// Whether the clip is set to repeat.
    pub open spec fn is_looping(self) -> bool {
        match self.kind {
            ClipKind::Audio(audio) => audio.looping,
        }
    }

    /// The clip with its fades made to fit its duration.
    pub open spec fn with_clamped_fades(self) -> Self {
        let lengths = clamped_fade_lengths(
            self.timing.duration_frames as nat,
            self.fade_in.length_frames as nat,
            self.fade_out.length_frames as nat,
        );
        Clip {
            fade_in: Fade { length_frames: lengths.0 as u64, curve: self.fade_in.curve },
            fade_out: Fade { length_frames: lengths.1 as u64, curve: self.fade_out.curve },
            ..self
        }
    }

    /// An audio clip without fades, under a fresh random identifier.
    pub fn new_audio(
        timing: ClipTiming,
        source: Arc<S>,
        start_offset: u64,
        looping: bool,
        gain: i32,
        pan: i32,
    ) -> (clip: Self)
        ensures
            clip.timing == timing,
            clip.kind == ClipKind::Audio(AudioClip { source, start_offset, looping, gain, pan }),
            clip.fade_in == (Fade { length_frames: 0, curve: FadeCurve::Linear }),
            clip.fade_out == (Fade { length_frames: 0, curve: FadeCurve::Linear }),
    {
        Self {
            id: ClipId::from(new_uuid()),
            timing,
            kind: ClipKind::Audio(AudioClip { source, start_offset, looping, gain, pan }),
            fade_in: Fade::none(),
            fade_out: Fade::none(),
        }
    }

    /// Whether `frame` lies within the clip's stretch of the timeline.
    pub fn is_active_at(&self, frame: u64) -> (active: bool)
        ensures
            active == (self.timing.start_frame <= frame < self.end_frame()),
    {
        frame >= self.timing.start_frame && frame - self.timing.start_frame
            < self.timing.duration_frames
    }

    /// The frame just past the clip's last one.
    pub fn ends_at(&self) -> (end: u64)
        requires
            self.end_frame() <= u64::MAX,
        ensures
            end == self.end_frame(),
    {
        self.timing.start_frame + self.timing.duration_frames
    }

    /// Gives the clip a new duration and fits its fades to it.
    pub fn trim(&mut self, new_duration: u64)
        ensures
            *final(self) == (Clip {
                timing: ClipTiming {
                    start_frame: old(self).timing.start_frame,
                    duration_frames: new_duration,
                },
                ..*old(self)
            }).with_clamped_fades(),
            final(self).fade_in.length_frames + final(self).fade_out.length_frames
                <= new_duration,
    {
        self.timing.duration_frames = new_duration;
        self.clamp_fades();
    }

    /// Moves the clip to a new place on the timeline.
    pub fn move_to(&mut self, new_start_frame: u64)
        ensures
            *final(self) == (Clip {
                timing: ClipTiming {
                    start_frame: new_start_frame,
                    duration_frames: old(self).timing.duration_frames,
                },
                ..*old(self)
            }),
    {
        self.timing.start_frame = new_start_frame;
    }

    /// The source offset after sliding it by `delta` frames, held within
    /// what an offset can store.
    pub open spec fn slipped_offset(offset: u64, delta: i64) -> u64 {
        if offset + delta < 0 {
            0
        } else if offset + delta > u64::MAX {
            u64::MAX
        } else {
            (offset + delta) as u64
        }
    }

    /// Slides the source under the clip by `delta` frames without moving
    /// the clip; the offset does not go below zero.
    pub fn slip(&mut self, delta: i64)
        ensures
            final(self).id == old(self).id,
            final(self).timing == old(self).timing,
            final(self).fade_in == old(self).fade_in,
            final(self).fade_out == old(self).fade_out,
            match (old(self).kind, final(self).kind) {
                (ClipKind::Audio(before), ClipKind::Audio(after)) => after == (AudioClip {
                    start_offset: Self::slipped_offset(before.start_offset, delta),
                    ..before
                }),
            },
    {
        match &mut self.kind {
            ClipKind::Audio(audio_clip) => {
                let moved: i128 = audio_clip.start_offset as i128 + delta as i128;
                let new_offset: u64 = if moved < 0 {
                    0
                } else if moved > u64::MAX as i128 {
                    u64::MAX
                } else {
                    moved as u64
                };
                audio_clip.start_offset = new_offset;
            },
        }
    }

    /// Sets the fade at the clip's start, then fits both fades to the clip.
    pub fn set_fade_in(&mut self, length_frames: u64, curve: FadeCurve)
        ensures
            *final(self) == (Clip {
                fade_in: Fade { length_frames, curve },
                ..*old(self)
            }).with_clamped_fades(),
            final(self).fade_in.length_frames + final(self).fade_out.length_frames <= old(self).timing.duration_frames,
    {
        self.fade_in = Fade { length_frames, curve };
        self.clamp_fades();
    }

    /// Sets the fade at the clip's end, then fits both fades to the clip.
    pub fn set_fade_out(&mut self, length_frames: u64, curve: FadeCurve)
        ensures
            *final(self) == (Clip {
                fade_out: Fade { length_frames, curve },
                ..*old(self)
            }).with_clamped_fades(),
            final(self).fade_in.length_frames + final(self).fade_out.length_frames <= old(self).timing.duration_frames,
    {
        self.fade_out = Fade { length_frames, curve };
        self.clamp_fades();
    }

    /// Makes the two fades fit the clip: where together they are longer than
    /// the clip, both are shortened in proportion.
    pub fn clamp_fades(&mut self)
        ensures
            *final(self) == old(self).with_clamped_fades(),
            final(self).fade_in.length_frames + final(self).fade_out.length_frames <= old(self).timing.duration_frames,
    {
        let len: u64 = self.timing.duration_frames;
        let fade_in: u128 = self.fade_in.length_frames as u128;
        let total: u128 = fade_in + self.fade_out.length_frames as u128;
        proof {
            lemma_clamped_fades_fit(
                len as nat,
                self.fade_in.length_frames as nat,
                self.fade_out.length_frames as nat,
            );
        }
        if total > len as u128 {
            assert(fade_in * (len as u128) <= 0xffff_ffff_ffff_ffff * 0xffff_ffff_ffff_ffff)
                by (nonlinear_arith)
                requires
                    0 <= fade_in <= 0xffff_ffff_ffff_ffff,
                    0 <= len <= 0xffff_ffff_ffff_ffff,
            ;
            let shortened: u128 = fade_in * (len as u128) / total;
            self.fade_in.length_frames = shortened as u64;
            self.fade_out.length_frames = len - shortened as u64;
        }
    }
}

} // verus!
