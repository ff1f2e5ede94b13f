use std::sync::Arc;

use audio_engine::clip::fades::FadeCurve;
use audio_engine::clip::source::ConstOneSource;
use audio_engine::clip::{Clip, ClipTiming};
use audio_engine::sample::Frame;
use audio_engine::track::audio::AudioTrack;
use audio_engine::track::wav::WavTrack;

/// A short stretch of drum-like material: a decaying burst of alternating
/// sign, different on the two channels, with no two neighbouring frames alike.
fn load_short_test_wav() -> Arc<WavTrack> {
    let mut frames: Vec<Frame> = Vec::new();
    for i in 0..1024i32 {
        let decay = 1024 - i;
        let sign = if i % 2 == 0 { 1 } else { -1 };
        frames.push((sign * decay * 900 + i, -sign * decay * 700 - 3 * i - 1));
    }
    Arc::new(WavTrack::from_raw_samples(frames))
}

fn create_track_with_clip(
    start_frame: u64,
    duration_frames: u64,
    offset: u64,
) -> AudioTrack<WavTrack> {
    let source = load_short_test_wav();

    let clip = Clip::new_audio(
        ClipTiming {
            start_frame,
            duration_frames,
        },
        source,
        offset,
        false,
        1_000_000,
        0,
    );

    let mut track = AudioTrack::new("Editing Test Track");
    track.add_clip(clip);
    track
}

fn make_track_with_constant_clip(
    start_frame: u64,
    duration_frames: u64,
    fade_in: Option<(u64, FadeCurve)>,
    fade_out: Option<(u64, FadeCurve)>,
) -> AudioTrack<ConstOneSource> {
    let source = Arc::new(ConstOneSource);
    let mut clip = Clip::new_audio(
        ClipTiming {
            start_frame,
            duration_frames,
        },
        source,
        0,
        false,
        1_000_000,
        0,
    );

    if let Some((len, curve)) = fade_in {
        clip.set_fade_in(len, curve);
    }

    if let Some((len, curve)) = fade_out {
        clip.set_fade_out(len, curve);
    }

    let mut track = AudioTrack::new("FadeTest");
    track.add_clip(clip);
    track
}

fn level(sample: i32) -> f32 {
    sample as f32 / 1_000_000.0
}

#[test]
fn clip_trim_reduces_output_length() {
    let mut track = create_track_with_clip(0, 256, 0);

    // Render full 256 frames first
    let mut output_1 = vec![(0, 0); 256];
    track.fill_next_samples(&mut output_1);

    // Reset + trim to 128 frames
    track.reset();
    let clip = track.timeline.clips.get_mut(0).unwrap();
    clip.trim(128);

    let mut output_2 = vec![(0, 0); 256];
    track.fill_next_samples(&mut output_2);

    // Only first 128 should be non-zero
    assert!(output_2[..128].iter().any(|(l, r)| *l != 0 || *r != 0));
    assert!(output_2[128..].iter().all(|(l, r)| *l == 0 && *r == 0));
}

#[test]
fn clip_move_to_shifts_output_forward() {
    let mut track = create_track_with_clip(0, 256, 0);

    let mut output_1 = vec![(0, 0); 256];
    track.fill_next_samples(&mut output_1);

    track.reset();
    let clip = track.timeline.clips.get_mut(0).unwrap();
    clip.move_to(128); // Shift clip 128 frames forward

    let mut output_2 = vec![(0, 0); 256];
    track.fill_next_samples(&mut output_2);

    assert!(output_2[..128].iter().all(|(l, r)| *l == 0 && *r == 0));
    assert_eq!(
        output_1[..128],
        output_2[128..],
        "Expected moved clip audio to appear later"
    );
}

#[test]
fn clip_slip_changes_rendered_audio_without_moving_clip() {
    let mut track = create_track_with_clip(0, 128, 0);

    let mut output_1 = vec![(0, 0); 128];
    track.fill_next_samples(&mut output_1);

    track.reset();
    let clip = track.timeline.clips.get_mut(0).unwrap();
    clip.slip(10); // Slide source 10 frames forward

    let mut output_2 = vec![(0, 0); 128];
    track.fill_next_samples(&mut output_2);

    assert_ne!(output_1, output_2, "Slip should change audio content");
    assert_eq!(output_1[10..], output_2[..118]);
}

#[test]
fn linear_fade_in_on_constant_source() {
    let fade_len = 100u64;
    let dur = 200u64;
    let mut track =
        make_track_with_constant_clip(0, dur, Some((fade_len, FadeCurve::Linear)), None);

    let mut out = vec![(0, 0); dur as usize];
    track.fill_next_samples(&mut out);

    // Start near zero, end at ~1.0
    assert!(
        level(out[0].0) <= 0.01 && level(out[0].1) <= 0.01,
        "first sample should be ~0"
    );
    assert!(
        (level(out[fade_len as usize - 1].0) - 0.99).abs() < 0.05,
        "end of fade-in ~1.0"
    );
    assert!(
        (level(out.last().unwrap().0) - 1.0).abs() < 0.01,
        "post fade-in ~1.0"
    );
    assert_eq!(out[0], (0, 0));
    assert_eq!(out[1], (10_000, 10_000));
    assert_eq!(out[99], (990_000, 990_000));
    assert_eq!(out[100], (1_000_000, 1_000_000));
    assert_eq!(out[199], (1_000_000, 1_000_000));
}

#[test]
fn equal_power_fade_out_on_constant_source() {
    let fade_len = 100u64;
    let dur = 200u64;
    let mut track =
        make_track_with_constant_clip(0, dur, None, Some((fade_len, FadeCurve::EqualPower)));

    let mut out = vec![(0, 0); dur as usize];
    track.fill_next_samples(&mut out);

    // End near zero
    assert!(level(out.last().unwrap().0) <= 0.01, "last sample ~0.0");

    // Midpoint of fade-out ~ cos(pi/4) ≈ 0.707
    let fade_start = (dur - fade_len) as usize;
    let mid = fade_start + (fade_len as usize / 2);
    let v = level(out[mid].0); // left channel
    assert!((v - 0.707).abs() < 0.05, "mid fade-out ~0.707, got {}", v);
}

#[test]
fn equal_power_crossfade_sums_to_constant() {
    // Build track with two overlapping clips
    let mut track = AudioTrack::new("Crossfade");

    // Clip A: 0..200, fade-out last 100
    let src = Arc::new(ConstOneSource);
    let mut a = Clip::new_audio(
        ClipTiming {
            start_frame: 0,
            duration_frames: 200,
        },
        src.clone(),
        0,
        false,
        1_000_000,
        0,
    );
    a.set_fade_out(100, FadeCurve::EqualPower);
    track.add_clip(a);

    // Clip B: 100..300, fade-in first 100
    let mut b = Clip::new_audio(
        ClipTiming {
            start_frame: 100,
            duration_frames: 200,
        },
        src.clone(),
        0,
        false,
        1_000_000,
        0,
    );
    b.set_fade_in(100, FadeCurve::EqualPower);
    track.add_clip(b);

    // Render 0..300
    let mut out = vec![(0, 0); 300];
    track.fill_next_samples(&mut out);

    for i in 0..100 {
        let theta = (i as f32) / 100.0 * std::f32::consts::FRAC_PI_2;
        let expected = theta.cos() + theta.sin();
        let got = level(out[100 + i].0);
        assert!(
            (got - expected).abs() < 0.05,
            "crossfade amp mismatch at k={}, got {}, expected {}",
            i,
            got,
            expected
        );
    }
    assert!((level(out[150].0) - 1.414).abs() < 0.02);
}
