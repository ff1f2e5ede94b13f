use std::sync::Arc;

use audio_engine::clip::{Clip, ClipTiming};
use audio_engine::sample::Frame;
use audio_engine::track::audio::AudioTrack;
use audio_engine::track::wav::WavTrack;
use audio_engine::track::{Track, TrackType};

/// A stretch of drum-like material: a decaying burst of alternating sign,
/// different on the two channels, with no two neighbouring frames alike.
fn load_test_wav() -> Arc<WavTrack> {
    let mut frames: Vec<Frame> = Vec::new();
    for i in 0..2048i32 {
        let decay = 2048 - i;
        let sign = if i % 2 == 0 { 1 } else { -1 };
        frames.push((sign * decay * 400 + i, -sign * decay * 300 - 3 * i - 1));
    }
    Arc::new(WavTrack::from_raw_samples(frames))
}

#[test]
fn audio_track_renders_clip_output() {
    let wav = load_test_wav();

    // Clip: starts at frame 0, lasts for 512 samples
    let clip = Clip::new_audio(
        ClipTiming {
            start_frame: 0,
            duration_frames: 512,
        },
        wav.clone(),
        0,
        false,
        1_000_000,
        0,
    );

    let mut track = AudioTrack::new("Test Audio Track");
    track.add_clip(clip);

    let mut output = vec![(0, 0); 512];
    track.fill_next_samples(&mut output[..]);

    // At least some non-zero audio should be present
    let nonzero_samples = output.iter().filter(|(l, r)| *l != 0 || *r != 0).count();
    assert!(
        nonzero_samples > 0,
        "Expected non-zero samples from AudioTrack output"
    );
    assert_eq!(output[..], wav.samples[..512]);
}

#[test]
fn audio_track_silence_when_outside_clip_range() {
    let wav = load_test_wav();

    // Clip is positioned to start far in the future
    let clip = Clip::new_audio(
        ClipTiming {
            start_frame: 10_000,
            duration_frames: 256,
        },
        wav.clone(),
        0,
        false,
        1_000_000,
        0,
    );

    let mut track = AudioTrack::new("Future Clip Track");
    track.add_clip(clip);

    // Render at time 0: the clip should not be active
    let mut output = vec![(0, 0); 512];
    track.fill_next_samples(&mut output[..]);

    // All output should be silence
    for (l, r) in output {
        assert_eq!(l, 0);
        assert_eq!(r, 0);
    }
}

#[test]
fn audio_track_creation_has_valid_id_and_name() {
    let name = "My Audio Track";
    let track: AudioTrack<WavTrack> = AudioTrack::new(name);

    assert_eq!(track.name(), name);
    assert_eq!(track.track_type(), TrackType::Audio);
}

#[test]
fn audio_audio_track_trait_object_usage() {
    let mut track: Track<WavTrack> = Track::Audio(AudioTrack::new("Polymorphic Track"));

    assert_eq!(track.track_type(), TrackType::Audio);
    assert_eq!(track.name(), "Polymorphic Track");

    let frame_size = 32;
    let samples = track.next_samples(frame_size);
    assert_eq!(samples.len(), frame_size);
}

#[test]
fn looped_clip_repeats_samples_correctly() {
    let wav = load_test_wav();
    let loop_duration = 128;

    let clip = Clip::new_audio(
        ClipTiming {
            start_frame: 0,
            duration_frames: loop_duration,
        },
        wav.clone(),
        0,
        true,
        1_000_000,
        0,
    );

    let mut track = AudioTrack::new("Looped Clip Track");
    track.add_clip(clip);

    let mut output = vec![(0, 0); (loop_duration * 4) as usize];
    track.fill_next_samples(&mut output[..]);

    let loops = 4;
    let looped_sections: Vec<&[Frame]> = (0..loops)
        .map(|i| {
            let start = i * loop_duration;
            let end = start + loop_duration;
            &output[start as usize..end as usize]
        })
        .collect();

    for i in 1..loops {
        assert_eq!(
            looped_sections[0], looped_sections[i as usize],
            "Loop section {} does not match section 0",
            i
        );
    }
    assert!(looped_sections[0].iter().any(|(l, r)| *l != 0 || *r != 0));
}

#[test]
fn stopped_audio_track_gives_silence_and_keeps_its_place() {
    let wav = load_test_wav();
    let clip = Clip::new_audio(
        ClipTiming {
            start_frame: 0,
            duration_frames: 512,
        },
        wav.clone(),
        0,
        false,
        1_000_000,
        0,
    );
    let mut track = AudioTrack::new("Held");
    track.add_clip(clip);
    track.next_samples(10);
    track.stop();
    let mut held = vec![(9, 9); 4];
    track.fill_next_samples(&mut held[..]);
    assert_eq!(held, vec![(0, 0); 4]);
    assert_eq!(track.current_frame, 10);
    track.start();
    assert_eq!(track.next_samples(2)[..], wav.samples[10..12]);
    track.reset_position();
    assert_eq!(track.current_frame, 0);
}
