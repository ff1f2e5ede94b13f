use audio_engine::clip::source::ConstOneSource;
use audio_engine::track::midi::MidiTrack;
use audio_engine::track::{Track, TrackType};

#[test]
fn midi_track_creation_has_valid_id_and_name() {
    let name = "My Midi Track";
    let track = MidiTrack::new(name);

    assert_eq!(track.name(), name);
    assert_eq!(track.track_type(), TrackType::Midi);
}

#[test]
fn audio_track_fills_zero_samples() {
    let mut track = MidiTrack::new("Silent Track");
    let frame_size = 64;
    let samples = track.next_samples(frame_size);

    assert_eq!(samples.len(), frame_size);

    for (l, r) in samples {
        assert_eq!(l, 0);
        assert_eq!(r, 0);
    }
}

#[test]
fn midi_audio_track_trait_object_usage() {
    let mut track: Track<ConstOneSource> = Track::Midi(MidiTrack::new("Polymorphic Track"));

    assert_eq!(track.track_type(), TrackType::Midi);
    assert_eq!(track.name(), "Polymorphic Track");

    let frame_size = 32;
    let samples = track.next_samples(frame_size);
    assert_eq!(samples.len(), frame_size);
}

#[test]
fn midi_track_overwrites_what_the_buffer_held() {
    let mut track = MidiTrack::new("Silent Track");
    let mut buffer = vec![(5, -5); 8];
    track.fill_next_samples(&mut buffer[..]);
    assert!(buffer.iter().all(|frame| *frame == (0, 0)));
}

#[test]
fn fresh_tracks_get_distinct_identifiers() {
    let a = MidiTrack::new("a");
    let b = MidiTrack::new("b");
    assert_ne!(a.id(), b.id());
    assert_eq!(a.id(), a.id());
}
