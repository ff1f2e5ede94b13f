use audio_engine::transport::clock::{TempoClock, TimeSignature};
use audio_engine::transport::resolution::TickResolution;

const SAMPLE_RATE: u64 = 44100;
const BPM_120: u64 = 120_000_000;

fn create_clock(
    bpm: u64,
    sample_rate: u64,
    beats_per_bar: u64,
    beat_unit: u64,
    resolution: TickResolution,
) -> TempoClock {
    TempoClock::with_signature(
        bpm,
        sample_rate,
        resolution,
        TimeSignature {
            beats_per_bar,
            beat_unit,
        },
    )
}

fn samples_per_tick(clock: &TempoClock) -> f64 {
    let (span, rate) = clock.samples_per_tick();
    span as f64 / rate as f64
}

#[test]
fn test_samples_per_tick_calculation() {
    let clock = TempoClock::new(BPM_120, SAMPLE_RATE, TickResolution::Sixteenth);
    // At 120 BPM with 120 ticks per beat: 44100 / (120 / 60 * 120) = 183.75
    assert!((samples_per_tick(&clock) - 183.75).abs() < 0.01);
}

#[test]
fn test_no_tick_emitted_before_threshold() {
    let mut clock = TempoClock::new(BPM_120, SAMPLE_RATE, TickResolution::Quarter);
    let tick_emitted = clock.advance_by(40); // threshold is 45
    assert!(!tick_emitted);
}

#[test]
fn test_tick_emitted_at_threshold() {
    let mut clock = TempoClock::new(BPM_120, SAMPLE_RATE, TickResolution::Quarter);
    // 120 BPM -> 0.5s per quarter -> 22050 samples
    let tick_emitted = clock.advance_by(22050);
    assert!(tick_emitted);
    assert_eq!(clock.current_tick(), 480);
}

#[test]
fn test_multiple_ticks_emitted() {
    let mut clock = TempoClock::new(BPM_120, SAMPLE_RATE, TickResolution::Quarter);
    let mut ticks = 0;
    for _ in 0..2 {
        if clock.advance_by(22050) {
            ticks += 1;
        }
    }
    assert_eq!(clock.current_tick(), 960);
    assert_eq!(ticks, 2);
}

#[test]
fn test_tick_phase_accuracy() {
    let mut clock = TempoClock::new(BPM_120, SAMPLE_RATE, TickResolution::Quarter);
    clock.advance_by(11025); // half a quarter note
    let phase = clock.tick_phase() as f64 / 1_000_000.0;
    assert!((phase - 0.0).abs() < 0.01);
}

#[test]
fn test_stop_prevents_tick() {
    let mut clock = TempoClock::new(BPM_120, SAMPLE_RATE, TickResolution::Quarter);
    clock.stop();
    let tick_emitted = clock.advance_by(22050);
    assert!(!tick_emitted);
    assert_eq!(clock.current_tick(), 0);
}

#[test]
fn test_reset_clears_state() {
    let mut clock = TempoClock::new(BPM_120, SAMPLE_RATE, TickResolution::Quarter);
    clock.advance_by(22050);
    clock.reset();
    assert_eq!(clock.current_tick(), 0);
    assert_eq!(clock.tick_phase(), 0);
}

#[test]
fn test_bbt_start_position() {
    let clock = create_clock(BPM_120, 44100, 4, 4, TickResolution::Sixteenth);
    let (bar, beat, tick) = clock.bar_beat_tick();
    assert_eq!((bar, beat, tick), (1, 1, 1));
}

#[test]
fn test_bbt_after_ticks() {
    let mut clock = create_clock(BPM_120, 44100, 4, 4, TickResolution::Sixteenth);
    clock.mock_set_tick_counter(5);
    let (bar, beat, tick) = clock.bar_beat_tick();
    assert_eq!((bar, beat, tick), (1, 1, 6));
}

#[test]
fn test_bbt_in_3_4_time() {
    let mut clock = create_clock(BPM_120, 44100, 3, 4, TickResolution::Sixteenth);
    clock.mock_set_tick_counter(7);
    let (bar, beat, tick) = clock.bar_beat_tick();
    assert_eq!((bar, beat, tick), (1, 1, 8));
}

#[test]
fn test_bbt_in_6_8_time() {
    let mut clock = create_clock(BPM_120, 44100, 6, 8, TickResolution::Eighth);
    clock.mock_set_tick_counter(15);
    let (bar, beat, tick) = clock.bar_beat_tick();
    assert_eq!((bar, beat, tick), (1, 1, 16));
}

#[test]
fn bbt_crosses_beats_and_bars() {
    let mut clock = create_clock(BPM_120, 44100, 3, 4, TickResolution::Sixteenth);
    // 3 beats of 120 ticks make a bar of 360 ticks
    clock.mock_set_tick_counter(360 + 120 + 5);
    assert_eq!(clock.bar_beat_tick(), (2, 2, 6));
    clock.mock_set_tick_counter(359);
    assert_eq!(clock.bar_beat_tick(), (1, 3, 120));
}

#[test]
fn samples_per_tick_is_the_exact_fraction() {
    let clock = TempoClock::new(90_500_000, 48000, TickResolution::PPQN(96));
    let (span, rate) = clock.samples_per_tick();
    assert_eq!(span, 48000 * 60 * 1_000_000);
    assert_eq!(rate, 90_500_000 * 96);
}

#[test]
fn advancing_in_pieces_does_not_drift() {
    let mut whole = TempoClock::new(BPM_120, SAMPLE_RATE, TickResolution::Sixteenth);
    let mut pieces = TempoClock::new(BPM_120, SAMPLE_RATE, TickResolution::Sixteenth);
    whole.advance_by(7 * 1000 + 3);
    for _ in 0..1000 {
        pieces.advance_by(7);
    }
    pieces.advance_by(3);
    assert_eq!(whole.current_tick(), pieces.current_tick());
    assert_eq!(whole.tick_phase(), pieces.tick_phase());
    // 7003 / 183.75 = 38.11...
    assert_eq!(whole.current_tick(), 38);
}

#[test]
fn tick_phase_is_the_fraction_of_the_tick() {
    let mut clock = TempoClock::new(BPM_120, SAMPLE_RATE, TickResolution::Sixteenth);
    // 183.75 samples per tick: 147 samples are four fifths of one
    clock.advance_by(147);
    assert_eq!(clock.current_tick(), 0);
    assert_eq!(clock.tick_phase(), 800_000);
}

#[test]
fn tick_counter_holds_at_its_ceiling() {
    let mut clock = TempoClock::new(BPM_120, SAMPLE_RATE, TickResolution::Quarter);
    clock.mock_set_tick_counter(u64::MAX - 1);
    assert!(clock.advance_by(22050));
    assert_eq!(clock.current_tick(), u64::MAX);
}

#[test]
fn accepts_tells_usable_settings_apart() {
    assert!(TempoClock::accepts(BPM_120, 44100, &TickResolution::Quarter));
    assert!(!TempoClock::accepts(0, 44100, &TickResolution::Quarter));
    assert!(!TempoClock::accepts(BPM_120, 0, &TickResolution::Quarter));
    assert!(!TempoClock::accepts(BPM_120, 44100, &TickResolution::PPQN(0)));
    assert!(!TempoClock::accepts(u64::MAX, 44100, &TickResolution::Quarter));
}

#[test]
fn start_and_stop_set_the_running_flag() {
    let mut clock = TempoClock::new(BPM_120, SAMPLE_RATE, TickResolution::Quarter);
    assert!(clock.is_running());
    clock.stop();
    assert!(!clock.is_running());
    clock.start();
    assert!(clock.is_running());
    assert_eq!(clock.bpm(), BPM_120);
    assert_eq!(clock.sample_rate(), SAMPLE_RATE);
    assert_eq!(clock.ticks_per_beat(), 480);
    assert_eq!(clock.time_signature().beats_per_bar, 4);
}
