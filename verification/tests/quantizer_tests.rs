use audio_engine::transport::quantizer::Quantizer;
use audio_engine::transport::resolution::QuantizeResolution;

#[test]
fn test_snap_to_nearest_16th_note() {
    let ticks_per_beat = 4;
    let tick = 7;
    let quantized = Quantizer::quantize_tick(tick, QuantizeResolution::Sixteenth, ticks_per_beat);
    assert_eq!(quantized, 7);
}

#[test]
fn test_snap_to_nearest_8th_note() {
    let ticks_per_beat = 4;
    let tick = 6;
    let quantized = Quantizer::quantize_tick(tick, QuantizeResolution::Eighth, ticks_per_beat);
    assert_eq!(quantized, 6);
}

#[test]
fn test_forward_quantize_16th_note() {
    let ticks_per_beat = 4;
    let tick = 7;
    let quantized =
        Quantizer::quantize_tick_forward(tick, QuantizeResolution::Sixteenth, ticks_per_beat);
    assert_eq!(quantized, 7);
}

#[test]
fn test_forward_quantize_8th_note_exact() {
    let ticks_per_beat = 4;
    let tick = 8;
    let quantized =
        Quantizer::quantize_tick_forward(tick, QuantizeResolution::Eighth, ticks_per_beat);
    assert_eq!(quantized, 8);
}

#[test]
fn test_high_resolution_quantization() {
    let ticks_per_beat = 960;
    let tick = 144; // past the half-way point between 0 and 240
    let snap = Quantizer::quantize_tick(tick, QuantizeResolution::Sixteenth, ticks_per_beat);
    let forward =
        Quantizer::quantize_tick_forward(tick, QuantizeResolution::Sixteenth, ticks_per_beat);

    assert_eq!(snap, 240);
    assert_eq!(forward, 240);
}

#[test]
fn nearest_grid_line_takes_halves_upward() {
    // a grid of 240 ticks: 119 goes down, 120 and 121 go up
    assert_eq!(
        Quantizer::quantize_tick(119, QuantizeResolution::Sixteenth, 960),
        0
    );
    assert_eq!(
        Quantizer::quantize_tick(120, QuantizeResolution::Sixteenth, 960),
        240
    );
    assert_eq!(
        Quantizer::quantize_tick(121, QuantizeResolution::Sixteenth, 960),
        240
    );
    assert_eq!(
        Quantizer::quantize_tick(u64::MAX - 7, QuantizeResolution::Quarter, 1),
        u64::MAX - 7
    );
}

#[test]
fn forward_grid_line_is_at_or_after_the_tick() {
    assert_eq!(
        Quantizer::quantize_tick_forward(0, QuantizeResolution::Quarter, 480),
        0
    );
    assert_eq!(
        Quantizer::quantize_tick_forward(1, QuantizeResolution::Quarter, 480),
        480
    );
    assert_eq!(
        Quantizer::quantize_tick_forward(480, QuantizeResolution::ThirtySecond, 480),
        480
    );
    assert_eq!(
        Quantizer::quantize_tick_forward(481, QuantizeResolution::ThirtySecond, 480),
        540
    );
}

#[test]
fn grid_without_ticks_snaps_to_zero() {
    // three ticks to the beat leave no whole tick for a sixteenth
    assert_eq!(
        QuantizeResolution::Sixteenth.ticks_per_grid_unit(3),
        0
    );
    assert_eq!(
        Quantizer::quantize_tick(77, QuantizeResolution::Sixteenth, 3),
        0
    );
    assert_eq!(QuantizeResolution::Quarter.ticks_per_grid_unit(480), 480);
    assert_eq!(QuantizeResolution::Eighth.ticks_per_grid_unit(480), 240);
    assert_eq!(QuantizeResolution::ThirtySecond.ticks_per_grid_unit(480), 60);
}
