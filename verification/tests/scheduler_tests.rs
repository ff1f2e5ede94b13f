use std::sync::Arc;

use audio_engine::clip::source::ConstOneSource;
use audio_engine::clip::{Clip, ClipTiming};
use audio_engine::sample::Frame;
use audio_engine::track::audio::AudioTrack;
use audio_engine::scheduler::command::{LoopOptions, ParameterChange, SchedulerCommand};
use audio_engine::scheduler::Scheduler;
use audio_engine::track::constant::ConstantTrack;
use audio_engine::track::gainpan::GainPanTrack;
use audio_engine::track::wav::WavTrack;
use audio_engine::track::{Track, TrackId};
use audio_engine::transport::clock::TempoClock;
use audio_engine::transport::resolution::TickResolution;
use rtrb::{Producer, RingBuffer};

type Source = ConstOneSource;

const AUDIO_SAMPLE_EPSILON: i32 = 1;

fn create_scheduler_with_channel() -> (Scheduler<Source>, Producer<SchedulerCommand<Source>>) {
    let (producer, consumer) = RingBuffer::new(32);
    let tempo_clock = TempoClock::new(120_000_000, 44100, TickResolution::Sixteenth);
    let scheduler = Scheduler::new(consumer, tempo_clock);
    (scheduler, producer)
}

fn constant(left: i32, right: i32) -> Track<Source> {
    Track::Constant(ConstantTrack::new(left, right))
}

fn sum_energy(buffer: &[Frame]) -> i64 {
    buffer
        .iter()
        .map(|(l, r)| (*l as i64).abs() + (*r as i64).abs())
        .sum()
}

fn bbt(bar: u64, beat: u64, tick: u64) -> LoopOptions {
    LoopOptions { bar, beat, tick }
}

#[test]
fn test_track_scheduled_at_zero_plays_immediately() {
    let (mut sched, _) = create_scheduler_with_channel();
    sched.schedule(constant(100_000, 100_000), 0);
    sched.process_command(SchedulerCommand::Play);

    let output = sched.next_samples(4);
    assert_eq!(output.len(), 4);
    assert!(sum_energy(&output) > 0);
    assert_eq!(output, vec![(100_000, 100_000); 4]);
}

#[test]
fn test_track_scheduled_in_future_does_not_play_early() {
    let (mut sched, _) = create_scheduler_with_channel();
    sched.schedule(constant(1_000_000, 1_000_000), 100);
    sched.process_command(SchedulerCommand::Play);

    let output = sched.next_samples(10); // still before frame 100
    assert_eq!(output.len(), 10);
    assert!(sum_energy(&output) == 0);

    sched.next_samples(80);
    sched.next_samples(10); // now at frame 100

    let output = sched.next_samples(1);
    assert!(sum_energy(&output) > 0);
}

#[test]
fn test_multiple_tracks_mixed_properly() {
    let (mut sched, _) = create_scheduler_with_channel();
    sched.schedule(constant(300_000, 300_000), 0);
    sched.schedule(constant(500_000, 500_000), 0);
    sched.process_command(SchedulerCommand::Play);

    let output = sched.next_samples(1);
    let (l, r) = output[0];
    assert!((l - 800_000).abs() < AUDIO_SAMPLE_EPSILON);
    assert!((r - 800_000).abs() < AUDIO_SAMPLE_EPSILON);
}

#[test]
fn test_track_starts_midway_and_mixes_correctly() {
    let (mut sched, _) = create_scheduler_with_channel();
    sched.process_command(SchedulerCommand::Play);
    sched.schedule(constant(500_000, 500_000), 4); // start late

    let out1 = sched.next_samples(4);
    assert!(sum_energy(&out1) == 0); // silent

    let out2 = sched.next_samples(2);
    assert_eq!(out2.len(), 2);
    assert!((out2[0].0 - 500_000).abs() < AUDIO_SAMPLE_EPSILON);
}

#[test]
fn test_gain_change_applies_during_playback() {
    let gain_track = GainPanTrack::new(
        "x-track",
        Box::new(constant(1_000_000, 1_000_000)),
        1_000_000,
        0,
    );
    let (mut scheduler, _) = create_scheduler_with_channel();

    scheduler.schedule(Track::GainPan(gain_track), 0);
    scheduler.process_command(SchedulerCommand::Play);
    scheduler.next_samples(1); // activate

    scheduler.process_command(SchedulerCommand::ParamChange {
        target_id: TrackId::new("x-track"),
        change: ParameterChange::SetGain(250_000),
    });

    let output = scheduler.next_samples(1);
    assert!((output[0].0 - 125_000).abs() < AUDIO_SAMPLE_EPSILON); // 1.0 * 0.25 * 0.5
    assert!((output[0].1 - 125_000).abs() < AUDIO_SAMPLE_EPSILON);
}

#[test]
fn test_stop_track_removes_it_from_output() {
    let gpt = GainPanTrack::new("test-id", Box::new(constant(500_000, 500_000)), 1_000_000, 0);
    let (mut sched, _) = create_scheduler_with_channel();
    sched.schedule(Track::GainPan(gpt), 0);

    sched.next_samples(1); // Activate

    // Stop the track
    sched.process_command(SchedulerCommand::StopTrack {
        target_id: TrackId::new("test-id"),
    });

    let out = sched.next_samples(1);
    assert_eq!(out[0], (0, 0)); // No output = stopped
}

#[test]
fn test_restart_resets_playback_position() {
    let samples = vec![(1_000_000, 1_000_000), (500_000, 500_000), (0, 0)];
    let wav = WavTrack::from_raw_samples(samples.clone());

    let gain = GainPanTrack::new("track-id", Box::new(Track::Wav(wav)), 1_000_000, 0);
    let (mut sched, _) = create_scheduler_with_channel();
    sched.schedule(Track::GainPan(gain), 0);
    sched.process_command(SchedulerCommand::Play);

    let out1 = sched.next_samples(1);
    let out2 = sched.next_samples(1);

    sched.process_command(SchedulerCommand::RestartTrack {
        target_id: TrackId::new("track-id"),
    });

    let out3 = sched.next_samples(1);

    assert_eq!(out1[0], (500_000, 500_000)); // 1.0 * 1.0 * 0.5
    assert_eq!(out2[0], (250_000, 250_000));
    assert_eq!(out3[0], (500_000, 500_000)); // confirms retrigger
}

#[test]
fn test_schedule_command_adds_track_correctly() {
    let (mut scheduler, mut producer) = create_scheduler_with_channel();
    scheduler.process_command(SchedulerCommand::Play);

    // Push command to ring
    let success = producer.push(SchedulerCommand::ScheduleTrack {
        track: constant(400_000, 400_000),
        start_frame: 0,
    });
    assert!(success.is_ok(), "Should be able to enqueue command");

    // Should now have one active track
    let output = scheduler.next_samples(2);
    assert_eq!(output.len(), 2);
    assert!((output[0].0 - 400_000).abs() < 1);
}

#[test]
fn test_scheduled_track_via_command_plays_at_correct_time() {
    let (mut scheduler, mut producer) = create_scheduler_with_channel();
    scheduler.process_command(SchedulerCommand::Play);

    // Send command for track to start at frame 3
    producer
        .push(SchedulerCommand::ScheduleTrack {
            track: constant(200_000, 200_000),
            start_frame: 3,
        })
        .expect("Failed to enqueue");

    // Advance scheduler past frame 3
    let silent = scheduler.next_samples(3);
    assert!(silent.iter().all(|&(l, r)| (l + r).abs() < 1));

    let active = scheduler.next_samples(1);
    assert!((active[0].0 - 200_000).abs() < 1);
}

#[test]
fn test_ring_buffer_drops_when_full() {
    let (mut prod, mut cons) = RingBuffer::new(1);

    // Fill it
    prod.push(SchedulerCommand::ScheduleTrack {
        track: constant(0, 0),
        start_frame: 0,
    })
    .unwrap();

    // Next push should fail
    let result = prod.push(SchedulerCommand::ScheduleTrack {
        track: constant(100_000, 100_000),
        start_frame: 0,
    });

    assert!(
        result.is_err(),
        "Second command should fail due to full ring buffer"
    );

    // Consume one and push again
    let _ = cons.pop();
    assert!(prod
        .push(SchedulerCommand::ScheduleTrack {
            track: constant(200_000, 200_000),
            start_frame: 0,
        })
        .is_ok());
}

#[test]
fn test_clock_advances_with_next_samples() {
    let (mut scheduler, mut prod) = create_scheduler_with_channel();
    prod.push(SchedulerCommand::Play).unwrap();

    scheduler.next_samples(5513); // 5513 / 183.75 = 30.003
    assert_eq!(scheduler.current_tick(), 30);
}

#[test]
fn test_set_tempo_resets_clock() {
    let (mut scheduler, mut producer) = create_scheduler_with_channel();
    scheduler.process_command(SchedulerCommand::Play);

    scheduler.next_samples(5513);
    assert_eq!(scheduler.current_tick(), 30);

    producer
        .push(SchedulerCommand::SetTempo {
            bpm: 60_000_000,
            resolution: TickResolution::Quarter,
        })
        .unwrap();

    scheduler.next_samples(100); // process command
    assert_eq!(scheduler.current_tick(), 1);

    // At 60 BPM, quarter note = 44100 samples
    scheduler.next_samples(44100);
    assert_eq!(scheduler.current_tick(), 481);
}

#[test]
fn test_loop_point_setup_and_conversion() {
    let (mut scheduler, mut prod) = create_scheduler_with_channel();

    prod.push(SchedulerCommand::SetLoop {
        enabled: true,
        start: bbt(1, 1, 1),
        end: bbt(2, 1, 1),
    })
    .unwrap();

    scheduler.next_samples(1); // process command

    assert!(scheduler.looping_enabled());
    assert!(scheduler.loop_points().is_some());

    // 4/4 time, 120 ticks/beat: 480 ticks/bar
    // start_tick = 0, end_tick = 480
    let expected_start_frame = 0;
    let (span, rate) = scheduler.tempo_clock().samples_per_tick();
    let expected_end_frame = (480.0 * (span as f64 / rate as f64)).round() as u64;

    assert_eq!(scheduler.loop_start_frame(), expected_start_frame);
    assert_eq!(scheduler.loop_end_frame(), expected_end_frame);
    assert_eq!(scheduler.loop_end_frame(), 88200);
}

#[test]
fn test_looping_wraps_current_frame() {
    let (mut scheduler, mut prod) = create_scheduler_with_channel();

    prod.push(SchedulerCommand::SetLoop {
        enabled: true,
        start: bbt(1, 1, 1),
        end: bbt(1, 2, 1),
    })
    .unwrap();

    scheduler.next_samples(1); // process command

    let loop_end = scheduler.loop_end_frame();

    // Advance just past end frame
    scheduler.next_samples(loop_end as usize + 1);

    // Should wrap to start frame (0)
    assert_eq!(scheduler.current_frame(), scheduler.loop_start_frame());
}

#[test]
fn test_tick_sync_after_loop_wrap() {
    let (mut scheduler, mut prod) = create_scheduler_with_channel();

    prod.push(SchedulerCommand::SetLoop {
        enabled: true,
        start: bbt(1, 1, 1),
        end: bbt(1, 2, 1),
    })
    .unwrap();

    scheduler.next_samples(1); // process command

    let loop_end = scheduler.loop_end_frame();

    scheduler.next_samples(loop_end as usize + 1);

    // After wrap, tick should be synced to current_frame
    let (span, rate) = scheduler.tempo_clock().samples_per_tick();
    let expected_tick_float = scheduler.current_frame() as f64 / (span as f64 / rate as f64);
    let expected_tick = expected_tick_float.floor() as u64;

    assert_eq!(scheduler.current_tick(), expected_tick);
}

#[test]
fn test_looping_disabled_no_wrap() {
    let (mut scheduler, mut prod) = create_scheduler_with_channel();
    prod.push(SchedulerCommand::Play).unwrap();

    prod.push(SchedulerCommand::SetLoop {
        enabled: true,
        start: bbt(1, 1, 1),
        end: bbt(1, 2, 1),
    })
    .unwrap();

    scheduler.next_samples(1); // process command

    prod.push(SchedulerCommand::SetLoop {
        enabled: false,
        start: bbt(1, 1, 1),
        end: bbt(1, 2, 1),
    })
    .unwrap();

    scheduler.next_samples(1); // disable command

    let loop_end = scheduler.loop_end_frame();
    scheduler.next_samples(loop_end as usize + 1);

    println!(
        "loop: {} {}",
        scheduler.current_frame(),
        scheduler.loop_end_frame()
    );

    // Should not wrap
    assert!(scheduler.current_frame() > scheduler.loop_end_frame());
}

#[test]
fn test_initial_state_stopped() {
    let (mut scheduler, _) = create_scheduler_with_channel();

    let output = scheduler.next_samples(512);

    // Should be silence
    assert!(output.iter().all(|(l, r)| *l == 0 && *r == 0));
    assert_eq!(scheduler.current_frame(), 0);
    assert_eq!(scheduler.current_tick(), 0);
}

#[test]
fn test_play_advances_frame_and_tick() {
    let (mut scheduler, mut prod) = create_scheduler_with_channel();

    prod.push(SchedulerCommand::ScheduleTrack {
        track: constant(200_000, 200_000),
        start_frame: 0,
    })
    .unwrap();

    prod.push(SchedulerCommand::Play).unwrap();
    scheduler.next_samples(512); // process Play command

    let output = scheduler.next_samples(512);

    assert!(output.iter().any(|(l, r)| *l != 0 || *r != 0));
    assert!(scheduler.current_frame() > 0);

    assert!(scheduler.current_tick() > 0);
}

#[test]
fn test_pause_halts_time_and_silences_output() {
    let (mut scheduler, mut prod) = create_scheduler_with_channel();

    prod.push(SchedulerCommand::Play).unwrap();
    scheduler.next_samples(512); // process Play
    scheduler.next_samples(512); // advance

    let frame_after_play = scheduler.current_frame();
    let tick_after_play = scheduler.current_tick();

    prod.push(SchedulerCommand::Pause).unwrap();
    scheduler.next_samples(512); // process Pause

    let output = scheduler.next_samples(512);

    assert!(output.iter().all(|(l, r)| *l == 0 && *r == 0));
    assert_eq!(scheduler.current_frame(), frame_after_play);
    assert_eq!(scheduler.current_tick(), tick_after_play);
}

#[test]
fn test_stop_resets_frame_and_tick() {
    let (mut scheduler, mut prod) = create_scheduler_with_channel();

    prod.push(SchedulerCommand::Play).unwrap();
    scheduler.next_samples(512); // process Play
    scheduler.next_samples(512); // advance

    prod.push(SchedulerCommand::Stop).unwrap();
    scheduler.next_samples(512); // process Stop

    assert_eq!(scheduler.current_frame(), 0);
    assert_eq!(scheduler.current_tick(), 0);
    let output = scheduler.next_samples(512);
    assert!(output.iter().all(|(l, r)| *l == 0 && *r == 0));
}

#[test]
fn test_resume_after_pause() {
    let (mut scheduler, mut prod) = create_scheduler_with_channel();

    prod.push(SchedulerCommand::Play).unwrap();
    scheduler.next_samples(512); // process Play
    scheduler.next_samples(512); // advance

    let frame_after_play = scheduler.current_frame();
    let tick_after_play = scheduler.current_tick();

    prod.push(SchedulerCommand::Pause).unwrap();
    scheduler.next_samples(512); // process Pause
    scheduler.next_samples(512); // hold

    prod.push(SchedulerCommand::Play).unwrap();
    scheduler.next_samples(512); // process Play
    scheduler.next_samples(512); // advance again

    assert!(scheduler.current_frame() > frame_after_play);
    assert!(scheduler.current_tick() > tick_after_play);
}

#[test]
fn fill_writes_only_the_frames_asked_for() {
    let (mut sched, mut prod) = create_scheduler_with_channel();
    prod.push(SchedulerCommand::ScheduleTrack {
        track: constant(100_000, -100_000),
        start_frame: 0,
    })
    .unwrap();
    prod.push(SchedulerCommand::Play).unwrap();
    let mut buffer = vec![(7, 7); 6];
    sched.fill(&mut buffer[..], 4);
    assert_eq!(
        buffer,
        vec![
            (100_000, -100_000),
            (100_000, -100_000),
            (100_000, -100_000),
            (100_000, -100_000),
            (7, 7),
            (7, 7)
        ]
    );
    assert_eq!(sched.current_frame(), 4);
    sched.process_command(SchedulerCommand::Pause);
    sched.fill(&mut buffer[..], 5);
    assert_eq!(buffer[..5], vec![(0, 0); 5][..]);
    assert_eq!(buffer[5], (7, 7));
    assert_eq!(sched.current_frame(), 4);
}

#[test]
fn future_schedule_is_silent_up_to_its_frame() {
    let (mut sched, _) = create_scheduler_with_channel();
    sched.process_command(SchedulerCommand::Play);
    sched.schedule(constant(1_000_000, 1_000_000), 100);
    assert_eq!(sched.next_samples(10), vec![(0, 0); 10]);
    assert_eq!(sched.pending_count(), 1);
    assert_eq!(sched.active_count(), 0);
    // the buffer that ends at frame 100 is still silent
    assert_eq!(sched.next_samples(90), vec![(0, 0); 90]);
    assert_eq!(sched.current_frame(), 100);
    assert_eq!(sched.next_samples(1), vec![(1_000_000, 1_000_000)]);
    assert_eq!(sched.pending_count(), 0);
    assert_eq!(sched.active_count(), 1);
}

#[test]
fn stop_clears_both_queues_and_rewinds() {
    let (mut sched, _) = create_scheduler_with_channel();
    sched.schedule(constant(1, 1), 0);
    sched.schedule(constant(2, 2), 1_000_000);
    sched.process_command(SchedulerCommand::Play);
    sched.next_samples(512);
    assert_eq!(sched.active_count(), 1);
    assert_eq!(sched.pending_count(), 1);
    sched.process_command(SchedulerCommand::Stop);
    assert_eq!(sched.active_count(), 0);
    assert_eq!(sched.pending_count(), 0);
    assert_eq!(sched.next_samples(512), vec![(0, 0); 512]);
    assert_eq!(sched.current_frame(), 0);
    assert_eq!(sched.current_tick(), 0);
    // playing again starts from the top, with nothing to play
    sched.process_command(SchedulerCommand::Play);
    assert_eq!(sched.next_samples(4), vec![(0, 0); 4]);
    assert_eq!(sched.current_frame(), 4);
}

#[test]
fn loop_wraps_frame_and_tick_when_playing() {
    let (mut sched, _) = create_scheduler_with_channel();
    sched.process_command(SchedulerCommand::SetLoop {
        enabled: true,
        start: bbt(1, 1, 61),
        end: bbt(1, 2, 1),
    });
    // 60 ticks of 183.75 frames and 120 ticks of 183.75 frames
    assert_eq!(sched.loop_start_frame(), 11025);
    assert_eq!(sched.loop_end_frame(), 22050);
    sched.process_command(SchedulerCommand::Play);
    sched.next_samples(22049);
    assert_eq!(sched.current_frame(), 22049);
    assert_eq!(sched.current_tick(), 119);
    sched.next_samples(1);
    assert_eq!(sched.current_frame(), 11025);
    assert_eq!(sched.current_tick(), 60);
    // the loop may overshoot by up to a buffer before it wraps
    sched.next_samples(20000);
    assert_eq!(sched.current_frame(), 11025);
}

#[test]
fn loop_with_unusable_points_is_ignored() {
    let (mut sched, _) = create_scheduler_with_channel();
    sched.process_command(SchedulerCommand::SetLoop {
        enabled: true,
        start: bbt(1, 1, 1),
        end: bbt(1, 2, 1),
    });
    assert!(sched.looping_enabled());
    // an end before the start, a zero bar, and a point past the counter
    for (start, end) in [
        (bbt(2, 1, 1), bbt(1, 1, 1)),
        (bbt(1, 1, 1), bbt(1, 1, 1)),
        (bbt(0, 1, 1), bbt(1, 2, 1)),
        (bbt(1, 1, 1), bbt(u64::MAX, 1, 1)),
    ] {
        sched.process_command(SchedulerCommand::SetLoop {
            enabled: true,
            start,
            end,
        });
        assert!(sched.looping_enabled());
        assert_eq!(sched.loop_start_frame(), 0);
        assert_eq!(sched.loop_end_frame(), 22050);
    }
    sched.process_command(SchedulerCommand::SetLoop {
        enabled: false,
        start: bbt(0, 0, 0),
        end: bbt(0, 0, 0),
    });
    assert!(!sched.looping_enabled());
    assert!(sched.loop_points().is_none());
    assert_eq!(sched.loop_end_frame(), 22050);
}

#[test]
fn tempo_that_no_clock_accepts_is_ignored() {
    let (mut sched, _) = create_scheduler_with_channel();
    sched.process_command(SchedulerCommand::Play);
    sched.next_samples(5513);
    sched.process_command(SchedulerCommand::SetTempo {
        bpm: 0,
        resolution: TickResolution::Quarter,
    });
    sched.process_command(SchedulerCommand::SetTempo {
        bpm: 120_000_000,
        resolution: TickResolution::PPQN(0),
    });
    assert_eq!(sched.current_tick(), 30);
    assert_eq!(sched.tempo_clock().ticks_per_beat(), 120);
}

#[test]
fn setting_a_tempo_twice_is_setting_it_once() {
    let (mut once, _) = create_scheduler_with_channel();
    let (mut twice, _) = create_scheduler_with_channel();
    for sched in [&mut once, &mut twice] {
        sched.process_command(SchedulerCommand::Play);
        sched.next_samples(777);
    }
    let tempo = || SchedulerCommand::SetTempo {
        bpm: 97_300_000,
        resolution: TickResolution::Eighth,
    };
    once.process_command(tempo());
    twice.process_command(tempo());
    twice.process_command(tempo());
    for sched in [&mut once, &mut twice] {
        sched.next_samples(1234);
    }
    assert_eq!(once.current_tick(), twice.current_tick());
    assert_eq!(once.tick_phase(), twice.tick_phase());
    assert_eq!(once.current_frame(), twice.current_frame());
    assert_eq!(once.current_frame(), 777 + 1234);
}

#[test]
fn schedule_order_does_not_change_the_mix() {
    let (mut one, _) = create_scheduler_with_channel();
    let (mut other, _) = create_scheduler_with_channel();
    let ramp = |scale: i32| {
        Track::Wav(WavTrack::from_raw_samples(
            (0..64).map(|i| (i * scale, -i * scale)).collect(),
        ))
    };
    one.schedule(ramp(i32::MAX / 64), 8);
    one.schedule(constant(i32::MAX, 3), 8);
    other.schedule(constant(i32::MAX, 3), 8);
    other.schedule(ramp(i32::MAX / 64), 8);
    for sched in [&mut one, &mut other] {
        sched.process_command(SchedulerCommand::Play);
    }
    for size in [5, 3, 1, 40, 100] {
        assert_eq!(one.next_samples(size), other.next_samples(size));
    }
}

#[test]
fn stop_track_leaves_waiting_tracks_of_that_name() {
    let (mut sched, _) = create_scheduler_with_channel();
    let named = |level: i32| {
        Track::GainPan(GainPanTrack::new(
            "twin",
            Box::new(constant(level, level)),
            2_000_000,
            0,
        ))
    };
    sched.schedule(named(100), 0);
    sched.schedule(named(1000), 10);
    sched.process_command(SchedulerCommand::Play);
    assert_eq!(sched.next_samples(1), vec![(100, 100)]);
    sched.process_command(SchedulerCommand::StopTrack {
        target_id: TrackId::new("twin"),
    });
    assert_eq!(sched.active_count(), 0);
    assert_eq!(sched.pending_count(), 1);
    assert_eq!(sched.next_samples(9), vec![(0, 0); 9]);
    assert_eq!(sched.next_samples(1), vec![(1000, 1000)]);
}

#[test]
fn commands_are_taken_in_order_up_to_the_cap() {
    let (producer, consumer) = RingBuffer::new(300);
    let mut producer: Producer<SchedulerCommand<Source>> = producer;
    let tempo_clock = TempoClock::new(120_000_000, 44100, TickResolution::Sixteenth);
    let mut sched = Scheduler::new(consumer, tempo_clock);
    for _ in 0..127 {
        producer.push(SchedulerCommand::Pause).unwrap();
    }
    producer.push(SchedulerCommand::Play).unwrap();
    producer.push(SchedulerCommand::Stop).unwrap();
    // the first buffer takes 128 commands and ends on Play
    sched.next_samples(16);
    assert_eq!(sched.current_frame(), 16);
    // the next takes the Stop that was left over
    sched.next_samples(16);
    assert_eq!(sched.current_frame(), 0);
}

#[test]
fn timeline_position_follows_frame_and_clock() {
    let (mut sched, _) = create_scheduler_with_channel();
    sched.process_command(SchedulerCommand::Play);
    // 133 ticks of 183.75 frames are 24438.75 frames
    sched.next_samples(24439);
    let position = sched.get_timeline_position();
    assert_eq!(position.current_frame, 24439);
    assert_eq!(position.tick, 133);
    assert_eq!(
        (position.bar, position.beat, position.tick_within_beat),
        (1, 2, 14)
    );
}

#[test]
fn schedule_clip_goes_to_the_named_timeline_track() {
    let (mut sched, _) = create_scheduler_with_channel();
    let audio: AudioTrack<Source> = AudioTrack::new("timeline");
    let id = audio.id();
    sched.schedule(Track::Audio(audio), 0);
    sched.schedule(constant(5, 5), 0);
    sched.process_command(SchedulerCommand::Play);
    assert_eq!(sched.next_samples(2), vec![(5, 5); 2]);
    let clip = |start: u64| {
        Clip::new_audio(
            ClipTiming {
                start_frame: start,
                duration_frames: 2,
            },
            Arc::new(ConstOneSource),
            0,
            false,
            1_000_000,
            0,
        )
    };
    sched.process_command(SchedulerCommand::ScheduleClip {
        track_id: id,
        clip: clip(3),
    });
    // a clip for a track that is not there changes nothing
    sched.process_command(SchedulerCommand::ScheduleClip {
        track_id: TrackId::new("nobody"),
        clip: clip(2),
    });
    assert_eq!(
        sched.next_samples(4),
        vec![(5, 5), (1_000_005, 1_000_005), (1_000_005, 1_000_005), (5, 5)]
    );
}

#[test]
fn loop_wraps_frame() {
    let (mut sched, _) = create_scheduler_with_channel();
    sched.process_command(SchedulerCommand::SetLoop {
        enabled: true,
        start: bbt(1, 1, 1),
        end: bbt(1, 2, 1),
    });
    assert_eq!(sched.loop_end_frame(), 22050);
    sched.process_command(SchedulerCommand::Play);
    sched.next_samples(22051);
    assert_eq!(sched.current_frame(), sched.loop_start_frame());
    assert_eq!(sched.current_frame(), 0);
    assert_eq!(sched.current_tick(), 0);
}

#[test]
fn musical_points_are_counted_in_ticks_and_frames() {
    let (sched, _) = create_scheduler_with_channel();
    let points = audio_engine::scheduler::LoopPoints {
        start_bar: 2,
        start_beat: 3,
        start_tick: 4,
        end_bar: 1,
        end_beat: 1,
        end_tick: 0,
    };
    // one bar of 480 ticks, two beats of 120 ticks, three ticks
    assert_eq!(sched.bbt_to_tick_count(&points, true), Some(723));
    assert_eq!(sched.bbt_to_tick_count(&points, false), None);
    // 723 ticks of 183.75 frames are 132851.25 frames
    assert_eq!(sched.frame_at_tick(723), Some(132851));
    assert_eq!(sched.frame_at_tick(1), Some(184));
    // 367.5 frames: the half goes upward
    assert_eq!(sched.frame_at_tick(2), Some(368));
    assert_eq!(sched.frame_at_tick(0), Some(0));
    assert_eq!(sched.frame_at_tick(u64::MAX), None);
}

#[test]
fn render_does_not_look_at_the_queue() {
    let (mut sched, mut prod) = create_scheduler_with_channel();
    prod.push(SchedulerCommand::Play).unwrap();
    assert_eq!(sched.render(3), vec![(0, 0); 3]);
    assert_eq!(sched.current_frame(), 0);
    sched.drain_commands();
    sched.render(3);
    assert_eq!(sched.current_frame(), 3);
}
