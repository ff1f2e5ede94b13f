//! The scheduler: transport, pending and active tracks, and the mix.

use vstd::prelude::*;
use crate::clip::source::ClipSource;
use crate::clip::Clip;
use crate::mixer::{all_advanced, mix_tracks_into, mixed_frame};
use crate::sample::{silent_frames, Frame};
use crate::scheduler::command::{
    pop_command,
    LoopOptions,
    ParameterChange,
    SchedulerCommand,
    SchedulerCommandConsumer,
};
use crate::scheduler::track::ScheduledTrack;
use crate::seq_facts::{
    ascending,
    first_later,
    first_match,
    later_than,
    lemma_filter_step,
    lemma_first_match_bounds,
    lemma_first_match_unique,
};
use crate::track::timeline::sorted_by_start;
use crate::track::{silent_buffer, Track, TrackId};
use crate::transport::clock::{ClockModel, TempoClock, TimeSignature};
use crate::transport::resolution::TickResolution;
use crate::transport::timeline::TimelinePosition;
use crate::transport::TransportState;

pub mod command;
pub mod laws;
pub mod track;

verus! {

/// The most commands one buffer takes off the queue, so that a busy
/// producer cannot starve the audio.
pub const MAX_COMMANDS_PER_FILL: usize = 128;

/// The buffer size that a new scheduler has working space for; larger
/// buffers make it grow once.
pub const DEFAULT_BUFFER_FRAMES: usize = 4096;

/// The two ends of a loop in musical time.
#[derive(Debug, Clone, Copy, PartialEq, Eq, Structural)]
pub struct LoopPoints {
    pub start_bar: u64,
    pub start_beat: u64,
    pub start_tick: u64,
    pub end_bar: u64,
    pub end_beat: u64,
    pub end_tick: u64,
}

/// The mathematical state of a scheduler.
pub struct SchedulerModel<S: ClipSource> {
    /// The tracks that wait for their start frame, earliest first; among
    /// tracks with the same start frame, the one scheduled first.
    pub pending: Seq<ScheduledTrack<S>>,
    /// The tracks in the mix, in the order in which they became active.
    pub active: Seq<Track<S>>,
    /// The position of the timeline.
    pub current_frame: nat,
    pub clock: ClockModel,
    /// The sample rate in hertz.
    pub sample_rate: nat,
    pub looping_enabled: bool,
    pub loop_points: Option<LoopPoints>,
    pub loop_start_frame: nat,
    pub loop_end_frame: nat,
    pub transport_state: TransportState,
}

/// The start frames of a list of waiting tracks.
pub open spec fn pending_starts<S: ClipSource>(pending: Seq<ScheduledTrack<S>>) -> Seq<u64> {
    Seq::new(pending.len(), |i: int| pending[i].start_frame)
}

/// The tracks of a list of waiting tracks.
pub open spec fn pending_tracks<S: ClipSource>(pending: Seq<ScheduledTrack<S>>) -> Seq<Track<S>> {
    Seq::new(pending.len(), |i: int| pending[i].track)
}

/// The test for a track named `target`.
pub open spec fn named<S: ClipSource>(target: Seq<char>) -> spec_fn(Track<S>) -> bool {
    |t: Track<S>| t.id_text() == target
}

/// The test for a track not named `target`.
pub open spec fn not_named<S: ClipSource>(target: Seq<char>) -> spec_fn(Track<S>) -> bool {
    |t: Track<S>| t.id_text() != target
}

/// The number of ticks from the start of the timeline to a one-based bar,
/// beat and tick.
pub open spec fn bbt_ticks(clock: ClockModel, point: LoopOptions) -> int {
    (point.bar - 1) * clock.ticks_per_bar() + (point.beat - 1) * clock.ticks_per_beat + (point.tick
        - 1)
}

/// Whether a point in musical time can be counted in ticks: its bar, beat
/// and tick are at least one, and the count fits the tick counter.
pub open spec fn bbt_valid(clock: ClockModel, point: LoopOptions) -> bool {
    &&& point.bar >= 1
    &&& point.beat >= 1
    &&& point.tick >= 1
    &&& bbt_ticks(clock, point) <= u64::MAX
}

/// The frame nearest to the start of tick number `ticks`: the tick count
/// times the length of a tick, rounded to the nearest whole frame, halves
/// upward.
pub open spec fn frame_of_ticks(clock: ClockModel, ticks: int) -> int {
    (2 * ticks * clock.tick_span() + clock.tick_rate()) / (2 * clock.tick_rate() as int)
}

/// Whether a loop between two points in musical time can be set: both
/// points can be counted in ticks, both land on frames within the frame
/// counter, and the start lies before the end.
pub open spec fn loop_accepted(clock: ClockModel, start: LoopOptions, end: LoopOptions) -> bool {
    &&& bbt_valid(clock, start)
    &&& bbt_valid(clock, end)
    &&& frame_of_ticks(clock, bbt_ticks(clock, end)) <= u64::MAX
    &&& frame_of_ticks(clock, bbt_ticks(clock, start)) < frame_of_ticks(
        clock,
        bbt_ticks(clock, end),
    )
}

impl<S: ClipSource> SchedulerModel<S> {
    /// Whether this state is one a scheduler can be in: the clock is
    /// valid, the counters fit, the waiting tracks are in order of start
    /// frame, a stopped transport stands at frame zero and tick zero with
    /// nothing in the mix, and an enabled loop starts before it ends.
    pub open spec fn valid(self) -> bool {
        &&& self.clock.valid()
        &&& self.current_frame <= u64::MAX
        &&& self.loop_start_frame <= u64::MAX
        &&& self.loop_end_frame <= u64::MAX
        &&& self.sample_rate <= u64::MAX
        &&& ascending(pending_starts(self.pending))
        &&& (self.transport_state == TransportState::Stopped ==> self.current_frame == 0
            && self.clock.tick == 0 && self.active.len() == 0)
        &&& (self.looping_enabled ==> self.loop_start_frame < self.loop_end_frame)
    }

    /// A stopped scheduler at frame zero around the given clock, set back
    /// to tick zero.
    pub open spec fn initial(clock: ClockModel) -> Self {
        SchedulerModel {
            pending: Seq::empty(),
            active: Seq::empty(),
            current_frame: 0,
            clock: clock.rewound(),
            sample_rate: clock.sample_rate,
            looping_enabled: false,
            loop_points: None,
            loop_start_frame: 0,
            loop_end_frame: 0,
            transport_state: TransportState::Stopped,
        }
    }

    /// The state with `track` waiting for `start_frame`: it joins the
    /// waiting tracks after every track that starts no later.
    pub open spec fn scheduled(self, track: Track<S>, start_frame: u64) -> Self {
        SchedulerModel {
            pending: self.pending.insert(
                first_later(pending_starts(self.pending), start_frame),
                ScheduledTrack { track, start_frame },
            ),
            ..self
        }
    }

    /// Whether `next` is this state with `clip` added to the first active
    /// track named `track_id`: where that track plays a timeline, the clip
    /// joins its clips, which are put in order of their start frames, and
    /// nothing else changes; where there is no such track, nothing changes
    /// at all.
    pub open spec fn clip_added(self, track_id: Seq<char>, clip: Clip<S>, next: Self) -> bool {
        let at = first_match(self.active, named(track_id));
        if at < self.active.len() && self.active[at] is Audio {
            &&& next == (SchedulerModel { active: next.active, ..self })
            &&& next.active.len() == self.active.len()
            &&& forall|i: int|
                0 <= i < self.active.len() && i != at ==> #[trigger] next.active[i]
                    == self.active[i]
            &&& match (self.active[at], next.active[at]) {
                (Track::Audio(before), Track::Audio(after)) => {
                    &&& after.id == before.id
                    &&& after.name == before.name
                    &&& after.current_frame == before.current_frame
                    &&& after.playing == before.playing
                    &&& after.timeline.id == before.timeline.id
                    &&& after.timeline.name == before.timeline.name
                    &&& after.timeline.clips@ == sorted_by_start(before.timeline.clips@.push(clip))
                },
                _ => false,
            }
        } else {
            next == self
        }
    }

    /// The state after a parameter change addressed to `target` has gone to
    /// every active track.
    pub open spec fn with_param(self, target: Seq<char>, change: ParameterChange) -> Self {
        SchedulerModel {
            active: Seq::new(
                self.active.len(),
                |i: int| self.active[i].with_param(target, change),
            ),
            ..self
        }
    }

    /// The state without the active tracks named `target`. Waiting tracks
    /// of that name stay.
    pub open spec fn without_track(self, target: Seq<char>) -> Self {
        SchedulerModel { active: self.active.filter(not_named(target)), ..self }
    }

    /// The state with the first active track named `target` restarted.
    pub open spec fn with_restart(self, target: Seq<char>) -> Self {
        let at = first_match(self.active, named(target));
        if at < self.active.len() {
            SchedulerModel { active: self.active.update(at, self.active[at].restarted()), ..self }
        } else {
            self
        }
    }

    /// The state after a tempo change: a new running clock at tick zero in
    /// four-four time, where tempo and resolution are ones a clock accepts;
    /// else unchanged. The timeline position stays.
    pub open spec fn with_tempo(self, bpm: u64, resolution: TickResolution) -> Self {
        let signature = TimeSignature { beats_per_bar: 4, beat_unit: 4 };
        if ClockModel::valid_setup(bpm as nat, self.sample_rate, resolution.ticks(), signature) {
            SchedulerModel {
                clock: ClockModel::fresh(
                    bpm as nat,
                    self.sample_rate,
                    resolution.ticks(),
                    signature,
                ),
                ..self
            }
        } else {
            self
        }
    }

    /// The state after a loop command. Switching the loop off clears its
    /// musical end points and keeps the frames. Switching it on between
    /// two points that make an acceptable loop stores the points and the
    /// frames they fall on at the present tempo; points that do not are
    /// ignored.
    pub open spec fn with_loop(self, enabled: bool, start: LoopOptions, end: LoopOptions) -> Self {
        if !enabled {
            SchedulerModel { looping_enabled: false, loop_points: None, ..self }
        } else if loop_accepted(self.clock, start, end) {
            SchedulerModel {
                looping_enabled: true,
                loop_points: Some(
                    LoopPoints {
                        start_bar: start.bar,
                        start_beat: start.beat,
                        start_tick: start.tick,
                        end_bar: end.bar,
                        end_beat: end.beat,
                        end_tick: end.tick,
                    },
                ),
                loop_start_frame: frame_of_ticks(self.clock, bbt_ticks(self.clock, start)) as nat,
                loop_end_frame: frame_of_ticks(self.clock, bbt_ticks(self.clock, end)) as nat,
                ..self
            }
        } else {
            self
        }
    }

    /// The state with the transport playing and the clock running.
    pub open spec fn played(self) -> Self {
        SchedulerModel {
            transport_state: TransportState::Playing,
            clock: self.clock.started(),
            ..self
        }
    }

    /// The state with the transport paused; position and clock stay.
    pub open spec fn paused(self) -> Self {
        SchedulerModel { transport_state: TransportState::Paused, ..self }
    }

    /// The state with the transport stopped: the timeline back at frame
    /// zero, the clock at tick zero, and neither active nor waiting tracks.
    pub open spec fn stopped(self) -> Self {
        SchedulerModel {
            transport_state: TransportState::Stopped,
            current_frame: 0,
            clock: self.clock.rewound(),
            active: Seq::empty(),
            pending: Seq::empty(),
            ..self
        }
    }

    /// The state after a command other than one that adds a clip.
    pub open spec fn applied(self, cmd: SchedulerCommand<S>) -> Self {
        match cmd {
            SchedulerCommand::ScheduleTrack { track, start_frame } => self.scheduled(
                track,
                start_frame,
            ),
            SchedulerCommand::ScheduleClip { track_id, clip } => self,
            SchedulerCommand::ParamChange { target_id, change } => self.with_param(
                target_id@,
                change,
            ),
            SchedulerCommand::StopTrack { target_id } => self.without_track(target_id@),
            SchedulerCommand::RestartTrack { target_id } => self.with_restart(target_id@),
            SchedulerCommand::SetTempo { bpm, resolution } => self.with_tempo(bpm, resolution),
            SchedulerCommand::SetLoop { enabled, start, end } => self.with_loop(
                enabled,
                start,
                end,
            ),
            SchedulerCommand::Play => self.played(),
            SchedulerCommand::Pause => self.paused(),
            SchedulerCommand::Stop => self.stopped(),
        }
    }

    /// Whether `next` is the state that follows this one on `cmd`.
    pub open spec fn follows(self, cmd: SchedulerCommand<S>, next: Self) -> bool {
        match cmd {
            SchedulerCommand::ScheduleClip { track_id, clip } => self.clip_added(
                track_id@,
                clip,
                next,
            ),
            _ => next == self.applied(cmd),
        }
    }

    /// Whether `last` is reached from this state by the commands of `cmds`,
    /// taken in order.
    pub open spec fn reaches(self, cmds: Seq<SchedulerCommand<S>>, last: Self) -> bool
        decreases cmds.len(),
    {
        if cmds.len() == 0 {
            last == self
        } else {
            exists|mid: Self|
                self.reaches(cmds.drop_last(), mid) && #[trigger] mid.follows(cmds.last(), last)
        }
    }

    /// Whether `last` is reached from this state by some run of commands
    /// that one buffer may take off the queue.
    pub open spec fn drains_to(self, last: Self) -> bool {
        exists|cmds: Seq<SchedulerCommand<S>>|
            cmds.len() <= MAX_COMMANDS_PER_FILL && #[trigger] self.reaches(cmds, last)
    }

    /// The number of waiting tracks that are due: those at the head of the
    /// queue that start no later than the timeline position.
    pub open spec fn due(self) -> int {
        first_later(pending_starts(self.pending), self.current_frame as u64)
    }

    /// The state with the due tracks moved from the queue to the mix, in
    /// their order in the queue.
    pub open spec fn promoted(self) -> Self {
        SchedulerModel {
            active: self.active + pending_tracks(self.pending.subrange(0, self.due())),
            pending: self.pending.subrange(self.due(), self.pending.len() as int),
            ..self
        }
    }

    /// The timeline position `n` frames on; it holds at the largest frame
    /// number.
    pub open spec fn frame_after(self, n: nat) -> nat {
        if self.current_frame + n > u64::MAX {
            u64::MAX as nat
        } else {
            self.current_frame + n
        }
    }

    /// Whether the timeline wraps to the loop start once this buffer of
    /// `n` frames is through.
    pub open spec fn wraps(self, n: nat) -> bool {
        self.looping_enabled && self.frame_after(n) >= self.loop_end_frame
    }

    /// The state after a buffer of `n` frames. While the transport is not
    /// playing nothing moves. While it plays, the due tracks join the mix,
    /// every track in the mix gives `n` frames, and clock and timeline
    /// move on by `n`; where that takes the timeline to the loop end or
    /// past it, the timeline goes back to the loop start and the clock to
    /// the tick count of that frame.
    pub open spec fn rendered(self, n: nat) -> Self {
        if self.transport_state != TransportState::Playing {
            self
        } else {
            let p = self.promoted();
            SchedulerModel {
                active: all_advanced(p.active, n),
                current_frame: if self.wraps(n) {
                    self.loop_start_frame
                } else {
                    self.frame_after(n)
                },
                clock: if self.wraps(n) {
                    self.clock.advanced(n).rewound().advanced(self.loop_start_frame)
                } else {
                    self.clock.advanced(n)
                },
                ..p
            }
        }
    }

    /// The frames a buffer of `n` frames holds: silence while the transport
    /// is not playing, else the mix of the tracks that are active once the
    /// due tracks have joined.
    pub open spec fn output(self, n: nat) -> Seq<Frame> {
        if self.transport_state != TransportState::Playing {
            silent_frames(n)
        } else {
            Seq::new(n, |k: int| mixed_frame(self.promoted().active, k as nat))
        }
    }

    /// The state after a run of buffers of the given sizes, with no
    /// commands in between.
    pub open spec fn played_through(self, sizes: Seq<nat>) -> Self
        decreases sizes.len(),
    {
        if sizes.len() == 0 {
            self
        } else {
            self.played_through(sizes.drop_last()).rendered(sizes.last())
        }
    }

    /// The musical position of this state.
    pub open spec fn position(self) -> TimelinePosition {
        let bbt = self.clock.bar_beat_tick();
        TimelinePosition {
            bar: bbt.0 as u64,
            beat: bbt.1 as u64,
            tick: self.clock.tick as u64,
            current_frame: self.current_frame as u64,
            tick_within_beat: bbt.2 as u64,
        }
    }
}

} // verus!

verus! {

/// A list of start frames stays in order when a new one joins it after
/// every start that is no later.
pub proof fn lemma_insert_keeps_ascending(starts: Seq<u64>, start: u64)
    requires
        ascending(starts),
    ensures
        0 <= first_later(starts, start) <= starts.len(),
        ascending(starts.insert(first_later(starts, start), start)),
{
    lemma_first_match_bounds(starts, later_than(start));
    let at = first_later(starts, start);
    let after = starts.insert(at, start);
    assert forall|i: int, j: int| 0 <= i <= j < after.len() implies after[i] <= after[j] by {
        if at < starts.len() {
            assert(later_than(start)(starts[at]));
        }
        if i < at {
            assert(!later_than(start)(starts[i]));
        }
        if j < at {
            assert(!later_than(start)(starts[j]));
        }
    }
}

/// Plays scheduled tracks along a timeline and mixes them, under the
/// control of commands that arrive on a queue.
#[verifier::reject_recursive_types(S)]
pub struct Scheduler<S: ClipSource> {
    /// The tracks that wait for their start frame, earliest first.
    scheduled: Vec<ScheduledTrack<S>>,
    /// The tracks that play.
    active_tracks: Vec<Track<S>>,
    /// The timeline position; it starts at zero.
    current_frame: u64,
    automation_events: SchedulerCommandConsumer<S>,
    tempo_clock: TempoClock,
    /// The sample rate in hertz, taken from the clock the scheduler was
    /// made with.
    sample_rate: u64,
    looping_enabled: bool,
    loop_points: Option<LoopPoints>,
    loop_start_frame: u64,
    loop_end_frame: u64,
    transport_state: TransportState,
    /// Working space for the mix, kept between buffers.
    mix_sums: Vec<(i128, i128)>,
    /// Working space for one track's frames, kept between buffers.
    scratch: Vec<Frame>,
}

impl<S: ClipSource> View for Scheduler<S> {
    type V = SchedulerModel<S>;

    closed spec fn view(&self) -> SchedulerModel<S> {
        SchedulerModel {
            pending: self.scheduled@,
            active: self.active_tracks@,
            current_frame: self.current_frame as nat,
            clock: self.tempo_clock@,
            sample_rate: self.sample_rate as nat,
            looping_enabled: self.looping_enabled,
            loop_points: self.loop_points,
            loop_start_frame: self.loop_start_frame as nat,
            loop_end_frame: self.loop_end_frame as nat,
            transport_state: self.transport_state,
        }
    }
}

impl<S: ClipSource> Scheduler<S> {
    /// A stopped scheduler at frame zero that takes its commands from
    /// `consumer` and keeps time with `tempo_clock`, set back to tick zero.
    pub fn new(consumer: SchedulerCommandConsumer<S>, tempo_clock: TempoClock) -> (scheduler: Self)
        ensures
            scheduler@ == SchedulerModel::<S>::initial(tempo_clock@),
            scheduler@.valid(),
    {
        let mut tempo_clock = tempo_clock;
        tempo_clock.reset();
        let ghost clock = tempo_clock@;
        let sample_rate: u64 = tempo_clock.sample_rate();
        proof {
            use_type_invariant(&tempo_clock);
        }
        let scheduler = Self {
            scheduled: Vec::new(),
            active_tracks: Vec::new(),
            current_frame: 0,
            automation_events: consumer,
            sample_rate,
            tempo_clock,
            looping_enabled: false,
            loop_points: None,
            loop_start_frame: 0,
            loop_end_frame: 0,
            transport_state: TransportState::Stopped,
            mix_sums: Vec::with_capacity(DEFAULT_BUFFER_FRAMES),
            scratch: Vec::with_capacity(DEFAULT_BUFFER_FRAMES),
        };
        assert(scheduler@.pending =~= Seq::empty());
        assert(scheduler@.active =~= Seq::empty());
        scheduler
    }

    /// Puts `track` in the queue of waiting tracks, to become active once
    /// the timeline has reached `start_frame`.
    pub fn schedule(&mut self, track: Track<S>, start_frame: u64)
        requires
            old(self)@.valid(),
        ensures
            final(self)@ == old(self)@.scheduled(track, start_frame),
            final(self)@.valid(),
    {
        let mut at: usize = 0;
        while at < self.scheduled.len() && self.scheduled[at].start_frame <= start_frame
            invariant
                *self == *old(self),
                at <= self.scheduled.len(),
                forall|j: int| 0 <= j < at ==> self.scheduled@[j].start_frame <= start_frame,
            decreases self.scheduled.len() - at,
        {
            at = at + 1;
        }
        proof {
            let starts = pending_starts(self.scheduled@);
            assert forall|j: int| 0 <= j < at implies !later_than(start_frame)(
                #[trigger] starts[j],
            ) by {
                assert(starts[j] == self.scheduled@[j].start_frame);
            }
            lemma_first_match_unique(starts, later_than(start_frame), at as int);
            lemma_insert_keeps_ascending(starts, start_frame);
            assert(pending_starts(
                self.scheduled@.insert(at as int, ScheduledTrack { track, start_frame }),
            ) =~= starts.insert(at as int, start_frame));
        }
        self.scheduled.insert(at, ScheduledTrack { track, start_frame });
    }

    /// Applies one command.
    pub fn process_command(&mut self, cmd: SchedulerCommand<S>)
        requires
            old(self)@.valid(),
        ensures
            old(self)@.follows(cmd, final(self)@),
            final(self)@.valid(),
    {
        match cmd {
            SchedulerCommand::ScheduleTrack { track, start_frame } => {
                self.schedule(track, start_frame)
            },
            SchedulerCommand::ScheduleClip { track_id, clip } => {
                self.schedule_clip(track_id, clip);
            },
            SchedulerCommand::ParamChange { target_id, change } => {
                self.change_param(target_id, change);
            },
            SchedulerCommand::StopTrack { target_id } => {
                self.stop_track(target_id);
            },
            SchedulerCommand::RestartTrack { target_id } => {
                self.restart_track(target_id);
            },
            SchedulerCommand::SetTempo { bpm, resolution } => {
                if TempoClock::accepts(bpm, self.sample_rate, &resolution) {
                    self.tempo_clock = TempoClock::new(bpm, self.sample_rate, resolution);
                }
            },
            SchedulerCommand::SetLoop { enabled, start, end } => {
                self.set_loop(enabled, start, end);
            },
            SchedulerCommand::Play => {
                self.transport_state = TransportState::Playing;
                self.tempo_clock.start();
            },
            SchedulerCommand::Pause => {
                self.transport_state = TransportState::Paused;
            },
            SchedulerCommand::Stop => {
                self.transport_state = TransportState::Stopped;
                self.current_frame = 0;
                self.tempo_clock.reset();
                self.active_tracks.clear();
                self.scheduled.clear();
                assert(self@.active =~= Seq::empty());
                assert(self@.pending =~= Seq::empty());
            },
        }
    }

    /// The index of the first active track named `target`, or the number
    /// of active tracks where there is none.
    fn find_active(&self, target: &TrackId) -> (at: usize)
        ensures
            at == first_match(self@.active, named(target@)),
            at <= self@.active.len(),
    {
        let mut at: usize = 0;
        while at < self.active_tracks.len() && !self.active_tracks[at].has_id(target)
            invariant
                at <= self.active_tracks@.len(),
                forall|j: int|
                    0 <= j < at ==> !named::<S>(target@)(#[trigger] self.active_tracks@[j]),
            decreases self.active_tracks.len() - at,
        {
            at = at + 1;
        }
        proof {
            lemma_first_match_unique(self.active_tracks@, named(target@), at as int);
        }
        at
    }

    /// Adds `clip` to the first active track named `track_id`, where that
    /// track plays a timeline.
    pub fn schedule_clip(&mut self, track_id: TrackId, clip: Clip<S>)
        requires
            old(self)@.valid(),
        ensures
            old(self)@.clip_added(track_id@, clip, final(self)@),
            final(self)@.valid(),
    {
        let at: usize = self.find_active(&track_id);
        if at < self.active_tracks.len() {
            match &mut self.active_tracks[at] {
                Track::Audio(audio) => {
                    audio.add_clip(clip);
                },
                _ => {},
            }
            assert(self@.active.len() == old(self)@.active.len());
            assert(old(self)@.active[at as int] is Audio ==> self@.active[at as int] is Audio);
            assert(!(old(self)@.active[at as int] is Audio) ==> self@.active =~= old(self)@.active);
        }
    }

    /// Hands a parameter change to every active track.
    pub fn change_param(&mut self, target_id: TrackId, change: ParameterChange)
        requires
            old(self)@.valid(),
        ensures
            final(self)@ == old(self)@.with_param(target_id@, change),
            final(self)@.valid(),
    {
        let mut i: usize = 0;
        while i < self.active_tracks.len()
            invariant
                i <= self.active_tracks@.len(),
                self@ == (SchedulerModel { active: self@.active, ..old(self)@ }),
                self@.active.len() == old(self)@.active.len(),
                forall|j: int|
                    0 <= j < i ==> #[trigger] self@.active[j] == old(self)@.active[j].with_param(
                        target_id@,
                        change,
                    ),
                forall|j: int|
                    i <= j < self@.active.len() ==> #[trigger] self@.active[j] == old(
                        self,
                    )@.active[j],
            decreases self.active_tracks.len() - i,
        {
            self.active_tracks[i].apply_param_change(&target_id, &change);
            i = i + 1;
        }
        assert(self@.active =~= old(self)@.with_param(target_id@, change).active);
    }

    /// Takes every active track named `target_id` out of the mix. Tracks
    /// of that name that still wait for their start frame stay in the queue.
    pub fn stop_track(&mut self, target_id: TrackId)
        requires
            old(self)@.valid(),
        ensures
            final(self)@ == old(self)@.without_track(target_id@),
            final(self)@.valid(),
    {
        let ghost before = self.active_tracks@;
        let ghost keep = not_named::<S>(target_id@);
        let ghost mut seen: int = 0;
        let mut at: usize = 0;
        while at < self.active_tracks.len()
            invariant
                self@ == (SchedulerModel { active: self@.active, ..old(self)@ }),
                before == old(self)@.active,
                keep == not_named::<S>(target_id@),
                0 <= seen <= before.len(),
                at == before.subrange(0, seen).filter(keep).len(),
                self@.active == before.subrange(0, seen).filter(keep) + before.subrange(
                    seen,
                    before.len() as int,
                ),
            decreases before.len() - seen,
        {
            proof {
                lemma_filter_step(before, keep, seen);
                assert(self.active_tracks@[at as int] == before[seen]);
            }
            if self.active_tracks[at].has_id(&target_id) {
                self.active_tracks.remove(at);
                proof {
                    assert(self.active_tracks@ =~= before.subrange(0, seen + 1).filter(keep)
                        + before.subrange(seen + 1, before.len() as int));
                    seen = seen + 1;
                }
            } else {
                proof {
                    assert(self.active_tracks@ =~= before.subrange(0, seen + 1).filter(keep)
                        + before.subrange(seen + 1, before.len() as int));
                    seen = seen + 1;
                }
                at = at + 1;
            }
        }
        proof {
            assert(seen == before.len()) by {
                before.subrange(0, seen).lemma_filter_len(keep);
            }
            assert(before.subrange(0, seen) =~= before);
            assert(self.active_tracks@ =~= before.filter(keep));
            before.lemma_filter_len(keep);
        }
    }

    /// Restarts the first active track named `target_id`.
    pub fn restart_track(&mut self, target_id: TrackId)
        requires
            old(self)@.valid(),
        ensures
            final(self)@ == old(self)@.with_restart(target_id@),
            final(self)@.valid(),
    {
        let at: usize = self.find_active(&target_id);
        if at < self.active_tracks.len() {
            self.active_tracks[at].reset();
            assert(self@.active =~= old(self)@.active.update(
                at as int,
                old(self)@.active[at as int].restarted(),
            ));
        }
    }

    /// Switches looping on between two points in musical time, or off.
    pub fn set_loop(&mut self, enabled: bool, start: LoopOptions, end: LoopOptions)
        requires
            old(self)@.valid(),
        ensures
            final(self)@ == old(self)@.with_loop(enabled, start, end),
            final(self)@.valid(),
    {
        if !enabled {
            self.looping_enabled = false;
            self.loop_points = None;
            return ;
        }
        let ghost clock = self@.clock;
        let loop_points = LoopPoints {
            start_bar: start.bar,
            start_beat: start.beat,
            start_tick: start.tick,
            end_bar: end.bar,
            end_beat: end.beat,
            end_tick: end.tick,
        };

        let start_ticks: Option<u64> = self.bbt_to_tick_count(&loop_points, true);
        let end_ticks: Option<u64> = self.bbt_to_tick_count(&loop_points, false);
        proof {
            lemma_bbt_ticks_nonnegative(clock, start);
            lemma_bbt_ticks_nonnegative(clock, end);
        }
        let (start_ticks, end_ticks): (u64, u64) = match (start_ticks, end_ticks) {
            (Some(start_ticks), Some(end_ticks)) => (start_ticks, end_ticks),
            _ => {
                assert(!loop_accepted(clock, start, end));
                return ;
            },
        };
        assert(start_ticks == bbt_ticks(clock, start));
        assert(end_ticks == bbt_ticks(clock, end));
        let end_frame: u64 = match self.frame_at_tick(end_ticks) {
            Some(frame) => frame,
            None => {
                assert(!loop_accepted(clock, start, end));
                return ;
            },
        };
        let start_frame: u64 = match self.frame_at_tick(start_ticks) {
            Some(frame) => frame,
            None => {
                assert(!loop_accepted(clock, start, end));
                return ;
            },
        };
        if start_frame >= end_frame {
            assert(!loop_accepted(clock, start, end));
            return ;
        }
        assert(loop_accepted(clock, start, end));
        self.looping_enabled = true;
        self.loop_points = Some(loop_points);
        self.loop_start_frame = start_frame;
        self.loop_end_frame = end_frame;
    }

    /// The number of ticks from the start of the timeline to the start of
    /// the loop (`start` set) or its end; `None` where the point has a bar,
    /// beat or tick of zero or lies past what the tick counter can hold.
    pub fn bbt_to_tick_count(&self, loop_points: &LoopPoints, start: bool) -> (ticks: Option<u64>)
        ensures
            ({
                let point = if start {
                    LoopOptions {
                        bar: loop_points.start_bar,
                        beat: loop_points.start_beat,
                        tick: loop_points.start_tick,
                    }
                } else {
                    LoopOptions {
                        bar: loop_points.end_bar,
                        beat: loop_points.end_beat,
                        tick: loop_points.end_tick,
                    }
                };
                ticks == if bbt_valid(self@.clock, point) {
                    Some(bbt_ticks(self@.clock, point) as u64)
                } else {
                    None::<u64>
                }
            }),
    {
        let (bar, beat, tick): (u64, u64, u64) = if start {
            (loop_points.start_bar, loop_points.start_beat, loop_points.start_tick)
        } else {
            (loop_points.end_bar, loop_points.end_beat, loop_points.end_tick)
        };
        if bar == 0 || beat == 0 || tick == 0 {
            return None;
        }
        let ticks_per_beat: u128 = self.tempo_clock.ticks_per_beat() as u128;
        let beats_per_bar: u128 = self.tempo_clock.time_signature().beats_per_bar as u128;
        assert(ticks_per_beat * beats_per_bar <= 0xffff_ffff * 0xffff_ffff) by (nonlinear_arith)
            requires
                0 <= ticks_per_beat <= 0xffff_ffff,
                0 <= beats_per_bar <= 0xffff_ffff,
        ;
        let ticks_per_bar: u128 = ticks_per_beat * beats_per_bar;
        let bars: u128 = (bar - 1) as u128;
        let beats: u128 = (beat - 1) as u128;
        assert(bars * ticks_per_bar <= 0xffff_ffff_ffff_ffff * (0xffff_ffff * 0xffff_ffff))
            by (nonlinear_arith)
            requires
                0 <= bars <= 0xffff_ffff_ffff_ffff,
                0 <= ticks_per_bar <= 0xffff_ffff * 0xffff_ffff,
        ;
        assert(beats * ticks_per_beat <= 0xffff_ffff_ffff_ffff * 0xffff_ffff) by (nonlinear_arith)
            requires
                0 <= beats <= 0xffff_ffff_ffff_ffff,
                0 <= ticks_per_beat <= 0xffff_ffff,
        ;
        let total_ticks: u128 = (bars * ticks_per_bar) + (beats * ticks_per_beat) + (tick
            - 1) as u128;
        if total_ticks > u64::MAX as u128 {
            None
        } else {
            Some(total_ticks as u64)
        }
    }

    /// The frame nearest to the start of tick number `ticks` at the
    /// present tempo; `None` where it lies past what the frame counter can
    /// hold.
    pub fn frame_at_tick(&self, ticks: u64) -> (frame: Option<u64>)
        ensures
            0 <= frame_of_ticks(self@.clock, ticks as int),
            frame == if frame_of_ticks(self@.clock, ticks as int) <= u64::MAX {
                Some(frame_of_ticks(self@.clock, ticks as int) as u64)
            } else {
                None::<u64>
            },
    {
        let (span, rate): (u64, u64) = self.tempo_clock.samples_per_tick();
        let span: u128 = span as u128;
        let rate: u128 = rate as u128;
        let ticks: u128 = ticks as u128;
        proof {
            use_type_invariant(&self.tempo_clock);
            assert(span <= 0xffff_ffff * 60_000_000) by (nonlinear_arith)
                requires
                    span == self@.clock.sample_rate * 60 * 1_000_000,
                    self@.clock.sample_rate <= 0xffff_ffff,
            ;
        }
        assert(2 * ticks * span <= 2 * 0xffff_ffff_ffff_ffff * (0xffff_ffff * 60_000_000))
            by (nonlinear_arith)
            requires
                0 <= ticks <= 0xffff_ffff_ffff_ffff,
                0 <= span <= 0xffff_ffff * 60_000_000,
        ;
        let doubled: u128 = 2 * ticks * span + rate;
        let frame: u128 = doubled / (2 * rate);
        if frame > u64::MAX as u128 {
            None
        } else {
            Some(frame as u64)
        }
    }

    /// Takes the commands that wait on the queue, at most
    /// `MAX_COMMANDS_PER_FILL` of them, and applies each in order.
    pub fn drain_commands(&mut self)
        requires
            old(self)@.valid(),
        ensures
            final(self)@.valid(),
            old(self)@.drains_to(final(self)@),
    {
        let ghost mut cmds: Seq<SchedulerCommand<S>> = Seq::empty();
        let mut taken: usize = 0;
        while taken < MAX_COMMANDS_PER_FILL
            invariant
                taken <= MAX_COMMANDS_PER_FILL,
                cmds.len() == taken,
                self@.valid(),
                old(self)@.reaches(cmds, self@),
            decreases MAX_COMMANDS_PER_FILL - taken,
        {
            let next: Option<SchedulerCommand<S>> = pop_command(&mut self.automation_events);
            match next {
                Some(cmd) => {
                    let ghost before = self@;
                    let ghost earlier = cmds;
                    let ghost taken_cmd = cmd;
                    self.process_command(cmd);
                    proof {
                        cmds = earlier.push(taken_cmd);
                        assert(cmds.drop_last() =~= earlier);
                        assert(cmds.last() == taken_cmd);
                        assert(old(self)@.reaches(cmds.drop_last(), before) && before.follows(
                            cmds.last(),
                            self@,
                        ));
                    }
                },
                None => {
                    break ;
                },
            }
            taken = taken + 1;
        }
    }

    /// Fills the first `frame_count` frames of `buffer`: takes the
    /// commands that wait on the queue, so that they take effect before any
    /// frame of this buffer, and then produces the frames.
    pub fn fill(&mut self, buffer: &mut [Frame], frame_count: usize)
        requires
            old(self)@.valid(),
            frame_count <= old(buffer)@.len(),
        ensures
            final(self)@.valid(),
            final(buffer)@.len() == old(buffer)@.len(),
            exists|drained: SchedulerModel<S>|
                {
                    &&& #[trigger] old(self)@.drains_to(drained)
                    &&& final(self)@ == drained.rendered(frame_count as nat)
                    &&& final(buffer)@.subrange(0, frame_count as int) == drained.output(
                        frame_count as nat,
                    )
                },
            forall|k: int|
                frame_count <= k < old(buffer)@.len() ==> #[trigger] final(buffer)@[k] == old(
                    buffer,
                )@[k],
    {
        self.drain_commands();
        let ghost drained = self@;
        self.render_into(buffer, frame_count);
        assert(old(self)@.drains_to(drained));
    }

    /// Takes the commands that wait on the queue and then produces the next
    /// `frame_size` frames.
    pub fn next_samples(&mut self, frame_size: usize) -> (frames: Vec<Frame>)
        requires
            old(self)@.valid(),
        ensures
            final(self)@.valid(),
            frames@.len() == frame_size,
            exists|drained: SchedulerModel<S>|
                {
                    &&& #[trigger] old(self)@.drains_to(drained)
                    &&& final(self)@ == drained.rendered(frame_size as nat)
                    &&& frames@ == drained.output(frame_size as nat)
                },
    {
        let mut buffer: Vec<Frame> = silent_buffer(frame_size);
        self.drain_commands();
        let ghost drained = self@;
        self.render_into(buffer.as_mut_slice(), frame_size);
        assert(buffer@.subrange(0, frame_size as int) =~= buffer@);
        assert(old(self)@.drains_to(drained));
        buffer
    }

    /// Moves the waiting tracks that are due into the mix.
    fn promote(&mut self)
        requires
            old(self)@.valid(),
            old(self)@.transport_state == TransportState::Playing,
        ensures
            final(self)@ == old(self)@.promoted(),
            final(self)@.valid(),
    {
        let ghost before = self.scheduled@;
        let ghost active_before = self.active_tracks@;
        let ghost mut moved: int = 0;
        while self.scheduled.len() > 0 && self.scheduled[0].start_frame <= self.current_frame
            invariant
                self@ == (SchedulerModel {
                    pending: self@.pending,
                    active: self@.active,
                    ..old(self)@
                }),
                before == old(self)@.pending,
                active_before == old(self)@.active,
                0 <= moved <= before.len(),
                self@.pending == before.subrange(moved, before.len() as int),
                self@.active == active_before + pending_tracks(before.subrange(0, moved)),
                forall|j: int| 0 <= j < moved ==> before[j].start_frame <= self@.current_frame,
            decreases self.scheduled.len(),
        {
            let ScheduledTrack { track, .. } = self.scheduled.remove(0);
            self.active_tracks.push(track);
            proof {
                assert(self.scheduled@ =~= before.subrange(moved + 1, before.len() as int));
                assert(self.active_tracks@ =~= active_before + pending_tracks(
                    before.subrange(0, moved + 1),
                ));
                moved = moved + 1;
            }
        }
        proof {
            let starts = pending_starts(before);
            let frame = self.current_frame;
            assert forall|j: int| 0 <= j < moved implies !later_than(frame)(
                #[trigger] starts[j],
            ) by {
                assert(starts[j] == before[j].start_frame);
            }
            if moved < before.len() {
                assert(self.scheduled@[0] == before[moved]);
                assert(starts[moved] == before[moved].start_frame);
            }
            lemma_first_match_unique(starts, later_than(frame), moved);
            assert(pending_starts(self.scheduled@) =~= starts.subrange(
                moved,
                before.len() as int,
            ));
        }
    }

    /// Produces the next `frame_count` frames into the head of `buffer`
    /// without looking at the command queue: silence while the transport
    /// is not playing, else the mix of the active tracks, after which clock
    /// and timeline move on.
    pub fn render_into(&mut self, buffer: &mut [Frame], frame_count: usize)
        requires
            old(self)@.valid(),
            frame_count <= old(buffer)@.len(),
        ensures
            final(self)@ == old(self)@.rendered(frame_count as nat),
            final(self)@.valid(),
            final(buffer)@.len() == old(buffer)@.len(),
            final(buffer)@.subrange(0, frame_count as int) == old(self)@.output(
                frame_count as nat,
            ),
            forall|k: int|
                frame_count <= k < old(buffer)@.len() ==> #[trigger] final(buffer)@[k] == old(
                    buffer,
                )@[k],
    {
        match self.transport_state {
            TransportState::Playing => {},
            _ => {
                let mut k: usize = 0;
                while k < frame_count
                    invariant
                        k <= frame_count <= buffer@.len(),
                        buffer@.len() == old(buffer)@.len(),
                        forall|j: int| 0 <= j < k ==> #[trigger] buffer@[j] == (0i32, 0i32),
                        forall|j: int|
                            k <= j < buffer@.len() ==> #[trigger] buffer@[j] == old(buffer)@[j],
                    decreases frame_count - k,
                {
                    buffer[k] = (0, 0);
                    k = k + 1;
                }
                assert(buffer@.subrange(0, frame_count as int) =~= silent_frames(
                    frame_count as nat,
                ));
                return ;
            },
        }
        self.promote();

        mix_tracks_into(
            &mut self.active_tracks,
            buffer,
            frame_count,
            &mut self.mix_sums,
            &mut self.scratch,
        );
        assert(buffer@.subrange(0, frame_count as int) =~= old(self)@.output(frame_count as nat));

        // Advance the tempo clock by the number of frames processed
        self.tempo_clock.advance_by(frame_count as u64);
        if frame_count as u64 > u64::MAX - self.current_frame {
            self.current_frame = u64::MAX;
        } else {
            self.current_frame = self.current_frame + frame_count as u64;
        }
        // Loop wrap logic

        if self.looping_enabled && self.current_frame >= self.loop_end_frame {
            self.current_frame = self.loop_start_frame;
            self.tempo_clock.reset();
            self.tempo_clock.advance_by(self.current_frame);  // sync tick position to loop start
        }
        proof {
            use_type_invariant(&self.tempo_clock);
        }
    }

    /// Produces the next `frame_size` frames without looking at the
    /// command queue.
    pub fn render(&mut self, frame_size: usize) -> (frames: Vec<Frame>)
        requires
            old(self)@.valid(),
        ensures
            final(self)@ == old(self)@.rendered(frame_size as nat),
            frames@ == old(self)@.output(frame_size as nat),
            frames@.len() == frame_size,
            final(self)@.valid(),
    {
        let mut buffer: Vec<Frame> = silent_buffer(frame_size);
        self.render_into(buffer.as_mut_slice(), frame_size);
        assert(buffer@.subrange(0, frame_size as int) =~= buffer@);
        buffer
    }

    /// Whole ticks elapsed on the tempo clock.
    pub fn current_tick(&self) -> (tick: u64)
        ensures
            tick == self@.clock.tick,
    {
        self.tempo_clock.current_tick()
    }

    /// The elapsed fraction of the current tick, in millionths.
    pub fn tick_phase(&self) -> (phase: u64)
        ensures
            phase == self@.clock.tick_phase(),
    {
        self.tempo_clock.tick_phase()
    }

    /// The timeline position in frames.
    pub fn current_frame(&self) -> (frame: u64)
        ensures
            frame == self@.current_frame,
    {
        self.current_frame
    }

    pub fn transport_state(&self) -> (state: TransportState)
        ensures
            state == self@.transport_state,
    {
        self.transport_state
    }

    pub fn looping_enabled(&self) -> (enabled: bool)
        ensures
            enabled == self@.looping_enabled,
    {
        self.looping_enabled
    }

    pub fn loop_points(&self) -> (points: Option<LoopPoints>)
        ensures
            points == self@.loop_points,
    {
        self.loop_points
    }

    pub fn loop_start_frame(&self) -> (frame: u64)
        ensures
            frame == self@.loop_start_frame,
    {
        self.loop_start_frame
    }

    pub fn loop_end_frame(&self) -> (frame: u64)
        ensures
            frame == self@.loop_end_frame,
    {
        self.loop_end_frame
    }

    /// The clock the scheduler keeps time with.
    pub fn tempo_clock(&self) -> (clock: &TempoClock)
        ensures
            clock@ == self@.clock,
    {
        &self.tempo_clock
    }

    /// The number of tracks in the mix.
    pub fn active_count(&self) -> (count: usize)
        ensures
            count == self@.active.len(),
    {
        self.active_tracks.len()
    }

    /// The number of tracks that wait for their start frame.
    pub fn pending_count(&self) -> (count: usize)
        ensures
            count == self@.pending.len(),
    {
        self.scheduled.len()
    }

    /// Where the timeline stands, in frames and in musical coordinates.
    pub fn get_timeline_position(&self) -> (position: TimelinePosition)
        requires
            self@.clock.tick / self@.clock.ticks_per_bar() < u64::MAX,
        ensures
            position == self@.position(),
    {
        let (bar, beat, tick_within_beat): (u64, u64, u64) = self.tempo_clock.bar_beat_tick();
        let tick: u64 = self.current_tick();

        TimelinePosition { bar, beat, tick, current_frame: self.current_frame, tick_within_beat }
    }
}

/// A tick at or after the start of the timeline falls on a frame at or
/// after its start.
pub proof fn lemma_frame_of_ticks_nonnegative(clock: ClockModel, ticks: int)
    requires
        clock.valid(),
        ticks >= 0,
    ensures
        frame_of_ticks(clock, ticks) >= 0,
{
    let span: int = clock.tick_span() as int;
    let rate: int = clock.tick_rate() as int;
    assert(rate > 0) by (nonlinear_arith)
        requires
            rate == clock.bpm * clock.ticks_per_beat,
            clock.bpm >= 1,
            clock.ticks_per_beat >= 1,
    ;
    assert(2 * ticks * span + rate >= 0) by (nonlinear_arith)
        requires
            ticks >= 0,
            span >= 0,
            rate > 0,
    ;
    vstd::arithmetic::div_mod::lemma_div_pos_is_pos(2 * ticks * span + rate, 2 * rate);
}

/// A point with bar, beat and tick of at least one lies at or after the
/// start of the timeline.
pub proof fn lemma_bbt_ticks_nonnegative(clock: ClockModel, point: LoopOptions)
    ensures
        point.bar >= 1 && point.beat >= 1 && point.tick >= 1 ==> bbt_ticks(clock, point) >= 0,
{
    if point.bar >= 1 && point.beat >= 1 && point.tick >= 1 {
        assert((point.bar - 1) * clock.ticks_per_bar() >= 0) by (nonlinear_arith)
            requires
                point.bar >= 1,
                clock.ticks_per_bar() >= 0,
        ;
        assert((point.beat - 1) * clock.ticks_per_beat >= 0) by (nonlinear_arith)
            requires
                point.beat >= 1,
                clock.ticks_per_beat >= 0,
        ;
    }
}

} // verus!
