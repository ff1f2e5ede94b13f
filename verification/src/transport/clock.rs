//! The tempo clock: exact conversion between frames and musical ticks.
//!
//! The length of a tick is the rational number
//! `sample_rate * 60 / (bpm * ticks_per_beat)` samples. The clock keeps the
//! elapsed part of the current tick as a whole number of `1 / tick_rate`
//! samples, so advancing by any sequence of buffer sizes never drifts.

use vstd::prelude::*;
use vstd::arithmetic::div_mod::{
    lemma_div_pos_is_pos,
    lemma_fundamental_div_mod,
    lemma_hoist_over_denominator,
    lemma_mod_bound,
    lemma_mod_multiples_vanish,
};
use crate::sample::UNITY;
use crate::transport::resolution::TickResolution;

verus! {

/// The highest sample rate a clock accepts, in hertz.
pub const MAX_SAMPLE_RATE: u64 = 0xffff_ffff;

/// The highest tempo a clock accepts, in millionths of a beat per minute.
pub const MAX_BPM: u64 = 0xffff_ffff;

/// The finest tick resolution a clock accepts, in ticks per beat.
pub const MAX_TICKS_PER_BEAT: u64 = 0xffff_ffff;

/// The longest bar a clock accepts, in beats.
pub const MAX_BEATS_PER_BAR: u64 = 0xffff_ffff;

/// Beats per bar over the note value that counts as one beat.
#[derive(Debug, Clone, Copy, PartialEq, Eq, Structural)]
pub struct TimeSignature {
    pub beats_per_bar: u64,
    pub beat_unit: u64,
}

/// The mathematical state of a tempo clock.
pub struct ClockModel {
    /// Tempo in millionths of a beat per minute.
    pub bpm: nat,
    /// Sample rate in hertz.
    pub sample_rate: nat,
    pub ticks_per_beat: nat,
    pub time_signature: TimeSignature,
    /// The elapsed part of the current tick, in units of `1 / tick_rate()` samples.
    pub phase: nat,
    /// Whole ticks elapsed since the last reset.
    pub tick: nat,
    pub running: bool,
}

impl ClockModel {
    /// The numerator of the tick length: with `tick_rate()` as denominator it
    /// gives the number of samples in one tick.
    pub open spec fn tick_span(self) -> nat {
        self.sample_rate * 60 * (UNITY as nat)
    }

    /// The denominator of the tick length.
    pub open spec fn tick_rate(self) -> nat {
        self.bpm * self.ticks_per_beat
    }

    pub open spec fn ticks_per_bar(self) -> nat {
        self.ticks_per_beat * (self.time_signature.beats_per_bar as nat)
    }

    /// Whether tempo, rate, resolution and signature are ones a clock can be built from.
    pub open spec fn valid_setup(
        bpm: nat,
        sample_rate: nat,
        ticks_per_beat: nat,
        time_signature: TimeSignature,
    ) -> bool {
        &&& 1 <= bpm <= MAX_BPM
        &&& 1 <= sample_rate <= MAX_SAMPLE_RATE
        &&& 1 <= ticks_per_beat <= MAX_TICKS_PER_BEAT
        &&& 1 <= time_signature.beats_per_bar <= MAX_BEATS_PER_BAR
    }

    /// Whether this state is one a clock can be in.
    pub open spec fn valid(self) -> bool {
        &&& Self::valid_setup(self.bpm, self.sample_rate, self.ticks_per_beat, self.time_signature)
        &&& self.phase < self.tick_span()
        &&& self.tick <= u64::MAX
    }

    /// A running clock at tick zero.
    pub open spec fn fresh(
        bpm: nat,
        sample_rate: nat,
        ticks_per_beat: nat,
        time_signature: TimeSignature,
    ) -> ClockModel {
        ClockModel {
            bpm,
            sample_rate,
            ticks_per_beat,
            time_signature,
            phase: 0,
            tick: 0,
            running: true,
        }
    }

    /// The number of tick boundaries crossed by `samples` more samples.
    pub open spec fn emitted(self, samples: nat) -> nat {
        (self.phase + samples * self.tick_rate()) / self.tick_span()
    }

    /// The state after `samples` more samples. A stopped clock stays as it is;
    /// the tick counter holds at the largest value it can store.
    pub open spec fn advanced(self, samples: nat) -> ClockModel {
        if !self.running {
            self
        } else {
            ClockModel {
                phase: (self.phase + samples * self.tick_rate()) % self.tick_span(),
                tick: if self.tick + self.emitted(samples) > u64::MAX {
                    u64::MAX as nat
                } else {
                    self.tick + self.emitted(samples)
                },
                ..self
            }
        }
    }

    pub open spec fn started(self) -> ClockModel {
        ClockModel { running: true, ..self }
    }

    pub open spec fn stopped(self) -> ClockModel {
        ClockModel { running: false, ..self }
    }

    /// The state with position and tick counter back at zero.
    pub open spec fn rewound(self) -> ClockModel {
        ClockModel { phase: 0, tick: 0, ..self }
    }

    pub open spec fn with_tick(self, tick: nat) -> ClockModel {
        ClockModel { tick, ..self }
    }

    /// The one-based bar, beat and tick that the tick counter stands at.
    pub open spec fn bar_beat_tick(self) -> (nat, nat, nat) {
        let ticks_into_bar = self.tick % self.ticks_per_bar();
        (
            self.tick / self.ticks_per_bar() + 1,
            ticks_into_bar / self.ticks_per_beat + 1,
            ticks_into_bar % self.ticks_per_beat + 1,
        )
    }

    /// The elapsed fraction of the current tick, in millionths.
    pub open spec fn tick_phase(self) -> nat {
        self.phase * (UNITY as nat) / self.tick_span()
    }

    /// Advancing keeps a valid state valid.
    pub proof fn lemma_advanced_valid(self, samples: nat)
        requires
            self.valid(),
        ensures
            self.advanced(samples).valid(),
    {
        if self.running {
            lemma_mod_bound(
                (self.phase + samples * self.tick_rate()) as int,
                self.tick_span() as int,
            );
        }
    }

    /// The clock does not drift: advancing in two steps is advancing by
    /// their sum, whatever the steps are.
    pub proof fn lemma_advance_adds(self, a: nat, b: nat)
        requires
            self.valid(),
        ensures
            self.advanced(a).advanced(b) == self.advanced(a + b),
    {
        if self.running {
            let span: int = self.tick_span() as int;
            let rate: int = self.tick_rate() as int;
            let first: int = self.phase + a * rate;
            let quotient: int = first / span;
            let rest: int = first % span;
            lemma_fundamental_div_mod(first, span);
            lemma_mod_bound(first, span);
            assert(self.phase + (a + b) * rate == span * quotient + (rest + b * rate))
                by (nonlinear_arith)
                requires
                    first == self.phase + a * rate,
                    first == span * quotient + rest,
            ;
            lemma_mod_multiples_vanish(quotient, rest + b * rate, span);
            lemma_hoist_over_denominator(rest + b * rate, quotient, span as nat);
            assert(quotient * span == span * quotient) by (nonlinear_arith);
            assert(first >= 0) by (nonlinear_arith)
                requires
                    first == self.phase + a * rate,
                    self.phase >= 0,
                    a >= 0,
                    rate >= 0,
            ;
            lemma_div_pos_is_pos(first, span);
            assert(rest + b * rate >= 0) by (nonlinear_arith)
                requires
                    rest >= 0,
                    b >= 0,
                    rate >= 0,
            ;
            lemma_div_pos_is_pos(rest + b * rate, span);
            let once = self.advanced(a);
            assert(once.phase == rest);
            assert(once.emitted(b) == (rest + b * rate) / span);
            assert(self.emitted(a + b) == quotient + (rest + b * rate) / span);
            assert(self.advanced(a + b).phase == (rest + b * rate) % span);
        }
    }

    /// The elapsed fraction of a tick is below one.
    pub proof fn lemma_tick_phase_below_unity(self)
        requires
            self.valid(),
        ensures
            self.tick_phase() < UNITY,
    {
        let span: int = self.tick_span() as int;
        let unity: int = UNITY as int;
        let scaled: int = (self.phase * (UNITY as nat)) as int;
        assert(scaled < span * unity) by (nonlinear_arith)
            requires
                scaled == self.phase * unity,
                self.phase < span,
                unity > 0,
        ;
        lemma_fundamental_div_mod(scaled, span);
        assert(scaled / span < unity) by (nonlinear_arith)
            requires
                scaled == span * (scaled / span) + scaled % span,
                0 <= scaled % span,
                scaled < span * unity,
                span > 0,
        ;
    }
}

/// A clock that counts musical ticks as audio frames go by.
pub struct TempoClock {
    bpm: u64,
    sample_rate: u64,
    ticks_per_beat: u64,
    time_signature: TimeSignature,
    phase: u64,
    tick_counter: u64,
    running: bool,
}

impl View for TempoClock {
    type V = ClockModel;

    closed spec fn view(&self) -> ClockModel {
        ClockModel {
            bpm: self.bpm as nat,
            sample_rate: self.sample_rate as nat,
            ticks_per_beat: self.ticks_per_beat as nat,
            time_signature: self.time_signature,
            phase: self.phase as nat,
            tick: self.tick_counter as nat,
            running: self.running,
        }
    }
}

impl TempoClock {
    /// Every clock is in a valid state.
    #[verifier::type_invariant]
    pub open spec fn well_formed(self) -> bool {
        self@.valid()
    }

    /// Whether a clock in four-four time can be built from this tempo, rate
    /// and resolution.
    pub fn accepts(bpm: u64, sample_rate: u64, resolution: &TickResolution) -> (ok: bool)
        ensures
            ok == ClockModel::valid_setup(
                bpm as nat,
                sample_rate as nat,
                resolution.ticks(),
                TimeSignature { beats_per_bar: 4, beat_unit: 4 },
            ),
    {
        Self::accepts_signature(
            bpm,
            sample_rate,
            resolution,
            &TimeSignature { beats_per_bar: 4, beat_unit: 4 },
        )
    }

    /// Whether a clock can be built from this tempo, rate, resolution and
    /// time signature.
    pub fn accepts_signature(
        bpm: u64,
        sample_rate: u64,
        resolution: &TickResolution,
        time_signature: &TimeSignature,
    ) -> (ok: bool)
        ensures
            ok == ClockModel::valid_setup(
                bpm as nat,
                sample_rate as nat,
                resolution.ticks(),
                *time_signature,
            ),
    {
        let ticks_per_beat: u64 = resolution.ticks_per_beat();
        1 <= bpm && bpm <= MAX_BPM && 1 <= sample_rate && sample_rate <= MAX_SAMPLE_RATE && 1
            <= ticks_per_beat && ticks_per_beat <= MAX_TICKS_PER_BEAT && 1
            <= time_signature.beats_per_bar && time_signature.beats_per_bar <= MAX_BEATS_PER_BAR
    }

    /// A running clock in four-four time at tick zero. `bpm` is in millionths
    /// of a beat per minute, `sample_rate` in hertz.
    pub fn new(bpm: u64, sample_rate: u64, resolution: TickResolution) -> (clock: Self)
        requires
            ClockModel::valid_setup(
                bpm as nat,
                sample_rate as nat,
                resolution.ticks(),
                TimeSignature { beats_per_bar: 4, beat_unit: 4 },
            ),
        ensures
            clock@ == ClockModel::fresh(
                bpm as nat,
                sample_rate as nat,
                resolution.ticks(),
                TimeSignature { beats_per_bar: 4, beat_unit: 4 },
            ),
    {
        let time_signature = TimeSignature { beats_per_bar: 4, beat_unit: 4 };
        Self::with_signature(bpm, sample_rate, resolution, time_signature)
    }

    /// A running clock in the given time signature at tick zero.
    pub fn with_signature(
        bpm: u64,
        sample_rate: u64,
        resolution: TickResolution,
        time_signature: TimeSignature,
    ) -> (clock: Self)
        requires
            ClockModel::valid_setup(
                bpm as nat,
                sample_rate as nat,
                resolution.ticks(),
                time_signature,
            ),
        ensures
            clock@ == ClockModel::fresh(
                bpm as nat,
                sample_rate as nat,
                resolution.ticks(),
                time_signature,
            ),
    {
        let ticks_per_beat: u64 = resolution.ticks_per_beat();
        assert(0 < (sample_rate as nat) * 60 * (UNITY as nat)) by (nonlinear_arith)
            requires
                sample_rate >= 1,
                UNITY == 1_000_000,
        ;
        Self {
            bpm,
            sample_rate,
            ticks_per_beat,
            time_signature,
            phase: 0,
            tick_counter: 0,
            running: true,
        }
    }

    /// The length of a tick in samples, as the numerator and denominator of
    /// an exact fraction: `sample_rate * 60 / (bpm * ticks_per_beat)`, with
    /// the tempo's scale of a million carried into the numerator.
    pub fn samples_per_tick(&self) -> (r: (u64, u64))
        ensures
            r.0 == self@.tick_span(),
            r.1 == self@.tick_rate(),
            r.0 == self@.sample_rate * 60 * 1_000_000,
            r.1 == self@.bpm * self@.ticks_per_beat,
            r.1 > 0,
    {
        proof {
            use_type_invariant(self);
        }
        let span: u64 = self.tick_span_value();
        let rate: u64 = self.tick_rate_value();
        (span, rate)
    }

    fn tick_span_value(&self) -> (span: u64)
        ensures
            span == self@.tick_span(),
            0 < span <= MAX_SAMPLE_RATE * 60_000_000,
    {
        proof {
            use_type_invariant(self);
        }
        self.sample_rate * 60 * 1_000_000
    }

    fn tick_rate_value(&self) -> (rate: u64)
        ensures
            rate == self@.tick_rate(),
            0 < rate <= MAX_BPM * MAX_TICKS_PER_BEAT,
    {
        proof {
            use_type_invariant(self);
            assert(0 < self.bpm * self.ticks_per_beat <= MAX_BPM * MAX_TICKS_PER_BEAT)
                by (nonlinear_arith)
                requires
                    1 <= self.bpm <= MAX_BPM,
                    1 <= self.ticks_per_beat <= MAX_TICKS_PER_BEAT,
            ;
        }
        self.bpm * self.ticks_per_beat
    }

    /// Moves the clock on by `samples` samples and says whether a tick
    /// boundary was crossed. A stopped clock does not move.
    pub fn advance_by(&mut self, samples: u64) -> (tick_emitted: bool)
        ensures
            final(self)@ == old(self)@.advanced(samples as nat),
            tick_emitted == (old(self)@.running && old(self)@.emitted(samples as nat) > 0),
    {
        proof {
            use_type_invariant(&*self);
        }
        if !self.running {
            return false;
        }
        let span: u128 = self.tick_span_value() as u128;
        let rate: u128 = self.tick_rate_value() as u128;
        assert((samples as u128) * rate <= 0xffff_ffff_ffff_ffff * 0xffff_fffe_0000_0001)
            by (nonlinear_arith)
            requires
                0 <= samples <= 0xffff_ffff_ffff_ffff,
                0 <= rate <= 0xffff_fffe_0000_0001,
        ;
        let total: u128 = self.phase as u128 + (samples as u128) * rate;
        let emitted: u128 = total / span;
        proof {
            lemma_mod_bound(total as int, span as int);
        }
        self.phase = (total % span) as u64;
        let room: u64 = u64::MAX - self.tick_counter;
        if emitted > room as u128 {
            self.tick_counter = u64::MAX;
        } else {
            self.tick_counter = self.tick_counter + emitted as u64;
        }
        emitted > 0
    }

    /// Whole ticks elapsed since the last reset.
    pub fn current_tick(&self) -> (tick: u64)
        ensures
            tick == self@.tick,
    {
        self.tick_counter
    }

    /// The elapsed fraction of the current tick, in millionths.
    pub fn tick_phase(&self) -> (phase: u64)
        ensures
            phase == self@.tick_phase(),
            phase < UNITY,
    {
        proof {
            use_type_invariant(self);
            self@.lemma_tick_phase_below_unity();
        }
        let span: u128 = self.tick_span_value() as u128;
        assert((self.phase as u128) * 1_000_000 <= 0xffff_ffff_ffff_ffff * 1_000_000)
            by (nonlinear_arith)
            requires
                0 <= self.phase <= 0xffff_ffff_ffff_ffff,
        ;
        let scaled: u128 = (self.phase as u128) * 1_000_000;
        (scaled / span) as u64
    }

    /// The sample rate in hertz.
    pub fn sample_rate(&self) -> (rate: u64)
        ensures
            rate == self@.sample_rate,
    {
        self.sample_rate
    }

    /// The tempo in millionths of a beat per minute.
    pub fn bpm(&self) -> (bpm: u64)
        ensures
            bpm == self@.bpm,
    {
        self.bpm
    }

    pub fn ticks_per_beat(&self) -> (ticks: u64)
        ensures
            ticks == self@.ticks_per_beat,
            1 <= ticks <= MAX_TICKS_PER_BEAT,
    {
        proof {
            use_type_invariant(self);
        }
        self.ticks_per_beat
    }

    pub fn time_signature(&self) -> (signature: TimeSignature)
        ensures
            signature == self@.time_signature,
            1 <= signature.beats_per_bar <= MAX_BEATS_PER_BAR,
    {
        proof {
            use_type_invariant(self);
        }
        self.time_signature
    }

    pub fn is_running(&self) -> (running: bool)
        ensures
            running == self@.running,
    {
        self.running
    }

    /// Lets the clock run.
    pub fn start(&mut self)
        ensures
            final(self)@ == old(self)@.started(),
    {
        proof {
            use_type_invariant(&*self);
        }
        self.running = true;
    }

    /// Holds the clock where it is.
    pub fn stop(&mut self)
        ensures
            final(self)@ == old(self)@.stopped(),
    {
        proof {
            use_type_invariant(&*self);
        }
        self.running = false;
    }

    /// Puts position and tick counter back to zero.
    pub fn reset(&mut self)
        ensures
            final(self)@ == old(self)@.rewound(),
    {
        proof {
            use_type_invariant(&*self);
        }
        self.phase = 0;
        self.tick_counter = 0;
    }

    /// The one-based bar, beat and tick that the tick counter stands at.
    pub fn bar_beat_tick(&self) -> (r: (u64, u64, u64))
        requires
            self@.tick / self@.ticks_per_bar() < u64::MAX,
        ensures
            (r.0 as nat, r.1 as nat, r.2 as nat) == self@.bar_beat_tick(),
    {
        proof {
            use_type_invariant(self);
            assert(0 < self.ticks_per_beat * self.time_signature.beats_per_bar <= MAX_TICKS_PER_BEAT
                * MAX_BEATS_PER_BAR) by (nonlinear_arith)
                requires
                    1 <= self.ticks_per_beat <= MAX_TICKS_PER_BEAT,
                    1 <= self.time_signature.beats_per_bar <= MAX_BEATS_PER_BAR,
            ;
        }
        let ticks_per_bar: u64 = self.ticks_per_beat * self.time_signature.beats_per_bar;

        let bar: u64 = self.tick_counter / ticks_per_bar + 1;
        let ticks_into_bar: u64 = self.tick_counter % ticks_per_bar;

        let beat: u64 = ticks_into_bar / self.ticks_per_beat + 1;
        let tick: u64 = ticks_into_bar % self.ticks_per_beat + 1;

        (bar, beat, tick)
    }

    /// Sets the tick counter, leaving the position within the tick alone.
    pub fn mock_set_tick_counter(&mut self, value: u64)
        ensures
            final(self)@ == old(self)@.with_tick(value as nat),
    {
        proof {
            use_type_invariant(&*self);
        }
        self.tick_counter = value;
    }
}

} // verus!
