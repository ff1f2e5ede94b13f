//! A test-tone generator.

use vstd::prelude::*;
use vstd::arithmetic::div_mod::{
    lemma_div_is_ordered,
    lemma_div_multiples_vanish,
    lemma_fundamental_div_mod,
    lemma_mod_bound,
};
use crate::ident::new_uuid;
use crate::sample::{Frame, UNITY};
use crate::track::timeline::{lemma_quarter_sine_bounded, quarter_sine, quarter_sine_level};
use crate::track::{TrackId, TrackType};

verus! {

/// A sine oscillator. Its phase is kept as a whole number of
/// `1 / (sample_rate * 1_000_000)` cycles, so that one frame moves it on by
/// exactly `freq`.
#[derive(Clone, Debug)]
pub struct SineWaveTrack {
    pub id: TrackId,
    /// Frequency in millionths of a hertz.
    pub freq: u64,
    /// Sample rate in hertz.
    pub sample_rate: u32,
    /// The position within the cycle.
    pub phase: u64,
}

/// One cycle of a sine wave at full scale, read at position `phase` of a
/// cycle `period` long: each quarter of the cycle is the quarter sine, run
/// forwards or backwards, above or below zero.
pub open spec fn sine_wave(phase: nat, period: nat) -> int
    recommends
        0 < period,
        phase < period,
{
    let quarter = 4 * phase / period;
    let within = (4 * phase) % period;
    let t = (within * (UNITY as nat) / period) as int;
    if quarter == 0 {
        quarter_sine(t)
    } else if quarter == 1 {
        quarter_sine(UNITY - t)
    } else if quarter == 2 {
        -quarter_sine(t)
    } else {
        -quarter_sine(UNITY - t)
    }
}

impl SineWaveTrack {
    /// The length of one cycle in units of phase.
    pub open spec fn period(self) -> nat {
        self.sample_rate as nat * (UNITY as nat)
    }

    /// The phase `k` frames from now.
    pub open spec fn phase_after(self, k: nat) -> nat {
        if self.period() == 0 {
            self.phase as nat
        } else {
            ((self.phase + k * self.freq) % (self.period() as int)) as nat
        }
    }

    /// The frame the oscillator gives `k` frames from now: the same sine
    /// value on both channels, or silence where the sample rate is zero.
    pub open spec fn frame_at(self, k: nat) -> Frame {
        if self.period() == 0 {
            (0i32, 0i32)
        } else {
            let value = sine_wave(self.phase_after(k), self.period()) as i32;
            (value, value)
        }
    }

    /// The oscillator after it has given `n` frames.
    pub open spec fn advanced(self, n: nat) -> Self {
        SineWaveTrack { phase: self.phase_after(n) as u64, ..self }
    }

    /// An oscillator at the start of its cycle, under a fresh random
    /// identifier. `freq` is in millionths of a hertz, `sample_rate` in hertz.
    pub fn new(freq: u64, sample_rate: u32) -> (track: Self)
        ensures
            track.freq == freq,
            track.sample_rate == sample_rate,
            track.phase == 0,
    {
        Self { id: TrackId::from(new_uuid()), freq, sample_rate, phase: 0 }
    }

    pub fn id(&self) -> (id: TrackId)
        ensures
            id == self.id,
    {
        self.id.duplicate()
    }

    pub fn name(&self) -> (name: &str)
        ensures
            name@ == "SineWave"@,
    {
        "SineWave"
    }

    pub fn track_type(&self) -> (track_type: TrackType)
        ensures
            track_type == TrackType::Audio,
    {
        TrackType::Audio
    }

    /// Writes the next stretch of the wave into the buffer and moves the
    /// phase on by one step per frame.
    pub fn fill_next_samples(&mut self, next_samples: &mut [Frame])
        ensures
            *final(self) == old(self).advanced(old(next_samples)@.len()),
            final(next_samples)@.len() == old(next_samples)@.len(),
            forall|k: int|
                0 <= k < final(next_samples)@.len() ==> #[trigger] final(next_samples)@[k] == old(
                    self,
                ).frame_at(k as nat),
    {
        let period: u64 = (self.sample_rate as u64) * 1_000_000;
        if period == 0 {
            crate::track::silence(next_samples);
            return ;
        }
        let step: u64 = self.freq % period;
        let mut phase: u64 = self.phase % period;
        proof {
            lemma_phase_step(self.phase as nat, 0, self.freq as nat, period as nat);
        }
        let mut i: usize = 0;
        while i < next_samples.len()
            invariant
                *self == *old(self),
                period == self.period(),
                0 < period <= 0xffff_ffff * 1_000_000,
                step == self.freq % period,
                phase == self.phase_after(i as nat),
                i <= next_samples@.len(),
                next_samples@.len() == old(next_samples)@.len(),
                forall|k: int|
                    0 <= k < i ==> #[trigger] next_samples@[k] == self.frame_at(k as nat),
            decreases next_samples.len() - i,
        {
            let value: i32 = sine_value(phase, period);
            next_samples[i] = (value, value);
            proof {
                lemma_phase_step(self.phase as nat, i as nat + 1, self.freq as nat, period as nat);
                lemma_mod_bound((phase + step) as int, period as int);
            }
            phase = ((phase as u128 + step as u128) % (period as u128)) as u64;
            i = i + 1;
        }
        self.phase = phase;
    }
}

/// Moving the phase on by one reduced step is moving it on by `freq`: the
/// phase after `k` frames is the phase after `k - 1` frames plus `freq`,
/// taken within the cycle.
pub proof fn lemma_phase_step(phase: nat, k: nat, freq: nat, period: nat)
    requires
        period > 0,
    ensures
        k == 0 ==> ((phase + k * freq) as int) % (period as int) == (phase as int) % (
        period as int),
        k > 0 ==> ((phase + k * freq) as int) % (period as int) == (((phase + (k - 1) * freq) % (
        period as int)) + (freq as int) % (period as int)) % (period as int),
{
    if k == 0 {
        assert(k * freq == 0) by (nonlinear_arith)
            requires
                k == 0,
        ;
    } else {
        let before: int = (phase + (k - 1) * freq) as int;
        assert(phase + k * freq == before + freq) by (nonlinear_arith)
            requires
                before == phase + (k - 1) * freq,
                k > 0,
        ;
        vstd::arithmetic::div_mod::lemma_add_mod_noop(before, freq as int, period as int);
    }
}

/// The sine value at `phase` of a cycle `period` long.
fn sine_value(phase: u64, period: u64) -> (value: i32)
    requires
        0 < period <= 0xffff_ffff * 1_000_000,
        phase < period,
    ensures
        value == sine_wave(phase as nat, period as nat),
{
    let turned: u64 = 4 * phase;
    let quarter: u64 = turned / period;
    let within: u64 = turned % period;
    proof {
        lemma_mod_bound(turned as int, period as int);
        lemma_fundamental_div_mod(turned as int, period as int);
        assert(quarter < 4) by (nonlinear_arith)
            requires
                turned == period * quarter + within,
                0 <= within,
                turned < 4 * period,
                period > 0,
        ;
    }
    assert((within as u128) * 1_000_000 <= 0xffff_ffff_ffff_ffff * 1_000_000) by (nonlinear_arith)
        requires
            0 <= within <= 0xffff_ffff_ffff_ffff,
    ;
    let scaled_up: u128 = (within as u128) * 1_000_000;
    proof {
        let unity: int = UNITY as int;
        assert(scaled_up <= period * unity) by (nonlinear_arith)
            requires
                scaled_up == within * unity,
                within < period,
                unity > 0,
        ;
        lemma_div_is_ordered(scaled_up as int, period * unity, period as int);
        lemma_div_multiples_vanish(unity, period as int);
        assert(period * unity == unity * period) by (nonlinear_arith);
    }
    let t: i32 = (scaled_up / (period as u128)) as i32;
    proof {
        lemma_quarter_sine_bounded(t as int);
        lemma_quarter_sine_bounded(UNITY - t);
    }
    if quarter == 0 {
        quarter_sine_level(t)
    } else if quarter == 1 {
        quarter_sine_level(UNITY - t)
    } else if quarter == 2 {
        -quarter_sine_level(t)
    } else {
        -quarter_sine_level(UNITY - t)
    }
}

} // verus!
