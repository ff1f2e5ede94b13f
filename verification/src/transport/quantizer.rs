//! Snapping tick positions to a quantisation grid.

use vstd::prelude::*;
use vstd::arithmetic::div_mod::{lemma_fundamental_div_mod, lemma_mod_multiples_basic};
use crate::transport::resolution::QuantizeResolution;

verus! {

/// Snaps ticks to the grid of a note value.
pub struct Quantizer;

impl Quantizer {
    /// The multiple of `grid` nearest to `tick`; a tick half-way between two
    /// grid lines goes to the later one. With no grid there is nothing to
    /// snap to and the result is zero.
    pub open spec fn nearest_on_grid(tick: nat, grid: nat) -> nat {
        if grid == 0 {
            0
        } else {
            ((2 * tick + grid) / (2 * grid)) * grid
        }
    }

    /// The first multiple of `grid` at or after `tick`.
    pub open spec fn next_on_grid(tick: nat, grid: nat) -> nat
        recommends
            grid > 0,
    {
        (((tick + grid - 1) / (grid as int)) * grid) as nat
    }

    /// Snaps `tick` to the nearest grid line of `resolution`.
    pub fn quantize_tick(tick: u64, resolution: QuantizeResolution, ticks_per_beat: u64) -> (r: u64)
        requires
            Self::nearest_on_grid(tick as nat, resolution.grid_ticks(ticks_per_beat as nat))
                <= u64::MAX,
        ensures
            r == Self::nearest_on_grid(tick as nat, resolution.grid_ticks(ticks_per_beat as nat)),
    {
        let grid_size: u64 = resolution.ticks_per_grid_unit(ticks_per_beat);
        if grid_size == 0 {
            return 0;
        }
        let doubled: u128 = 2 * (tick as u128) + grid_size as u128;
        let steps: u128 = doubled / (2 * (grid_size as u128));
        proof {
            lemma_steps_bounded(steps as int, grid_size as int, u64::MAX as int);
        }
        (steps as u64) * grid_size
    }

    /// Snaps `tick` forward to the next grid line of `resolution`, staying
    /// put when it is already on one.
    pub fn quantize_tick_forward(
        tick: u64,
        resolution: QuantizeResolution,
        ticks_per_beat: u64,
    ) -> (r: u64)
        requires
            resolution.grid_ticks(ticks_per_beat as nat) > 0,
            Self::next_on_grid(tick as nat, resolution.grid_ticks(ticks_per_beat as nat))
                <= u64::MAX,
        ensures
            r == Self::next_on_grid(tick as nat, resolution.grid_ticks(ticks_per_beat as nat)),
    {
        let grid_size: u64 = resolution.ticks_per_grid_unit(ticks_per_beat);
        let raised: u128 = tick as u128 + grid_size as u128 - 1;
        let steps: u128 = raised / (grid_size as u128);
        proof {
            lemma_steps_bounded(steps as int, grid_size as int, u64::MAX as int);
        }
        (steps as u64) * grid_size
    }

    /// Snapping to the nearest grid line lands on the grid and moves a tick
    /// by at most half a grid step.
    pub proof fn lemma_nearest_is_on_grid_and_close(tick: nat, grid: nat)
        requires
            grid > 0,
        ensures
            Self::nearest_on_grid(tick, grid) % grid == 0,
            2 * (Self::nearest_on_grid(tick, grid) - tick) <= grid,
            2 * (tick - Self::nearest_on_grid(tick, grid)) < grid,
    {
        let doubled: int = (2 * tick + grid) as int;
        let wide: int = (2 * grid) as int;
        let steps: int = doubled / wide;
        lemma_fundamental_div_mod(doubled, wide);
        assert(0 <= doubled % wide < wide);
        assert(wide * steps == 2 * (steps * grid)) by (nonlinear_arith)
            requires
                wide == 2 * grid,
        ;
        assert(steps >= 0) by (nonlinear_arith)
            requires
                doubled >= 0,
                wide > 0,
                steps == doubled / wide,
        ;
        lemma_mod_multiples_basic(steps, grid as int);
    }

    /// Snapping forward lands on the grid, never before the tick and less
    /// than one grid step after it.
    pub proof fn lemma_next_is_on_grid_and_ahead(tick: nat, grid: nat)
        requires
            grid > 0,
        ensures
            Self::next_on_grid(tick, grid) % grid == 0,
            tick <= Self::next_on_grid(tick, grid) < tick + grid,
    {
        let raised: int = tick + grid - 1;
        let steps: int = raised / (grid as int);
        lemma_fundamental_div_mod(raised, grid as int);
        assert(0 <= raised % (grid as int) < grid);
        assert(grid * steps == steps * grid) by (nonlinear_arith);
        assert(steps >= 0) by (nonlinear_arith)
            requires
                raised >= 0,
                grid > 0,
                steps == raised / (grid as int),
        ;
        lemma_mod_multiples_basic(steps, grid as int);
    }
}

/// A step count whose product with a positive grid fits under a limit fits
/// under that limit itself.
proof fn lemma_steps_bounded(steps: int, grid: int, limit: int)
    requires
        steps >= 0,
        grid > 0,
        steps * grid <= limit,
    ensures
        steps <= limit,
{
    assert(steps <= steps * grid) by (nonlinear_arith)
        requires
            steps >= 0,
            grid > 0,
    ;
}

} // verus!
