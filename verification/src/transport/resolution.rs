//! How finely a beat is divided into ticks, and how coarsely ticks snap to a grid.

use vstd::prelude::*;

verus! {

/// The number of ticks that make up one beat.
#[derive(Clone, Copy, Debug, PartialEq, Eq, Structural)]
pub enum TickResolution {
    Quarter,
    Eighth,
    Sixteenth,
    PPQN(u64),
}

impl TickResolution {
    /// The tick count of one beat at this resolution, as a mathematical value.
    pub open spec fn ticks(self) -> nat {
        match self {
            TickResolution::Quarter => 480,
            TickResolution::Eighth => 240,
            TickResolution::Sixteenth => 120,
            TickResolution::PPQN(val) => val as nat,
        }
    }

    /// The tick count of one beat at this resolution.
    pub fn ticks_per_beat(&self) -> (r: u64)
        ensures
            r == self.ticks(),
    {
        match self {
            TickResolution::Quarter => 480,
            TickResolution::Eighth => 240,
            TickResolution::Sixteenth => 120,
            TickResolution::PPQN(val) => *val,
        }
    }
}

/// The note value whose multiples form a quantisation grid.
#[derive(Clone, Copy, Debug, PartialEq, Eq, Structural)]
pub enum QuantizeResolution {
    Quarter,
    Eighth,
    Sixteenth,
    ThirtySecond,
}

impl QuantizeResolution {
    /// How many grid steps of this note value fit in one beat.
    pub open spec fn steps_per_beat(self) -> nat {
        match self {
            QuantizeResolution::Quarter => 1,
            QuantizeResolution::Eighth => 2,
            QuantizeResolution::Sixteenth => 4,
            QuantizeResolution::ThirtySecond => 8,
        }
    }

    /// The grid spacing in ticks: a beat's ticks divided by the steps per beat,
    /// rounded down.
    pub open spec fn grid_ticks(self, ticks_per_beat: nat) -> nat {
        ticks_per_beat / self.steps_per_beat()
    }

    /// The spacing, in ticks, of the grid this note value lays over a beat.
    pub fn ticks_per_grid_unit(&self, ticks_per_beat: u64) -> (r: u64)
        ensures
            r == self.grid_ticks(ticks_per_beat as nat),
    {
        match self {
            QuantizeResolution::Quarter => ticks_per_beat,
            QuantizeResolution::Eighth => ticks_per_beat / 2,
            QuantizeResolution::Sixteenth => ticks_per_beat / 4,
            QuantizeResolution::ThirtySecond => ticks_per_beat / 8,
        }
    }
}

} // verus!
