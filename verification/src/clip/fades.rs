//! Fade shapes at the edges of a clip.

use vstd::prelude::*;

verus! {

/// The shape of a fade.
#[derive(Debug, Clone, Copy, PartialEq, Eq, Structural)]
pub enum FadeCurve {
    Linear,
    EqualPower,
}

/// A fade of a given length at one edge of a clip.
#[derive(Debug, Clone, Copy, PartialEq, Eq, Structural)]
pub struct Fade {
    pub length_frames: u64,
    pub curve: FadeCurve,
}

impl Fade {
    /// The fade of length zero, which leaves the clip untouched.
    pub fn none() -> (fade: Self)
        ensures
            fade == (Fade { length_frames: 0, curve: FadeCurve::Linear }),
    {
        Self { length_frames: 0, curve: FadeCurve::Linear }
    }
}

} // verus!
