//! Fixed-point sample values and the arithmetic the signal path is built from.

use vstd::prelude::*;

verus! {

/// One channel of one frame, in millionths of full scale.
pub type Sample = i32;

/// One stereo frame: left, then right.
pub type Frame = (Sample, Sample);

/// The fixed-point representation of 1.
pub const UNITY: i32 = 1_000_000;

/// The largest gain a clip applies (four times unity).
pub const MAX_GAIN: i32 = 4_000_000;

/// Integer division that rounds toward zero, for a positive divisor.
pub open spec fn trunc_div(a: int, b: int) -> int {
    if a >= 0 {
        a / b
    } else {
        -((-a) / b)
    }
}

/// `v` limited to the interval from `lo` to `hi`.
pub open spec fn clamped(v: int, lo: int, hi: int) -> int {
    if v < lo {
        lo
    } else if v > hi {
        hi
    } else {
        v
    }
}

/// `v` limited to the range of a sample.
pub open spec fn saturated(v: int) -> int {
    clamped(v, i32::MIN as int, i32::MAX as int)
}

/// The product of a value and a fixed-point level, rounded toward zero.
pub open spec fn scaled(x: int, level: int) -> int {
    trunc_div(x * level, UNITY as int)
}

/// The frame of silence.
pub open spec fn silent_frame() -> Frame {
    (0i32, 0i32)
}

/// A buffer of `n` silent frames.
pub open spec fn silent_frames(n: nat) -> Seq<Frame> {
    Seq::new(n, |i: int| silent_frame())
}

/// Limits `v` to the interval from `lo` to `hi`.
pub fn clamp(v: i32, lo: i32, hi: i32) -> (r: i32)
    requires
        lo <= hi,
    ensures
        r == clamped(v as int, lo as int, hi as int),
{
    if v < lo {
        lo
    } else if v > hi {
        hi
    } else {
        v
    }
}

/// Limits a wide intermediate value to the range of a sample.
pub fn saturate(v: i128) -> (r: i32)
    ensures
        r == saturated(v as int),
{
    if v < i32::MIN as i128 {
        i32::MIN
    } else if v > i32::MAX as i128 {
        i32::MAX
    } else {
        v as i32
    }
}

/// Multiplies a sample by a level between zero and unity.
pub fn attenuate(x: i32, level: i32) -> (r: i32)
    requires
        0 <= level <= UNITY,
    ensures
        r == scaled(x as int, level as int),
{
    let wide: i64 = x as i64;
    let by: i64 = level as i64;
    assert(-0x8000_0000 * 1_000_000 <= wide * by <= 0x8000_0000 * 1_000_000) by (nonlinear_arith)
        requires
            -0x8000_0000 <= wide < 0x8000_0000,
            0 <= by <= 1_000_000,
    ;
    let product: i64 = wide * by;
    let quotient: i64 = product / (UNITY as i64);
    assert(i32::MIN <= quotient <= i32::MAX) by {
        lemma_attenuation_bounded(wide as int, by as int);
    }
    quotient as i32
}

/// A value scaled by a level of at most unity never grows in magnitude.
pub proof fn lemma_attenuation_bounded(x: int, level: int)
    requires
        0 <= level <= UNITY,
    ensures
        x >= 0 ==> 0 <= scaled(x, level) <= x,
        x <= 0 ==> x <= scaled(x, level) <= 0,
{
    let unity: int = UNITY as int;
    if x >= 0 {
        assert(0 <= x * level <= x * unity) by (nonlinear_arith)
            requires
                x >= 0,
                0 <= level <= unity,
        ;
        vstd::arithmetic::div_mod::lemma_div_is_ordered(x * level, x * unity, unity);
        vstd::arithmetic::div_mod::lemma_div_multiples_vanish(x, unity);
        vstd::arithmetic::div_mod::lemma_div_pos_is_pos(x * level, unity);
    } else {
        let m: int = -x;
        assert((-x) * level == -(x * level)) by (nonlinear_arith);
        assert(0 <= m * level <= m * unity) by (nonlinear_arith)
            requires
                m >= 0,
                0 <= level <= unity,
        ;
        vstd::arithmetic::div_mod::lemma_div_is_ordered(m * level, m * unity, unity);
        vstd::arithmetic::div_mod::lemma_div_multiples_vanish(m, unity);
        vstd::arithmetic::div_mod::lemma_div_pos_is_pos(m * level, unity);
        if x * level >= 0 {
            assert(x * level == 0);
        }
    }
}

} // verus!
