//! A track that holds clips and renders them along the timeline.

use vstd::prelude::*;
use vstd::arithmetic::div_mod::{
    lemma_div_is_ordered,
    lemma_div_multiples_vanish,
    lemma_div_pos_is_pos,
    lemma_mod_bound,
};
use crate::clip::clip_id::ClipId;
use crate::clip::fades::{Fade, FadeCurve};
use crate::clip::source::ClipSource;
use crate::clip::{Clip, ClipKind};
use crate::sample::{attenuate, clamp, clamped, saturate, saturated, scaled, trunc_div, Frame, MAX_GAIN, UNITY};
use crate::seq_facts::{
    first_later,
    later_than,
    lemma_filter_step,
    lemma_first_match_bounds,
    lemma_first_match_unique,
};
use crate::track::TrackId;

verus! {

/// How far position `i` lies into a fade of `n` frames, as a level from
/// zero towards unity; unity from the fade's end on.
pub open spec fn fade_ratio(i: nat, n: nat) -> int
    recommends
        n > 0,
{
    if i >= n {
        UNITY as int
    } else {
        (i * (UNITY as nat) / n) as int
    }
}

/// The first quarter of a sine wave over levels: zero at `t == 0`, unity at
/// `t == UNITY`, rising between. It is the rational curve
/// `4 t (2 - t) / (5 - t (2 - t))` taken in fixed point, which stays within
/// two thousandths of `sin(t * pi / 2)`.
pub open spec fn quarter_sine(t: int) -> int {
    let arc = t * (2 * UNITY - t);
    (4 * arc * UNITY) / (5 * UNITY * UNITY - arc)
}

/// The gain of a fade of shape `curve` and length `n` at position `i`;
/// a fade of no length leaves the signal at unity.
pub open spec fn curve_gain(curve: FadeCurve, i: nat, n: nat) -> int {
    if n == 0 {
        UNITY as int
    } else {
        match curve {
            FadeCurve::Linear => fade_ratio(i, n),
            FadeCurve::EqualPower => quarter_sine(fade_ratio(i, n)),
        }
    }
}

/// The gain that a clip's fades give its frame `local_frame`. Inside the
/// fade-in the gain rises with the distance from the clip's start; inside
/// the fade-out it falls with the distance to the clip's last frame; where
/// both apply the smaller one counts; elsewhere the gain is unity.
pub open spec fn fade_gain(local_frame: nat, clip_len: nat, fade_in: Fade, fade_out: Fade) -> int {
    let rising = if fade_in.length_frames > 0 && local_frame < fade_in.length_frames {
        curve_gain(fade_in.curve, local_frame, fade_in.length_frames as nat)
    } else {
        UNITY as int
    };
    let out_start = if clip_len >= fade_out.length_frames {
        clip_len - fade_out.length_frames
    } else {
        0
    };
    if fade_out.length_frames > 0 && local_frame >= out_start {
        let from_end = if clip_len - 1 >= local_frame {
            (clip_len - 1 - local_frame) as nat
        } else {
            0
        };
        let falling = curve_gain(fade_out.curve, from_end, fade_out.length_frames as nat);
        if falling < rising {
            falling
        } else {
            rising
        }
    } else {
        rising
    }
}

/// The level that a pan position leaves on the left channel.
pub open spec fn pan_left(pan: int) -> int {
    let p = clamped(pan, -(UNITY as int), UNITY as int);
    if p < 0 {
        UNITY as int
    } else {
        UNITY - p
    }
}

/// The level that a pan position leaves on the right channel.
pub open spec fn pan_right(pan: int) -> int {
    let p = clamped(pan, -(UNITY as int), UNITY as int);
    if p > 0 {
        UNITY as int
    } else {
        UNITY + p
    }
}

/// One channel after gain and pan: the sample times the gain, held to zero
/// through four, times the channel's pan level, rounded toward zero and
/// limited to the sample range.
pub open spec fn gain_pan_channel(x: int, gain: int, pan_level: int) -> int {
    saturated(trunc_div(x * clamped(gain, 0, MAX_GAIN as int) * pan_level, UNITY * UNITY))
}

/// A frame after gain and linear pan.
pub open spec fn gain_panned(l: int, r: int, gain: int, pan: int) -> Frame {
    (
        gain_pan_channel(l, gain, pan_left(pan)) as i32,
        gain_pan_channel(r, gain, pan_right(pan)) as i32,
    )
}

/// The frame of the clip, counted from its start, that sounds at timeline
/// frame `global_frame`; `None` where the clip is silent. A clip that does
/// not loop sounds from its start up to its end; one that loops sounds from
/// its start on and repeats every `duration_frames`; a looping clip of no
/// duration never sounds.
pub open spec fn clip_local_frame<S: ClipSource>(clip: Clip<S>, global_frame: int) -> Option<nat> {
    let start = clip.timing.start_frame as int;
    let len = clip.timing.duration_frames as int;
    if global_frame < start {
        None
    } else if clip.is_looping() {
        if len == 0 {
            None
        } else {
            Some(((global_frame - start) % len) as nat)
        }
    } else if global_frame - start >= len {
        None
    } else {
        Some((global_frame - start) as nat)
    }
}

/// What the clip adds to the mix at timeline frame `global_frame`: its
/// source frame at that position, faded, then gained and panned. Source
/// positions past the largest index read as silence.
pub open spec fn clip_contribution<S: ClipSource>(clip: Clip<S>, global_frame: int) -> Frame {
    match clip_local_frame(clip, global_frame) {
        None => (0i32, 0i32),
        Some(local) => match clip.kind {
            ClipKind::Audio(audio) => {
                let source_frame = audio.start_offset + local;
                let raw = if source_frame <= u64::MAX {
                    audio.source.stored_frame(source_frame as nat)
                } else {
                    (0i32, 0i32)
                };
                let fg = fade_gain(
                    local,
                    clip.timing.duration_frames as nat,
                    clip.fade_in,
                    clip.fade_out,
                );
                gain_panned(
                    scaled(raw.0 as int, fg),
                    scaled(raw.1 as int, fg),
                    audio.gain as int,
                    audio.pan as int,
                )
            },
        },
    }
}

/// The exact sum, channel by channel, of what every clip adds at
/// `global_frame`.
pub open spec fn clips_sum<S: ClipSource>(clips: Seq<Clip<S>>, global_frame: int) -> (int, int)
    decreases clips.len(),
{
    if clips.len() == 0 {
        (0, 0)
    } else {
        let rest = clips_sum(clips.drop_last(), global_frame);
        let last = clip_contribution(clips.last(), global_frame);
        (rest.0 + last.0, rest.1 + last.1)
    }
}

/// The frame that rendering leaves where `before` stood: `before` plus every
/// clip's contribution, summed exactly and then limited to the sample range.
pub open spec fn rendered_frame<S: ClipSource>(
    before: Frame,
    clips: Seq<Clip<S>>,
    global_frame: int,
) -> Frame {
    let sum = clips_sum(clips, global_frame);
    (saturated(before.0 + sum.0) as i32, saturated(before.1 + sum.1) as i32)
}

/// A clip that does not loop adds nothing to the mix before its start frame
/// or from its end frame on.
pub proof fn lemma_clip_silent_outside<S: ClipSource>(clip: Clip<S>, global_frame: int)
    requires
        !clip.is_looping(),
        global_frame < clip.timing.start_frame || global_frame >= clip.timing.start_frame
            + clip.timing.duration_frames,
    ensures
        clip_contribution(clip, global_frame) == (0i32, 0i32),
{
}

/// A looping clip repeats exactly: from its start frame on, what it adds
/// to the mix at a frame it adds again one clip length later, whatever its
/// source holds.
pub proof fn lemma_looped_clip_periodic<S: ClipSource>(clip: Clip<S>, global_frame: int)
    requires
        clip.is_looping(),
        clip.timing.duration_frames > 0,
        global_frame >= clip.timing.start_frame,
    ensures
        clip_contribution(clip, global_frame + clip.timing.duration_frames) == clip_contribution(
            clip,
            global_frame,
        ),
{
    let len = clip.timing.duration_frames as int;
    let rel = global_frame - clip.timing.start_frame;
    vstd::arithmetic::div_mod::lemma_mod_add_multiples_vanish(rel, len);
    assert(global_frame + len - clip.timing.start_frame == len + rel);
}

/// The fade gain never leaves the range from zero to unity.
pub proof fn lemma_fade_gain_bounded(local_frame: nat, clip_len: nat, fade_in: Fade, fade_out: Fade)
    ensures
        0 <= fade_gain(local_frame, clip_len, fade_in, fade_out) <= UNITY,
{
    lemma_curve_gain_bounded(fade_in.curve, local_frame, fade_in.length_frames as nat);
    let from_end = if clip_len - 1 >= local_frame {
        (clip_len - 1 - local_frame) as nat
    } else {
        0
    };
    lemma_curve_gain_bounded(fade_out.curve, from_end, fade_out.length_frames as nat);
}

/// The gain of one fade never leaves the range from zero to unity.
pub proof fn lemma_curve_gain_bounded(curve: FadeCurve, i: nat, n: nat)
    ensures
        0 <= curve_gain(curve, i, n) <= UNITY,
{
    if n > 0 {
        if i < n {
            let unity: int = UNITY as int;
            let scaled_up: int = (i * (UNITY as nat)) as int;
            assert(0 <= scaled_up <= n * unity) by (nonlinear_arith)
                requires
                    scaled_up == i * unity,
                    0 <= i < n,
                    unity > 0,
            ;
            lemma_div_pos_is_pos(scaled_up, n as int);
            lemma_div_is_ordered(scaled_up, n * unity, n as int);
            lemma_div_multiples_vanish(unity, n as int);
            assert(n * unity == unity * n) by (nonlinear_arith);
        }
        lemma_quarter_sine_bounded(fade_ratio(i, n));
    }
}

/// Applies gain and linear pan to a frame.
pub fn apply_gain_pan(l: i32, r: i32, gain: i32, pan: i32) -> (out: Frame)
    ensures
        out == gain_panned(l as int, r as int, gain as int, pan as int),
{
    let gain: i32 = clamp(gain, 0, MAX_GAIN);
    let pan: i32 = clamp(pan, -UNITY, UNITY);

    let pan_l: i32 = if pan < 0 {
        UNITY
    } else {
        UNITY - pan
    };
    let pan_r: i32 = if pan > 0 {
        UNITY
    } else {
        UNITY + pan
    };

    (gain_pan_one(l, gain, pan_l), gain_pan_one(r, gain, pan_r))
}

fn gain_pan_one(x: i32, gain: i32, pan_level: i32) -> (out: i32)
    requires
        0 <= gain <= MAX_GAIN,
        0 <= pan_level <= UNITY,
    ensures
        out == saturated(trunc_div(x * gain * pan_level, UNITY * UNITY)),
{
    let wide: i128 = x as i128;
    let level: i128 = gain as i128;
    let side: i128 = pan_level as i128;
    assert(-0x8000_0000 * 4_000_000 <= wide * level <= 0x8000_0000 * 4_000_000)
        by (nonlinear_arith)
        requires
            -0x8000_0000 <= wide < 0x8000_0000,
            0 <= level <= 4_000_000,
    ;
    let gained: i128 = wide * level;
    assert(-0x8000_0000 * 4_000_000 * 1_000_000 <= gained * side <= 0x8000_0000 * 4_000_000
        * 1_000_000) by (nonlinear_arith)
        requires
            -0x8000_0000 * 4_000_000 <= gained <= 0x8000_0000 * 4_000_000,
            0 <= side <= 1_000_000,
    ;
    let product: i128 = gained * side;
    saturate(product / 1_000_000_000_000)
}

/// The level reached `i` frames into a fade of `n` frames.
fn fade_level(i: u64, n: u64) -> (level: i32)
    requires
        n > 0,
    ensures
        level == fade_ratio(i as nat, n as nat),
        0 <= level <= UNITY,
{
    if i >= n {
        UNITY
    } else {
        assert((i as u128) * 1_000_000 <= 0xffff_ffff_ffff_ffff * 1_000_000) by (nonlinear_arith)
            requires
                0 <= i <= 0xffff_ffff_ffff_ffff,
        ;
        let scaled_up: u128 = (i as u128) * 1_000_000;
        proof {
            let unity: int = UNITY as int;
            assert(scaled_up <= n * unity) by (nonlinear_arith)
                requires
                    scaled_up == i * unity,
                    i < n,
                    unity > 0,
            ;
            lemma_div_is_ordered(scaled_up as int, n * unity, n as int);
            lemma_div_multiples_vanish(unity, n as int);
            assert(n * unity == unity * n) by (nonlinear_arith);
        }
        (scaled_up / (n as u128)) as i32
    }
}

/// The quarter sine keeps levels within zero and unity.
pub proof fn lemma_quarter_sine_bounded(t: int)
    requires
        0 <= t <= UNITY,
    ensures
        0 <= quarter_sine(t) <= UNITY,
        0 <= t * (2 * UNITY - t) <= UNITY * UNITY,
{
    let unity: int = UNITY as int;
    let arc: int = t * (2 * unity - t);
    assert(0 <= arc <= unity * unity) by (nonlinear_arith)
        requires
            arc == t * (2 * unity - t),
            0 <= t <= unity,
    ;
    let numerator: int = 4 * arc * unity;
    let denominator: int = 5 * unity * unity - arc;
    assert(0 <= numerator <= unity * denominator) by (nonlinear_arith)
        requires
            numerator == 4 * arc * unity,
            denominator == 5 * unity * unity - arc,
            0 <= arc <= unity * unity,
            unity > 0,
    ;
    assert(denominator > 0) by (nonlinear_arith)
        requires
            denominator == 5 * unity * unity - arc,
            arc <= unity * unity,
            unity > 0,
    ;
    lemma_div_pos_is_pos(numerator, denominator);
    lemma_div_is_ordered(numerator, unity * denominator, denominator);
    lemma_div_multiples_vanish(unity, denominator);
    assert(unity * denominator == denominator * unity) by (nonlinear_arith);
}

/// The quarter sine never falls as its argument rises.
pub proof fn lemma_quarter_sine_monotonic(s: int, t: int)
    requires
        0 <= s <= t <= UNITY,
    ensures
        quarter_sine(s) <= quarter_sine(t),
{
    let unity: int = UNITY as int;
    let arc_s: int = s * (2 * unity - s);
    let arc_t: int = t * (2 * unity - t);
    lemma_quarter_sine_bounded(s);
    lemma_quarter_sine_bounded(t);
    assert(arc_s <= arc_t) by (nonlinear_arith)
        requires
            arc_s == s * (2 * unity - s),
            arc_t == t * (2 * unity - t),
            0 <= s <= t <= unity,
    ;
    assert(0 <= 4 * arc_s * unity <= 4 * arc_t * unity) by (nonlinear_arith)
        requires
            0 <= arc_s <= arc_t,
            unity > 0,
    ;
    let low: int = 5 * unity * unity - arc_t;
    let high: int = 5 * unity * unity - arc_s;
    assert(0 < low <= high) by (nonlinear_arith)
        requires
            low == 5 * unity * unity - arc_t,
            high == 5 * unity * unity - arc_s,
            arc_s <= arc_t <= unity * unity,
            unity > 0,
    ;
    vstd::arithmetic::div_mod::lemma_div_is_ordered_by_denominator(4 * arc_s * unity, low, high);
    lemma_div_is_ordered(4 * arc_s * unity, 4 * arc_t * unity, low);
}

/// The quarter sine starts at zero and ends at unity.
pub proof fn lemma_quarter_sine_ends()
    ensures
        quarter_sine(0) == 0,
        quarter_sine(UNITY as int) == UNITY,
{
    assert(quarter_sine(0) == 0) by (nonlinear_arith)
        requires
            quarter_sine(0) == (4 * (0 * (2 * 1_000_000 - 0)) * 1_000_000) / (5 * 1_000_000
                * 1_000_000 - 0 * (2 * 1_000_000 - 0)),
    ;
    assert(quarter_sine(1_000_000) == 1_000_000) by (nonlinear_arith)
        requires
            quarter_sine(1_000_000) == (4 * (1_000_000 * (2 * 1_000_000 - 1_000_000)) * 1_000_000)
                / (5 * 1_000_000 * 1_000_000 - 1_000_000 * (2 * 1_000_000 - 1_000_000)),
    ;
}

/// The quarter sine of a level between zero and unity.
pub fn quarter_sine_level(t: i32) -> (level: i32)
    requires
        0 <= t <= UNITY,
    ensures
        level == quarter_sine(t as int),
        0 <= level <= UNITY,
{
    proof {
        lemma_quarter_sine_bounded(t as int);
    }
    let t: i64 = t as i64;
    let arc: i64 = t * (2_000_000 - t);
    assert(4 * arc * 1_000_000 <= 4_000_000_000_000_000_000) by (nonlinear_arith)
        requires
            0 <= arc <= 1_000_000_000_000,
    ;
    assert(4 * arc * 1_000_000 >= 0) by (nonlinear_arith)
        requires
            0 <= arc,
    ;
    let numerator: i64 = 4 * arc * 1_000_000;
    let denominator: i64 = 5_000_000_000_000 - arc;
    (numerator / denominator) as i32
}

/// The gain `i` frames into a linear fade-in of `n` frames.
pub fn fade_gain_linear_in(i: u64, n: u64) -> (gain: i32)
    ensures
        gain == curve_gain(FadeCurve::Linear, i as nat, n as nat),
        0 <= gain <= UNITY,
{
    if n == 0 {
        return UNITY;
    }
    fade_level(i, n)
}

/// The gain `i_from_end` frames before the last frame of a linear fade-out
/// of `n` frames.
pub fn fade_gain_linear_out(i_from_end: u64, n: u64) -> (gain: i32)
    ensures
        gain == curve_gain(FadeCurve::Linear, i_from_end as nat, n as nat),
        0 <= gain <= UNITY,
{
    if n == 0 {
        return UNITY;
    }
    fade_level(i_from_end, n)
}

/// The gain `i` frames into an equal-power fade-in of `n` frames.
pub fn fade_gain_equal_power_in(i: u64, n: u64) -> (gain: i32)
    ensures
        gain == curve_gain(FadeCurve::EqualPower, i as nat, n as nat),
        0 <= gain <= UNITY,
{
    if n == 0 {
        return UNITY;
    }
    quarter_sine_level(fade_level(i, n))
}

/// The gain `i_from_end` frames before the last frame of an equal-power
/// fade-out of `n` frames.
pub fn fade_gain_equal_power_out(i_from_end: u64, n: u64) -> (gain: i32)
    ensures
        gain == curve_gain(FadeCurve::EqualPower, i_from_end as nat, n as nat),
        0 <= gain <= UNITY,
{
    if n == 0 {
        return UNITY;
    }
    quarter_sine_level(fade_level(i_from_end, n))
}

/// The gain that a clip's fades give its frame `local_frame`.
pub fn compute_fade_gain(local_frame: u64, clip_len: u64, fade_in: Fade, fade_out: Fade) -> (g: i32)
    ensures
        g == fade_gain(local_frame as nat, clip_len as nat, fade_in, fade_out),
        0 <= g <= UNITY,
{
    let mut g: i32 = UNITY;

    // fade-in (apply if inside fade-in zone)
    if fade_in.length_frames > 0 && local_frame < fade_in.length_frames {
        g = match fade_in.curve {
            FadeCurve::Linear => fade_gain_linear_in(local_frame, fade_in.length_frames),
            FadeCurve::EqualPower => fade_gain_equal_power_in(local_frame, fade_in.length_frames),
        };
    }
    // fade-out (apply if inside fade-out zone)

    if fade_out.length_frames > 0 {
        let out_start: u64 = if clip_len >= fade_out.length_frames {
            clip_len - fade_out.length_frames
        } else {
            0
        };
        if local_frame >= out_start {
            let from_end: u64 = if clip_len >= 1 && clip_len - 1 >= local_frame {
                clip_len - 1 - local_frame
            } else {
                0
            };
            let go: i32 = match fade_out.curve {
                FadeCurve::Linear => fade_gain_linear_out(from_end, fade_out.length_frames),
                FadeCurve::EqualPower => fade_gain_equal_power_out(
                    from_end,
                    fade_out.length_frames,
                ),
            };
            // where both fades apply (tiny clips), the smaller gain counts
            if go < g {
                g = go;
            }
        }
    }
    g
}

/// What one clip adds to the mix at timeline frame `global_frame`.
pub fn clip_frame<S: ClipSource>(clip: &Clip<S>, global_frame: u128) -> (out: Frame)
    requires
        global_frame <= 2 * u64::MAX,
    ensures
        out == clip_contribution(*clip, global_frame as int),
{
    let clip_start: u128 = clip.timing.start_frame as u128;
    let clip_length: u64 = clip.timing.duration_frames;
    if global_frame < clip_start {
        return (0, 0);
    }
    let clip_relative: u128 = global_frame - clip_start;
    match &clip.kind {
        ClipKind::Audio(audio_clip) => {
            let local_frame: u64 = if audio_clip.looping {
                if clip_length == 0 {
                    return (0, 0);
                }
                proof {
                    lemma_mod_bound(clip_relative as int, clip_length as int);
                }
                (clip_relative % (clip_length as u128)) as u64
            } else {
                if clip_relative >= clip_length as u128 {
                    return (0, 0);
                }
                clip_relative as u64
            };
            let (l, r): (i32, i32) = if audio_clip.start_offset <= u64::MAX - local_frame {
                let source_frame: u64 = audio_clip.start_offset + local_frame;
                let frames = audio_clip.source.read_samples(source_frame, 1);
                assert(frames@[0] == audio_clip.source.stored_frame((source_frame + 0) as nat));
                frames[0]
            } else {
                (0, 0)
            };
            let fg: i32 = compute_fade_gain(local_frame, clip_length, clip.fade_in, clip.fade_out);
            let l: i32 = attenuate(l, fg);
            let r: i32 = attenuate(r, fg);
            apply_gain_pan(l, r, audio_clip.gain, audio_clip.pan)
        },
    }
}

} // verus!

verus! {

/// A track that holds clips, ordered by where they start, and plays them
/// according to the timeline.
pub struct TimelineTrack<S: ClipSource> {
    pub id: TrackId,
    pub name: String,
    pub clips: Vec<Clip<S>>,
}

/// The start frames of a list of clips.
pub open spec fn clip_starts<S: ClipSource>(clips: Seq<Clip<S>>) -> Seq<u64> {
    Seq::new(clips.len(), |i: int| clips[i].timing.start_frame)
}

/// Whether a list of clips is ordered by start frame.
pub open spec fn clips_ordered<S: ClipSource>(clips: Seq<Clip<S>>) -> bool {
    forall|i: int, j: int|
        0 <= i <= j < clips.len() ==> clips[i].timing.start_frame <= clips[j].timing.start_frame
}

/// A list of clips with one more clip put in its place: after every clip
/// that starts no later, before the first that starts later.
pub open spec fn insert_by_start<S: ClipSource>(clips: Seq<Clip<S>>, clip: Clip<S>) -> Seq<
    Clip<S>,
> {
    clips.insert(first_later(clip_starts(clips), clip.timing.start_frame), clip)
}

/// A list of clips put in order of their start frames, clips that start
/// at the same frame keeping the order in which they stood.
pub open spec fn sorted_by_start<S: ClipSource>(clips: Seq<Clip<S>>) -> Seq<Clip<S>>
    decreases clips.len(),
{
    if clips.len() == 0 {
        clips
    } else {
        insert_by_start(sorted_by_start(clips.drop_last()), clips.last())
    }
}

/// Putting a clip in its place keeps an ordered list ordered.
pub proof fn lemma_insert_by_start_ordered<S: ClipSource>(clips: Seq<Clip<S>>, clip: Clip<S>)
    requires
        clips_ordered(clips),
    ensures
        clips_ordered(insert_by_start(clips, clip)),
        insert_by_start(clips, clip).len() == clips.len() + 1,
{
    let starts = clip_starts(clips);
    let start = clip.timing.start_frame;
    lemma_first_match_bounds(starts, later_than(start));
    let at = first_later(starts, start);
    let after = insert_by_start(clips, clip);
    assert forall|i: int, j: int| 0 <= i <= j < after.len() implies after[i].timing.start_frame
        <= after[j].timing.start_frame by {
        if at < clips.len() {
            assert(later_than(start)(starts[at]));
            assert(starts[at] == clips[at].timing.start_frame);
        }
        if i < at {
            assert(!later_than(start)(starts[i]));
            assert(starts[i] == clips[i].timing.start_frame);
        }
        if j < at {
            assert(!later_than(start)(starts[j]));
            assert(starts[j] == clips[j].timing.start_frame);
        }
    }
}

/// A sorted list is in order and as long as the list it was made from.
pub proof fn lemma_sorted_by_start_ordered<S: ClipSource>(clips: Seq<Clip<S>>)
    ensures
        clips_ordered(sorted_by_start(clips)),
        sorted_by_start(clips).len() == clips.len(),
    decreases clips.len(),
{
    if clips.len() > 0 {
        lemma_sorted_by_start_ordered(clips.drop_last());
        lemma_insert_by_start_ordered(sorted_by_start(clips.drop_last()), clips.last());
    }
}

/// Sorting leaves a list that is in order as it is.
pub proof fn lemma_sorted_by_start_of_ordered<S: ClipSource>(clips: Seq<Clip<S>>)
    requires
        clips_ordered(clips),
    ensures
        sorted_by_start(clips) == clips,
    decreases clips.len(),
{
    if clips.len() > 0 {
        let head = clips.drop_last();
        lemma_sorted_by_start_of_ordered(head);
        let starts = clip_starts(head);
        let start = clips.last().timing.start_frame;
        assert forall|j: int| 0 <= j < head.len() implies !later_than(start)(
            #[trigger] starts[j],
        ) by {
            assert(starts[j] == clips[j].timing.start_frame);
        }
        lemma_first_match_unique(starts, later_than(start), head.len() as int);
        assert(head.insert(head.len() as int, clips.last()) =~= clips);
    }
}

/// The clips that do not carry the identifier `id`, in their order.
pub open spec fn clips_without<S: ClipSource>(clips: Seq<Clip<S>>, id: Seq<char>) -> Seq<Clip<S>> {
    clips.filter(|c: Clip<S>| c.id@ != id)
}

impl<S: ClipSource> TimelineTrack<S> {
    /// A track without clips.
    pub fn new(id: TrackId, name: &str) -> (track: Self)
        ensures
            track.id == id,
            track.name@ == name@,
            track.clips@.len() == 0,
    {
        Self { id, name: name.to_owned(), clips: Vec::new() }
    }

    /// Adds a clip and puts the clips in order of their start frames.
    /// Clips that start at the same frame keep the order in which they
    /// stood, the new clip last among them.
    pub fn add_clip(&mut self, clip: Clip<S>)
        ensures
            final(self).id == old(self).id,
            final(self).name == old(self).name,
            final(self).clips@ == sorted_by_start(old(self).clips@.push(clip)),
            clips_ordered(final(self).clips@),
            clips_ordered(old(self).clips@) ==> final(self).clips@ == insert_by_start(
                old(self).clips@,
                clip,
            ),
    {
        proof {
            lemma_sorted_by_start_ordered(self.clips@.push(clip));
            if clips_ordered(self.clips@) {
                lemma_sorted_by_start_of_ordered(self.clips@);
                assert(self.clips@.push(clip).drop_last() =~= self.clips@);
            }
        }
        self.clips.push(clip);
        let ghost all = self.clips@;
        let mut i: usize = 0;
        while i < self.clips.len()
            invariant
                self.id == old(self).id,
                self.name == old(self).name,
                all == old(self).clips@.push(clip),
                i <= all.len(),
                self.clips@.len() == all.len(),
                self.clips@.subrange(0, i as int) == sorted_by_start(all.subrange(0, i as int)),
                self.clips@.subrange(i as int, all.len() as int) == all.subrange(
                    i as int,
                    all.len() as int,
                ),
            decreases self.clips.len() - i,
        {
            let ghost placed = self.clips@.subrange(0, i as int);
            let ghost rest = self.clips@.subrange(i as int + 1, all.len() as int);
            assert(self.clips@[i as int] == all.subrange(i as int, all.len() as int)[0]);
            let start: u64 = self.clips[i].timing.start_frame;
            let mut at: usize = 0;
            while at < i && self.clips[at].timing.start_frame <= start
                invariant
                    at <= i < self.clips@.len(),
                    placed == self.clips@.subrange(0, i as int),
                    forall|j: int| 0 <= j < at ==> self.clips@[j].timing.start_frame <= start,
                decreases i - at,
            {
                at = at + 1;
            }
            proof {
                let starts = clip_starts(placed);
                assert forall|j: int| 0 <= j < at implies !later_than(start)(
                    #[trigger] starts[j],
                ) by {
                    assert(starts[j] == placed[j].timing.start_frame);
                    assert(placed[j] == self.clips@[j]);
                }
                if at < i {
                    assert(starts[at as int] == placed[at as int].timing.start_frame);
                    assert(placed[at as int] == self.clips@[at as int]);
                }
                lemma_first_match_unique(starts, later_than(start), at as int);
                assert(all.subrange(0, i + 1).drop_last() =~= all.subrange(0, i as int));
                assert(all.subrange(0, i + 1).last() == all[i as int]);
            }
            if at < i {
                let moved: Clip<S> = self.clips.remove(i);
                self.clips.insert(at, moved);
            }
            proof {
                assert(self.clips@.subrange(0, i + 1) =~= insert_by_start(placed, all[i as int]));
                assert(self.clips@.subrange(i + 1, all.len() as int) =~= rest);
                assert(rest =~= all.subrange(i + 1, all.len() as int)) by {
                    assert forall|j: int| 0 <= j < rest.len() implies rest[j] == all.subrange(
                        i + 1,
                        all.len() as int,
                    )[j] by {
                        assert(rest[j] == all.subrange(i as int, all.len() as int)[j + 1]);
                    }
                }
            }
            i = i + 1;
        }
        proof {
            assert(self.clips@.subrange(0, i as int) =~= self.clips@);
            assert(all.subrange(0, i as int) =~= all);
        }
    }

    /// Removes every clip that carries the identifier `clip_id`.
    pub fn remove_clip(&mut self, clip_id: ClipId)
        ensures
            final(self).id == old(self).id,
            final(self).name == old(self).name,
            final(self).clips@ == clips_without(old(self).clips@, clip_id@),
    {
        let ghost before = self.clips@;
        let ghost keep = |c: Clip<S>| c.id@ != clip_id@;
        let ghost mut seen: int = 0;
        let mut at: usize = 0;
        while at < self.clips.len()
            invariant
                self.id == old(self).id,
                self.name == old(self).name,
                before == old(self).clips@,
                keep == (|c: Clip<S>| c.id@ != clip_id@),
                0 <= seen <= before.len(),
                at == before.subrange(0, seen).filter(keep).len(),
                self.clips@ == before.subrange(0, seen).filter(keep) + before.subrange(
                    seen,
                    before.len() as int,
                ),
            decreases before.len() - seen,
        {
            proof {
                lemma_filter_step(before, keep, seen);
                assert(self.clips@[at as int] == before[seen]);
            }
            if self.clips[at].id.matches(&clip_id) {
                self.clips.remove(at);
                proof {
                    assert(self.clips@ =~= before.subrange(0, seen + 1).filter(keep)
                        + before.subrange(seen + 1, before.len() as int));
                    seen = seen + 1;
                }
            } else {
                proof {
                    assert(self.clips@ =~= before.subrange(0, seen + 1).filter(keep)
                        + before.subrange(seen + 1, before.len() as int));
                    seen = seen + 1;
                }
                at = at + 1;
            }
        }
        proof {
            assert(seen == before.len()) by {
                before.subrange(0, seen).lemma_filter_len(keep);
            }
            assert(before.subrange(0, seen) =~= before);
            assert(self.clips@ =~= before.filter(keep));
        }
    }

    /// Adds to the first `frame_count` frames of `output_buffer` what the
    /// clips sound like from timeline frame `start_frame` on. Each frame
    /// becomes what stood there plus every clip's contribution, summed
    /// exactly and then limited to the sample range.
    pub fn render_audio(
        &mut self,
        start_frame: u64,
        frame_count: usize,
        output_buffer: &mut [Frame],
    )
        requires
            frame_count <= old(output_buffer)@.len(),
        ensures
            *final(self) == *old(self),
            final(output_buffer)@.len() == old(output_buffer)@.len(),
            forall|i: int|
                0 <= i < frame_count ==> #[trigger] final(output_buffer)@[i] == rendered_frame(
                    old(output_buffer)@[i],
                    old(self).clips@,
                    start_frame + i,
                ),
            forall|i: int|
                frame_count <= i < old(output_buffer)@.len() ==> #[trigger] final(output_buffer)@[i] == old(output_buffer)@[i],
    {
        let mut i: usize = 0;
        while i < frame_count
            invariant
                *self == *old(self),
                i <= frame_count <= output_buffer@.len(),
                output_buffer@.len() == old(output_buffer)@.len(),
                forall|k: int|
                    0 <= k < i ==> #[trigger] output_buffer@[k] == rendered_frame(
                        old(output_buffer)@[k],
                        self.clips@,
                        start_frame + k,
                    ),
                forall|k: int|
                    i <= k < output_buffer@.len() ==> #[trigger] output_buffer@[k] == old(output_buffer)@[k],
            decreases frame_count - i,
        {
            let global_frame: u128 = start_frame as u128 + i as u128;
            let before: Frame = output_buffer[i];
            let mixed: Frame = self.mix_at(before, global_frame);
            output_buffer[i] = mixed;
            i = i + 1;
        }
    }

    /// The frame that stands at timeline frame `global_frame` once every
    /// clip's contribution has been added to `before`.
    pub fn mix_at(&self, before: Frame, global_frame: u128) -> (mixed: Frame)
        requires
            global_frame <= 2 * u64::MAX,
        ensures
            mixed == rendered_frame(before, self.clips@, global_frame as int),
    {
        let mut left: i128 = before.0 as i128;
        let mut right: i128 = before.1 as i128;
        let mut j: usize = 0;
        while j < self.clips.len()
            invariant
                j <= self.clips.len(),
                global_frame <= 2 * u64::MAX,
                left == before.0 + clips_sum(
                    self.clips@.subrange(0, j as int),
                    global_frame as int,
                ).0,
                right == before.1 + clips_sum(
                    self.clips@.subrange(0, j as int),
                    global_frame as int,
                ).1,
                -(j + 1) * 0x8000_0000 <= left <= (j + 1) * 0x8000_0000,
                -(j + 1) * 0x8000_0000 <= right <= (j + 1) * 0x8000_0000,
            decreases self.clips.len() - j,
        {
            let added: Frame = clip_frame(&self.clips[j], global_frame);
            proof {
                assert(self.clips@.subrange(0, j + 1).drop_last() =~= self.clips@.subrange(
                    0,
                    j as int,
                ));
            }
            left = left + added.0 as i128;
            right = right + added.1 as i128;
            j = j + 1;
        }
        proof {
            assert(self.clips@.subrange(0, j as int) =~= self.clips@);
        }
        (saturate(left), saturate(right))
    }
}

} // verus!
