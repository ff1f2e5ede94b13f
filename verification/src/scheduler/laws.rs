//! What holds of every scheduler, whatever commands it gets.

use vstd::prelude::*;
use crate::clip::source::ClipSource;
use crate::mixer::{all_advanced, lemma_mix_swap, mixed_frame};
use crate::sample::silent_frames;
use crate::scheduler::command::SchedulerCommand;
use crate::scheduler::track::ScheduledTrack;
use crate::scheduler::{
    bbt_ticks,
    lemma_bbt_ticks_nonnegative,
    lemma_frame_of_ticks_nonnegative,
    lemma_insert_keeps_ascending,
    pending_starts,
    pending_tracks,
    SchedulerModel,
};
use crate::seq_facts::{
    first_later,
    later_than,
    lemma_first_match_bounds,
    lemma_first_match_unique,
};
use crate::track::Track;
use crate::transport::clock::ClockModel;
use crate::transport::resolution::TickResolution;
use crate::transport::TransportState;

verus! {

/// A scheduler starts out valid.
pub proof fn lemma_initial_valid<S: ClipSource>(clock: ClockModel)
    requires
        clock.valid(),
    ensures
        SchedulerModel::<S>::initial(clock).valid(),
{
    assert(0 < clock.tick_span()) by (nonlinear_arith)
        requires
            clock.tick_span() == clock.sample_rate * 60 * 1_000_000,
            clock.sample_rate >= 1,
    ;
}

/// A stopped scheduler stands at frame zero and tick zero with nothing in
/// the mix.
pub proof fn lemma_stopped_at_origin<S: ClipSource>(m: SchedulerModel<S>)
    requires
        m.valid(),
        m.transport_state == TransportState::Stopped,
    ensures
        m.current_frame == 0,
        m.clock.tick == 0,
        m.active.len() == 0,
{
}

/// No command takes a valid scheduler to a state that is not valid.
pub proof fn lemma_command_keeps_valid<S: ClipSource>(
    m: SchedulerModel<S>,
    cmd: SchedulerCommand<S>,
    next: SchedulerModel<S>,
)
    requires
        m.valid(),
        m.follows(cmd, next),
    ensures
        next.valid(),
{
    assert(0 < m.clock.tick_span()) by (nonlinear_arith)
        requires
            m.clock.tick_span() == m.clock.sample_rate * 60 * 1_000_000,
            m.clock.sample_rate >= 1,
    ;
    match cmd {
        SchedulerCommand::ScheduleTrack { track, start_frame } => {
            let starts = pending_starts(m.pending);
            lemma_insert_keeps_ascending(starts, start_frame);
            assert(next == m.scheduled(track, start_frame));
            assert(next.pending.len() == m.pending.len() + 1);
            assert(pending_starts(next.pending) =~= starts.insert(
                first_later(starts, start_frame),
                start_frame,
            ));
        },
        SchedulerCommand::ScheduleClip { track_id, clip } => {},
        SchedulerCommand::ParamChange { target_id, change } => {},
        SchedulerCommand::StopTrack { target_id } => {
            m.active.lemma_filter_len(crate::scheduler::not_named(target_id@));
        },
        SchedulerCommand::RestartTrack { target_id } => {},
        SchedulerCommand::SetTempo { bpm, resolution } => {
            if next != m {
                assert(0 < next.clock.tick_span()) by (nonlinear_arith)
                    requires
                        next.clock.tick_span() == next.clock.sample_rate * 60 * 1_000_000,
                        next.clock.sample_rate >= 1,
                ;
            }
        },
        SchedulerCommand::SetLoop { enabled, start, end } => {
            lemma_bbt_ticks_nonnegative(m.clock, start);
            lemma_bbt_ticks_nonnegative(m.clock, end);
            if start.bar >= 1 && start.beat >= 1 && start.tick >= 1 {
                lemma_frame_of_ticks_nonnegative(m.clock, bbt_ticks(m.clock, start));
            }
        },
        SchedulerCommand::Play => {},
        SchedulerCommand::Pause => {},
        SchedulerCommand::Stop => {
            assert(pending_starts(next.pending) =~= Seq::<u64>::empty());
        },
    }
}

/// No buffer takes a valid scheduler to a state that is not valid.
pub proof fn lemma_render_keeps_valid<S: ClipSource>(m: SchedulerModel<S>, n: nat)
    requires
        m.valid(),
    ensures
        m.rendered(n).valid(),
{
    if m.transport_state == TransportState::Playing {
        let starts = pending_starts(m.pending);
        lemma_first_match_bounds(starts, later_than(m.current_frame as u64));
        assert(pending_starts(m.promoted().pending) =~= starts.subrange(
            m.due(),
            starts.len() as int,
        ));
        m.clock.lemma_advanced_valid(n);
        let rewound = m.clock.advanced(n).rewound();
        assert(0 < m.clock.tick_span()) by (nonlinear_arith)
            requires
                m.clock.tick_span() == m.clock.sample_rate * 60 * 1_000_000,
                m.clock.sample_rate >= 1,
        ;
        rewound.lemma_advanced_valid(m.loop_start_frame);
    }
}

/// The tracks that join the mix are the waiting tracks that start no
/// later than the timeline position, in the order in which they waited.
pub proof fn lemma_promoted_were_due<S: ClipSource>(m: SchedulerModel<S>, i: int)
    requires
        m.valid(),
        0 <= i < m.due(),
    ensures
        m.due() <= m.pending.len(),
        m.pending[i].start_frame <= m.current_frame,
        m.promoted().active[m.active.len() + i] == m.pending[i].track,
{
    let starts = pending_starts(m.pending);
    lemma_first_match_bounds(starts, later_than(m.current_frame as u64));
    assert(!later_than(m.current_frame as u64)(starts[i]));
    assert(starts[i] == m.pending[i].start_frame);
}

/// Once the due tracks have joined the mix, every track that still waits
/// starts later than the timeline position.
pub proof fn lemma_promoted_leaves_only_later<S: ClipSource>(m: SchedulerModel<S>, i: int)
    requires
        m.valid(),
        0 <= i < m.promoted().pending.len(),
    ensures
        m.promoted().pending[i].start_frame > m.current_frame,
{
    let starts = pending_starts(m.pending);
    lemma_first_match_bounds(starts, later_than(m.current_frame as u64));
    let due = m.due();
    assert(starts[due] == m.pending[due].start_frame);
    assert(later_than(m.current_frame as u64)(starts[due]));
    assert(starts[due + i] == m.pending[due + i].start_frame);
}

/// While the transport plays, a buffer of `n` frames moves the timeline on
/// by exactly `n`, unless the buffer takes it to the loop end or to the
/// largest frame number.
pub proof fn lemma_playing_advances_frame<S: ClipSource>(m: SchedulerModel<S>, n: nat)
    requires
        m.valid(),
        m.transport_state == TransportState::Playing,
        !m.wraps(n),
        m.current_frame + n <= u64::MAX,
    ensures
        m.rendered(n).current_frame == m.current_frame + n,
{
}

/// While the transport plays and no loop wraps it, the timeline never
/// moves backward.
pub proof fn lemma_playing_never_moves_back<S: ClipSource>(m: SchedulerModel<S>, n: nat)
    requires
        m.valid(),
        m.transport_state == TransportState::Playing,
        !m.wraps(n),
    ensures
        m.rendered(n).current_frame >= m.current_frame,
{
}

/// While the transport does not play, a buffer is exact silence and
/// leaves the scheduler as it is: timeline, clock and tracks stay put.
pub proof fn lemma_not_playing_is_silent_and_still<S: ClipSource>(m: SchedulerModel<S>, n: nat)
    requires
        m.transport_state != TransportState::Playing,
    ensures
        m.output(n) == silent_frames(n),
        forall|k: int| 0 <= k < n ==> #[trigger] m.output(n)[k] == (0i32, 0i32),
        m.rendered(n) == m,
        m.rendered(n).current_frame == m.current_frame,
        m.rendered(n).clock.tick == m.clock.tick,
{
}

/// Pausing and then playing keeps the position: frame, tick, position
/// within the tick, and the tracks are what they were.
pub proof fn lemma_pause_then_play_keeps_position<S: ClipSource>(m: SchedulerModel<S>)
    ensures
        m.paused().played().current_frame == m.current_frame,
        m.paused().played().clock.tick == m.clock.tick,
        m.paused().played().clock.phase == m.clock.phase,
        m.paused().played().active == m.active,
        m.paused().played().pending == m.pending,
        m.paused().played() == m.played(),
{
}

/// Stopping and then playing does not keep the position: the timeline
/// starts again from frame zero and tick zero, with no tracks.
pub proof fn lemma_stop_then_play_rewinds<S: ClipSource>(m: SchedulerModel<S>)
    ensures
        m.stopped().played().current_frame == 0,
        m.stopped().played().clock.tick == 0,
        m.stopped().played().clock.phase == 0,
        m.stopped().played().active.len() == 0,
        m.stopped().played().pending.len() == 0,
        m.current_frame > 0 ==> m.stopped().played().current_frame != m.paused().played().current_frame,
{
}

/// Setting the same tempo twice is the same as setting it once.
pub proof fn lemma_set_tempo_idempotent<S: ClipSource>(
    m: SchedulerModel<S>,
    bpm: u64,
    resolution: TickResolution,
)
    ensures
        m.with_tempo(bpm, resolution).with_tempo(bpm, resolution) == m.with_tempo(bpm, resolution),
{
}

/// Whether `t` is `s` with the items at `i` and `j` exchanged.
pub open spec fn exchanged<A>(s: Seq<A>, t: Seq<A>, i: int, j: int) -> bool {
    &&& 0 <= i < s.len()
    &&& 0 <= j < s.len()
    &&& t == s.update(i, s[j]).update(j, s[i])
}

/// Whether two states are the same but for the order of two tracks: two
/// neighbours in the queue that start at the same frame, or two tracks in
/// the mix.
pub open spec fn differ_in_order<S: ClipSource>(x: SchedulerModel<S>, y: SchedulerModel<S>) -> bool {
    &&& y == (SchedulerModel { pending: y.pending, active: y.active, ..x })
    &&& ({
        ||| (x.pending == y.pending && x.active == y.active)
        ||| (x.active == y.active && exists|i: int|
            #[trigger] exchanged(x.pending, y.pending, i, i + 1) && x.pending[i].start_frame
                == x.pending[i + 1].start_frame)
        ||| (x.pending == y.pending && exists|i: int, j: int|
            #[trigger] exchanged(x.active, y.active, i, j))
    })
}

/// Exchanging two tracks of a list and letting all give `n` frames is the
/// same as letting all give `n` frames and exchanging them then.
proof fn lemma_advanced_exchanged<S: ClipSource>(
    a: Seq<Track<S>>,
    b: Seq<Track<S>>,
    i: int,
    j: int,
    n: nat,
)
    requires
        exchanged(a, b, i, j),
    ensures
        exchanged(all_advanced(a, n), all_advanced(b, n), i, j),
{
    let aa = all_advanced(a, n);
    let bb = all_advanced(b, n);
    assert(bb =~= aa.update(i, aa[j]).update(j, aa[i]));
}

/// Two states that differ only in the order of two tracks give the same
/// buffer, bit for bit, and differ only in the order of two tracks after it.
pub proof fn lemma_order_does_not_change_buffer<S: ClipSource>(
    x: SchedulerModel<S>,
    y: SchedulerModel<S>,
    n: nat,
)
    requires
        differ_in_order(x, y),
    ensures
        x.output(n) == y.output(n),
        differ_in_order(x.rendered(n), y.rendered(n)),
{
    if x.transport_state == TransportState::Playing {
        let frame = x.current_frame as u64;
        let starts = pending_starts(x.pending);
        let px = x.promoted();
        let py = y.promoted();
        let len = x.pending.len() as int;
        if x.pending == y.pending && x.active == y.active {
            assert(x == y);
        } else if x.active == y.active && exists|i: int|
            #[trigger] exchanged(x.pending, y.pending, i, i + 1) && x.pending[i].start_frame
                == x.pending[i + 1].start_frame {
            let i = choose|i: int|
                #[trigger] exchanged(x.pending, y.pending, i, i + 1) && x.pending[i].start_frame
                    == x.pending[i + 1].start_frame;
            assert(pending_starts(y.pending) =~= starts);
            let due = x.due();
            assert(due == y.due());
            lemma_first_match_bounds(starts, later_than(frame));
            assert(starts[i] == x.pending[i].start_frame);
            assert(starts[i + 1] == x.pending[i + 1].start_frame);
            // the two start at the same frame, so they are due together
            assert(due != i + 1) by {
                if due == i + 1 {
                    assert(later_than(frame)(starts[i + 1]));
                    assert(!later_than(frame)(starts[i]));
                }
            }
            if due <= i {
                assert(pending_tracks(x.pending.subrange(0, due)) =~= pending_tracks(
                    y.pending.subrange(0, due),
                ));
                assert(px.active == py.active);
                assert(py.pending =~= px.pending.update(i - due, px.pending[i + 1 - due]).update(
                    i + 1 - due,
                    px.pending[i - due],
                ));
                assert(exchanged(px.pending, py.pending, i - due, i - due + 1));
                assert(px.pending[i - due].start_frame == px.pending[i - due + 1].start_frame);
                assert(x.output(n) =~= y.output(n));
                let rx = x.rendered(n);
                let ry = y.rendered(n);
                assert(rx.active == ry.active);
                assert(exchanged(rx.pending, ry.pending, i - due, i - due + 1));
            } else {
                assert(px.pending =~= py.pending);
                let at = x.active.len() + i;
                assert(py.active =~= px.active.update(at, px.active[at + 1]).update(
                    at + 1,
                    px.active[at],
                ));
                assert(exchanged(px.active, py.active, at, at + 1));
                assert forall|k: nat| k < n implies #[trigger] mixed_frame(px.active, k)
                    == mixed_frame(py.active, k) by {
                    lemma_mix_swap(px.active, at, at + 1, k);
                }
                assert(x.output(n) =~= y.output(n));
                lemma_advanced_exchanged(px.active, py.active, at, at + 1, n);
                let rx = x.rendered(n);
                let ry = y.rendered(n);
                assert(exchanged(rx.active, ry.active, at, at + 1));
            }
        } else {
            let (i, j) = choose|i: int, j: int| #[trigger] exchanged(x.active, y.active, i, j);
            let joined = pending_tracks(x.pending.subrange(0, x.due()));
            assert(py.active =~= px.active.update(i, px.active[j]).update(j, px.active[i]));
            assert(exchanged(px.active, py.active, i, j));
            assert forall|k: nat| k < n implies #[trigger] mixed_frame(px.active, k) == mixed_frame(
                py.active,
                k,
            ) by {
                lemma_mix_swap(px.active, i, j, k);
            }
            assert(x.output(n) =~= y.output(n));
            lemma_advanced_exchanged(px.active, py.active, i, j, n);
            let rx = x.rendered(n);
            let ry = y.rendered(n);
            assert(exchanged(rx.active, ry.active, i, j));
        }
    }
}

/// Two states that differ only in the order of two tracks still do so
/// after any run of buffers.
pub proof fn lemma_order_survives_buffers<S: ClipSource>(
    x: SchedulerModel<S>,
    y: SchedulerModel<S>,
    sizes: Seq<nat>,
)
    requires
        differ_in_order(x, y),
    ensures
        differ_in_order(x.played_through(sizes), y.played_through(sizes)),
    decreases sizes.len(),
{
    if sizes.len() > 0 {
        lemma_order_survives_buffers(x, y, sizes.drop_last());
        lemma_order_does_not_change_buffer(
            x.played_through(sizes.drop_last()),
            y.played_through(sizes.drop_last()),
            sizes.last(),
        );
    }
}

/// Mixing is commutative: two tracks scheduled for the same start frame
/// sound the same whichever is scheduled first. After any run of buffers,
/// the next buffer holds the same frames, bit for bit.
pub proof fn lemma_schedule_order_does_not_change_output<S: ClipSource>(
    m: SchedulerModel<S>,
    a: Track<S>,
    b: Track<S>,
    start_frame: u64,
    sizes: Seq<nat>,
    n: nat,
)
    requires
        m.valid(),
    ensures
        m.scheduled(a, start_frame).scheduled(b, start_frame).played_through(sizes).output(n)
            == m.scheduled(b, start_frame).scheduled(a, start_frame).played_through(sizes).output(
            n,
        ),
{
    let ab = m.scheduled(a, start_frame).scheduled(b, start_frame);
    let ba = m.scheduled(b, start_frame).scheduled(a, start_frame);
    lemma_scheduled_twice(m, a, b, start_frame);
    lemma_scheduled_twice(m, b, a, start_frame);
    let at = first_later(pending_starts(m.pending), start_frame);
    assert(ba.pending =~= ab.pending.update(at, ab.pending[at + 1]).update(
        at + 1,
        ab.pending[at],
    ));
    assert(exchanged(ab.pending, ba.pending, at, at + 1));
    assert(ab.pending[at].start_frame == ab.pending[at + 1].start_frame);
    lemma_order_survives_buffers(ab, ba, sizes);
    lemma_order_does_not_change_buffer(ab.played_through(sizes), ba.played_through(sizes), n);
}

/// A track scheduled right after another for the same start frame waits
/// right behind it.
proof fn lemma_scheduled_twice<S: ClipSource>(
    m: SchedulerModel<S>,
    a: Track<S>,
    b: Track<S>,
    start_frame: u64,
)
    requires
        m.valid(),
    ensures
        m.scheduled(a, start_frame).scheduled(b, start_frame).pending == m.pending.insert(
            first_later(pending_starts(m.pending), start_frame),
            ScheduledTrack { track: a, start_frame },
        ).insert(
            first_later(pending_starts(m.pending), start_frame) + 1,
            ScheduledTrack { track: b, start_frame },
        ),
        0 <= first_later(pending_starts(m.pending), start_frame) <= m.pending.len(),
{
    let starts = pending_starts(m.pending);
    let at = first_later(starts, start_frame);
    lemma_first_match_bounds(starts, later_than(start_frame));
    let once = m.scheduled(a, start_frame);
    let starts_once = pending_starts(once.pending);
    assert(starts_once =~= starts.insert(at, start_frame));
    assert forall|j: int| 0 <= j < at + 1 implies !later_than(start_frame)(
        #[trigger] starts_once[j],
    ) by {
        if j < at {
            assert(starts_once[j] == starts[j]);
        }
    }
    if at + 1 < starts_once.len() {
        assert(starts_once[at + 1] == starts[at]);
    }
    lemma_first_match_unique(starts_once, later_than(start_frame), at + 1);
}

} // verus!
