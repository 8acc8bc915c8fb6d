//! What holds of every source, of every pass and of every presentation
//! time.
//!
//! A pass is driven from outside: each step is told what the collector
//! answered to the frame before. The laws speak of the frames that a pass
//! emits for a given run of answers, which are the calls that the collector
//! receives, and of the times of those frames in seconds.

use vstd::prelude::*;
use crate::pass::{schedule, PassView, Step, TimedFrame};
use crate::rate::{Fps, Rate};
use crate::source::LodecoderView;
use crate::timing::{
    default_frames_before, explicit_delay, explicit_ms_before, lemma_start_time_exact, start_time,
    Timestamp,
};

verus! {

/// The answers of a collector that accepts `count` times in a row. The
/// first step of a pass takes such an answer too.
pub open spec fn accepted<E>(count: nat) -> Seq<Result<(), E>> {
    Seq::new(count, |i: int| Ok(()))
}

/// The smaller of two counts.
pub open spec fn at_most(a: nat, b: nat) -> nat {
    if a <= b {
        a
    } else {
        b
    }
}

/// Steps taken one after another add up: the frames emitted for `first`
/// followed by `second` are those emitted for `first`, then those emitted
/// for `second` from the state that `first` leads to.
pub proof fn lemma_steps_add_up<E>(
    pass: PassView,
    first: Seq<Result<(), E>>,
    second: Seq<Result<(), E>>,
)
    ensures
        pass.emitted(first + second) == pass.emitted(first) + pass.after(first).emitted(second),
        pass.after(first + second) == pass.after(first).after(second),
    decreases first.len(),
{
    if first.len() == 0 {
        assert(first + second =~= second);
    } else {
        let next = pass.step(first[0]).0;
        assert((first + second).drop_first() =~= first.drop_first() + second);
        lemma_steps_add_up(next, first.drop_first(), second);
    }
}

/// A pass with no frame left emits nothing, whatever it is told.
pub proof fn lemma_ended_pass_is_silent<E>(pass: PassView, replies: Seq<Result<(), E>>)
    requires
        pass.remaining.len() == 0,
    ensures
        pass.emitted(replies) == Seq::<TimedFrame>::empty(),
        pass.after(replies).remaining.len() == 0,
    decreases replies.len(),
{
    if replies.len() > 0 {
        lemma_ended_pass_is_silent(pass.step(replies[0]).0, replies.drop_first());
    }
}

/// While the collector accepts, a pass emits the frames that it has before
/// it in order, one for each step, until none is left.
pub proof fn lemma_accepting_run<E>(pass: PassView, steps: nat)
    ensures
        ({
            let count = at_most(steps, pass.remaining.len());
            &&& pass.emitted(accepted::<E>(steps)) == pass.upcoming().take(count as int)
            &&& pass.after(accepted::<E>(steps)) == (PassView {
                remaining: pass.remaining.skip(count as int),
                delays: pass.delays,
                position: pass.position + count,
            })
        }),
    decreases steps,
{
    let count = at_most(steps, pass.remaining.len());
    let replies = accepted::<E>(steps);
    if steps == 0 {
        assert(pass.upcoming().take(0) =~= Seq::<TimedFrame>::empty());
        assert(pass.remaining.skip(0) =~= pass.remaining);
    } else {
        assert(replies.drop_first() =~= accepted::<E>((steps - 1) as nat));
        let next = pass.step(replies[0]).0;
        lemma_accepting_run::<E>(next, (steps - 1) as nat);
        if pass.remaining.len() == 0 {
            assert(pass.upcoming().take(0) =~= Seq::<TimedFrame>::empty());
            assert(pass.remaining.skip(0) =~= pass.remaining);
        } else {
            assert(seq![pass.next_frame()] + next.upcoming().take(count - 1)
                =~= pass.upcoming().take(count as int));
            assert(next.remaining.skip(count - 1) =~= pass.remaining.skip(count as int));
        }
    }
}

/// The pass that `collect` begins has the whole schedule of the source
/// before it. While the collector accepts, its calls are therefore the
/// schedule from its start: as many frames as steps were taken, and all of
/// them once the list is used up.
pub proof fn lemma_calls_follow_schedule<E>(source: LodecoderView, steps: nat)
    ensures
        ({
            let pass = source.collect().1;
            let all = schedule(source.frames, source.custom_delays);
            &&& pass.upcoming() == all
            &&& all.len() == source.frames.len()
            &&& pass.emitted(accepted::<E>(steps)) == all.take(
                at_most(steps, source.frames.len()) as int,
            )
        }),
{
    let pass = source.collect().1;
    assert(pass.upcoming() =~= schedule(source.frames, source.custom_delays));
    lemma_accepting_run::<E>(pass, steps);
}

/// The collector receives the frames in their order, with the indices
/// `0, 1, 2, ...` and neither a gap nor a repeat: after `steps` accepted
/// steps it has received the first `steps` frames, call `i` with index `i`
/// and frame `i` of the source. Once it has received them all, the pass
/// has no frame left and ends well.
pub proof fn lemma_frames_forwarded_in_order<E>(source: LodecoderView, steps: nat)
    requires
        source.wf(),
    ensures
        ({
            let pass = source.collect().1;
            let calls = pass.emitted(accepted::<E>(steps));
            let end = pass.after(accepted::<E>(steps));
            &&& calls.len() == at_most(steps, source.frames.len())
            &&& forall|i: int|
                0 <= i < calls.len() ==> (#[trigger] calls[i]).index == i && calls[i].frame
                    == source.frames[i]
            &&& steps >= source.frames.len() ==> end.remaining.len() == 0 && end.step(
                Ok::<(), E>(()),
            ).1 == Step::Done(Ok::<(), E>(()))
        }),
{
    lemma_calls_follow_schedule::<E>(source, steps);
    lemma_accepting_run::<E>(source.collect().1, steps);
}

/// A failure of the collector ends the pass. Where the collector accepts
/// the frames before frame `k` and fails at frame `k`, it has received
/// exactly the `k + 1` frames up to that one, the pass ends with the
/// collector's own error, and no step after that emits a frame.
pub proof fn lemma_failure_ends_pass<E>(
    source: LodecoderView,
    k: nat,
    error: E,
    later: Seq<Result<(), E>>,
)
    requires
        k < source.frames.len(),
    ensures
        ({
            let pass = source.collect().1;
            let before = accepted::<E>(k + 1);
            let failure = seq![Err::<(), E>(error)];
            &&& pass.emitted(before) == schedule(source.frames, source.custom_delays).take(
                k + 1 as int,
            )
            &&& pass.emitted(before).len() == k + 1
            &&& pass.after(before).step(Err::<(), E>(error)).1 == Step::Done(Err::<(), E>(error))
            &&& pass.emitted(before + failure + later) == pass.emitted(before)
        }),
{
    let pass = source.collect().1;
    let before = accepted::<E>(k + 1);
    let failure = seq![Err::<(), E>(error)];
    lemma_calls_follow_schedule::<E>(source, k + 1);
    let reached = pass.after(before);
    let ended = reached.step(Err::<(), E>(error)).0;
    assert(failure[0] == Err::<(), E>(error));
    assert(ended.emitted(failure.drop_first()) =~= Seq::<TimedFrame>::empty());
    assert(ended.after(failure.drop_first()) == ended);
    assert(reached.emitted(failure) =~= Seq::<TimedFrame>::empty());
    assert(reached.after(failure) == ended);
    lemma_steps_add_up(pass, before, failure);
    lemma_steps_add_up(pass, before + failure, later);
    lemma_ended_pass_is_silent(ended, later);
    assert(pass.emitted(before + failure + later) =~= pass.emitted(before));
}

/// A source is used up by its first pass: it holds no frame afterwards, and
/// a second pass over it emits no frame, whatever the collector answers,
/// and ends well at its first step.
pub proof fn lemma_second_pass_is_empty<E>(source: LodecoderView, replies: Seq<Result<(), E>>)
    ensures
        ({
            let used = source.collect().0;
            let second = used.collect().1;
            &&& used.frames.len() == 0
            &&& used.collect().0 == used
            &&& second.emitted(replies) == Seq::<TimedFrame>::empty()
            &&& second.step(Ok::<(), E>(())).1 == Step::Done(Ok::<(), E>(()))
        }),
{
    let used = source.collect().0;
    let second = used.collect().1;
    lemma_ended_pass_is_silent(second, replies);
}

/// Without explicit delays every frame before frame `i` has the default
/// duration.
pub proof fn lemma_constant_rate_counts(i: nat)
    ensures
        default_frames_before(None, i) == i,
        explicit_ms_before(None, i) == 0,
    decreases i,
{
    if i > 0 {
        lemma_constant_rate_counts((i - 1) as nat);
    }
}

/// The base rate of a source is `fps * speed`, and the default duration is
/// one over it: the duration times `fps * speed` is one.
pub proof fn lemma_default_duration_inverts_rate(params: Fps)
    ensures
        ({
            let rate = params.product();
            &&& rate.num == params.fps.num * params.speed.num
            &&& rate.den == params.fps.den * params.speed.den
            &&& rate.default_duration_num() * (params.fps.num * params.speed.num)
                == rate.seconds_den() * (params.fps.den * params.speed.den)
        }),
{
    let fps = params.fps;
    let speed = params.speed;
    assert(fps.num * speed.num <= u64::MAX && fps.den * speed.den <= u64::MAX) by (nonlinear_arith)
        requires
            0 <= fps.num <= 0xffff_ffff,
            0 <= fps.den <= 0xffff_ffff,
            0 <= speed.num <= 0xffff_ffff,
            0 <= speed.den <= 0xffff_ffff,
    ;
    let num = fps.num * speed.num;
    let den = fps.den * speed.den;
    assert((1000 * den) * num == (1000 * num) * den) by (nonlinear_arith);
}

/// At a constant rate the collector receives frame `i` with the time
/// `i * d` seconds, where `d` is the default duration, one over
/// `fps * speed`: the times are `0, d, 2d, 3d, ...`.
pub proof fn lemma_constant_rate_times<E>(source: LodecoderView, steps: nat)
    requires
        source.wf(),
        source.custom_delays is None,
    ensures
        ({
            let calls = source.collect().1.emitted(accepted::<E>(steps));
            forall|i: int|
                0 <= i < calls.len() ==> (#[trigger] calls[i]).at == (Timestamp {
                    default_frames: i as u64,
                    explicit_ms: 0,
                }) && calls[i].at.seconds_num(source.rate) == i
                    * source.rate.default_duration_num()
        }),
{
    let calls = source.collect().1.emitted(accepted::<E>(steps));
    lemma_calls_follow_schedule::<E>(source, steps);
    assert forall|i: int| 0 <= i < calls.len() implies (#[trigger] calls[i]).at == (Timestamp {
        default_frames: i as u64,
        explicit_ms: 0,
    }) && calls[i].at.seconds_num(source.rate) == i * source.rate.default_duration_num() by {
        lemma_constant_rate_counts(i as nat);
        lemma_start_time_exact(None, i as nat);
        assert(0 * source.rate.num == 0) by (nonlinear_arith);
    }
}

/// From one call of the collector to the next the time grows by the
/// duration of the earlier frame: by its explicit delay, a thousandth of a
/// second for each millisecond, where the delay list has an entry for the
/// frame, and by the default duration where the list ends before the frame
/// or its entry is empty.
pub proof fn lemma_gap_is_duration<E>(source: LodecoderView, steps: nat)
    requires
        source.wf(),
        source.custom_delays is Some,
    ensures
        ({
            let calls = source.collect().1.emitted(accepted::<E>(steps));
            let delays = source.custom_delays->0;
            let rate = source.rate;
            forall|i: int|
                0 <= i && i + 1 < calls.len() ==> #[trigger] calls[i + 1].at.seconds_num(rate)
                    - calls[i].at.seconds_num(rate) == (if i < delays.len() && delays[i] is Some {
                    rate.millis_num(delays[i]->0 as int)
                } else {
                    rate.default_duration_num()
                })
        }),
{
    let calls = source.collect().1.emitted(accepted::<E>(steps));
    let rate = source.rate;
    lemma_calls_follow_schedule::<E>(source, steps);
    assert forall|i: int| 0 <= i && i + 1 < calls.len() implies #[trigger] calls[i
        + 1].at.seconds_num(rate) - calls[i].at.seconds_num(rate) == (match explicit_delay(
        source.custom_delays,
        i,
    ) {
        Some(ms) => rate.millis_num(ms as int),
        None => rate.default_duration_num(),
    }) by {
        lemma_time_grows_by_duration(source.custom_delays, rate, i as nat);
    }
}

/// The step from the presentation time of frame `i` to that of the next
/// frame, with or without a delay list.
pub proof fn lemma_time_grows_by_duration(delays: Option<Seq<Option<u32>>>, rate: Rate, i: nat)
    requires
        i < u64::MAX,
    ensures
        start_time(delays, i + 1).seconds_num(rate) - start_time(delays, i).seconds_num(rate) == (
        match explicit_delay(delays, i as int) {
            Some(ms) => rate.millis_num(ms as int),
            None => rate.default_duration_num(),
        }),
{
    lemma_start_time_exact(delays, i);
    lemma_start_time_exact(delays, i + 1);
    let start = start_time(delays, i);
    let unit = rate.default_duration_num();
    match explicit_delay(delays, i as int) {
        Some(ms) => {
            assert((start.explicit_ms + ms) * rate.num == start.explicit_ms * rate.num + ms
                * rate.num) by (nonlinear_arith);
        },
        None => {
            assert((start.default_frames + 1) * unit == start.default_frames * unit + unit)
                by (nonlinear_arith);
        },
    }
}

/// Presentation times never go back: of two frames the later one does not
/// start before the earlier one.
pub proof fn lemma_start_times_ordered(
    delays: Option<Seq<Option<u32>>>,
    rate: Rate,
    i: nat,
    j: nat,
)
    requires
        i <= j <= u64::MAX,
    ensures
        start_time(delays, i).default_frames <= start_time(delays, j).default_frames,
        start_time(delays, i).explicit_ms <= start_time(delays, j).explicit_ms,
        start_time(delays, i).seconds_num(rate) <= start_time(delays, j).seconds_num(rate),
    decreases j - i,
{
    lemma_start_time_exact(delays, i);
    lemma_start_time_exact(delays, j);
    if i < j {
        lemma_start_times_ordered(delays, rate, i, (j - 1) as nat);
        lemma_start_time_exact(delays, (j - 1) as nat);
        lemma_time_grows_by_duration(delays, rate, (j - 1) as nat);
        match explicit_delay(delays, j - 1) {
            Some(ms) => {
                assert(ms * rate.num >= 0) by (nonlinear_arith)
                    requires
                        ms >= 0,
                        rate.num >= 0,
                ;
            },
            None => {},
        }
    }
}

/// The first call of the collector has the time zero, and from call to call
/// the time never goes back.
pub proof fn lemma_times_never_go_back<E>(source: LodecoderView, steps: nat)
    requires
        source.wf(),
    ensures
        ({
            let calls = source.collect().1.emitted(accepted::<E>(steps));
            let rate = source.rate;
            &&& calls.len() > 0 ==> calls[0].at == Timestamp::zero() && calls[0].at.seconds_num(
                rate,
            ) == 0
            &&& forall|i: int, j: int|
                0 <= i <= j < calls.len() ==> (#[trigger] calls[i]).at.seconds_num(rate) <= (
                #[trigger] calls[j]).at.seconds_num(rate)
        }),
{
    let calls = source.collect().1.emitted(accepted::<E>(steps));
    let rate = source.rate;
    lemma_calls_follow_schedule::<E>(source, steps);
    assert(0 * rate.default_duration_num() + 0 * rate.num == 0) by (nonlinear_arith);
    assert forall|i: int, j: int| 0 <= i <= j < calls.len() implies (#[trigger] calls[i]).at.seconds_num(
        rate,
    ) <= (#[trigger] calls[j]).at.seconds_num(rate) by {
        lemma_start_times_ordered(source.custom_delays, rate, i as nat, j as nat);
    }
}

} // verus!
