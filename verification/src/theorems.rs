//! What holds of the loop over whole runs.
//!
//! A run is a sequence of outer iterations, each a sample of elapsed wall
//! time together with the input found by its physics frames. The theorems
//! here are stated over the model; the executable driver inherits them
//! through its contracts, which equate each method with a model transition.

use vstd::prelude::*;
use vstd::arithmetic::mul::*;
use vstd::arithmetic::div_mod::*;
use crate::input::{halts, InputEvent};
use crate::model::{
    frame_at, lemma_catch_up_from, lemma_frames_due, lemma_quiet_run_frames, lemma_quiet_run_is,
    quiet_run, LoopState,
};

verus! {

/// One outer iteration as the driver sees it: the wall time that passed and
/// the events each of its physics frames finds in the queue.
pub struct Sample {
    /// Elapsed wall time in nanoseconds.
    pub elapsed: nat,
    /// The drained events, one batch per physics frame.
    pub frames: Seq<Seq<InputEvent>>,
}

impl Sample {
    /// Whether no frame of this iteration holds a stop request.
    pub open spec fn quiet(self) -> bool {
        forall|i: int| !halts(#[trigger] frame_at(self.frames, i))
    }
}

/// The wall time of a whole run.
pub open spec fn total_elapsed(samples: Seq<Sample>) -> nat
    decreases samples.len(),
{
    if samples.len() == 0 {
        0
    } else {
        total_elapsed(samples.drop_last()) + samples.last().elapsed
    }
}

impl LoopState {
    /// The state after a run: `advance` applied to each sample in turn.
    pub open spec fn feed(self, samples: Seq<Sample>) -> LoopState
        decreases samples.len(),
    {
        if samples.len() == 0 {
            self
        } else {
            self.feed(samples.drop_last()).advance(samples.last().elapsed, samples.last().frames)
        }
    }
}

/// One outer iteration keeps the state well formed, so the simulation clock
/// stays exactly the executed steps times the fixed step; it only ever moves
/// time from the accumulator to the clock, in whole steps, and neither the
/// clock nor the step count goes down.
pub proof fn lemma_advance_preserves(s: LoopState, elapsed: nat, frames: Seq<Seq<InputEvent>>)
    requires
        s.wf(),
    ensures
        s.advance(elapsed, frames).wf(),
        s.advance(elapsed, frames).step == s.step,
        s.advance(elapsed, frames).catch_up_limit == s.catch_up_limit,
        s.advance(elapsed, frames).renders == s.renders,
        s.advance(elapsed, frames).steps >= s.steps,
        s.advance(elapsed, frames).simulated == s.simulated + (s.advance(elapsed, frames).steps
            - s.steps) * s.step,
        s.advance(elapsed, frames).total_time() == s.accumulate(elapsed).total_time(),
{
    let fed = s.accumulate(elapsed);
    lemma_catch_up_from(fed, frames, 0);
    let ran = s.advance(elapsed, frames).steps - s.steps;
    lemma_mul_is_distributive_add_other_way(s.step as int, s.steps as int, ran);
}

/// After an outer iteration the accumulator holds less than one step, unless
/// a stop request cut the iteration short.
pub proof fn lemma_advance_settles(s: LoopState, elapsed: nat, frames: Seq<Seq<InputEvent>>)
    requires
        s.wf(),
    ensures
        !s.advance(elapsed, frames).halted ==> s.advance(elapsed, frames).settled(),
{
    lemma_catch_up_from(s.accumulate(elapsed), frames, 0);
}

/// From a settled state one outer iteration simulates no more steps than the
/// catch-up limit, however long the elapsed time.
pub proof fn lemma_advance_is_bounded(s: LoopState, elapsed: nat, frames: Seq<Seq<InputEvent>>)
    requires
        s.wf(),
        s.settled(),
    ensures
        s.advance(elapsed, frames).steps - s.steps <= s.catch_up_limit,
{
    if !s.halted {
        let fed = s.accumulate(elapsed);
        lemma_catch_up_from(fed, frames, 0);
        lemma_mul_is_distributive_add_other_way(s.step as int, s.catch_up_limit as int, 1);
        lemma_mul_is_commutative(s.step as int, (s.catch_up_limit + 1) as int);
        lemma_multiply_divide_lt(fed.pending as int, s.step as int, (s.catch_up_limit + 1) as int);
    }
}

/// Within one outer iteration every simulated step belongs to a frame without
/// a stop request; the iteration halts exactly when fewer steps ran than were
/// due, and then the frame it halted in holds a stop request and what was
/// left in the accumulator is kept.
pub proof fn lemma_stop_request_ends_iteration(
    s: LoopState,
    elapsed: nat,
    frames: Seq<Seq<InputEvent>>,
)
    requires
        s.wf(),
        !s.halted,
    ensures
        ({
            let due = s.accumulate(elapsed).frames_due();
            let after = s.advance(elapsed, frames);
            let ran = after.steps - s.steps;
            &&& 0 <= ran <= due
            &&& forall|i: int| 0 <= i < ran ==> !halts(#[trigger] frame_at(frames, i))
            &&& after.halted <==> ran < due
            &&& after.halted ==> halts(frame_at(frames, ran))
            &&& after.pending == s.pending + s.clamped(elapsed) - ran * s.step
        }),
{
    let fed = s.accumulate(elapsed);
    lemma_catch_up_from(fed, frames, 0);
    lemma_quiet_run_frames(frames, 0, fed.frames_due());
    lemma_frames_due(fed.pending, fed.step);
    lemma_mul_inequality(
        quiet_run(frames, 0, fed.frames_due()) as int,
        fed.frames_due() as int,
        s.step as int,
    );
}

/// A stopped loop stays as it is: no transition changes anything.
pub proof fn lemma_halted_is_final(
    s: LoopState,
    elapsed: nat,
    events: Seq<InputEvent>,
    frames: Seq<Seq<InputEvent>>,
)
    requires
        s.halted,
    ensures
        s.accumulate(elapsed) == s,
        s.frame(events) == s,
        s.catch_up(frames) == s,
        s.advance(elapsed, frames) == s,
        s.rendered() == s,
{
}

/// Over a whole run the state stays well formed and, after each outer
/// iteration, the accumulator holds less than one step unless the loop has
/// been stopped.
pub proof fn lemma_run_settles(s: LoopState, samples: Seq<Sample>)
    requires
        s.wf(),
    ensures
        s.feed(samples).wf(),
        s.feed(samples).step == s.step,
        s.feed(samples).catch_up_limit == s.catch_up_limit,
        s.feed(samples).steps >= s.steps,
        s.feed(samples).simulated >= s.simulated,
        samples.len() > 0 && !s.feed(samples).halted ==> s.feed(samples).settled(),
    decreases samples.len(),
{
    if samples.len() > 0 {
        let before = s.feed(samples.drop_last());
        lemma_run_settles(s, samples.drop_last());
        lemma_advance_preserves(before, samples.last().elapsed, samples.last().frames);
        lemma_advance_settles(before, samples.last().elapsed, samples.last().frames);
    }
}

/// Once a run has stopped the loop, feeding it further samples changes
/// nothing.
pub proof fn lemma_run_stays_halted(s: LoopState, samples: Seq<Sample>, more: Seq<Sample>)
    requires
        s.feed(samples).halted,
    ensures
        s.feed(samples + more) == s.feed(samples),
    decreases more.len(),
{
    if more.len() == 0 {
        assert(samples + more =~= samples);
    } else {
        lemma_run_stays_halted(s, samples, more.drop_last());
        assert((samples + more).drop_last() =~= samples + more.drop_last());
    }
}

/// Without stop requests and within the catch-up limit, one outer iteration
/// turns the whole steps of the accumulated time into simulated steps and
/// keeps the remainder.
pub proof fn lemma_quiet_advance(s: LoopState, sample: Sample)
    requires
        s.wf(),
        !s.halted,
        sample.quiet(),
        sample.elapsed <= s.max_elapsed(),
    ensures
        s.advance(sample.elapsed, sample.frames) == (LoopState {
            pending: (s.pending + sample.elapsed) % s.step,
            simulated: s.simulated + ((s.pending + sample.elapsed) / s.step) * s.step,
            steps: s.steps + (s.pending + sample.elapsed) / s.step,
            ..s
        }),
{
    let fed = s.accumulate(sample.elapsed);
    let due = fed.frames_due();
    assert forall|i: int| 0 <= i < 0 + due implies !halts(
        #[trigger] frame_at(sample.frames, i),
    ) by {}
    lemma_quiet_run_is(sample.frames, 0, due, due);
    lemma_fundamental_div_mod(fed.pending as int, s.step as int);
}

/// How elapsed time is cut into samples does not matter: as long as no stop
/// request arrives and the whole run stays within the catch-up limit, feeding
/// the samples one by one leaves the driver in the very state that a single
/// sample of their total length does, with the same simulation clock and the
/// same step count.
pub proof fn lemma_chunking_is_irrelevant(s: LoopState, samples: Seq<Sample>)
    requires
        s.wf(),
        samples.len() > 0,
        forall|k: int| 0 <= k < samples.len() ==> (#[trigger] samples[k]).quiet(),
        total_elapsed(samples) <= s.max_elapsed(),
    ensures
        s.feed(samples) == s.advance(total_elapsed(samples), Seq::empty()),
    decreases samples.len(),
{
    let whole = Sample { elapsed: total_elapsed(samples), frames: Seq::empty() };
    let last = samples.last();
    let init = samples.drop_last();
    assert(whole.quiet());
    if s.halted {
        lemma_run_stays_halted(s, Seq::empty(), samples);
    } else if init.len() == 0 {
        assert(total_elapsed(init) == 0);
        lemma_quiet_advance(s, last);
        lemma_quiet_advance(s, whole);
    } else {
        lemma_chunking_is_irrelevant(s, init);
        let part = Sample { elapsed: total_elapsed(init), frames: Seq::empty() };
        lemma_quiet_advance(s, part);
        let mid = s.advance(part.elapsed, part.frames);
        lemma_advance_preserves(s, part.elapsed, part.frames);
        lemma_quiet_advance(mid, last);
        lemma_quiet_advance(s, whole);
        let d = s.step as int;
        let x = (s.pending + part.elapsed) as int;
        let y = x % d + last.elapsed;
        lemma_fundamental_div_mod(y, d);
        lemma_mul_is_distributive_add(d, x / d, y / d);
        lemma_fundamental_div_mod_converse(x + last.elapsed, d, x / d + y / d, y % d);
        lemma_mul_is_distributive_add_other_way(d, x / d, y / d);
    }
}

} // verus!
