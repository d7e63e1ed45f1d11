//! The mathematical model of the loop driver.
//!
//! [`LoopState`] is the driver seen as unbounded numbers; every contract of
//! the executable driver is stated over it. The transitions are written here
//! as spec functions: adding elapsed time, running one physics frame, and
//! running every frame that is due.

use vstd::prelude::*;
use vstd::arithmetic::mul::*;
use vstd::arithmetic::div_mod::*;
use crate::input::{halts, InputEvent};

verus! {

/// The driver as unbounded numbers. Durations are in nanoseconds.
pub struct LoopState {
    /// Simulated time added by one physics step.
    pub step: nat,
    /// The most physics steps' worth of wall time one sample may add.
    pub catch_up_limit: nat,
    /// The accumulator: wall time received but not yet simulated.
    pub pending: nat,
    /// The simulation clock: total simulated time.
    pub simulated: nat,
    /// Physics steps executed so far.
    pub steps: nat,
    /// Frames rendered so far.
    pub renders: nat,
    /// The termination flag.
    pub halted: bool,
}

/// The events found in the queue at physics frame `i` of a script. Past the
/// end of the script the queue is empty.
pub open spec fn frame_at(frames: Seq<Seq<InputEvent>>, i: int) -> Seq<InputEvent> {
    if 0 <= i < frames.len() {
        frames[i]
    } else {
        Seq::empty()
    }
}

/// How many frames in a row, starting at frame `from` and counting at most
/// `limit`, hold no event that asks the loop to stop.
pub open spec fn quiet_run(frames: Seq<Seq<InputEvent>>, from: nat, limit: nat) -> nat
    decreases limit,
{
    if limit == 0 || halts(frame_at(frames, from as int)) {
        0
    } else {
        1 + quiet_run(frames, from + 1, (limit - 1) as nat)
    }
}

impl LoopState {
    /// The step is positive, at least one step of catch-up is allowed, and
    /// the simulation clock is exactly the executed steps times the step.
    pub open spec fn wf(self) -> bool {
        &&& self.step > 0
        &&& self.catch_up_limit > 0
        &&& self.simulated == self.steps * self.step
    }

    /// The longest elapsed time one sample may contribute.
    pub open spec fn max_elapsed(self) -> nat {
        self.catch_up_limit * self.step
    }

    /// An elapsed-time sample cut down to [`LoopState::max_elapsed`].
    pub open spec fn clamped(self, elapsed: nat) -> nat {
        if elapsed <= self.max_elapsed() {
            elapsed
        } else {
            self.max_elapsed()
        }
    }

    /// All time known to the driver: simulated plus still pending.
    pub open spec fn total_time(self) -> nat {
        self.simulated + self.pending
    }

    /// Whether a physics frame is due: the loop has not been stopped and the
    /// accumulator holds at least one full step.
    pub open spec fn frame_due(self) -> bool {
        !self.halted && self.pending >= self.step
    }

    /// Whether the inner loop has run to its end: less than one step is left
    /// in the accumulator.
    pub open spec fn settled(self) -> bool {
        self.pending < self.step
    }

    /// Number of whole steps the accumulator holds.
    pub open spec fn frames_due(self) -> nat {
        self.pending / self.step
    }

    /// The state after a sample of elapsed wall time has been added to the
    /// accumulator. A stopped loop takes no more time.
    pub open spec fn accumulate(self, elapsed: nat) -> LoopState {
        if self.halted {
            self
        } else {
            LoopState { pending: self.pending + self.clamped(elapsed), ..self }
        }
    }

    /// The state after one physics step.
    pub open spec fn stepped(self) -> LoopState {
        LoopState {
            pending: (self.pending - self.step) as nat,
            simulated: self.simulated + self.step,
            steps: self.steps + 1,
            ..self
        }
    }

    /// The state after one pass of the inner loop over the drained `events`:
    /// nothing happens unless a frame is due; a stop request sets the
    /// termination flag and leaves the rest untouched; otherwise one step is
    /// simulated.
    pub open spec fn frame(self, events: Seq<InputEvent>) -> LoopState {
        if !self.frame_due() {
            self
        } else if halts(events) {
            LoopState { halted: true, ..self }
        } else {
            self.stepped()
        }
    }

    /// The state after the inner loop has run until no frame is due, the
    /// frames taking their events from `frames` starting at index `from`.
    ///
    /// Of the frames that are due, those before the first stop request are
    /// simulated; if there is such a request the loop halts there and keeps
    /// what is left in the accumulator.
    pub open spec fn catch_up_from(self, frames: Seq<Seq<InputEvent>>, from: nat) -> LoopState {
        if self.halted {
            self
        } else {
            let due = self.frames_due();
            let ran = quiet_run(frames, from, due);
            LoopState {
                pending: (self.pending - ran * self.step) as nat,
                simulated: self.simulated + ran * self.step,
                steps: self.steps + ran,
                halted: ran < due,
                ..self
            }
        }
    }

    /// [`LoopState::catch_up_from`] reading the script from its start.
    pub open spec fn catch_up(self, frames: Seq<Seq<InputEvent>>) -> LoopState {
        self.catch_up_from(frames, 0)
    }

    /// One outer iteration up to rendering: add the elapsed sample, then run
    /// the inner loop over the scripted input.
    pub open spec fn advance(self, elapsed: nat, frames: Seq<Seq<InputEvent>>) -> LoopState {
        self.accumulate(elapsed).catch_up(frames)
    }

    /// The state after a frame has been rendered. A stopped loop renders no
    /// more.
    pub open spec fn rendered(self) -> LoopState {
        if self.halted {
            self
        } else {
            LoopState { renders: self.renders + 1, ..self }
        }
    }
}

/// A run of quiet frames is never longer than its limit.
pub proof fn lemma_quiet_run_bounded(frames: Seq<Seq<InputEvent>>, from: nat, limit: nat)
    ensures
        quiet_run(frames, from, limit) <= limit,
    decreases limit,
{
    if limit > 0 && !halts(frame_at(frames, from as int)) {
        lemma_quiet_run_bounded(frames, from + 1, (limit - 1) as nat);
    }
}

/// The length of a quiet run is the one number `n` within the limit such that
/// the `n` frames from `from` on are quiet and, if `n` is short of the limit,
/// the frame after them asks to stop.
pub proof fn lemma_quiet_run_is(frames: Seq<Seq<InputEvent>>, from: nat, limit: nat, n: nat)
    requires
        n <= limit,
        forall|i: int| from <= i < from + n ==> !halts(#[trigger] frame_at(frames, i)),
        n < limit ==> halts(frame_at(frames, (from + n) as int)),
    ensures
        quiet_run(frames, from, limit) == n,
    decreases limit,
{
    if limit > 0 && n > 0 {
        lemma_quiet_run_is(frames, from + 1, (limit - 1) as nat, (n - 1) as nat);
    }
}

/// Every frame inside a quiet run is quiet, and a run that stops short of its
/// limit stops at a frame that asks to stop.
pub proof fn lemma_quiet_run_frames(frames: Seq<Seq<InputEvent>>, from: nat, limit: nat)
    ensures
        forall|i: int|
            from <= i < from + quiet_run(frames, from, limit) ==> !halts(
                #[trigger] frame_at(frames, i),
            ),
        quiet_run(frames, from, limit) < limit ==> halts(
            frame_at(frames, (from + quiet_run(frames, from, limit)) as int),
        ),
    decreases limit,
{
    if limit > 0 && !halts(frame_at(frames, from as int)) {
        lemma_quiet_run_frames(frames, from + 1, (limit - 1) as nat);
    }
}

/// The whole steps held by an accumulator fit into it, and taking one step
/// out lowers their number by one.
pub proof fn lemma_frames_due(pending: nat, step: nat)
    requires
        step > 0,
    ensures
        (pending / step) * step <= pending,
        pending < (pending / step) * step + step,
        pending >= step ==> pending / step >= 1,
        pending >= step ==> ((pending - step) as nat) / step == pending / step - 1,
        pending < step ==> pending / step == 0,
{
    let p = pending as int;
    let d = step as int;
    lemma_fundamental_div_mod(p, d);
    lemma_mul_is_commutative(d, p / d);
    if pending >= step {
        let q = p / d - 1;
        let r = p % d;
        assert(q * d == (p / d) * d - d) by {
            lemma_mul_is_distributive_sub_other_way(d, p / d, 1);
        }
        lemma_fundamental_div_mod_converse(p - d, d, q, r);
    } else {
        lemma_basic_div(p, d);
    }
}

/// One physics step keeps the state well formed and moves exactly one step
/// of time from the accumulator to the simulation clock.
pub proof fn lemma_stepped(s: LoopState)
    requires
        s.wf(),
        s.pending >= s.step,
    ensures
        s.stepped().wf(),
        s.stepped().total_time() == s.total_time(),
        s.stepped().frames_due() == s.frames_due() - 1,
{
    lemma_mul_is_distributive_add_other_way(s.step as int, s.steps as int, 1);
    lemma_frames_due(s.pending, s.step);
}

/// What the inner loop leaves behind: a well-formed state with the same total
/// time, in which the steps it ran are the quiet frames among those due, and
/// which is settled unless a stop request cut the loop short.
pub proof fn lemma_catch_up_from(s: LoopState, frames: Seq<Seq<InputEvent>>, from: nat)
    requires
        s.wf(),
    ensures
        s.catch_up_from(frames, from).wf(),
        s.catch_up_from(frames, from).total_time() == s.total_time(),
        s.catch_up_from(frames, from).steps >= s.steps,
        s.catch_up_from(frames, from).steps - s.steps <= s.frames_due(),
        s.catch_up_from(frames, from).simulated >= s.simulated,
        s.catch_up_from(frames, from).pending <= s.pending,
        !s.catch_up_from(frames, from).halted ==> s.catch_up_from(frames, from).settled(),
{
    if !s.halted {
        let due = s.frames_due();
        let ran = quiet_run(frames, from, due);
        lemma_quiet_run_bounded(frames, from, due);
        lemma_frames_due(s.pending, s.step);
        lemma_mul_inequality(ran as int, due as int, s.step as int);
        lemma_mul_is_distributive_add_other_way(s.step as int, s.steps as int, ran as int);
    }
}

/// Running one frame and then the rest of the inner loop is running the
/// inner loop.
pub proof fn lemma_frame_unfolds(s: LoopState, frames: Seq<Seq<InputEvent>>, from: nat)
    requires
        s.wf(),
        s.frame_due(),
    ensures
        s.frame(frame_at(frames, from as int)).catch_up_from(frames, from + 1) == s.catch_up_from(
            frames,
            from,
        ),
{
    let due = s.frames_due();
    lemma_frames_due(s.pending, s.step);
    if halts(frame_at(frames, from as int)) {
        lemma_mul_basics(s.step as int);
    } else {
        let rest = quiet_run(frames, from + 1, (due - 1) as nat);
        lemma_mul_is_distributive_add_other_way(s.step as int, 1, rest as int);
    }
}

/// Once no frame is due the inner loop changes nothing.
pub proof fn lemma_catch_up_when_idle(s: LoopState, frames: Seq<Seq<InputEvent>>, from: nat)
    requires
        s.wf(),
        !s.frame_due(),
    ensures
        s.catch_up_from(frames, from) == s,
{
    if !s.halted {
        lemma_frames_due(s.pending, s.step);
    }
}

} // verus!
