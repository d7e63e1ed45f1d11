//! The executable loop driver.
//!
//! [`LoopDriver`] owns the accumulator, the simulation clock and the two
//! diagnostic counters. The caller measures wall time, polls input and
//! renders; the driver decides how many physics frames run, when the loop
//! stops, and what fraction of a step is left over for the renderer.

use vstd::prelude::*;
use vstd::arithmetic::mul::*;
use vstd::arithmetic::div_mod::*;
use crate::input::{drain, InputEvent};
use crate::theorems::lemma_advance_is_bounded;
use crate::model::{
    frame_at, lemma_catch_up_when_idle, lemma_frame_unfolds, lemma_stepped, LoopState,
};
use crate::units::NS_IN_SEC;

verus! {

/// Physics steps per second of the stock configuration.
pub const DEFAULT_RATE_HZ: u32 = 60;

/// Catch-up limit, in physics steps, used when none is given.
pub const DEFAULT_CATCH_UP_LIMIT: u32 = 8;

/// Why a configuration was turned down.
#[derive(Clone, Copy, Debug, PartialEq, Eq, Structural)]
pub enum ConfigError {
    /// A rate of zero steps per second has no step length.
    ZeroRate,
    /// More steps per second than there are nanoseconds: the step would be
    /// shorter than the clock's resolution.
    RateTooHigh,
    /// A catch-up limit of zero steps would never let the simulation move.
    ZeroCatchUpLimit,
}

/// The error a configuration is turned down with, if it is.
pub open spec fn config_error(rate_hz: u32, catch_up_limit: u32) -> Option<ConfigError> {
    if rate_hz == 0 {
        Some(ConfigError::ZeroRate)
    } else if rate_hz > NS_IN_SEC {
        Some(ConfigError::RateTooHigh)
    } else if catch_up_limit == 0 {
        Some(ConfigError::ZeroCatchUpLimit)
    } else {
        None
    }
}

/// The state a freshly configured driver starts in: the step is a second
/// divided by the rate, rounded down to whole nanoseconds, and nothing has
/// been received, simulated or rendered yet.
pub open spec fn initial_state(rate_hz: u32, catch_up_limit: u32) -> LoopState {
    LoopState {
        step: (NS_IN_SEC / rate_hz as u64) as nat,
        catch_up_limit: catch_up_limit as nat,
        pending: 0,
        simulated: 0,
        steps: 0,
        renders: 0,
        halted: false,
    }
}

/// The part of a step left in the accumulator, as an exact ratio.
#[derive(Clone, Copy, Debug, PartialEq, Eq, Structural)]
pub struct Fraction {
    /// Nanoseconds left in the accumulator.
    pub numerator: u64,
    /// Nanoseconds in one physics step.
    pub denominator: u64,
}

impl Fraction {
    /// Whether the ratio lies in `[0, 1)`.
    pub open spec fn is_proper(self) -> bool {
        self.numerator < self.denominator
    }
}

/// Drives a fixed-timestep loop.
///
/// The outer loop feeds it elapsed wall time with [`LoopDriver::accumulate`],
/// runs [`LoopDriver::run_frame`] on freshly drained input for as long as
/// [`LoopDriver::frame_due`] says so, then renders with
/// [`LoopDriver::interpolation_fraction`] and calls
/// [`LoopDriver::record_render`]; `next_action` names the step that is due.
/// [`LoopDriver::advance`] does the first two in one call when the input is
/// known beforehand.
#[derive(Debug)]
pub struct LoopDriver {
    fixed_step: u64,
    catch_up_limit: u32,
    accumulator: u64,
    simulation_clock: u64,
    physics_steps: u64,
    render_count: u64,
    terminated: bool,
}

/// A recorded input script as the model reads it: one batch of events per
/// physics frame.
pub open spec fn script(frames: &Vec<Vec<InputEvent>>) -> Seq<Seq<InputEvent>> {
    Seq::new(frames@.len(), |i: int| frames@[i]@)
}

impl View for LoopDriver {
    type V = LoopState;

    closed spec fn view(&self) -> LoopState {
        LoopState {
            step: self.fixed_step as nat,
            catch_up_limit: self.catch_up_limit as nat,
            pending: self.accumulator as nat,
            simulated: self.simulation_clock as nat,
            steps: self.physics_steps as nat,
            renders: self.render_count as nat,
            halted: self.terminated,
        }
    }
}

impl LoopDriver {
    /// The driver's invariant: its model is well formed, the step is at most
    /// a second, and simulated plus pending time fits the 64-bit clock.
    pub open spec fn wf(&self) -> bool {
        &&& self@.wf()
        &&& self@.step <= NS_IN_SEC
        &&& self@.total_time() <= u64::MAX
    }

    /// Whether a sample of elapsed time can be taken without the 64-bit
    /// clock running out. A stopped driver takes any sample, as it ignores it.
    pub open spec fn accepts(&self, elapsed_ns: u64) -> bool {
        self@.halted || self@.total_time() + self@.clamped(elapsed_ns as nat) <= u64::MAX
    }

    /// A driver for `rate_hz` physics steps per second with the default
    /// catch-up limit.
    pub fn new(rate_hz: u32) -> (made: Result<LoopDriver, ConfigError>)
        ensures
            made.is_ok() <==> config_error(rate_hz, DEFAULT_CATCH_UP_LIMIT).is_none(),
            made matches Ok(driver) ==> driver.wf() && driver@ == initial_state(
                rate_hz,
                DEFAULT_CATCH_UP_LIMIT,
            ),
            made matches Err(error) ==> config_error(rate_hz, DEFAULT_CATCH_UP_LIMIT) == Some(
                error,
            ),
    {
        LoopDriver::with_catch_up_limit(rate_hz, DEFAULT_CATCH_UP_LIMIT)
    }

    /// A driver for `rate_hz` physics steps per second in which one sample of
    /// elapsed time counts for at most `catch_up_limit` steps.
    pub fn with_catch_up_limit(rate_hz: u32, catch_up_limit: u32) -> (made: Result<
        LoopDriver,
        ConfigError,
    >)
        ensures
            made.is_ok() <==> config_error(rate_hz, catch_up_limit).is_none(),
            made matches Ok(driver) ==> driver.wf() && driver@ == initial_state(
                rate_hz,
                catch_up_limit,
            ),
            made matches Err(error) ==> config_error(rate_hz, catch_up_limit) == Some(error),
    {
        if rate_hz == 0 {
            return Err(ConfigError::ZeroRate);
        }
        if rate_hz as u64 > NS_IN_SEC {
            return Err(ConfigError::RateTooHigh);
        }
        if catch_up_limit == 0 {
            return Err(ConfigError::ZeroCatchUpLimit);
        }
        let fixed_step: u64 = NS_IN_SEC / rate_hz as u64;
        proof {
            lemma_div_non_zero(NS_IN_SEC as int, rate_hz as int);
        }
        Ok(
            LoopDriver {
                fixed_step,
                catch_up_limit,
                accumulator: 0,
                simulation_clock: 0,
                physics_steps: 0,
                render_count: 0,
                terminated: false,
            },
        )
    }

    /// Nanoseconds of simulated time per physics step.
    pub fn fixed_step(&self) -> (ns: u64)
        ensures
            ns == self@.step,
    {
        self.fixed_step
    }

    /// The most physics steps one sample of elapsed time may count for.
    pub fn catch_up_limit(&self) -> (steps: u32)
        ensures
            steps == self@.catch_up_limit,
    {
        self.catch_up_limit
    }

    /// The longest elapsed time, in nanoseconds, one sample may contribute.
    pub fn max_elapsed(&self) -> (ns: u64)
        requires
            self.wf(),
        ensures
            ns == self@.max_elapsed(),
    {
        proof {
            lemma_mul_upper_bound(
                self.catch_up_limit as int,
                u32::MAX as int,
                self.fixed_step as int,
                NS_IN_SEC as int,
            );
        }
        self.catch_up_limit as u64 * self.fixed_step
    }

    /// Wall time received but not yet simulated, in nanoseconds.
    pub fn accumulator(&self) -> (ns: u64)
        ensures
            ns == self@.pending,
    {
        self.accumulator
    }

    /// Total simulated time, in nanoseconds.
    pub fn simulation_clock(&self) -> (ns: u64)
        ensures
            ns == self@.simulated,
    {
        self.simulation_clock
    }

    /// Physics steps executed so far.
    pub fn physics_steps(&self) -> (count: u64)
        ensures
            count == self@.steps,
    {
        self.physics_steps
    }

    /// Frames rendered so far.
    pub fn render_count(&self) -> (count: u64)
        ensures
            count == self@.renders,
    {
        self.render_count
    }

    /// Whether a stop request has ended the loop.
    pub fn is_terminated(&self) -> (stopped: bool)
        ensures
            stopped == self@.halted,
    {
        self.terminated
    }

    /// Whether a physics frame is due.
    pub fn frame_due(&self) -> (due: bool)
        ensures
            due == self@.frame_due(),
    {
        !self.terminated && self.accumulator >= self.fixed_step
    }

    /// Executable form of [`LoopDriver::accepts`].
    pub fn can_accept(&self, elapsed_ns: u64) -> (room: bool)
        requires
            self.wf(),
        ensures
            room == self.accepts(elapsed_ns),
    {
        if self.terminated {
            return true;
        }
        let cap: u64 = self.max_elapsed();
        let sample: u64 = if elapsed_ns <= cap {
            elapsed_ns
        } else {
            cap
        };
        let held: u64 = self.simulation_clock + self.accumulator;
        sample <= u64::MAX - held
    }

    /// Adds a sample of elapsed wall time to the accumulator, cut down to
    /// the catch-up limit. A stopped driver ignores the sample.
    pub fn accumulate(&mut self, elapsed_ns: u64)
        requires
            old(self).wf(),
            old(self).accepts(elapsed_ns),
        ensures
            final(self).wf(),
            final(self)@ == old(self)@.accumulate(elapsed_ns as nat),
    {
        if self.terminated {
            return ;
        }
        let cap: u64 = self.max_elapsed();
        let sample: u64 = if elapsed_ns <= cap {
            elapsed_ns
        } else {
            cap
        };
        self.accumulator = self.accumulator + sample;
    }

    /// Runs one pass of the inner loop over the events just drained from the
    /// input queue. If no frame is due nothing happens. If one of the events
    /// asks to stop, the termination flag is set and no time is simulated.
    /// Otherwise the simulation moves one step forward.
    pub fn run_frame(&mut self, events: &Vec<InputEvent>)
        requires
            old(self).wf(),
        ensures
            final(self).wf(),
            final(self)@ == old(self)@.frame(events@),
    {
        if !self.frame_due() {
            return ;
        }
        if drain(events) {
            self.terminated = true;
            return ;
        }
        proof {
            lemma_stepped(self@);
        }
        self.simulation_clock = self.simulation_clock + self.fixed_step;
        self.accumulator = self.accumulator - self.fixed_step;
        proof {
            // The clock is steps times a step of at least one nanosecond, so
            // the step count is bounded by the clock.
            assert(self.physics_steps < u64::MAX) by {
                lemma_mul_inequality(1, self.fixed_step as int, self.physics_steps as int);
                lemma_mul_is_commutative(self.fixed_step as int, self.physics_steps as int);
            }
        }
        self.physics_steps = self.physics_steps + 1;
    }

    /// Runs one outer iteration up to rendering over a recorded input script:
    /// adds the elapsed sample, then runs physics frames until none is due.
    /// Frame `i` of this call drains `frames[i]`; frames past the end of the
    /// script find the queue empty. Returns the number of steps simulated.
    ///
    /// The first frame whose events ask to stop sets the termination flag
    /// and ends the call at once; what the accumulator holds then stays
    /// there. A stopped driver ignores the call.
    pub fn advance(&mut self, elapsed_ns: u64, frames: &Vec<Vec<InputEvent>>) -> (ran: u64)
        requires
            old(self).wf(),
            old(self).accepts(elapsed_ns),
        ensures
            final(self).wf(),
            final(self)@ == old(self)@.advance(elapsed_ns as nat, script(frames)),
            ran == final(self)@.steps - old(self)@.steps,
            final(self)@.simulated == old(self)@.simulated + ran * old(self)@.step,
            !final(self)@.halted ==> final(self)@.settled(),
            old(self)@.settled() ==> ran <= old(self)@.catch_up_limit,
            old(self)@.halted ==> final(self)@ == old(self)@,
    {
        let ghost start = self@;
        let ghost input = script(frames);
        self.accumulate(elapsed_ns);
        let ghost fed = self@;
        let quiet: Vec<InputEvent> = Vec::new();
        let mut ran: u64 = 0;
        while self.frame_due()
            invariant
                self.wf(),
                fed.wf(),
                input == script(frames),
                quiet@ == Seq::<InputEvent>::empty(),
                self@.catch_up_from(input, ran as nat) == fed.catch_up_from(input, 0),
                self@.steps == fed.steps + ran,
                self@.step == fed.step,
            decreases
                    (if self@.halted {
                        0
                    } else {
                        self@.pending + 1
                    }),
        {
            proof {
                lemma_frame_unfolds(self@, input, ran as nat);
            }
            if ran < frames.len() as u64 {
                assert(frames@[ran as int]@ == frame_at(input, ran as int));
                self.run_frame(&frames[ran as usize]);
            } else {
                self.run_frame(&quiet);
            }
            if !self.terminated {
                ran = ran + 1;
            }
        }
        proof {
            lemma_catch_up_when_idle(self@, input, ran as nat);
            if start.settled() {
                lemma_advance_is_bounded(start, elapsed_ns as nat, input);
            }
        }
        ran
    }

    /// Records that a frame has been rendered. A stopped driver records
    /// nothing.
    pub fn record_render(&mut self)
        requires
            old(self).wf(),
            old(self)@.halted || old(self)@.renders < u64::MAX,
        ensures
            final(self).wf(),
            final(self)@ == old(self)@.rendered(),
    {
        if !self.terminated {
            self.render_count = self.render_count + 1;
        }
    }

    /// The part of a step left in the accumulator, for blending the last two
    /// simulated states when rendering. Once the inner loop has run to its
    /// end the ratio lies in `[0, 1)`.
    pub fn interpolation_fraction(&self) -> (fraction: Fraction)
        requires
            self.wf(),
        ensures
            fraction.numerator == self@.pending,
            fraction.denominator == self@.step,
            fraction.denominator > 0,
            self@.settled() <==> fraction.is_proper(),
    {
        Fraction { numerator: self.accumulator, denominator: self.fixed_step }
    }
}

} // verus!
