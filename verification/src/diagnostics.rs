//! Frame-rate diagnostics: the on-screen readout and the exit summary.

use vstd::prelude::*;
use crate::driver::LoopDriver;
use crate::model::LoopState;
use crate::units::NS_IN_SEC;

verus! {

/// Frames per second implied by one outer iteration that took `loop_ns`
/// nanoseconds, rounded down. An iteration of no measurable length implies no
/// rate.
pub open spec fn fps_of(loop_ns: nat) -> Option<nat> {
    if loop_ns == 0 {
        None
    } else {
        Some(NS_IN_SEC as nat / loop_ns)
    }
}

/// Average frames per second over a run: frames rendered per whole second of
/// simulated time, rounded down. Undefined until a whole second has been
/// simulated.
pub open spec fn average_fps_of(renders: nat, simulated_ns: nat) -> Option<nat> {
    if simulated_ns < NS_IN_SEC {
        None
    } else {
        Some(renders / (simulated_ns / NS_IN_SEC as nat))
    }
}

/// The instantaneous frame rate shown by the readout, from the length of the
/// previous outer iteration; `None` if that length is zero.
pub fn instantaneous_fps(loop_ns: u64) -> (fps: Option<u64>)
    ensures
        fps.is_some() <==> loop_ns > 0,
        match fps {
            Some(rate) => fps_of(loop_ns as nat) == Some(rate as nat),
            None => fps_of(loop_ns as nat).is_none(),
        },
{
    if loop_ns == 0 {
        None
    } else {
        Some(NS_IN_SEC / loop_ns)
    }
}

/// Whether the readout is due for a refresh: at least one whole second has
/// passed since the last one.
pub fn readout_due(since_refresh_ns: u64) -> (due: bool)
    ensures
        due == (since_refresh_ns >= NS_IN_SEC),
{
    since_refresh_ns / NS_IN_SEC > 0
}

/// The counters reported when the loop has ended.
#[derive(Clone, Copy, Debug, PartialEq, Eq, Structural)]
pub struct Summary {
    /// Physics steps executed.
    pub physics_steps: u64,
    /// Frames rendered.
    pub render_count: u64,
    /// Average frames per second, or `None` while less than a whole second
    /// has been simulated.
    pub average_fps: Option<u64>,
}

impl Summary {
    /// Whether this summary reports the counters of `state`, with the average
    /// frame rate absent exactly when it is undefined.
    pub open spec fn reports(self, state: LoopState) -> bool {
        &&& self.physics_steps == state.steps
        &&& self.render_count == state.renders
        &&& match self.average_fps {
            Some(rate) => average_fps_of(state.renders, state.simulated) == Some(rate as nat),
            None => average_fps_of(state.renders, state.simulated).is_none(),
        }
    }
}

impl LoopDriver {
    /// Average frames per second so far; `None` while less than a whole
    /// second has been simulated, so that nothing is ever divided by zero.
    pub fn average_fps(&self) -> (fps: Option<u64>)
        requires
            self.wf(),
        ensures
            fps.is_some() <==> self@.simulated >= NS_IN_SEC,
            match fps {
                Some(rate) => average_fps_of(self@.renders, self@.simulated) == Some(rate as nat),
                None => average_fps_of(self@.renders, self@.simulated).is_none(),
            },
    {
        let seconds: u64 = self.simulation_clock() / NS_IN_SEC;
        if seconds == 0 {
            None
        } else {
            Some(self.render_count() / seconds)
        }
    }

    /// The diagnostic counters, as reported at exit.
    pub fn summary(&self) -> (report: Summary)
        requires
            self.wf(),
        ensures
            report.reports(self@),
            report.average_fps.is_some() <==> self@.simulated >= NS_IN_SEC,
    {
        Summary {
            physics_steps: self.physics_steps(),
            render_count: self.render_count(),
            average_fps: self.average_fps(),
        }
    }
}

} // verus!
