//! The next thing the outer loop has to do.

use vstd::prelude::*;
use crate::diagnostics::Summary;
use crate::driver::{Fraction, LoopDriver};

verus! {

/// What the outer loop has to do next.
#[derive(Clone, Copy, Debug, PartialEq, Eq, Structural)]
pub enum Action {
    /// A physics frame is due: drain the input queue and hand the events to
    /// [`LoopDriver::run_frame`].
    DrainInput,
    /// The inner loop has run to its end: render with this interpolation
    /// fraction, call [`LoopDriver::record_render`], then feed the next
    /// sample of elapsed time.
    Render(Fraction),
    /// The loop has been stopped: report the summary and leave. Nothing is
    /// rendered after a stop request.
    Exit(Summary),
}

impl LoopDriver {
    /// What the outer loop has to do next: leave once the loop has been
    /// stopped, run another physics frame while one is due, render otherwise.
    pub fn next_action(&self) -> (action: Action)
        requires
            self.wf(),
        ensures
            match action {
                Action::Exit(report) => self@.halted && report.reports(self@),
                Action::DrainInput => self@.frame_due(),
                Action::Render(fraction) => {
                    &&& !self@.halted
                    &&& self@.settled()
                    &&& fraction.numerator == self@.pending
                    &&& fraction.denominator == self@.step
                },
            },
    {
        if self.is_terminated() {
            Action::Exit(self.summary())
        } else if self.frame_due() {
            Action::DrainInput
        } else {
            Action::Render(self.interpolation_fraction())
        }
    }
}

} // verus!
