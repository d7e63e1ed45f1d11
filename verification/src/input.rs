//! Input events as the loop driver sees them.
//!
//! The windowing layer rewrites whatever it polls as [`InputEvent`]s; the
//! driver only needs to know which of them ask the loop to stop.

use vstd::prelude::*;

verus! {

/// Key code of the escape key.
pub const KEYCODE_ESCAPE: i32 = 27;

/// One discrete event taken from the input queue.
#[derive(Clone, Copy, Debug, PartialEq, Eq, Structural)]
pub enum InputEvent {
    /// The user asked the application to quit.
    Quit,
    /// A key went down; `keycode` is absent when the key has no code.
    KeyDown { keycode: Option<i32> },
    /// Anything the loop does not react to.
    Other,
}

impl InputEvent {
    /// Whether this event asks the loop to stop: an explicit quit, or the
    /// escape key going down.
    pub open spec fn signals_termination(self) -> bool {
        match self {
            InputEvent::Quit => true,
            InputEvent::KeyDown { keycode } => keycode == Some(KEYCODE_ESCAPE),
            InputEvent::Other => false,
        }
    }

    /// Executable form of [`InputEvent::signals_termination`].
    pub fn is_termination_signal(&self) -> (stop: bool)
        ensures
            stop == self.signals_termination(),
    {
        match self {
            InputEvent::Quit => true,
            InputEvent::KeyDown { keycode } => match keycode {
                Some(code) => *code == KEYCODE_ESCAPE,
                None => false,
            },
            InputEvent::Other => false,
        }
    }
}

/// Whether a batch of events contains at least one that asks the loop to stop.
pub open spec fn halts(events: Seq<InputEvent>) -> bool {
    exists|i: int| 0 <= i < events.len() && (#[trigger] events[i]).signals_termination()
}

/// Dispatches a drained batch of events and reports whether any of them asks
/// the loop to stop.
pub fn drain(events: &Vec<InputEvent>) -> (stop: bool)
    ensures
        stop == halts(events@),
{
    let mut i: usize = 0;
    while i < events.len()
        invariant
            i <= events.len(),
            forall|j: int| 0 <= j < i ==> !(#[trigger] events@[j]).signals_termination(),
        decreases events.len() - i,
    {
        if events[i].is_termination_signal() {
            return true;
        }
        i += 1;
    }
    false
}

} // verus!
