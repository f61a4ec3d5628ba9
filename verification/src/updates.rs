//! The update pump's decision: every outcome of the pull-style source is
//! forwarded in-band, and the pump stops after the first error. The shell
//! runs the polling loop and the channel; this function decides what each
//! outcome becomes.

use vstd::prelude::*;

verus! {

/// What the pump forwards downstream: a raw update, or the terminal error.
#[derive(Debug, Clone, PartialEq, Eq)]
pub enum UpdateEvent<U, E> {
    Update(U),
    Error(E),
}

/// Turns one source outcome into the event to forward and whether the pump
/// keeps running: updates flow on, the first error is forwarded and ends the
/// pump.
pub fn pump_step<U, E>(outcome: Result<U, E>) -> (r: (UpdateEvent<U, E>, bool))
    ensures
        match outcome {
            Ok(update) => r.0 == UpdateEvent::<U, E>::Update(update) && r.1,
            Err(error) => r.0 == UpdateEvent::<U, E>::Error(error) && !r.1,
        },
{
    match outcome {
        Ok(update) => (UpdateEvent::Update(update), true),
        Err(error) => (UpdateEvent::Error(error), false),
    }
}

} // verus!
