//! The events that a machine dispatches.

use vstd::prelude::*;

verus! {

/// The internal event type that also allows stopping or starting the machine.
#[derive(Debug, Clone, Copy, PartialEq, Eq)]
pub enum FsmEvent<E, T> {
    Start,
    Stop,
    Timer(T),
    Event(E),
}

impl<E, T> FsmEvent<E, T> {
    /// Wraps a user event.
    pub fn from_event(event: E) -> (r: Self)
        ensures
            r == FsmEvent::<E, T>::Event(event),
    {
        FsmEvent::Event(event)
    }
}

} // verus!
