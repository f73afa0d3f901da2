//! The first generation of the Finny state machine API: machines described by traits with
//! associated types, a Vec-backed event queue, timers, declaration builders and inspection.

pub mod timers;
pub mod info;
pub mod inspect;
pub mod declaration;
pub mod inspect_data;
pub mod json_diff;
pub mod sample;
pub mod definition;
pub mod derived;
pub mod viz;


use vstd::prelude::*;
use core::marker::PhantomData;
use crate::classic::info::FsmInfo;

verus! {

#[derive(Debug, Clone, Copy, PartialEq, Eq, Structural)]
pub enum FsmError {
    NoTransition,
    Interrupted,
    TimersImplementationRequired,
    UnknownTimerId,
}

#[derive(Debug, Clone, Copy, PartialEq, Eq, Structural)]
pub enum FsmQueueStatus {
    Empty,
    MoreEventsQueued,
}

/// The tagged union of a machine's events.
pub trait FsmEvents: Sized {
    /// The event that triggers anonymous transitions.
    fn new_no_event() -> Self;
}

pub trait FsmEventsRef {
}

pub type RegionId = usize;

/// A machine: its events, states, context and current state types.
pub trait Fsm: FsmInfo + Sized {
    type E: FsmEvents;
    type EventKind: Clone + Copy;
    type S;
    type C;
    type CS;
    type RegionState;
    type SS;

    fn get_current_state(&self) -> Self::CS;

    fn get_states(&self) -> &Self::SS;

    fn get_states_mut(&mut self) -> &mut Self::SS;
}

/// Whether a transition may be taken for an event, given the context and the states. The
/// check doesn't mutate anything.
pub trait FsmGuard<F: Fsm, E> {
    spec fn spec_guard(event: E, context: F::C, states: F::SS) -> bool;

    fn guard(event: &E, context: &F::C, states: &F::SS) -> (r: bool)
        ensures
            r == Self::spec_guard(*event, *context, *states),
    ;
}

/// The guard that always holds.
#[derive(Debug, Clone, Copy, PartialEq, Eq, Structural)]
pub struct NoGuard;

impl<F: Fsm, E> FsmGuard<F, E> for NoGuard {
    open spec fn spec_guard(event: E, context: F::C, states: F::SS) -> bool {
        true
    }

    fn guard(event: &E, context: &F::C, states: &F::SS) -> (r: bool) {
        true
    }
}

/// The guard that holds exactly when `G` does not.
pub struct NegateGuard<G>(pub PhantomData<G>);

impl<F: Fsm, E, G: FsmGuard<F, E>> FsmGuard<F, E> for NegateGuard<G> {
    open spec fn spec_guard(event: E, context: F::C, states: F::SS) -> bool {
        !G::spec_guard(event, context, states)
    }

    fn guard(event: &E, context: &F::C, states: &F::SS) -> (r: bool) {
        !G::guard(event, context, states)
    }
}

/// The event of anonymous transitions.
#[derive(Debug, Clone, Copy, PartialEq, Eq, Structural)]
pub struct NoEvent;

/// Retrieves one of the machine's states.
pub trait FsmRetrieveState<S> {
    fn get_state(&self) -> &S;

    fn get_state_mut(&mut self) -> &mut S;
}

/// Processes one event of type `E`.
pub trait FsmProcessor<F: Fsm, E> {
    fn process_event(&mut self, event: E) -> Result<(), FsmError>;
}

/// A first-in, first-out queue of a machine's events.
pub trait FsmEventQueue<F: Fsm> {
    spec fn queued(&self) -> Seq<F::E>;

    fn enqueue_event(&mut self, event: F::E) -> (r: Result<(), FsmError>)
        ensures
            r is Ok ==> final(self).queued() == old(self).queued().push(event),
            r is Err ==> final(self).queued() == old(self).queued(),
    ;

    fn dequeue_event(&mut self) -> (r: Option<F::E>)
        ensures
            old(self).queued().len() == 0 ==> r is None && final(self).queued() == old(self).queued(),
            old(self).queued().len() > 0 ==> r == Some(old(self).queued()[0]) && final(self).queued()
                == old(self).queued().drop_first(),
    ;

    fn len(&self) -> (r: usize)
        ensures
            r == self.queued().len(),
    ;
}

/// The event queue held in a `Vec`; it takes every event.
pub struct FsmEventQueueVec<F: Fsm> {
    queue: Vec<F::E>,
}

impl<F: Fsm> FsmEventQueueVec<F> {
    pub fn new() -> (r: Self)
        ensures
            r.queued() == Seq::<F::E>::empty(),
    {
        FsmEventQueueVec { queue: Vec::new() }
    }
}

impl<F: Fsm> FsmEventQueue<F> for FsmEventQueueVec<F> {
    closed spec fn queued(&self) -> Seq<F::E> {
        self.queue@
    }

    fn enqueue_event(&mut self, event: F::E) -> (r: Result<(), FsmError>)
        ensures
            r is Ok,
    {
        self.queue.push(event);
        Ok(())
    }

    fn dequeue_event(&mut self) -> (r: Option<F::E>) {
        if self.queue.len() > 0 {
            Some(self.queue.remove(0))
        } else {
            None
        }
    }

    fn len(&self) -> (r: usize) {
        self.queue.len()
    }
}

} // verus!
pub mod console_inspect;
