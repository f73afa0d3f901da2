//! The current state of each region of a machine.

use vstd::prelude::*;
use crate::fsm::FsmResult;
use crate::fsm::dispatch::FsmBackend;

verus! {

/// The implementation should hold all of the FSM's states as fields.
pub trait FsmStates<TFsm: FsmBackend>: FsmStateFactory<TFsm> {
    /// The enum type for all states that's used as the "current state" field in the FSM's
    /// backend.
    type StateKind: Clone + Copy;
    /// An array of current states for the machine, one for each region.
    type CurrentState: Clone + Copy;
}

/// Create a new state from the shared global context.
pub trait FsmStateFactory<TFsm: FsmBackend>: Sized {
    /// Constructor for building this state from the shared global context.
    fn new_state(context: &TFsm::Context) -> FsmResult<Self>;
}

/// Retrieve a pair of states as immutable references. Used in state transitions.
pub trait FsmStateTransitionAsRef<T1, T2> {
    fn as_state_transition_ref(&self) -> (&T1, &T2);
}

/// Retrieve a pair of states as mutable references. Used in state transitions.
pub trait FsmStateTransitionAsMut<T1, T2> {
    fn as_state_transition_mut(&mut self) -> (&mut T1, &mut T2);
}

/// The current state of the FSM.
#[derive(Debug, Clone, Copy, PartialEq, Eq, Structural)]
pub enum FsmCurrentState<S> {
    /// The FSM is halted and has to be started using the `start()` method.
    Stopped,
    /// The FSM is in this state.
    State(S),
}

/// Every region of `states` is stopped.
pub open spec fn spec_all_stopped<S>(states: Seq<FsmCurrentState<S>>) -> bool {
    forall|i: int| 0 <= i < states.len() ==> (#[trigger] states[i]) is Stopped
}

impl<S: Copy> FsmCurrentState<S> {
    /// Are all of the given regions stopped?
    pub fn all_stopped(current_states: &[Self]) -> (r: bool)
        ensures
            r == spec_all_stopped(current_states@),
    {
        let mut i: usize = 0;
        while i < current_states.len()
            invariant
                i <= current_states@.len(),
                forall|j: int| 0 <= j < i ==> (#[trigger] current_states@[j]) is Stopped,
            decreases current_states@.len() - i,
        {
            match current_states[i] {
                FsmCurrentState::Stopped => {},
                FsmCurrentState::State(_) => {
                    return false;
                },
            }
            i = i + 1;
        }
        true
    }
}

impl<S> Default for FsmCurrentState<S> {
    fn default() -> (r: Self)
        ensures
            r is Stopped,
    {
        FsmCurrentState::Stopped
    }
}

} // verus!
