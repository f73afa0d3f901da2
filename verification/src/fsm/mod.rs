//! The runtime of a Finny state machine: current states, events, queues, timers and the
//! table-driven dispatcher.

pub mod states;
pub mod events;
pub mod queue;
pub mod timers;
pub mod table;
pub mod dispatch;
pub mod fsm_impl;
pub mod frontend;
pub mod inspect;
pub mod tests_fsm;
pub mod readme_fsm;
pub mod laws;

use vstd::prelude::*;

verus! {

/// The lib-level error type.
#[derive(Debug, Clone, Copy, PartialEq, Eq, Structural)]
pub enum FsmError {
    NoTransition,
    QueueOverCapacity,
    NotSupported,
    TimerNotStarted(usize),
}

pub type FsmResult<T> = Result<T, FsmError>;

pub type FsmDispatchResult = FsmResult<()>;

/// Index of an orthogonal region of a state machine.
pub type FsmRegionId = usize;

} // verus!
