//! Timer settings and the interface of a timer service.

use vstd::prelude::*;

verus! {

/// A timer that enqueues `event_on_timeout` when it times out.
#[derive(Debug, Clone, Copy, PartialEq, Eq, Structural)]
pub struct TimerSettings<E> {
    pub timeout: TimerDuration,
    pub cancel_on_state_exit: bool,
    pub event_on_timeout: E,
}

/// A timer that triggers a transition when it times out.
#[derive(Debug, Clone, Copy, PartialEq, Eq, Structural)]
pub struct TransitionTimerSettings {
    pub timeout: TimerDuration,
}

impl TransitionTimerSettings {
    pub fn new(timeout: TimerDuration) -> (r: Self)
        ensures
            r.timeout == timeout,
    {
        TransitionTimerSettings { timeout }
    }
}

/// A duration in milliseconds.
#[derive(Debug, Clone, Copy, PartialEq, Eq, Structural)]
pub struct TimerDuration {
    pub ms: u64,
}

impl TimerDuration {
    pub fn from_millis(ms: u64) -> (r: Self)
        ensures
            r.ms == ms,
    {
        TimerDuration { ms }
    }
}

#[derive(Debug, Clone, Copy, PartialEq, Eq, Structural)]
pub struct TimerId(pub u32);

/// A timer service: starts and cancels timers and reports the ones that timed out.
pub trait FsmTimers: Clone {
    /// Whether the service runs timers at all.
    fn implemented() -> bool;

    fn create_timeout_timer(&mut self, id: TimerId, duration: TimerDuration);

    fn cancel_timer(&mut self, id: TimerId);

    fn receive_events(&mut self) -> Vec<FsmTimerEvent>;
}

/// The timer service that runs no timers.
#[derive(Debug, Clone, Copy, PartialEq, Eq, Structural)]
pub struct FsmTimersNull;

impl FsmTimers for FsmTimersNull {
    fn implemented() -> (r: bool)
        ensures
            !r,
    {
        false
    }

    fn create_timeout_timer(&mut self, id: TimerId, duration: TimerDuration)
        ensures
            *final(self) == *old(self),
    {
    }

    fn cancel_timer(&mut self, id: TimerId)
        ensures
            *final(self) == *old(self),
    {
    }

    fn receive_events(&mut self) -> (r: Vec<FsmTimerEvent>)
        ensures
            r@.len() == 0,
            *final(self) == *old(self),
    {
        Vec::new()
    }
}

#[derive(Debug, Clone, Copy, PartialEq, Eq, Structural)]
pub enum FsmTimerEvent {
    TimedOut(FsmTimerTimedOut),
}

#[derive(Debug, Clone, Copy, PartialEq, Eq, Structural)]
pub struct FsmTimerTimedOut {
    pub timer_id: TimerId,
}

} // verus!
