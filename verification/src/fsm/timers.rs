//! Timer settings and the timer service that a machine uses to start and cancel its timers.

use vstd::prelude::*;
use core::time::Duration;
use crate::fsm::{FsmError, FsmResult};

verus! {

/// What `Duration::from_secs` returns for the given number of seconds.
pub uninterp spec fn duration_from_secs(secs: u64) -> Duration;

/// Calls `Duration::from_secs`; its result is named `duration_from_secs(secs)`.
#[verifier::external_body]
fn duration_secs(secs: u64) -> (r: Duration)
    ensures
        r == duration_from_secs(secs),
{
    Duration::from_secs(secs)
}

/// The settings of a timer that is declared on a state of the machine. The timer's setup
/// closure receives the default settings and may change them.
#[derive(Debug, Clone, Copy)]
pub struct TimerFsmSettings {
    pub enabled: bool,
    pub timeout: Duration,
    pub renew: bool,
    pub cancel_on_state_exit: bool,
}

/// The settings handed to the timer service.
#[derive(Debug, Clone, Copy)]
pub struct TimerSettings {
    pub enabled: bool,
    pub timeout: Duration,
    pub renew: bool,
}

impl TimerFsmSettings {
    pub open spec fn spec_to_timer_settings(self) -> TimerSettings {
        TimerSettings { enabled: self.enabled, timeout: self.timeout, renew: self.renew }
    }

    pub fn to_timer_settings(&self) -> (r: TimerSettings)
        ensures
            r == self.spec_to_timer_settings(),
    {
        TimerSettings { enabled: self.enabled, timeout: self.timeout, renew: self.renew }
    }

    /// The settings a timer's setup closure starts from.
    pub open spec fn spec_default() -> TimerFsmSettings {
        TimerFsmSettings {
            enabled: true,
            timeout: duration_from_secs(1),
            renew: false,
            cancel_on_state_exit: true,
        }
    }
}

impl Default for TimerFsmSettings {
    fn default() -> (r: Self)
        ensures
            r == TimerFsmSettings::spec_default(),
    {
        Self { enabled: true, timeout: duration_secs(1), renew: false, cancel_on_state_exit: true }
    }
}

/// A started timer, kept by the machine until the timer is cancelled.
#[derive(Debug, Clone, Copy)]
pub struct TimerInstance {
    pub id: usize,
    pub settings: TimerFsmSettings,
}

/// The timer service: creates and cancels timers, and reports the ones that fired.
pub trait FsmTimers {
    /// What the machine's dispatch may observe of the service.
    type Model;

    spec fn model(&self) -> Self::Model;

    /// The service after creating timer `id`, and the result of the creation.
    spec fn spec_create(model: Self::Model, id: usize, settings: TimerSettings) -> (
        Self::Model,
        FsmResult<()>,
    );

    /// The service after cancelling timer `id`, and the result of the cancellation.
    spec fn spec_cancel(model: Self::Model, id: usize) -> (Self::Model, FsmResult<()>);

    fn create(&mut self, id: usize, settings: &TimerSettings) -> (r: FsmResult<()>)
        ensures
            (final(self).model(), r) == Self::spec_create(old(self).model(), id, *settings),
    ;

    fn cancel(&mut self, id: usize) -> (r: FsmResult<()>)
        ensures
            (final(self).model(), r) == Self::spec_cancel(old(self).model(), id),
    ;

    /// Return the timer that was triggered. Poll this until it returns None. The events
    /// should be dequeued in a FIFO manner.
    fn get_triggered_timer(&mut self) -> (r: Option<usize>);
}

#[derive(Debug, Copy, Clone)]
pub struct FsmTimersTriggerEventsResult {
    pub triggered_events: usize,
}

/// A timer service that supports no timers.
#[derive(Debug, Default, Copy, Clone)]
pub struct FsmTimersNull;

impl FsmTimers for FsmTimersNull {
    type Model = ();

    open spec fn model(&self) -> () {
        ()
    }

    open spec fn spec_create(model: (), id: usize, settings: TimerSettings) -> ((), FsmResult<()>) {
        ((), Err(FsmError::NotSupported))
    }

    open spec fn spec_cancel(model: (), id: usize) -> ((), FsmResult<()>) {
        ((), Err(FsmError::NotSupported))
    }

    fn create(&mut self, _id: usize, _settings: &TimerSettings) -> (r: FsmResult<()>) {
        Err(FsmError::NotSupported)
    }

    fn cancel(&mut self, _id: usize) -> (r: FsmResult<()>) {
        Err(FsmError::NotSupported)
    }

    fn get_triggered_timer(&mut self) -> (r: Option<usize>)
        ensures
            r is None,
    {
        None
    }
}

} // verus!
