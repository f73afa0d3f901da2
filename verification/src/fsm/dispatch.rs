//! The semantics of dispatching one event: the hooks a machine provides, and the step that
//! the dispatcher takes for each region.

use vstd::prelude::*;
use crate::fsm::{FsmError, FsmResult};
use crate::fsm::states::FsmCurrentState;
use crate::fsm::events::FsmEvent;
use crate::fsm::timers::{FsmTimers, TimerFsmSettings, TimerInstance};
use crate::fsm::table::{FsmTable, FsmTableEvent, FsmTableTransition, FsmTableTransitionType, transition_source};

verus! {

/// A machine's own behaviour: its guards, actions, entry and exit actions, timers and
/// sub-machines. Each hook is described by a spec function of its inputs, which the
/// implementation has to meet. Hooks that may enqueue events return them, in order. The spec
/// functions default to a hook that does nothing: no guard, no change, no events.
pub trait FsmBackend: Sized {
    /// The machine's context, shared between all guards and actions; it also holds the
    /// machine's state structures.
    type Context;
    /// A tagged union type with all the supported events.
    type Events;

    open spec fn spec_event_kind(event: Self::Events) -> usize {
        0
    }

    /// The kind of an event, matched against the kinds in the transition table.
    fn event_kind(event: &Self::Events) -> (r: usize)
        ensures
            r == Self::spec_event_kind(*event),
    ;

    open spec fn spec_guard(
        transition: usize,
        event: FsmEvent<Self::Events, usize>,
        context: Self::Context,
    ) -> bool {
        true
    }

    /// Is this transition allowed to be taken? The check doesn't mutate anything.
    fn guard(
        transition: usize,
        event: &FsmEvent<Self::Events, usize>,
        context: &Self::Context,
    ) -> (r: bool)
        ensures
            r == Self::spec_guard(transition, *event, *context),
    ;

    open spec fn spec_action(
        transition: usize,
        event: FsmEvent<Self::Events, usize>,
        context: Self::Context,
    ) -> (Self::Context, Seq<Self::Events>) {
        (context, Seq::empty())
    }

    /// The transition's action.
    fn action(
        transition: usize,
        event: &FsmEvent<Self::Events, usize>,
        context: &mut Self::Context,
    ) -> (out: Vec<Self::Events>)
        ensures
            (*final(context), out@) == Self::spec_action(transition, *event, *old(context)),
    ;

    open spec fn spec_on_entry(state: usize, context: Self::Context) -> (Self::Context, Seq<Self::Events>) {
        (context, Seq::empty())
    }

    /// Action that is executed whenever this state is being entered.
    fn on_entry(state: usize, context: &mut Self::Context) -> (out: Vec<Self::Events>)
        ensures
            (*final(context), out@) == Self::spec_on_entry(state, *old(context)),
    ;

    open spec fn spec_on_exit(state: usize, context: Self::Context) -> (Self::Context, Seq<Self::Events>) {
        (context, Seq::empty())
    }

    /// Action that is executed whenever this state is being exited.
    fn on_exit(state: usize, context: &mut Self::Context) -> (out: Vec<Self::Events>)
        ensures
            (*final(context), out@) == Self::spec_on_exit(state, *old(context)),
    ;

    open spec fn spec_timer_setup(timer: usize, context: Self::Context) -> (
        Self::Context,
        TimerFsmSettings,
    ) {
        (context, TimerFsmSettings::spec_default())
    }

    /// The timer's setup: the settings it starts with, from the default ones.
    fn timer_setup(timer: usize, context: &mut Self::Context) -> (r: TimerFsmSettings)
        ensures
            (*final(context), r) == Self::spec_timer_setup(timer, *old(context)),
    ;

    open spec fn spec_timer_trigger(timer: usize, context: Self::Context) -> Option<Self::Events> {
        None
    }

    /// The event a fired timer enqueues, if any.
    fn timer_trigger(timer: usize, context: &Self::Context) -> (r: Option<Self::Events>)
        ensures
            r == Self::spec_timer_trigger(timer, *context),
    ;

    open spec fn spec_sub_dispatch(
        state: usize,
        event: FsmEvent<Self::Events, usize>,
        context: Self::Context,
    ) -> (Self::Context, FsmResult<()>, Seq<Self::Events>) {
        (context, Ok(()), Seq::empty())
    }

    /// Dispatches an event into the sub-machine that the state `state` holds.
    fn sub_dispatch(
        state: usize,
        event: &FsmEvent<Self::Events, usize>,
        context: &mut Self::Context,
    ) -> (r: (FsmResult<()>, Vec<Self::Events>))
        ensures
            (*final(context), r.0, r.1@) == Self::spec_sub_dispatch(state, *event, *old(context)),
    ;

    open spec fn spec_sub_entry(state: usize, context: Self::Context) -> (Self::Context, Seq<Self::Events>) {
        (context, Seq::empty())
    }

    /// Executed after a transition into the sub-machine state `state`: starts the sub-machine
    /// if all of its regions are stopped.
    fn sub_entry(state: usize, context: &mut Self::Context) -> (out: Vec<Self::Events>)
        ensures
            (*final(context), out@) == Self::spec_sub_entry(state, *old(context)),
    ;
}

/// Everything a dispatch reads and changes: the current state of each region, the context,
/// the started timers, the timer service, and the events enqueued so far.
pub ghost struct FsmModel<C, E, M> {
    pub current: Seq<FsmCurrentState<usize>>,
    pub context: C,
    pub instances: Seq<Option<TimerInstance>>,
    pub timers: M,
    pub outbox: Seq<E>,
}

/// How a region reacted to an event.
#[derive(Debug, Clone, Copy)]
pub enum RegionOutcome {
    Handled,
    Missed,
    /// The event went to a sub-machine, whose result ends the dispatch.
    Returned(FsmResult<()>),
}

pub open spec fn event_matches<F: FsmBackend>(e: FsmTableEvent, ev: FsmEvent<F::Events, usize>) -> bool {
    match (e, ev) {
        (FsmTableEvent::Start, FsmEvent::Start) => true,
        (FsmTableEvent::Stop, FsmEvent::Stop) => true,
        (FsmTableEvent::Event(k), FsmEvent::Event(x)) => F::spec_event_kind(x) == k,
        _ => false,
    }
}

/// The transition applies in state `cs` to the event `ev`, and its guard, if any, holds.
pub open spec fn transition_enabled<F: FsmBackend>(
    t: FsmTableTransition,
    cs: FsmCurrentState<usize>,
    ev: FsmEvent<F::Events, usize>,
    context: F::Context,
) -> bool {
    &&& transition_source(t) == cs
    &&& event_matches::<F>(t.event, ev)
    &&& (t.has_guard ==> F::spec_guard(t.id, ev, context))
}

/// The first enabled transition at or after position `j`.
pub open spec fn select_transition<F: FsmBackend>(
    trs: Seq<FsmTableTransition>,
    cs: FsmCurrentState<usize>,
    ev: FsmEvent<F::Events, usize>,
    context: F::Context,
    j: int,
) -> Option<int>
    decreases trs.len() - j,
{
    if j < 0 || j >= trs.len() {
        None
    } else if transition_enabled::<F>(trs[j], cs, ev, context) {
        Some(j)
    } else {
        select_transition::<F>(trs, cs, ev, context, j + 1)
    }
}

pub open spec fn apply_hook<F: FsmBackend, M>(
    m: FsmModel<F::Context, F::Events, M>,
    effect: (F::Context, Seq<F::Events>),
) -> FsmModel<F::Context, F::Events, M> {
    FsmModel { context: effect.0, outbox: m.outbox + effect.1, ..m }
}

pub open spec fn exit_state<F: FsmBackend, M>(
    m: FsmModel<F::Context, F::Events, M>,
    s: usize,
) -> FsmModel<F::Context, F::Events, M> {
    apply_hook::<F, M>(m, F::spec_on_exit(s, m.context))
}

pub open spec fn enter_state<F: FsmBackend, M>(
    m: FsmModel<F::Context, F::Events, M>,
    s: usize,
) -> FsmModel<F::Context, F::Events, M> {
    apply_hook::<F, M>(m, F::spec_on_entry(s, m.context))
}

pub open spec fn run_action<F: FsmBackend, M>(
    m: FsmModel<F::Context, F::Events, M>,
    t: usize,
    ev: FsmEvent<F::Events, usize>,
) -> FsmModel<F::Context, F::Events, M> {
    apply_hook::<F, M>(m, F::spec_action(t, ev, m.context))
}

pub open spec fn enter_sub_machine<F: FsmBackend, M>(
    m: FsmModel<F::Context, F::Events, M>,
    s: usize,
) -> FsmModel<F::Context, F::Events, M> {
    apply_hook::<F, M>(m, F::spec_sub_entry(s, m.context))
}

/// Leaving the state of timer `tm`: a started timer that is to be cancelled on exit is
/// cancelled, and forgotten when the cancellation succeeds.
pub open spec fn timer_exit<F: FsmBackend, T: FsmTimers>(
    m: FsmModel<F::Context, F::Events, T::Model>,
    tm: usize,
) -> FsmModel<F::Context, F::Events, T::Model> {
    match m.instances[tm as int] {
        Some(inst) => if inst.id == tm && inst.settings.cancel_on_state_exit {
            let (timers, r) = T::spec_cancel(m.timers, tm);
            FsmModel {
                timers,
                instances: if r is Ok {
                    m.instances.update(tm as int, None)
                } else {
                    m.instances
                },
                ..m
            }
        } else {
            m
        },
        None => m,
    }
}

/// Entering the state of timer `tm`: the timer is set up and, when enabled, created; a
/// successfully created timer is recorded.
pub open spec fn timer_enter<F: FsmBackend, T: FsmTimers>(
    m: FsmModel<F::Context, F::Events, T::Model>,
    tm: usize,
) -> FsmModel<F::Context, F::Events, T::Model> {
    let (context, settings) = F::spec_timer_setup(tm, m.context);
    if settings.enabled {
        let (timers, r) = T::spec_create(m.timers, tm, settings.spec_to_timer_settings());
        FsmModel {
            context,
            timers,
            instances: if r is Ok {
                m.instances.update(tm as int, Some(TimerInstance { id: tm, settings }))
            } else {
                m.instances
            },
            ..m
        }
    } else {
        FsmModel { context, ..m }
    }
}

pub open spec fn timers_exit<F: FsmBackend, T: FsmTimers>(
    m: FsmModel<F::Context, F::Events, T::Model>,
    ts: Seq<usize>,
) -> FsmModel<F::Context, F::Events, T::Model>
    decreases ts.len(),
{
    if ts.len() == 0 {
        m
    } else {
        timer_exit::<F, T>(timers_exit::<F, T>(m, ts.drop_last()), ts.last())
    }
}

pub open spec fn timers_enter<F: FsmBackend, T: FsmTimers>(
    m: FsmModel<F::Context, F::Events, T::Model>,
    ts: Seq<usize>,
) -> FsmModel<F::Context, F::Events, T::Model>
    decreases ts.len(),
{
    if ts.len() == 0 {
        m
    } else {
        timer_enter::<F, T>(timers_enter::<F, T>(m, ts.drop_last()), ts.last())
    }
}

/// A fired timer of this machine: when it was started, its trigger may enqueue an event.
pub open spec fn timer_trigger<F: FsmBackend, M>(
    m: FsmModel<F::Context, F::Events, M>,
    tm: usize,
) -> FsmModel<F::Context, F::Events, M> {
    match m.instances[tm as int] {
        Some(_) => match F::spec_timer_trigger(tm, m.context) {
            Some(ev) => FsmModel { outbox: m.outbox.push(ev), ..m },
            None => m,
        },
        None => m,
    }
}

pub open spec fn state_timers(table: FsmTable, s: usize) -> Seq<usize> {
    table.states@[s as int].timers@
}

/// Taking transition `t` in region `r`.
pub open spec fn execute_transition<F: FsmBackend, T: FsmTimers>(
    table: FsmTable,
    r: int,
    t: FsmTableTransition,
    m: FsmModel<F::Context, F::Events, T::Model>,
    ev: FsmEvent<F::Events, usize>,
) -> FsmModel<F::Context, F::Events, T::Model> {
    match t.ty {
        FsmTableTransitionType::StateTransition { from, to } => {
            let m1 = match from {
                FsmCurrentState::Stopped => enter_state::<F, T::Model>(m, to),
                FsmCurrentState::State(f) => {
                    let m_timers = timers_exit::<F, T>(m, state_timers(table, f));
                    let m_exit = exit_state::<F, T::Model>(m_timers, f);
                    let m_action = run_action::<F, T::Model>(m_exit, t.id, ev);
                    enter_state::<F, T::Model>(m_action, to)
                },
            };
            let m2 = FsmModel { current: m1.current.update(r, FsmCurrentState::State(to)), ..m1 };
            if table.states@[to as int].sub_machine {
                enter_sub_machine::<F, T::Model>(m2, to)
            } else {
                timers_enter::<F, T>(m2, state_timers(table, to))
            }
        },
        FsmTableTransitionType::SelfTransition { state } => {
            let m1 = timers_exit::<F, T>(m, state_timers(table, state));
            let m2 = exit_state::<F, T::Model>(m1, state);
            let m3 = run_action::<F, T::Model>(m2, t.id, ev);
            let m4 = enter_state::<F, T::Model>(m3, state);
            timers_enter::<F, T>(m4, state_timers(table, state))
        },
        FsmTableTransitionType::InternalTransition { state } => run_action::<F, T::Model>(
            m,
            t.id,
            ev,
        ),
    }
}

/// The event is forwarded to the sub-machine that is the current state of region `r`.
pub open spec fn is_sub_machine_event<F: FsmBackend>(
    table: FsmTable,
    cs: FsmCurrentState<usize>,
    ev: FsmEvent<F::Events, usize>,
) -> bool {
    match (cs, ev) {
        (FsmCurrentState::State(s), FsmEvent::Event(x)) => table.states@[s as int].sub_machine
            && F::spec_event_kind(x) == table.states@[s as int].sub_event_kind,
        _ => false,
    }
}

pub open spec fn forward_to_sub_machine<F: FsmBackend, M>(
    m: FsmModel<F::Context, F::Events, M>,
    s: usize,
    ev: FsmEvent<F::Events, usize>,
) -> (FsmModel<F::Context, F::Events, M>, RegionOutcome) {
    let (context, res, out) = F::spec_sub_dispatch(s, ev, m.context);
    (FsmModel { context, outbox: m.outbox + out, ..m }, RegionOutcome::Returned(res))
}

/// The reaction of region `r` to the event `ev`: forwarding to a current sub-machine, the
/// first enabled transition, ignoring timers while stopped, firing a timer of one of the
/// region's states, or missing the event.
pub open spec fn region_step<F: FsmBackend, T: FsmTimers>(
    table: FsmTable,
    r: int,
    m: FsmModel<F::Context, F::Events, T::Model>,
    ev: FsmEvent<F::Events, usize>,
) -> (FsmModel<F::Context, F::Events, T::Model>, RegionOutcome) {
    let cs = m.current[r];
    let trs = table.regions@[r].transitions@;
    if is_sub_machine_event::<F>(table, cs, ev) {
        forward_to_sub_machine::<F, T::Model>(m, cs->State_0, ev)
    } else {
        match select_transition::<F>(trs, cs, ev, m.context, 0) {
            Some(j) => (execute_transition::<F, T>(table, r, trs[j], m, ev), RegionOutcome::Handled),
            None => match ev {
                FsmEvent::Timer(tm) => if cs is Stopped {
                    (m, RegionOutcome::Handled)
                } else if tm < table.timers@.len() && table.states@[table.timers@[tm as int].state as int].region == r {
                    match table.timers@[tm as int].sub_timer {
                        None => (timer_trigger::<F, T::Model>(m, tm), RegionOutcome::Handled),
                        Some(inner) => forward_to_sub_machine::<F, T::Model>(
                            m,
                            table.timers@[tm as int].state,
                            FsmEvent::Timer(inner),
                        ),
                    }
                } else {
                    (m, RegionOutcome::Missed)
                },
                _ => (m, RegionOutcome::Missed),
            },
        }
    }
}

/// Dispatching to the regions from `r` on, with `misses` regions that missed the event so far.
pub open spec fn regions_from<F: FsmBackend, T: FsmTimers>(
    table: FsmTable,
    r: int,
    m: FsmModel<F::Context, F::Events, T::Model>,
    ev: FsmEvent<F::Events, usize>,
    misses: int,
) -> (FsmModel<F::Context, F::Events, T::Model>, FsmResult<()>)
    decreases table.regions@.len() - r,
{
    if r < 0 || r >= table.regions@.len() {
        (m, if misses == table.regions@.len() { Err(FsmError::NoTransition) } else { Ok(()) })
    } else {
        let (m1, o) = region_step::<F, T>(table, r, m, ev);
        match o {
            RegionOutcome::Returned(res) => (m1, res),
            RegionOutcome::Handled => regions_from::<F, T>(table, r + 1, m1, ev, misses),
            RegionOutcome::Missed => regions_from::<F, T>(table, r + 1, m1, ev, misses + 1),
        }
    }
}

/// Dispatching one event: every region reacts in turn. The result is `NoTransition` when
/// every region missed the event, or the result of a sub-machine that took the event.
pub open spec fn spec_dispatch<F: FsmBackend, T: FsmTimers>(
    table: FsmTable,
    m: FsmModel<F::Context, F::Events, T::Model>,
    ev: FsmEvent<F::Events, usize>,
) -> (FsmModel<F::Context, F::Events, T::Model>, FsmResult<()>) {
    regions_from::<F, T>(table, 0, m, ev, 0)
}

} // verus!
