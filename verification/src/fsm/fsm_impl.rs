//! The backend that holds a machine's context and current states and dispatches events by
//! interpreting the machine's transition table.

use vstd::prelude::*;
use crate::fsm::{FsmError, FsmResult};
use crate::fsm::states::{FsmCurrentState, spec_all_stopped};
use crate::fsm::events::FsmEvent;
use crate::fsm::timers::{FsmTimers, TimerInstance};
use crate::fsm::inspect::{Inspect, InspectEvent, InspectFsmEvent};
use crate::fsm::table::{state_in_range, transition_wf, FsmTable, FsmTableEvent, FsmTableTransition, FsmTableTransitionType, transition_source};
use crate::fsm::dispatch::{
    FsmBackend, FsmModel, RegionOutcome, apply_hook, enter_state, event_matches, execute_transition,
    exit_state, is_sub_machine_event, region_step, regions_from, run_action, select_transition,
    spec_dispatch, timer_enter, timer_exit, timer_trigger, timers_enter, timers_exit,
    transition_enabled, enter_sub_machine, forward_to_sub_machine, state_timers,
};

verus! {

/// The struct that holds the core context and state of the given Finny FSM. Doesn't include
/// environmental traits that can be changed at runtime.
pub struct FsmBackendImpl<F: FsmBackend> {
    context: F::Context,
    current_states: Vec<FsmCurrentState<usize>>,
    timer_instances: Vec<Option<TimerInstance>>,
    table: FsmTable,
}

impl<F: FsmBackend> FsmBackendImpl<F> {
    pub closed spec fn ctx(&self) -> F::Context {
        self.context
    }

    pub closed spec fn spec_table(&self) -> FsmTable {
        self.table
    }

    pub closed spec fn current(&self) -> Seq<FsmCurrentState<usize>> {
        self.current_states@
    }

    pub closed spec fn instances(&self) -> Seq<Option<TimerInstance>> {
        self.timer_instances@
    }

    /// The table is well formed, and there is one current state per region and one timer slot
    /// per timer.
    pub open spec fn wf(&self) -> bool {
        &&& self.spec_table().wf()
        &&& self.current().len() == self.spec_table().regions@.len()
        &&& self.instances().len() == self.spec_table().timers@.len()
        &&& forall|r: int|
            0 <= r < self.current().len() ==> state_in_range(
                #[trigger] self.current()[r],
                self.spec_table().states@.len(),
            )
    }

    pub open spec fn model<M>(&self, timers: M, outbox: Seq<F::Events>) -> FsmModel<
        F::Context,
        F::Events,
        M,
    > {
        FsmModel {
            current: self.current(),
            context: self.ctx(),
            instances: self.instances(),
            timers,
            outbox,
        }
    }

    /// A stopped machine with the given table and context: every region is stopped and no
    /// timer is started.
    pub fn new(table: FsmTable, context: F::Context) -> (r: FsmResult<Self>)
        requires
            table.wf(),
        ensures
            r is Ok,
            r matches Ok(b) ==> {
                &&& b.wf()
                &&& b.spec_table() == table
                &&& b.ctx() == context
                &&& b.current() == Seq::new(table.regions@.len(), |i: int| FsmCurrentState::<usize>::Stopped)
                &&& b.instances() == Seq::new(table.timers@.len(), |i: int| None::<TimerInstance>)
            },
    {
        let mut current_states: Vec<FsmCurrentState<usize>> = Vec::new();
        let mut i: usize = 0;
        while i < table.regions.len()
            invariant
                i <= table.regions@.len(),
                current_states@ == Seq::new(i as nat, |k: int| FsmCurrentState::<usize>::Stopped),
            decreases table.regions@.len() - i,
        {
            current_states.push(FsmCurrentState::Stopped);
            i = i + 1;
            assert(current_states@ =~= Seq::new(i as nat, |k: int| FsmCurrentState::<usize>::Stopped));
        }
        let mut timer_instances: Vec<Option<TimerInstance>> = Vec::new();
        let mut k: usize = 0;
        while k < table.timers.len()
            invariant
                k <= table.timers@.len(),
                timer_instances@ == Seq::new(k as nat, |j: int| None::<TimerInstance>),
            decreases table.timers@.len() - k,
        {
            timer_instances.push(None);
            k = k + 1;
            assert(timer_instances@ =~= Seq::new(k as nat, |j: int| None::<TimerInstance>));
        }
        Ok(FsmBackendImpl { context, current_states, timer_instances, table })
    }

    pub fn get_context(&self) -> (r: &F::Context)
        ensures
            *r == self.ctx(),
    {
        &self.context
    }

    /// The current state of each region.
    pub fn get_current_states(&self) -> (r: &[FsmCurrentState<usize>])
        ensures
            r@ == self.current(),
    {
        self.current_states.as_slice()
    }

    pub fn get_table(&self) -> (r: &FsmTable)
        ensures
            *r == self.spec_table(),
    {
        &self.table
    }

    /// The started timer in slot `tm`, if any.
    pub fn get_timer_instance(&self, tm: usize) -> (r: Option<TimerInstance>)
        requires
            tm < self.instances().len(),
        ensures
            r == self.instances()[tm as int],
    {
        self.timer_instances[tm]
    }

    fn exec_event_matches(e: FsmTableEvent, ev: &FsmEvent<F::Events, usize>) -> (r: bool)
        ensures
            r == event_matches::<F>(e, *ev),
    {
        match (e, ev) {
            (FsmTableEvent::Start, FsmEvent::Start) => true,
            (FsmTableEvent::Stop, FsmEvent::Stop) => true,
            (FsmTableEvent::Event(k), FsmEvent::Event(x)) => F::event_kind(x) == k,
            _ => false,
        }
    }

    fn exec_transition_source(t: &FsmTableTransition) -> (r: FsmCurrentState<usize>)
        ensures
            r == transition_source(*t),
    {
        match t.ty {
            FsmTableTransitionType::StateTransition { from, .. } => from,
            FsmTableTransitionType::SelfTransition { state } => FsmCurrentState::State(state),
            FsmTableTransitionType::InternalTransition { state } => FsmCurrentState::State(state),
        }
    }

    fn exec_exit_state<M>(&mut self, s: usize, out: &mut Vec<F::Events>, Ghost(tm): Ghost<M>)
        requires
            old(self).wf(),
        ensures
            final(self).wf(),
            final(self).spec_table() == old(self).spec_table(),
            final(self).model(tm, final(out)@) == exit_state::<F, M>(old(self).model(tm, old(out)@), s),
    {
        let mut v = F::on_exit(s, &mut self.context);
        out.append(&mut v);
    }

    fn exec_enter_state<M>(&mut self, s: usize, out: &mut Vec<F::Events>, Ghost(tm): Ghost<M>)
        requires
            old(self).wf(),
        ensures
            final(self).wf(),
            final(self).spec_table() == old(self).spec_table(),
            final(self).model(tm, final(out)@) == enter_state::<F, M>(old(self).model(tm, old(out)@), s),
    {
        let mut v = F::on_entry(s, &mut self.context);
        out.append(&mut v);
    }

    fn exec_action<M>(
        &mut self,
        t: usize,
        ev: &FsmEvent<F::Events, usize>,
        out: &mut Vec<F::Events>,
        Ghost(tm): Ghost<M>,
    )
        requires
            old(self).wf(),
        ensures
            final(self).wf(),
            final(self).spec_table() == old(self).spec_table(),
            final(self).model(tm, final(out)@) == run_action::<F, M>(old(self).model(tm, old(out)@), t, *ev),
    {
        let mut v = F::action(t, ev, &mut self.context);
        out.append(&mut v);
    }

    fn exec_sub_entry<M>(&mut self, s: usize, out: &mut Vec<F::Events>, Ghost(tm): Ghost<M>)
        requires
            old(self).wf(),
        ensures
            final(self).wf(),
            final(self).spec_table() == old(self).spec_table(),
            final(self).model(tm, final(out)@) == enter_sub_machine::<F, M>(old(self).model(tm, old(out)@), s),
    {
        let mut v = F::sub_entry(s, &mut self.context);
        out.append(&mut v);
    }

    fn exec_timer_exit<T: FsmTimers>(&mut self, timers: &mut T, tm: usize)
        requires
            old(self).wf(),
            tm < old(self).instances().len(),
        ensures
            final(self).wf(),
            final(self).spec_table() == old(self).spec_table(),
            forall|out: Seq<F::Events>| #[trigger] final(self).model(final(timers).model(), out)
                == timer_exit::<F, T>(old(self).model(old(timers).model(), out), tm),
    {
        match self.timer_instances[tm] {
            Some(inst) => {
                if inst.id == tm && inst.settings.cancel_on_state_exit {
                    let r = timers.cancel(tm);
                    if r.is_ok() {
                        self.timer_instances.set(tm, None);
                    }
                }
            },
            None => {},
        }
    }

    fn exec_timer_enter<T: FsmTimers>(&mut self, timers: &mut T, tm: usize)
        requires
            old(self).wf(),
            tm < old(self).instances().len(),
        ensures
            final(self).wf(),
            final(self).spec_table() == old(self).spec_table(),
            forall|out: Seq<F::Events>| #[trigger] final(self).model(final(timers).model(), out)
                == timer_enter::<F, T>(old(self).model(old(timers).model(), out), tm),
    {
        let settings = F::timer_setup(tm, &mut self.context);
        if settings.enabled {
            let ts = settings.to_timer_settings();
            let r = timers.create(tm, &ts);
            if r.is_ok() {
                self.timer_instances.set(tm, Some(TimerInstance { id: tm, settings }));
            }
        }
    }

    fn exec_timers_exit<T: FsmTimers>(&mut self, timers: &mut T, s: usize)
        requires
            old(self).wf(),
            s < old(self).spec_table().states@.len(),
        ensures
            final(self).wf(),
            final(self).spec_table() == old(self).spec_table(),
            forall|out: Seq<F::Events>| #[trigger] final(self).model(final(timers).model(), out)
                == timers_exit::<F, T>(
                old(self).model(old(timers).model(), out),
                state_timers(old(self).spec_table(), s),
            ),
    {
        let ghost s0 = *self;
        let ghost t0 = timers.model();
        let ghost ts = state_timers(self.table, s);
        let n = self.table.states[s].timers.len();
        let mut k: usize = 0;
        while k < n
            invariant
                self.wf(),
                self.spec_table() == s0.spec_table(),
                s < self.spec_table().states@.len(),
                ts == state_timers(self.spec_table(), s),
                n == ts.len(),
                k <= n,
                forall|out: Seq<F::Events>| #[trigger] self.model(timers.model(), out)
                    == timers_exit::<F, T>(s0.model(t0, out), ts.take(k as int)),
            decreases n - k,
        {
            let tm = self.table.states[s].timers[k];
            self.exec_timer_exit(timers, tm);
            assert(ts.take(k + 1).drop_last() =~= ts.take(k as int));
            k = k + 1;
        }
        assert(ts.take(n as int) =~= ts);
    }

    fn exec_timers_enter<T: FsmTimers>(&mut self, timers: &mut T, s: usize)
        requires
            old(self).wf(),
            s < old(self).spec_table().states@.len(),
        ensures
            final(self).wf(),
            final(self).spec_table() == old(self).spec_table(),
            forall|out: Seq<F::Events>| #[trigger] final(self).model(final(timers).model(), out)
                == timers_enter::<F, T>(
                old(self).model(old(timers).model(), out),
                state_timers(old(self).spec_table(), s),
            ),
    {
        let ghost s0 = *self;
        let ghost t0 = timers.model();
        let ghost ts = state_timers(self.table, s);
        let n = self.table.states[s].timers.len();
        let mut k: usize = 0;
        while k < n
            invariant
                self.wf(),
                self.spec_table() == s0.spec_table(),
                s < self.spec_table().states@.len(),
                ts == state_timers(self.spec_table(), s),
                n == ts.len(),
                k <= n,
                forall|out: Seq<F::Events>| #[trigger] self.model(timers.model(), out)
                    == timers_enter::<F, T>(s0.model(t0, out), ts.take(k as int)),
            decreases n - k,
        {
            let tm = self.table.states[s].timers[k];
            self.exec_timer_enter(timers, tm);
            assert(ts.take(k + 1).drop_last() =~= ts.take(k as int));
            k = k + 1;
        }
        assert(ts.take(n as int) =~= ts);
    }

    fn exec_timer_trigger<M>(&mut self, tm: usize, out: &mut Vec<F::Events>, Ghost(tmod): Ghost<M>)
        requires
            old(self).wf(),
            tm < old(self).instances().len(),
        ensures
            final(self).wf(),
            final(self).spec_table() == old(self).spec_table(),
            final(self).model(tmod, final(out)@) == timer_trigger::<F, M>(old(self).model(tmod, old(out)@), tm),
    {
        match self.timer_instances[tm] {
            Some(_) => {
                match F::timer_trigger(tm, &self.context) {
                    Some(e) => {
                        out.push(e);
                    },
                    None => {},
                }
            },
            None => {},
        }
    }

    fn exec_sub_dispatch<M>(
        &mut self,
        s: usize,
        ev: &FsmEvent<F::Events, usize>,
        out: &mut Vec<F::Events>,
        Ghost(tmod): Ghost<M>,
    ) -> (o: RegionOutcome)
        requires
            old(self).wf(),
        ensures
            final(self).wf(),
            final(self).spec_table() == old(self).spec_table(),
            (final(self).model(tmod, final(out)@), o) == forward_to_sub_machine::<F, M>(
                old(self).model(tmod, old(out)@),
                s,
                *ev,
            ),
    {
        let (res, mut v) = F::sub_dispatch(s, ev, &mut self.context);
        out.append(&mut v);
        RegionOutcome::Returned(res)
    }

    /// Taking transition `t` in region `r`.
    fn exec_execute_transition<T: FsmTimers, I: Inspect>(
        &mut self,
        timers: &mut T,
        inspect: &I,
        r: usize,
        t: FsmTableTransition,
        ev: &FsmEvent<F::Events, usize>,
        out: &mut Vec<F::Events>,
    )
        requires
            old(self).wf(),
            r < old(self).current().len(),
            transition_wf(t, old(self).spec_table().states@.len()),
        ensures
            final(self).wf(),
            final(self).spec_table() == old(self).spec_table(),
            final(self).model(final(timers).model(), final(out)@) == execute_transition::<F, T>(
                old(self).spec_table(),
                r as int,
                t,
                old(self).model(old(timers).model(), old(out)@),
                *ev,
            ),
    {
        let observer = inspect.for_transition(t.id);
        match t.ty {
            FsmTableTransitionType::StateTransition { from, to } => {
                match from {
                    FsmCurrentState::Stopped => {
                        observer.on_state_enter(to);
                        observer.on_event(&InspectFsmEvent::StateEnter(to));
                        self.exec_enter_state(to, out, Ghost(timers.model()));
                    },
                    FsmCurrentState::State(f) => {
                        self.exec_timers_exit(timers, f);
                        self.exec_exit_state(f, out, Ghost(timers.model()));
                        observer.on_state_exit(f);
                        observer.on_event(&InspectFsmEvent::StateExit(f));
                        observer.on_action(t.id);
                        self.exec_action(t.id, ev, out, Ghost(timers.model()));
                        observer.on_state_enter(to);
                        observer.on_event(&InspectFsmEvent::StateEnter(to));
                        self.exec_enter_state(to, out, Ghost(timers.model()));
                    },
                }
                self.current_states.set(r, FsmCurrentState::State(to));
                if self.table.states[to].sub_machine {
                    self.exec_sub_entry(to, out, Ghost(timers.model()));
                } else {
                    self.exec_timers_enter(timers, to);
                }
            },
            FsmTableTransitionType::SelfTransition { state } => {
                self.exec_timers_exit(timers, state);
                self.exec_exit_state(state, out, Ghost(timers.model()));
                observer.on_state_exit(state);
                observer.on_event(&InspectFsmEvent::StateExit(state));
                observer.on_action(t.id);
                self.exec_action(t.id, ev, out, Ghost(timers.model()));
                observer.on_state_enter(state);
                observer.on_event(&InspectFsmEvent::StateEnter(state));
                self.exec_enter_state(state, out, Ghost(timers.model()));
                self.exec_timers_enter(timers, state);
            },
            FsmTableTransitionType::InternalTransition { state } => {
                observer.on_action(t.id);
                self.exec_action(t.id, ev, out, Ghost(timers.model()));
            },
        }
    }

    /// The first enabled transition of region `r` in its current state.
    fn exec_select<I: Inspect>(&self, inspect: &I, r: usize, ev: &FsmEvent<F::Events, usize>) -> (j: Option<usize>)
        requires
            self.wf(),
            r < self.current().len(),
        ensures
            j matches Some(jj) ==> jj < self.spec_table().regions@[r as int].transitions@.len(),
            j matches Some(jj) ==> select_transition::<F>(
                self.spec_table().regions@[r as int].transitions@,
                self.current()[r as int],
                *ev,
                self.ctx(),
                0,
            ) == Some(jj as int),
            j is None ==> select_transition::<F>(
                self.spec_table().regions@[r as int].transitions@,
                self.current()[r as int],
                *ev,
                self.ctx(),
                0,
            ) is None,
    {
        let cs = self.current_states[r];
        let ghost trs = self.table.regions@[r as int].transitions@;
        let n = self.table.regions[r].transitions.len();
        let mut j: usize = 0;
        while j < n
            invariant
                self.wf(),
                r < self.current().len(),
                cs == self.current()[r as int],
                trs == self.spec_table().regions@[r as int].transitions@,
                n == trs.len(),
                j <= n,
                select_transition::<F>(trs, cs, *ev, self.ctx(), 0) == select_transition::<F>(
                    trs,
                    cs,
                    *ev,
                    self.ctx(),
                    j as int,
                ),
            decreases n - j,
        {
            let t = self.table.regions[r].transitions[j];
            let src = Self::exec_transition_source(&t);
            if src == cs && Self::exec_event_matches(t.event, ev) {
                if !t.has_guard {
                    return Some(j);
                }
                let g = F::guard(t.id, ev, &self.context);
                inspect.on_guard(t.id, g);
                if g {
                    return Some(j);
                }
            }
            j = j + 1;
        }
        None
    }

    /// The reaction of region `r` to the event.
    fn exec_region_step<T: FsmTimers, I: Inspect>(
        &mut self,
        timers: &mut T,
        inspect: &I,
        r: usize,
        ev: &FsmEvent<F::Events, usize>,
        out: &mut Vec<F::Events>,
    ) -> (o: RegionOutcome)
        requires
            old(self).wf(),
            r < old(self).current().len(),
        ensures
            final(self).wf(),
            final(self).spec_table() == old(self).spec_table(),
            (final(self).model(final(timers).model(), final(out)@), o) == region_step::<F, T>(
                old(self).spec_table(),
                r as int,
                old(self).model(old(timers).model(), old(out)@),
                *ev,
            ),
    {
        let cs = self.current_states[r];
        if let FsmCurrentState::State(s) = cs {
            if let FsmEvent::Event(x) = ev {
                if self.table.states[s].sub_machine && F::event_kind(x)
                    == self.table.states[s].sub_event_kind {
                    let sub = inspect.for_sub_machine(s);
                    sub.info("forwarding the event");
                    return self.exec_sub_dispatch(s, ev, out, Ghost(timers.model()));
                }
            }
        }
        match self.exec_select(inspect, r, ev) {
            Some(j) => {
                let t = self.table.regions[r].transitions[j];
                self.exec_execute_transition(timers, inspect, r, t, ev, out);
                RegionOutcome::Handled
            },
            None => {
                match ev {
                    FsmEvent::Timer(tm) => {
                        let tm = *tm;
                        if let FsmCurrentState::Stopped = cs {
                            RegionOutcome::Handled
                        } else if tm < self.table.timers.len()
                            && self.table.states[self.table.timers[tm].state].region == r {
                            let timer_observer = inspect.for_timer(tm);
                            timer_observer.info("timer fired");
                            match self.table.timers[tm].sub_timer {
                                None => {
                                    self.exec_timer_trigger(tm, out, Ghost(timers.model()));
                                    RegionOutcome::Handled
                                },
                                Some(inner) => {
                                    let s = self.table.timers[tm].state;
                                    let fwd: FsmEvent<F::Events, usize> = FsmEvent::Timer(inner);
                                    self.exec_sub_dispatch(s, &fwd, out, Ghost(timers.model()))
                                },
                            }
                        } else {
                            RegionOutcome::Missed
                        }
                    },
                    _ => RegionOutcome::Missed,
                }
            },
        }
    }

    /// Dispatches one event to every region in turn, telling `inspect` of the guards,
    /// transitions, states and timers involved. Returns the result and the events that the
    /// machine's hooks enqueued, in order.
    pub fn dispatch_event<T: FsmTimers, I: Inspect>(
        &mut self,
        timers: &mut T,
        inspect: &I,
        event: &FsmEvent<F::Events, usize>,
    ) -> (r: (FsmResult<()>, Vec<F::Events>))
        requires
            old(self).wf(),
        ensures
            final(self).wf(),
            final(self).spec_table() == old(self).spec_table(),
            (final(self).model(final(timers).model(), r.1@), r.0) == spec_dispatch::<F, T>(
                old(self).spec_table(),
                old(self).model(old(timers).model(), Seq::empty()),
                *event,
            ),
    {
        let ghost table = self.spec_table();
        let ghost m0 = self.model(timers.model(), Seq::<F::Events>::empty());
        let mut out: Vec<F::Events> = Vec::new();
        let mut misses: usize = 0;
        let n = self.table.regions.len();
        let mut r: usize = 0;
        while r < n
            invariant
                self.wf(),
                self.spec_table() == table,
                table == old(self).spec_table(),
                m0 == old(self).model(old(timers).model(), Seq::<F::Events>::empty()),
                n == table.regions@.len(),
                misses <= r <= n,
                regions_from::<F, T>(table, 0, m0, *event, 0) == regions_from::<F, T>(
                    table,
                    r as int,
                    self.model(timers.model(), out@),
                    *event,
                    misses as int,
                ),
            decreases n - r,
        {
            let o = self.exec_region_step(timers, inspect, r, event, &mut out);
            match o {
                RegionOutcome::Returned(res) => {
                    return (res, out);
                },
                RegionOutcome::Handled => {},
                RegionOutcome::Missed => {
                    misses = misses + 1;
                },
            }
            r = r + 1;
        }
        let res = if misses == n {
            Err(FsmError::NoTransition)
        } else {
            Ok(())
        };
        (res, out)
    }
}

/// A machine that is a state of another one is started when that state is entered, but only
/// when all its regions are stopped: then the start event is dispatched to it; otherwise it is
/// left as it is. Returns the result and the events that its hooks enqueued.
pub fn start_sub_machine<FSub: FsmBackend, T: FsmTimers, I: Inspect>(
    sub: &mut FsmBackendImpl<FSub>,
    timers: &mut T,
    inspect: &I,
) -> (r: (FsmResult<()>, Vec<FSub::Events>))
    requires
        old(sub).wf(),
    ensures
        final(sub).wf(),
        final(sub).spec_table() == old(sub).spec_table(),
        spec_all_stopped(old(sub).current()) ==> (final(sub).model(final(timers).model(), r.1@), r.0)
            == spec_dispatch::<FSub, T>(
            old(sub).spec_table(),
            old(sub).model(old(timers).model(), Seq::empty()),
            FsmEvent::Start,
        ),
        !spec_all_stopped(old(sub).current()) ==> {
            &&& *final(sub) == *old(sub)
            &&& final(timers).model() == old(timers).model()
            &&& r.0 is Ok
            &&& r.1@ == Seq::<FSub::Events>::empty()
        },
{
    if FsmCurrentState::all_stopped(sub.get_current_states()) {
        sub.dispatch_event(timers, inspect, &FsmEvent::Start)
    } else {
        (Ok(()), Vec::new())
    }
}

/// Hands an event of the sub-machine down to it, while its state is the current one of its
/// parent. Returns the result and the events that its hooks enqueued, for the parent's queue.
pub fn dispatch_to_submachine<FSub: FsmBackend, T: FsmTimers, I: Inspect>(
    sub: &mut FsmBackendImpl<FSub>,
    timers: &mut T,
    inspect: &I,
    event: &FsmEvent<FSub::Events, usize>,
) -> (r: (FsmResult<()>, Vec<FSub::Events>))
    requires
        old(sub).wf(),
    ensures
        final(sub).wf(),
        final(sub).spec_table() == old(sub).spec_table(),
        (final(sub).model(final(timers).model(), r.1@), r.0) == spec_dispatch::<FSub, T>(
            old(sub).spec_table(),
            old(sub).model(old(timers).model(), Seq::empty()),
            *event,
        ),
{
    sub.dispatch_event(timers, inspect, event)
}

} // verus!
