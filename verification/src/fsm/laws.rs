//! Properties of dispatching that hold of every machine.

use vstd::prelude::*;
use crate::fsm::FsmError;
use crate::fsm::states::FsmCurrentState;
use crate::fsm::events::FsmEvent;
use crate::fsm::timers::FsmTimers;
use crate::fsm::table::{FsmTable, FsmTableEvent, FsmTableTransition, FsmTableTransitionType, transition_source};
use crate::fsm::dispatch::{
    FsmBackend, FsmModel, RegionOutcome, execute_transition, region_step, regions_from,
    run_action, select_transition, spec_dispatch, timer_exit, timers_enter, timers_exit,
};
use crate::timers::{TimersStd, without_id};

verus! {

proof fn lemma_timers_exit_keeps_current<F: FsmBackend, T: FsmTimers>(
    m: FsmModel<F::Context, F::Events, T::Model>,
    ts: Seq<usize>,
)
    ensures
        timers_exit::<F, T>(m, ts).current == m.current,
    decreases ts.len(),
{
    if ts.len() > 0 {
        lemma_timers_exit_keeps_current::<F, T>(m, ts.drop_last());
    }
}

proof fn lemma_timers_enter_keeps_current<F: FsmBackend, T: FsmTimers>(
    m: FsmModel<F::Context, F::Events, T::Model>,
    ts: Seq<usize>,
)
    ensures
        timers_enter::<F, T>(m, ts).current == m.current,
    decreases ts.len(),
{
    if ts.len() > 0 {
        lemma_timers_enter_keeps_current::<F, T>(m, ts.drop_last());
    }
}

/// Law: a transition between states leaves its region in the target state and changes no
/// other region; self and internal transitions change no region's current state.
pub proof fn lemma_transition_target<F: FsmBackend, T: FsmTimers>(
    table: FsmTable,
    r: int,
    t: FsmTableTransition,
    m: FsmModel<F::Context, F::Events, T::Model>,
    ev: FsmEvent<F::Events, usize>,
)
    requires
        0 <= r < m.current.len(),
    ensures
        execute_transition::<F, T>(table, r, t, m, ev).current == match t.ty {
            FsmTableTransitionType::StateTransition { to, .. } => m.current.update(
                r,
                FsmCurrentState::State(to),
            ),
            _ => m.current,
        },
{
    match t.ty {
        FsmTableTransitionType::StateTransition { from, to } => {
            match from {
                FsmCurrentState::Stopped => {},
                FsmCurrentState::State(f) => {
                    lemma_timers_exit_keeps_current::<F, T>(m, table.states@[f as int].timers@);
                },
            }
        },
        FsmTableTransitionType::SelfTransition { state } => {
            lemma_timers_exit_keeps_current::<F, T>(m, table.states@[state as int].timers@);
        },
        _ => {},
    }
    // the rest of each transition only changes the context, timers and outbox
    let m1 = execute_transition::<F, T>(table, r, t, m, ev);
    match t.ty {
        FsmTableTransitionType::StateTransition { from, to } => {
            let pre = match from {
                FsmCurrentState::Stopped => crate::fsm::dispatch::enter_state::<F, T::Model>(m, to),
                FsmCurrentState::State(f) => {
                    let m_timers = timers_exit::<F, T>(m, table.states@[f as int].timers@);
                    let m_exit = crate::fsm::dispatch::exit_state::<F, T::Model>(m_timers, f);
                    let m_action = run_action::<F, T::Model>(m_exit, t.id, ev);
                    crate::fsm::dispatch::enter_state::<F, T::Model>(m_action, to)
                },
            };
            let m2 = FsmModel { current: pre.current.update(r, FsmCurrentState::State(to)), ..pre };
            lemma_timers_enter_keeps_current::<F, T>(m2, table.states@[to as int].timers@);
        },
        FsmTableTransitionType::SelfTransition { state } => {
            let m1 = timers_exit::<F, T>(m, table.states@[state as int].timers@);
            let m2 = crate::fsm::dispatch::exit_state::<F, T::Model>(m1, state);
            let m3 = run_action::<F, T::Model>(m2, t.id, ev);
            let m4 = crate::fsm::dispatch::enter_state::<F, T::Model>(m3, state);
            lemma_timers_enter_keeps_current::<F, T>(m4, table.states@[state as int].timers@);
        },
        _ => {},
    }
}

/// Law: an internal transition only runs the transition's action; it triggers neither the
/// state's exit and entry actions nor its timers, as a self transition does.
pub proof fn lemma_internal_transition_runs_only_action<F: FsmBackend, T: FsmTimers>(
    table: FsmTable,
    r: int,
    t: FsmTableTransition,
    m: FsmModel<F::Context, F::Events, T::Model>,
    ev: FsmEvent<F::Events, usize>,
)
    requires
        t.ty is InternalTransition,
    ensures
        execute_transition::<F, T>(table, r, t, m, ev) == run_action::<F, T::Model>(m, t.id, ev),
{
}

/// Law: when no region reacts to an event, dispatching it fails with `NoTransition` and
/// changes nothing.
pub proof fn lemma_unhandled_event_changes_nothing<F: FsmBackend, T: FsmTimers>(
    table: FsmTable,
    m: FsmModel<F::Context, F::Events, T::Model>,
    ev: FsmEvent<F::Events, usize>,
)
    requires
        forall|r: int|
            0 <= r < table.regions@.len() ==> (#[trigger] region_step::<F, T>(table, r, m, ev)).1
                is Missed,
    ensures
        spec_dispatch::<F, T>(table, m, ev) == (m, Err::<(), FsmError>(FsmError::NoTransition)),
{
    lemma_all_missed_from::<F, T>(table, 0, m, ev);
}

proof fn lemma_all_missed_from<F: FsmBackend, T: FsmTimers>(
    table: FsmTable,
    r: int,
    m: FsmModel<F::Context, F::Events, T::Model>,
    ev: FsmEvent<F::Events, usize>,
)
    requires
        0 <= r <= table.regions@.len(),
        forall|i: int|
            0 <= i < table.regions@.len() ==> (#[trigger] region_step::<F, T>(table, i, m, ev)).1
                is Missed,
    ensures
        regions_from::<F, T>(table, r, m, ev, r) == (m, Err::<(), FsmError>(FsmError::NoTransition)),
    decreases table.regions@.len() - r,
{
    if r < table.regions@.len() {
        let (m1, o) = region_step::<F, T>(table, r, m, ev);
        assert(o is Missed);
        assert(m1 == m);
        lemma_all_missed_from::<F, T>(table, r + 1, m, ev);
    }
}

/// The machine has no sub-machines: no state is one, and no timer belongs to one.
pub open spec fn without_sub_machines(table: FsmTable) -> bool {
    &&& forall|s: int| 0 <= s < table.states@.len() ==> !(#[trigger] table.states@[s]).sub_machine
    &&& forall|tm: int| 0 <= tm < table.timers@.len() ==> (#[trigger] table.timers@[tm]).sub_timer is None
}

/// Every region has a current state, and each current state exists.
pub open spec fn current_in_range<C, E, M>(table: FsmTable, m: FsmModel<C, E, M>) -> bool {
    &&& m.current.len() == table.regions@.len()
    &&& forall|r: int|
        0 <= r < m.current.len() ==> crate::fsm::table::state_in_range(
            #[trigger] m.current[r],
            table.states@.len(),
        )
}

proof fn lemma_step_keeps_range<F: FsmBackend, T: FsmTimers>(
    table: FsmTable,
    r: int,
    m: FsmModel<F::Context, F::Events, T::Model>,
    ev: FsmEvent<F::Events, usize>,
)
    requires
        table.wf(),
        without_sub_machines(table),
        current_in_range(table, m),
        0 <= r < table.regions@.len(),
    ensures
        !(region_step::<F, T>(table, r, m, ev).1 is Returned),
        current_in_range(table, region_step::<F, T>(table, r, m, ev).0),
{
    let trs = table.regions@[r].transitions@;
    match select_transition::<F>(trs, m.current[r], ev, m.context, 0) {
        Some(j) => {
            lemma_select_in_range::<F>(trs, m.current[r], ev, m.context, 0);
            assert(crate::fsm::table::transition_wf(trs[j], table.states@.len()));
            lemma_transition_target::<F, T>(table, r, trs[j], m, ev);
        },
        None => {},
    }
}

proof fn lemma_select_in_range<F: FsmBackend>(
    trs: Seq<FsmTableTransition>,
    cs: FsmCurrentState<usize>,
    ev: FsmEvent<F::Events, usize>,
    ctx: F::Context,
    j: int,
)
    ensures
        select_transition::<F>(trs, cs, ev, ctx, j) matches Some(k) ==> 0 <= k < trs.len(),
    decreases trs.len() - j,
{
    if 0 <= j < trs.len() {
        lemma_select_in_range::<F>(trs, cs, ev, ctx, j + 1);
    }
}

/// Law: for a machine without sub-machines, dispatching an event fails with `NoTransition`
/// exactly when every region misses the event, and then the machine is left unchanged.
pub proof fn lemma_no_transition_iff_all_missed<F: FsmBackend, T: FsmTimers>(
    table: FsmTable,
    m: FsmModel<F::Context, F::Events, T::Model>,
    ev: FsmEvent<F::Events, usize>,
)
    requires
        table.wf(),
        without_sub_machines(table),
        current_in_range(table, m),
    ensures
        spec_dispatch::<F, T>(table, m, ev).1 == Err::<(), FsmError>(FsmError::NoTransition)
            <==> forall|r: int|
            0 <= r < table.regions@.len() ==> (#[trigger] region_step::<F, T>(table, r, m, ev)).1
                is Missed,
        spec_dispatch::<F, T>(table, m, ev).1 == Err::<(), FsmError>(FsmError::NoTransition)
            ==> spec_dispatch::<F, T>(table, m, ev).0 == m,
{
    lemma_misses_from::<F, T>(table, 0, m, ev, 0);
    if forall|r: int|
        0 <= r < table.regions@.len() ==> (#[trigger] region_step::<F, T>(table, r, m, ev)).1
            is Missed {
        lemma_unhandled_event_changes_nothing::<F, T>(table, m, ev);
    }
}

proof fn lemma_misses_from<F: FsmBackend, T: FsmTimers>(
    table: FsmTable,
    r: int,
    m: FsmModel<F::Context, F::Events, T::Model>,
    ev: FsmEvent<F::Events, usize>,
    misses: int,
)
    requires
        table.wf(),
        without_sub_machines(table),
        current_in_range(table, m),
        0 <= misses <= r <= table.regions@.len(),
    ensures
        regions_from::<F, T>(table, r, m, ev, misses).1 == Err::<(), FsmError>(FsmError::NoTransition)
            ==> {
            &&& misses == r
            &&& regions_from::<F, T>(table, r, m, ev, misses).0 == m
            &&& forall|i: int|
                r <= i < table.regions@.len() ==> (#[trigger] region_step::<F, T>(
                    table,
                    i,
                    m,
                    ev,
                )).1 is Missed
        },
    decreases table.regions@.len() - r,
{
    if r < table.regions@.len() {
        lemma_step_keeps_range::<F, T>(table, r, m, ev);
        let (m1, o) = region_step::<F, T>(table, r, m, ev);
        match o {
            RegionOutcome::Handled => {
                lemma_misses_from::<F, T>(table, r + 1, m1, ev, misses);
            },
            RegionOutcome::Missed => {
                assert(m1 == m);
                lemma_misses_from::<F, T>(table, r + 1, m1, ev, misses + 1);
            },
            RegionOutcome::Returned(_) => {},
        }
    }
}

/// The first transition of `trs` that leaves `Stopped` on `Start` is the unguarded transition
/// at `j` into `init`.
pub open spec fn is_start_transition(trs: Seq<FsmTableTransition>, j: int, init: usize) -> bool {
    &&& 0 <= j < trs.len()
    &&& trs[j].ty == (FsmTableTransitionType::StateTransition {
        from: FsmCurrentState::Stopped,
        to: init,
    })
    &&& trs[j].event == FsmTableEvent::Start
    &&& !trs[j].has_guard
    &&& forall|i: int|
        0 <= i < j ==> !(transition_source(#[trigger] trs[i]) == FsmCurrentState::<usize>::Stopped
            && trs[i].event == FsmTableEvent::Start)
}

proof fn lemma_select_start<F: FsmBackend>(
    trs: Seq<FsmTableTransition>,
    j: int,
    init: usize,
    ctx: F::Context,
    i: int,
)
    requires
        is_start_transition(trs, j, init),
        0 <= i <= j,
    ensures
        select_transition::<F>(trs, FsmCurrentState::Stopped, FsmEvent::Start, ctx, i) == Some(j),
    decreases j - i,
{
    if i < j {
        assert(!(transition_source(trs[i]) == FsmCurrentState::<usize>::Stopped && trs[i].event
            == FsmTableEvent::Start));
        lemma_select_start::<F>(trs, j, init, ctx, i + 1);
    }
}

/// Law: starting a machine whose regions are all stopped, and whose regions each begin with
/// an unguarded start transition into their initial state, succeeds and puts every region in
/// its initial state.
pub proof fn lemma_start_enters_initial_states<F: FsmBackend, T: FsmTimers>(
    table: FsmTable,
    m: FsmModel<F::Context, F::Events, T::Model>,
    starts: Seq<int>,
    initial: Seq<usize>,
)
    requires
        table.regions@.len() > 0,
        m.current.len() == table.regions@.len(),
        starts.len() == table.regions@.len(),
        initial.len() == table.regions@.len(),
        forall|r: int| 0 <= r < m.current.len() ==> (#[trigger] m.current[r]) is Stopped,
        forall|r: int|
            0 <= r < table.regions@.len() ==> is_start_transition(
                (#[trigger] table.regions@[r]).transitions@,
                starts[r],
                initial[r],
            ),
    ensures
        ({
            let (m1, res) = spec_dispatch::<F, T>(table, m, FsmEvent::Start);
            &&& res is Ok
            &&& m1.current == Seq::new(
                initial.len(),
                |r: int| FsmCurrentState::State(initial[r]),
            )
        }),
{
    lemma_start_from::<F, T>(table, 0, m, starts, initial);
    let (m1, res) = spec_dispatch::<F, T>(table, m, FsmEvent::Start);
    assert(m1.current =~= Seq::new(initial.len(), |r: int| FsmCurrentState::State(initial[r])));
}

proof fn lemma_start_from<F: FsmBackend, T: FsmTimers>(
    table: FsmTable,
    r: int,
    m: FsmModel<F::Context, F::Events, T::Model>,
    starts: Seq<int>,
    initial: Seq<usize>,
)
    requires
        table.regions@.len() > 0,
        0 <= r <= table.regions@.len(),
        m.current.len() == table.regions@.len(),
        starts.len() == table.regions@.len(),
        initial.len() == table.regions@.len(),
        forall|i: int| 0 <= i < r ==> m.current[i] == FsmCurrentState::State(initial[i]),
        forall|i: int| r <= i < m.current.len() ==> (#[trigger] m.current[i]) is Stopped,
        forall|i: int|
            0 <= i < table.regions@.len() ==> is_start_transition(
                (#[trigger] table.regions@[i]).transitions@,
                starts[i],
                initial[i],
            ),
    ensures
        ({
            let (m1, res) = regions_from::<F, T>(table, r, m, FsmEvent::Start, 0);
            &&& res is Ok
            &&& m1.current.len() == m.current.len()
            &&& forall|i: int| 0 <= i < m1.current.len() ==> m1.current[i] == FsmCurrentState::State(initial[i])
        }),
    decreases table.regions@.len() - r,
{
    if r < table.regions@.len() {
        let trs = table.regions@[r].transitions@;
        assert(is_start_transition(trs, starts[r], initial[r]));
        assert(m.current[r] is Stopped);
        lemma_select_start::<F>(trs, starts[r], initial[r], m.context, 0);
        let t = trs[starts[r]];
        lemma_transition_target::<F, T>(table, r, t, m, FsmEvent::Start);
        let m1 = execute_transition::<F, T>(table, r, t, m, FsmEvent::Start);
        assert(region_step::<F, T>(table, r, m, FsmEvent::Start) == (m1, RegionOutcome::Handled));
        lemma_start_from::<F, T>(table, r + 1, m1, starts, initial);
    }
}

/// Law: in a machine of one region, taking a transition from state `s` to state `to`, where
/// neither state is a sub-machine or has timers, runs the exit action of `s`, then the
/// transition's action, then the entry action of `to`, each on the context the previous one
/// left, and enqueues their events in that order; the region is then in `to` and the dispatch
/// succeeds.
pub proof fn lemma_exit_action_entry_order<F: FsmBackend, T: FsmTimers>(
    table: FsmTable,
    m: FsmModel<F::Context, F::Events, T::Model>,
    ev: FsmEvent<F::Events, usize>,
    s: usize,
    j: int,
    to: usize,
)
    requires
        table.wf(),
        table.regions@.len() == 1,
        m.current == seq![FsmCurrentState::<usize>::State(s)],
        s < table.states@.len(),
        !table.states@[s as int].sub_machine,
        !table.states@[to as int].sub_machine,
        table.states@[s as int].timers@.len() == 0,
        table.states@[to as int].timers@.len() == 0,
        select_transition::<F>(table.regions@[0].transitions@, FsmCurrentState::State(s), ev, m.context, 0)
            == Some(j),
        table.regions@[0].transitions@[j].ty == (FsmTableTransitionType::StateTransition {
            from: FsmCurrentState::State(s),
            to,
        }),
    ensures
        ({
            let (m2, res) = spec_dispatch::<F, T>(table, m, ev);
            let id = table.regions@[0].transitions@[j].id;
            let (c1, o1) = F::spec_on_exit(s, m.context);
            let (c2, o2) = F::spec_action(id, ev, c1);
            let (c3, o3) = F::spec_on_entry(to, c2);
            &&& res == Ok::<(), FsmError>(())
            &&& m2.current == seq![FsmCurrentState::<usize>::State(to)]
            &&& m2.context == c3
            &&& m2.outbox == m.outbox + o1 + o2 + o3
            &&& m2.timers == m.timers
            &&& m2.instances == m.instances
        }),
{
    let trs = table.regions@[0].transitions@;
    let t = trs[j];
    assert(timers_exit::<F, T>(m, table.states@[s as int].timers@) == m);
    let m1 = execute_transition::<F, T>(table, 0, t, m, ev);
    let pre = crate::fsm::dispatch::enter_state::<F, T::Model>(
        run_action::<F, T::Model>(crate::fsm::dispatch::exit_state::<F, T::Model>(m, s), t.id, ev),
        to,
    );
    let m2 = FsmModel { current: pre.current.update(0, FsmCurrentState::State(to)), ..pre };
    assert(timers_enter::<F, T>(m2, table.states@[to as int].timers@) == m2);
    assert(m1 == m2);
    let (r1, o) = region_step::<F, T>(table, 0, m, ev);
    assert(o is Handled);
    assert(r1 == m1);
    assert(regions_from::<F, T>(table, 1, m1, ev, 0) == (m1, Ok::<(), FsmError>(())));
    assert(m2.current =~= seq![FsmCurrentState::<usize>::State(to)]);
    assert(m2.outbox =~= m.outbox + F::spec_on_exit(s, m.context).1 + F::spec_action(
        t.id,
        ev,
        F::spec_on_exit(s, m.context).0,
    ).1 + F::spec_on_entry(to, F::spec_action(t.id, ev, F::spec_on_exit(s, m.context).0).0).1);
}

/// Law: a self transition of a state without timers runs the state's exit action, then the
/// transition's action, then the state's entry action, each on the context the previous one
/// left, and enqueues their events in that order; nothing else changes.
pub proof fn lemma_self_transition_exits_acts_enters<F: FsmBackend, T: FsmTimers>(
    table: FsmTable,
    r: int,
    t: FsmTableTransition,
    s: usize,
    m: FsmModel<F::Context, F::Events, T::Model>,
    ev: FsmEvent<F::Events, usize>,
)
    requires
        t.ty == (FsmTableTransitionType::SelfTransition { state: s }),
        table.states@[s as int].timers@.len() == 0,
    ensures
        execute_transition::<F, T>(table, r, t, m, ev) == (FsmModel {
            context: F::spec_on_entry(s, F::spec_action(t.id, ev, F::spec_on_exit(s, m.context).0).0).0,
            outbox: m.outbox + F::spec_on_exit(s, m.context).1 + F::spec_action(
                t.id,
                ev,
                F::spec_on_exit(s, m.context).0,
            ).1 + F::spec_on_entry(s, F::spec_action(t.id, ev, F::spec_on_exit(s, m.context).0).0).1,
            ..m
        }),
{
    let ts = table.states@[s as int].timers@;
    assert(timers_exit::<F, T>(m, ts) == m);
    let c1 = F::spec_on_exit(s, m.context);
    let c2 = F::spec_action(t.id, ev, c1.0);
    let c3 = F::spec_on_entry(s, c2.0);
    let m4 = FsmModel { context: c3.0, outbox: m.outbox + c1.1 + c2.1 + c3.1, ..m };
    assert(timers_enter::<F, T>(m4, ts) == m4);
}

/// Law: leaving the state of a started timer that is to be cancelled on exit cancels it in
/// the timer service and, when the service accepts, forgets its instance; nothing else
/// changes. Any other timer is left as it is.
pub proof fn lemma_timer_exit_cancels<F: FsmBackend, T: FsmTimers>(
    m: FsmModel<F::Context, F::Events, T::Model>,
    tm: usize,
)
    requires
        tm < m.instances.len(),
    ensures
        (m.instances[tm as int] matches Some(inst) && inst.id == tm && inst.settings.cancel_on_state_exit) ==> {
            &&& timer_exit::<F, T>(m, tm).timers == T::spec_cancel(m.timers, tm).0
            &&& T::spec_cancel(m.timers, tm).1 is Ok ==> timer_exit::<F, T>(m, tm).instances
                == m.instances.update(tm as int, None)
            &&& T::spec_cancel(m.timers, tm).1 is Err ==> timer_exit::<F, T>(m, tm).instances == m.instances
            &&& timer_exit::<F, T>(m, tm).context == m.context
            &&& timer_exit::<F, T>(m, tm).outbox == m.outbox
            &&& timer_exit::<F, T>(m, tm).current == m.current
        },
        !(m.instances[tm as int] matches Some(inst) && inst.id == tm && inst.settings.cancel_on_state_exit)
            ==> timer_exit::<F, T>(m, tm) == m,
{
}

proof fn lemma_without_id_drops(timers: Seq<(usize, bool, u128)>, id: usize)
    ensures
        forall|k: int| 0 <= k < without_id(timers, id).len() ==> (#[trigger] without_id(timers, id)[k]).0 != id,
    decreases timers.len(),
{
    if timers.len() > 0 {
        lemma_without_id_drops(timers.drop_last(), id);
        let rest = without_id(timers.drop_last(), id);
        if timers.last().0 != id {
            assert forall|k: int| 0 <= k < rest.push(timers.last()).len() implies (#[trigger] rest.push(
                timers.last(),
            )[k]).0 != id by {
                if k < rest.len() {
                    assert(rest.push(timers.last())[k] == rest[k]);
                }
            }
        }
    }
}

/// Law: on the standard timer service, leaving the state of a started timer that is to be
/// cancelled on exit leaves the service with no timer of that id, and the timer's instance
/// forgotten, so the timer fires no more.
pub proof fn lemma_std_timer_exit_stops_timer<F: FsmBackend>(
    m: FsmModel<F::Context, F::Events, <TimersStd as FsmTimers>::Model>,
    tm: usize,
)
    requires
        tm < m.instances.len(),
        m.instances[tm as int] matches Some(inst) && inst.id == tm && inst.settings.cancel_on_state_exit,
    ensures
        forall|k: int|
            0 <= k < timer_exit::<F, TimersStd>(m, tm).timers.len() ==> (#[trigger] timer_exit::<F, TimersStd>(
                m,
                tm,
            ).timers[k]).0 != tm,
        timer_exit::<F, TimersStd>(m, tm).instances[tm as int] is None,
{
    lemma_timer_exit_cancels::<F, TimersStd>(m, tm);
    lemma_without_id_drops(m.timers, tm);
}

} // verus!
