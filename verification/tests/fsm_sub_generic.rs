use finny::fsm::dispatch::FsmBackend;
use finny::fsm::events::FsmEvent;
use finny::fsm::frontend::FsmFrontend;
use finny::fsm::fsm_impl::{dispatch_to_submachine, start_sub_machine, FsmBackendImpl};
use finny::fsm::inspect::InspectNull;
use finny::fsm::states::FsmCurrentState;
use finny::fsm::table::{
    FsmTable, FsmTableEvent, FsmTableRegion, FsmTableState, FsmTableTransition, FsmTableTransitionType,
};
use finny::fsm::timers::{FsmTimersNull, TimerFsmSettings};
use finny::fsm::{FsmError, FsmResult};
use std::marker::PhantomData;
use std::ops::Add;

// A main machine with a generic context holding a sub-machine with a generic context.

#[derive(Debug, Clone)]
pub struct Event;

#[derive(Debug, Clone)]
pub struct SubEvent;

pub struct SubContext<Y> {
    f2: Y,
    sub_state_a_value: usize,
}

pub struct SubStateMachine<Y> {
    _ctx: PhantomData<Y>,
}

const SUB_STATE_A: usize = 0;
const SUB_STATE_B: usize = 1;

impl<Y: Add<isize, Output = Y> + Copy> FsmBackend for SubStateMachine<Y> {
    type Context = SubContext<Y>;
    type Events = SubEvent;

    fn event_kind(_event: &SubEvent) -> usize {
        0
    }
    fn guard(_t: usize, _event: &FsmEvent<SubEvent, usize>, _context: &SubContext<Y>) -> bool {
        true
    }
    fn action(t: usize, _event: &FsmEvent<SubEvent, usize>, context: &mut SubContext<Y>) -> Vec<SubEvent> {
        if t == 1 {
            context.sub_state_a_value += 1;
        }
        Vec::new()
    }
    fn on_entry(state: usize, context: &mut SubContext<Y>) -> Vec<SubEvent> {
        if state == SUB_STATE_A {
            context.sub_state_a_value += 1;
        }
        Vec::new()
    }
    fn on_exit(_state: usize, _context: &mut SubContext<Y>) -> Vec<SubEvent> {
        Vec::new()
    }
    fn timer_setup(_timer: usize, _context: &mut SubContext<Y>) -> TimerFsmSettings {
        TimerFsmSettings::default()
    }
    fn timer_trigger(_timer: usize, _context: &SubContext<Y>) -> Option<SubEvent> {
        None
    }
    fn sub_dispatch(_s: usize, _e: &FsmEvent<SubEvent, usize>, _c: &mut SubContext<Y>) -> (FsmResult<()>, Vec<SubEvent>) {
        (Ok(()), Vec::new())
    }
    fn sub_entry(_s: usize, _c: &mut SubContext<Y>) -> Vec<SubEvent> {
        Vec::new()
    }
}

fn sub_table() -> FsmTable {
    let transitions = vec![
        FsmTableTransition {
            id: 0,
            ty: FsmTableTransitionType::StateTransition { from: FsmCurrentState::Stopped, to: SUB_STATE_A },
            event: FsmTableEvent::Start,
            has_guard: false,
        },
        FsmTableTransition {
            id: 1,
            ty: FsmTableTransitionType::StateTransition { from: FsmCurrentState::State(SUB_STATE_A), to: SUB_STATE_B },
            event: FsmTableEvent::Event(0),
            has_guard: false,
        },
    ];
    let state = FsmTableState { region: 0, sub_machine: false, sub_event_kind: 0, timers: Vec::new() };
    FsmTable { regions: vec![FsmTableRegion { transitions }], states: vec![state.clone(), state], timers: Vec::new() }
}

const STATE_A: usize = 0;
const SUB_MACHINE: usize = 1;
const EVENT: usize = 0;
const SUB_EVENTS: usize = 1;

#[derive(Debug, Clone)]
pub enum Events {
    Event(Event),
    Sub(SubEvent),
}

pub struct MainContext<X, Y: Add<isize, Output = Y> + Copy> {
    field: X,
    state_a_value: usize,
    sub: FsmBackendImpl<SubStateMachine<Y>>,
}

pub struct StateMachine<X, Y: Add<isize, Output = Y> + Copy> {
    _ctx: PhantomData<(X, Y)>,
}

impl<X: Add<usize, Output = X> + Copy, Y: Add<isize, Output = Y> + Copy> FsmBackend for StateMachine<X, Y> {
    type Context = MainContext<X, Y>;
    type Events = Events;

    fn event_kind(event: &Events) -> usize {
        match event {
            Events::Event(_) => EVENT,
            Events::Sub(_) => SUB_EVENTS,
        }
    }
    fn guard(_t: usize, _event: &FsmEvent<Events, usize>, _context: &MainContext<X, Y>) -> bool {
        true
    }
    fn action(t: usize, _event: &FsmEvent<Events, usize>, context: &mut MainContext<X, Y>) -> Vec<Events> {
        if t == 2 {
            context.state_a_value += 1;
        }
        Vec::new()
    }
    fn on_entry(state: usize, context: &mut MainContext<X, Y>) -> Vec<Events> {
        if state == SUB_MACHINE {
            context.field = context.field + 1;
        }
        Vec::new()
    }
    fn on_exit(state: usize, context: &mut MainContext<X, Y>) -> Vec<Events> {
        if state == SUB_MACHINE {
            context.field = context.field + 1;
        }
        Vec::new()
    }
    fn timer_setup(_timer: usize, _context: &mut MainContext<X, Y>) -> TimerFsmSettings {
        TimerFsmSettings::default()
    }
    fn timer_trigger(_timer: usize, _context: &MainContext<X, Y>) -> Option<Events> {
        None
    }
    fn sub_dispatch(_s: usize, event: &FsmEvent<Events, usize>, context: &mut MainContext<X, Y>) -> (FsmResult<()>, Vec<Events>) {
        match event {
            FsmEvent::Event(Events::Sub(e)) => {
                let (res, out) =
                    dispatch_to_submachine(&mut context.sub, &mut FsmTimersNull, &InspectNull, &FsmEvent::Event(e.clone()));
                (res, out.into_iter().map(Events::Sub).collect())
            }
            _ => (Err(FsmError::NoTransition), Vec::new()),
        }
    }
    fn sub_entry(_s: usize, context: &mut MainContext<X, Y>) -> Vec<Events> {
        let (_, out) = start_sub_machine(&mut context.sub, &mut FsmTimersNull, &InspectNull);
        out.into_iter().map(Events::Sub).collect()
    }
}

fn main_table() -> FsmTable {
    let transitions = vec![
        FsmTableTransition {
            id: 0,
            ty: FsmTableTransitionType::StateTransition { from: FsmCurrentState::Stopped, to: STATE_A },
            event: FsmTableEvent::Start,
            has_guard: false,
        },
        FsmTableTransition {
            id: 1,
            ty: FsmTableTransitionType::StateTransition { from: FsmCurrentState::State(STATE_A), to: SUB_MACHINE },
            event: FsmTableEvent::Event(EVENT),
            has_guard: false,
        },
        FsmTableTransition {
            id: 2,
            ty: FsmTableTransitionType::StateTransition { from: FsmCurrentState::State(SUB_MACHINE), to: STATE_A },
            event: FsmTableEvent::Event(EVENT),
            has_guard: false,
        },
    ];
    let state_a = FsmTableState { region: 0, sub_machine: false, sub_event_kind: 0, timers: Vec::new() };
    let sub = FsmTableState { region: 0, sub_machine: true, sub_event_kind: SUB_EVENTS, timers: Vec::new() };
    FsmTable { regions: vec![FsmTableRegion { transitions }], states: vec![state_a, sub], timers: Vec::new() }
}

#[test]
fn test_sub_generics() -> FsmResult<()> {
    let sub = FsmBackendImpl::new(sub_table(), SubContext { f2: -10isize, sub_state_a_value: 0 })?;
    let ctx = MainContext { field: 0usize, state_a_value: 0, sub };
    let mut fsm = FsmFrontend::<StateMachine<usize, isize>, _, _, _>::new(main_table(), ctx)?;

    fsm.start()?;
    assert_eq!(FsmCurrentState::State(STATE_A), fsm.backend.get_current_states()[0]);
    assert_eq!(-10, fsm.backend.get_context().sub.get_context().f2);
    Ok(())
}

#[test]
fn sub_machine_with_generic_contexts_round_trip() -> FsmResult<()> {
    let sub = FsmBackendImpl::new(sub_table(), SubContext { f2: 0isize, sub_state_a_value: 0 })?;
    let ctx = MainContext { field: 0usize, state_a_value: 0, sub };
    let mut fsm = FsmFrontend::<StateMachine<usize, isize>, _, _, _>::new(main_table(), ctx)?;
    fsm.start()?;
    fsm.dispatch(Events::Event(Event))?;
    assert_eq!(FsmCurrentState::State(SUB_MACHINE), fsm.backend.get_current_states()[0]);
    assert_eq!(1, fsm.backend.get_context().field);
    assert_eq!(FsmCurrentState::State(SUB_STATE_A), fsm.backend.get_context().sub.get_current_states()[0]);
    assert_eq!(1, fsm.backend.get_context().sub.get_context().sub_state_a_value);
    fsm.dispatch(Events::Sub(SubEvent))?;
    assert_eq!(FsmCurrentState::State(SUB_STATE_B), fsm.backend.get_context().sub.get_current_states()[0]);
    fsm.dispatch(Events::Event(Event))?;
    assert_eq!(FsmCurrentState::State(STATE_A), fsm.backend.get_current_states()[0]);
    assert_eq!(2, fsm.backend.get_context().field);
    assert_eq!(1, fsm.backend.get_context().state_a_value);
    Ok(())
}
