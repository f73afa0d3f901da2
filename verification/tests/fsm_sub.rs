use finny::fsm::dispatch::FsmBackend;
use finny::fsm::events::FsmEvent;
use finny::fsm::frontend::FsmFrontend;
use finny::fsm::fsm_impl::{FsmBackendImpl, dispatch_to_submachine, start_sub_machine};
use finny::fsm::inspect::InspectNull;
use finny::fsm::states::FsmCurrentState;
use finny::fsm::table::{
    FsmTable, FsmTableEvent, FsmTableRegion, FsmTableState, FsmTableTransition,
    FsmTableTransitionType,
};
use finny::fsm::timers::{FsmTimersNull, TimerFsmSettings};
use finny::fsm::{FsmError, FsmResult};

fn state(sub_machine: bool, sub_event_kind: usize) -> FsmTableState {
    FsmTableState { region: 0, sub_machine, sub_event_kind, timers: Vec::new() }
}

fn transition(id: usize, ty: FsmTableTransitionType, event: FsmTableEvent, has_guard: bool) -> FsmTableTransition {
    FsmTableTransition { id, ty, event, has_guard }
}

// The sub-machine: SubStateA, entered on start, counts its entries; SubEvent moves it to
// SubStateB and counts once more in SubStateA.

const SUB_STATE_A: usize = 0;
const SUB_STATE_B: usize = 1;

#[derive(Debug, Clone)]
pub struct SubEvent;

#[derive(Debug, Default)]
pub struct SubContext {
    state_a_value: usize,
}

pub struct SubStateMachine;

impl FsmBackend for SubStateMachine {
    type Context = SubContext;
    type Events = SubEvent;

    fn event_kind(_event: &SubEvent) -> usize {
        0
    }
    fn guard(_t: usize, _event: &FsmEvent<SubEvent, usize>, _context: &SubContext) -> bool {
        true
    }
    fn action(t: usize, _event: &FsmEvent<SubEvent, usize>, context: &mut SubContext) -> Vec<SubEvent> {
        if t == 1 {
            context.state_a_value += 1;
        }
        Vec::new()
    }
    fn on_entry(state: usize, context: &mut SubContext) -> Vec<SubEvent> {
        if state == SUB_STATE_A {
            context.state_a_value += 1;
        }
        Vec::new()
    }
    fn on_exit(_state: usize, _context: &mut SubContext) -> Vec<SubEvent> {
        Vec::new()
    }
    fn timer_setup(_timer: usize, _context: &mut SubContext) -> TimerFsmSettings {
        TimerFsmSettings::default()
    }
    fn timer_trigger(_timer: usize, _context: &SubContext) -> Option<SubEvent> {
        None
    }
    fn sub_dispatch(_s: usize, _e: &FsmEvent<SubEvent, usize>, _c: &mut SubContext) -> (FsmResult<()>, Vec<SubEvent>) {
        (Ok(()), Vec::new())
    }
    fn sub_entry(_s: usize, _c: &mut SubContext) -> Vec<SubEvent> {
        Vec::new()
    }
}

fn sub_table() -> FsmTable {
    FsmTable {
        regions: vec![FsmTableRegion {
            transitions: vec![
                transition(
                    0,
                    FsmTableTransitionType::StateTransition { from: FsmCurrentState::Stopped, to: SUB_STATE_A },
                    FsmTableEvent::Start,
                    false,
                ),
                transition(
                    1,
                    FsmTableTransitionType::StateTransition { from: FsmCurrentState::State(SUB_STATE_A), to: SUB_STATE_B },
                    FsmTableEvent::Event(0),
                    false,
                ),
            ],
        }],
        states: vec![state(false, 0), state(false, 0)],
        timers: Vec::new(),
    }
}

// The main machine: Event moves StateA into the sub-machine and back, counting in StateA;
// EventSub with a positive number is a self transition of the sub-machine state; the
// sub-machine's own events are forwarded to it.

const STATE_A: usize = 0;
const SUB_MACHINE: usize = 1;
const EVENT: usize = 0;
const EVENT_SUB: usize = 1;
const SUB_EVENTS: usize = 2;

#[derive(Debug, Clone)]
pub struct Event;

#[derive(Debug, Clone)]
pub struct EventSub {
    n: usize,
}

#[derive(Debug, Clone)]
pub enum Events {
    Event(Event),
    EventSub(EventSub),
    Sub(SubEvent),
}

pub struct MainContext {
    sub_enter: usize,
    sub_exit: usize,
    sub_action: usize,
    state_a_value: usize,
    sub: FsmBackendImpl<SubStateMachine>,
}

pub struct StateMachine;

impl FsmBackend for StateMachine {
    type Context = MainContext;
    type Events = Events;

    fn event_kind(event: &Events) -> usize {
        match event {
            Events::Event(_) => EVENT,
            Events::EventSub(_) => EVENT_SUB,
            Events::Sub(_) => SUB_EVENTS,
        }
    }
    fn guard(t: usize, event: &FsmEvent<Events, usize>, _context: &MainContext) -> bool {
        match (t, event) {
            (3, FsmEvent::Event(Events::EventSub(ev))) => ev.n > 0,
            _ => true,
        }
    }
    fn action(t: usize, _event: &FsmEvent<Events, usize>, context: &mut MainContext) -> Vec<Events> {
        if t == 2 {
            context.state_a_value += 1;
        } else if t == 3 {
            context.sub_action += 1;
        }
        Vec::new()
    }
    fn on_entry(_state: usize, _context: &mut MainContext) -> Vec<Events> {
        Vec::new()
    }
    fn on_exit(_state: usize, _context: &mut MainContext) -> Vec<Events> {
        Vec::new()
    }
    fn timer_setup(_timer: usize, _context: &mut MainContext) -> TimerFsmSettings {
        TimerFsmSettings::default()
    }
    fn timer_trigger(_timer: usize, _context: &MainContext) -> Option<Events> {
        None
    }
    fn sub_dispatch(_s: usize, event: &FsmEvent<Events, usize>, context: &mut MainContext) -> (FsmResult<()>, Vec<Events>) {
        match event {
            FsmEvent::Event(Events::Sub(e)) => {
                let (res, out) =
                    dispatch_to_submachine(&mut context.sub, &mut FsmTimersNull, &InspectNull, &FsmEvent::Event(e.clone()));
                (res, out.into_iter().map(Events::Sub).collect())
            }
            _ => (Err(FsmError::NoTransition), Vec::new()),
        }
    }
    fn sub_entry(_s: usize, context: &mut MainContext) -> Vec<Events> {
        let (_, out) = start_sub_machine(&mut context.sub, &mut FsmTimersNull, &InspectNull);
        out.into_iter().map(Events::Sub).collect()
    }
}

fn main_table() -> FsmTable {
    FsmTable {
        regions: vec![FsmTableRegion {
            transitions: vec![
                transition(
                    0,
                    FsmTableTransitionType::StateTransition { from: FsmCurrentState::Stopped, to: STATE_A },
                    FsmTableEvent::Start,
                    false,
                ),
                transition(
                    1,
                    FsmTableTransitionType::StateTransition { from: FsmCurrentState::State(STATE_A), to: SUB_MACHINE },
                    FsmTableEvent::Event(EVENT),
                    false,
                ),
                transition(
                    2,
                    FsmTableTransitionType::StateTransition { from: FsmCurrentState::State(SUB_MACHINE), to: STATE_A },
                    FsmTableEvent::Event(EVENT),
                    false,
                ),
                transition(3, FsmTableTransitionType::SelfTransition { state: SUB_MACHINE }, FsmTableEvent::Event(EVENT_SUB), true),
            ],
        }],
        states: vec![state(false, 0), state(true, SUB_EVENTS)],
        timers: Vec::new(),
    }
}

#[test]
fn test_sub() -> FsmResult<()> {
    let ctx = MainContext {
        sub_enter: 0,
        sub_exit: 0,
        sub_action: 0,
        state_a_value: 0,
        sub: FsmBackendImpl::new(sub_table(), SubContext::default())?,
    };
    let mut fsm = FsmFrontend::<StateMachine, _, _, _>::new(main_table(), ctx)?;

    fsm.start()?;
    assert_eq!(FsmCurrentState::State(STATE_A), fsm.backend.get_current_states()[0]);

    fsm.dispatch(Events::Event(Event))?;

    assert_eq!(FsmCurrentState::State(SUB_MACHINE), fsm.backend.get_current_states()[0]);
    let sub = &fsm.backend.get_context().sub;
    assert_eq!(FsmCurrentState::State(SUB_STATE_A), sub.get_current_states()[0]);
    assert_eq!(1, sub.get_context().state_a_value);

    fsm.dispatch(Events::Sub(SubEvent))?;

    assert_eq!(FsmCurrentState::State(SUB_MACHINE), fsm.backend.get_current_states()[0]);
    let sub = &fsm.backend.get_context().sub;
    assert_eq!(FsmCurrentState::State(SUB_STATE_B), sub.get_current_states()[0]);
    assert_eq!(2, sub.get_context().state_a_value);

    let res = fsm.dispatch(Events::EventSub(EventSub { n: 0 }));
    assert_eq!(Err(FsmError::NoTransition), res);
    assert_eq!(0, fsm.backend.get_context().sub_enter);
    assert_eq!(0, fsm.backend.get_context().sub_exit);
    assert_eq!(0, fsm.backend.get_context().sub_action);

    fsm.dispatch(Events::EventSub(EventSub { n: 1 }))?;
    assert_eq!(0, fsm.backend.get_context().sub_enter);
    assert_eq!(0, fsm.backend.get_context().sub_exit);
    assert_eq!(1, fsm.backend.get_context().sub_action);

    fsm.dispatch(Events::Event(Event))?;
    assert_eq!(FsmCurrentState::State(STATE_A), fsm.backend.get_current_states()[0]);
    assert_eq!(1, fsm.backend.get_context().state_a_value);

    Ok(())
}

#[test]
fn sub_machine_started_only_when_stopped() -> FsmResult<()> {
    let mut sub: FsmBackendImpl<SubStateMachine> = FsmBackendImpl::new(sub_table(), SubContext::default())?;
    let (res, out) = start_sub_machine(&mut sub, &mut FsmTimersNull, &InspectNull);
    assert_eq!(Ok(()), res);
    assert!(out.is_empty());
    assert_eq!(FsmCurrentState::State(SUB_STATE_A), sub.get_current_states()[0]);
    assert_eq!(1, sub.get_context().state_a_value);
    let (res, _) = start_sub_machine(&mut sub, &mut FsmTimersNull, &InspectNull);
    assert_eq!(Ok(()), res);
    assert_eq!(1, sub.get_context().state_a_value);
    let (res, _) = dispatch_to_submachine(&mut sub, &mut FsmTimersNull, &InspectNull, &FsmEvent::Event(SubEvent));
    assert_eq!(Ok(()), res);
    assert_eq!(FsmCurrentState::State(SUB_STATE_B), sub.get_current_states()[0]);
    Ok(())
}
