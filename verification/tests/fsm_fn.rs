use finny::fsm::dispatch::FsmBackend;
use finny::fsm::events::FsmEvent;
use finny::fsm::frontend::FsmFrontend;
use finny::fsm::fsm_impl::FsmBackendImpl;
use finny::fsm::inspect::{Inspect, InspectEvent, InspectFsmEvent, InspectNull};
use std::cell::RefCell;
use std::rc::Rc;
use finny::fsm::queue::FsmEventQueueVec;
use finny::fsm::states::FsmCurrentState;
use finny::fsm::table::{
    FsmTable, FsmTableEvent, FsmTableRegion, FsmTableState, FsmTableTransition,
    FsmTableTransitionType,
};
use finny::fsm::timers::{FsmTimersNull, TimerFsmSettings};
use finny::fsm::{FsmError, FsmResult};

#[derive(Debug, Default)]
pub struct StateA {
    enter: usize,
    exit: usize,
}

#[derive(Debug, Default)]
pub struct StateB {
    counter: usize,
}

#[derive(Debug)]
pub struct StateMachineContext {
    count: usize,
    total_time: usize,
    state_a: StateA,
    state_b: StateB,
}

#[derive(Clone, Debug)]
pub struct EventClick {
    time: usize,
}

#[derive(Clone, Debug)]
pub struct EventEnter {
    shift: bool,
}

#[derive(Clone, Debug)]
pub enum Events {
    EventClick(EventClick),
    EventEnter(EventEnter),
}

const STATE_A: usize = 0;
const STATE_B: usize = 1;
const EVENT_CLICK: usize = 0;
const EVENT_ENTER: usize = 1;

pub struct StateMachine;

impl FsmBackend for StateMachine {
    type Context = StateMachineContext;
    type Events = Events;

    fn event_kind(event: &Events) -> usize {
        match event {
            Events::EventClick(_) => EVENT_CLICK,
            Events::EventEnter(_) => EVENT_ENTER,
        }
    }

    fn guard(transition: usize, event: &FsmEvent<Events, usize>, context: &StateMachineContext) -> bool {
        match (transition, event) {
            (1, FsmEvent::Event(Events::EventClick(ev))) => ev.time > 100 && context.state_a.enter == 1,
            (2, FsmEvent::Event(Events::EventEnter(ev))) => ev.shift == false,
            _ => true,
        }
    }

    fn action(transition: usize, event: &FsmEvent<Events, usize>, context: &mut StateMachineContext) -> Vec<Events> {
        match (transition, event) {
            (1, FsmEvent::Event(Events::EventClick(ev))) => context.total_time += ev.time,
            (2, _) => context.state_b.counter += 1,
            _ => {}
        }
        Vec::new()
    }

    fn on_entry(state: usize, context: &mut StateMachineContext) -> Vec<Events> {
        if state == STATE_A {
            context.count += 1;
            context.state_a.enter += 1;
        } else if state == STATE_B {
            context.state_b.counter += 1;
        }
        Vec::new()
    }

    fn on_exit(state: usize, context: &mut StateMachineContext) -> Vec<Events> {
        if state == STATE_A {
            context.count += 1;
            context.state_a.exit += 1;
        }
        Vec::new()
    }

    fn timer_setup(_timer: usize, _context: &mut StateMachineContext) -> TimerFsmSettings {
        TimerFsmSettings::default()
    }

    fn timer_trigger(_timer: usize, _context: &StateMachineContext) -> Option<Events> {
        None
    }

    fn sub_dispatch(_state: usize, _event: &FsmEvent<Events, usize>, _context: &mut StateMachineContext) -> (FsmResult<()>, Vec<Events>) {
        (Ok(()), Vec::new())
    }

    fn sub_entry(_state: usize, _context: &mut StateMachineContext) -> Vec<Events> {
        Vec::new()
    }
}

fn state(region: usize) -> FsmTableState {
    FsmTableState { region, sub_machine: false, sub_event_kind: 0, timers: Vec::new() }
}

/// A starts the machine; a click of more than 100 moves it from A to B; an enter without
/// shift is an internal transition of B.
fn table() -> FsmTable {
    let transitions = vec![
        FsmTableTransition {
            id: 0,
            ty: FsmTableTransitionType::StateTransition { from: FsmCurrentState::Stopped, to: STATE_A },
            event: FsmTableEvent::Start,
            has_guard: false,
        },
        FsmTableTransition {
            id: 1,
            ty: FsmTableTransitionType::StateTransition { from: FsmCurrentState::State(STATE_A), to: STATE_B },
            event: FsmTableEvent::Event(EVENT_CLICK),
            has_guard: true,
        },
        FsmTableTransition {
            id: 2,
            ty: FsmTableTransitionType::InternalTransition { state: STATE_B },
            event: FsmTableEvent::Event(EVENT_ENTER),
            has_guard: true,
        },
    ];
    FsmTable {
        regions: vec![FsmTableRegion { transitions }],
        states: vec![state(0), state(0), state(0)],
        timers: Vec::new(),
    }
}

#[test]
fn test_fsm() -> FsmResult<()> {
    let ctx = StateMachineContext { count: 0, total_time: 0, state_a: StateA::default(), state_b: StateB::default() };

    let mut fsm: FsmFrontend<StateMachine, FsmEventQueueVec<Events>, InspectNull, FsmTimersNull> =
        FsmFrontend::new_with(table(), ctx, FsmEventQueueVec::new(), InspectNull::new(), FsmTimersNull)?;

    let current_state = fsm.backend.get_current_states()[0];
    assert_eq!(0, fsm.backend.get_context().state_a.enter);
    assert_eq!(FsmCurrentState::Stopped, current_state);
    assert_eq!(0, fsm.backend.get_context().count);

    fsm.start()?;

    assert_eq!(FsmCurrentState::State(STATE_A), fsm.backend.get_current_states()[0]);
    assert_eq!(1, fsm.backend.get_context().count);
    assert_eq!(1, fsm.backend.get_context().state_a.enter);

    let ret = fsm.dispatch(Events::EventClick(EventClick { time: 99 }));
    assert_eq!(Err(FsmError::NoTransition), ret);

    fsm.dispatch(Events::EventClick(EventClick { time: 123 }))?;

    assert_eq!(2, fsm.backend.get_context().count);
    assert_eq!(123, fsm.backend.get_context().total_time);

    assert_eq!(1, fsm.backend.get_context().state_b.counter);

    let ret = fsm.dispatch(Events::EventEnter(EventEnter { shift: true }));
    assert_eq!(Err(FsmError::NoTransition), ret);

    fsm.dispatch(Events::EventEnter(EventEnter { shift: false }))?;
    assert_eq!(2, fsm.backend.get_context().state_b.counter);

    Ok(())
}

/// Records what it is told, in order.
#[derive(Clone, Default)]
pub struct Recorder {
    log: Rc<RefCell<Vec<String>>>,
}

impl Recorder {
    fn push(&self, s: String) {
        self.log.borrow_mut().push(s);
    }
}

impl InspectEvent for Recorder {
    fn on_event<S: Clone>(&self, event: &InspectFsmEvent<S>) {
        match event {
            InspectFsmEvent::StateEnter(_) => self.push("event enter".to_string()),
            InspectFsmEvent::StateExit(_) => self.push("event exit".to_string()),
        }
    }
}

impl Inspect for Recorder {
    fn new_event<F: FsmBackend>(&self, _event: &FsmEvent<F::Events, usize>, _fsm: &FsmBackendImpl<F>) -> Self {
        self.push("new event".to_string());
        self.clone()
    }
    fn event_done<F: FsmBackend>(self, _fsm: &FsmBackendImpl<F>) {
        self.push("done".to_string());
    }
    fn for_transition(&self, transition: usize) -> Self {
        self.push(format!("transition {}", transition));
        self.clone()
    }
    fn for_sub_machine(&self, state: usize) -> Self {
        self.push(format!("sub {}", state));
        self.clone()
    }
    fn for_timer(&self, timer_id: usize) -> Self {
        self.push(format!("timer {}", timer_id));
        self.clone()
    }
    fn on_guard(&self, transition: usize, guard_result: bool) {
        self.push(format!("guard {} {}", transition, guard_result));
    }
    fn on_state_enter(&self, state: usize) {
        self.push(format!("enter {}", state));
    }
    fn on_state_exit(&self, state: usize) {
        self.push(format!("exit {}", state));
    }
    fn on_action(&self, transition: usize) {
        self.push(format!("action {}", transition));
    }
    fn on_error<E>(&self, msg: &str, _error: &E) {
        self.push(format!("error {}", msg));
    }
    fn info(&self, msg: &str) {
        self.push(format!("info {}", msg));
    }
}

#[test]
fn inspector_is_told_of_the_dispatch() -> FsmResult<()> {
    let ctx = StateMachineContext { count: 0, total_time: 0, state_a: StateA::default(), state_b: StateB::default() };
    let recorder = Recorder::default();
    let mut fsm: FsmFrontend<StateMachine, FsmEventQueueVec<Events>, Recorder, FsmTimersNull> =
        FsmFrontend::new_with(table(), ctx, FsmEventQueueVec::new(), recorder.clone(), FsmTimersNull)?;
    fsm.start()?;
    assert_eq!(
        vec!["new event", "transition 0", "enter 0", "event enter", "done"],
        recorder.log.borrow().clone()
    );
    recorder.log.borrow_mut().clear();
    let _ = fsm.dispatch(Events::EventClick(EventClick { time: 99 }));
    assert_eq!(vec!["new event", "guard 1 false", "error dispatch failed", "done"], recorder.log.borrow().clone());
    recorder.log.borrow_mut().clear();
    fsm.dispatch(Events::EventClick(EventClick { time: 123 }))?;
    assert_eq!(
        vec!["new event", "guard 1 true", "transition 1", "exit 0", "event exit", "action 1", "enter 1", "event enter", "done"],
        recorder.log.borrow().clone()
    );
    Ok(())
}

#[test]
fn frontend_with_defaults() -> FsmResult<()> {
    let ctx = StateMachineContext { count: 0, total_time: 0, state_a: StateA::default(), state_b: StateB::default() };
    let mut fsm = FsmFrontend::<StateMachine, _, _, _>::new(table(), ctx)?;
    fsm.start()?;
    assert_eq!(FsmCurrentState::State(STATE_A), fsm.backend.get_current_states()[0]);
    Ok(())
}
