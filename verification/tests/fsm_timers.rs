use finny::fsm::dispatch::FsmBackend;
use finny::fsm::events::FsmEvent;
use finny::fsm::frontend::FsmFrontend;
use finny::fsm::inspect::InspectNull;
use finny::fsm::queue::FsmEventQueueVec;
use finny::fsm::states::FsmCurrentState;
use finny::fsm::table::{
    FsmTable, FsmTableEvent, FsmTableRegion, FsmTableState, FsmTableTimer, FsmTableTransition,
    FsmTableTransitionType,
};
use finny::fsm::timers::TimerFsmSettings;
use finny::fsm::FsmResult;
use finny::timers::TimersStd;
use std::time::Duration;

#[derive(Debug, Clone)]
pub enum Events {
    EventClick,
    EventTimer,
}

#[derive(Debug, Default)]
pub struct TimersMachineContext {
    state_a_timers: usize,
}

const STATE_A: usize = 0;
const STATE_B: usize = 1;
const TIMER: usize = 0;

pub struct TimersMachine;

impl FsmBackend for TimersMachine {
    type Context = TimersMachineContext;
    type Events = Events;

    fn event_kind(event: &Events) -> usize {
        match event {
            Events::EventClick => 0,
            Events::EventTimer => 1,
        }
    }
    fn guard(t: usize, _event: &FsmEvent<Events, usize>, context: &TimersMachineContext) -> bool {
        t != 1 || context.state_a_timers > 5
    }
    fn action(t: usize, _event: &FsmEvent<Events, usize>, context: &mut TimersMachineContext) -> Vec<Events> {
        if t == 2 {
            context.state_a_timers += 1;
        }
        Vec::new()
    }
    fn on_entry(_state: usize, _context: &mut TimersMachineContext) -> Vec<Events> {
        Vec::new()
    }
    fn on_exit(state: usize, context: &mut TimersMachineContext) -> Vec<Events> {
        if state == STATE_A {
            context.state_a_timers = 0;
        }
        Vec::new()
    }
    fn timer_setup(_timer: usize, _context: &mut TimersMachineContext) -> TimerFsmSettings {
        let mut timer = TimerFsmSettings::default();
        timer.timeout = Duration::from_millis(100);
        timer.renew = true;
        timer
    }
    fn timer_trigger(_timer: usize, _context: &TimersMachineContext) -> Option<Events> {
        Some(Events::EventTimer)
    }
    fn sub_dispatch(_s: usize, _e: &FsmEvent<Events, usize>, _c: &mut TimersMachineContext) -> (FsmResult<()>, Vec<Events>) {
        (Ok(()), Vec::new())
    }
    fn sub_entry(_s: usize, _c: &mut TimersMachineContext) -> Vec<Events> {
        Vec::new()
    }
}

fn table() -> FsmTable {
    let transitions = vec![
        FsmTableTransition {
            id: 0,
            ty: FsmTableTransitionType::StateTransition { from: FsmCurrentState::Stopped, to: STATE_A },
            event: FsmTableEvent::Start,
            has_guard: false,
        },
        FsmTableTransition {
            id: 1,
            ty: FsmTableTransitionType::StateTransition { from: FsmCurrentState::State(STATE_A), to: STATE_B },
            event: FsmTableEvent::Event(0),
            has_guard: true,
        },
        FsmTableTransition {
            id: 2,
            ty: FsmTableTransitionType::InternalTransition { state: STATE_A },
            event: FsmTableEvent::Event(1),
            has_guard: false,
        },
    ];
    FsmTable {
        regions: vec![FsmTableRegion { transitions }],
        states: vec![
            FsmTableState { region: 0, sub_machine: false, sub_event_kind: 0, timers: vec![TIMER] },
            FsmTableState { region: 0, sub_machine: false, sub_event_kind: 0, timers: Vec::new() },
        ],
        timers: vec![FsmTableTimer { state: STATE_A, sub_timer: None }],
    }
}

#[test]
fn test_timers_fsm() -> FsmResult<()> {
    let ctx = TimersMachineContext::default();

    let mut fsm: FsmFrontend<TimersMachine, FsmEventQueueVec<Events>, InspectNull, TimersStd> =
        FsmFrontend::new_with(table(), ctx, FsmEventQueueVec::new(), InspectNull::new(), TimersStd::new())?;

    fsm.start()?;
    assert_eq!(FsmCurrentState::State(STATE_A), fsm.backend.get_current_states()[0]);
    // the state's timer was started, with the settings of its setup
    let timer = fsm.backend.get_timer_instance(TIMER).unwrap();
    assert_eq!(TIMER, timer.id);
    assert!(timer.settings.renew);
    assert_eq!(Duration::from_millis(100), timer.settings.timeout);
    // a fired timer enqueues its event, which the state counts
    fsm.dispatch_single_event(FsmEvent::Timer(TIMER))?;
    fsm.dispatch_queue()?;
    assert_eq!(1, fsm.backend.get_context().state_a_timers);
    Ok(())
}
