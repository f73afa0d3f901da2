use finny::fsm::dispatch::FsmBackend;
use finny::fsm::events::FsmEvent;
use finny::fsm::frontend::FsmFrontend;
use finny::fsm::states::FsmCurrentState;
use finny::fsm::table::{
    FsmTable, FsmTableEvent, FsmTableRegion, FsmTableState, FsmTableTransition,
    FsmTableTransitionType,
};
use finny::fsm::timers::TimerFsmSettings;
use finny::fsm::FsmResult;

#[derive(Debug, Clone)]
pub struct Event {
    n: usize,
}

#[derive(Debug, Default)]
pub struct Context {
    state_b_value: usize,
}

const STATE_A: usize = 0;
const STATE_B: usize = 1;

pub struct StateMachine;

impl FsmBackend for StateMachine {
    type Context = Context;
    type Events = Event;

    fn event_kind(_event: &Event) -> usize {
        0
    }
    fn guard(t: usize, event: &FsmEvent<Event, usize>, _context: &Context) -> bool {
        match (t, event) {
            // emit events with added counts
            (1, FsmEvent::Event(ev)) => ev.n < 100,
            // transition to state B if the event's payload is at least 100
            (2, FsmEvent::Event(ev)) => ev.n >= 100,
            _ => true,
        }
    }
    fn action(t: usize, event: &FsmEvent<Event, usize>, _context: &mut Context) -> Vec<Event> {
        match (t, event) {
            (1, FsmEvent::Event(ev)) => vec![Event { n: ev.n + 100 }],
            _ => Vec::new(),
        }
    }
    fn on_entry(state: usize, context: &mut Context) -> Vec<Event> {
        if state == STATE_B {
            context.state_b_value += 1;
        }
        Vec::new()
    }
    fn on_exit(_state: usize, _context: &mut Context) -> Vec<Event> {
        Vec::new()
    }
    fn timer_setup(_timer: usize, _context: &mut Context) -> TimerFsmSettings {
        TimerFsmSettings::default()
    }
    fn timer_trigger(_timer: usize, _context: &Context) -> Option<Event> {
        None
    }
    fn sub_dispatch(_s: usize, _e: &FsmEvent<Event, usize>, _c: &mut Context) -> (FsmResult<()>, Vec<Event>) {
        (Ok(()), Vec::new())
    }
    fn sub_entry(_s: usize, _c: &mut Context) -> Vec<Event> {
        Vec::new()
    }
}

fn table() -> FsmTable {
    let transitions = vec![
        FsmTableTransition {
            id: 0,
            ty: FsmTableTransitionType::StateTransition { from: FsmCurrentState::Stopped, to: STATE_A },
            event: FsmTableEvent::Start,
            has_guard: false,
        },
        FsmTableTransition {
            id: 1,
            ty: FsmTableTransitionType::InternalTransition { state: STATE_A },
            event: FsmTableEvent::Event(0),
            has_guard: true,
        },
        FsmTableTransition {
            id: 2,
            ty: FsmTableTransitionType::StateTransition { from: FsmCurrentState::State(STATE_A), to: STATE_B },
            event: FsmTableEvent::Event(0),
            has_guard: true,
        },
    ];
    let state = FsmTableState { region: 0, sub_machine: false, sub_event_kind: 0, timers: Vec::new() };
    FsmTable { regions: vec![FsmTableRegion { transitions }], states: vec![state.clone(), state], timers: Vec::new() }
}

#[test]
fn test_queues() -> FsmResult<()> {
    let mut fsm = FsmFrontend::<StateMachine, _, _, _>::new(table(), Context::default())?;

    fsm.start()?;
    fsm.dispatch(Event { n: 42 })?;

    assert_eq!(FsmCurrentState::State(STATE_B), fsm.backend.get_current_states()[0]);
    assert_eq!(1, fsm.backend.get_context().state_b_value);

    Ok(())
}
