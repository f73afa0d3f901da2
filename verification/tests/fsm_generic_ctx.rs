use finny::fsm::dispatch::FsmBackend;
use finny::fsm::events::FsmEvent;
use finny::fsm::frontend::FsmFrontend;
use finny::fsm::states::FsmCurrentState;
use finny::fsm::table::{
    FsmTable, FsmTableEvent, FsmTableRegion, FsmTableState, FsmTableTransition,
    FsmTableTransitionType,
};
use finny::fsm::timers::TimerFsmSettings;
use finny::fsm::FsmResult;
use std::marker::PhantomData;
use std::ops::AddAssign;

pub struct Ctx<'a, T> {
    ref_str: &'a str,
    val: T,
}

#[derive(Clone)]
pub struct Event;

pub struct StateMachine<'a, TT> {
    _ctx: PhantomData<Ctx<'a, TT>>,
}

const STATE_A: usize = 0;
const STATE_B: usize = 1;

impl<'a, TT: AddAssign<usize> + PartialOrd<usize>> FsmBackend for StateMachine<'a, TT> {
    type Context = Ctx<'a, TT>;
    type Events = Event;

    fn event_kind(_event: &Event) -> usize {
        0
    }
    fn guard(_t: usize, _event: &FsmEvent<Event, usize>, context: &Ctx<'a, TT>) -> bool {
        context.val > 100
    }
    fn action(_t: usize, _event: &FsmEvent<Event, usize>, context: &mut Ctx<'a, TT>) -> Vec<Event> {
        context.val += 100;
        Vec::new()
    }
    fn on_entry(state: usize, context: &mut Ctx<'a, TT>) -> Vec<Event> {
        if state == STATE_A {
            context.val += 1;
        }
        Vec::new()
    }
    fn on_exit(_state: usize, _context: &mut Ctx<'a, TT>) -> Vec<Event> {
        Vec::new()
    }
    fn timer_setup(_timer: usize, _context: &mut Ctx<'a, TT>) -> TimerFsmSettings {
        TimerFsmSettings::default()
    }
    fn timer_trigger(_timer: usize, _context: &Ctx<'a, TT>) -> Option<Event> {
        None
    }
    fn sub_dispatch(_s: usize, _e: &FsmEvent<Event, usize>, _c: &mut Ctx<'a, TT>) -> (FsmResult<()>, Vec<Event>) {
        (Ok(()), Vec::new())
    }
    fn sub_entry(_s: usize, _c: &mut Ctx<'a, TT>) -> Vec<Event> {
        Vec::new()
    }
}

fn table() -> FsmTable {
    let transitions = vec![
        FsmTableTransition {
            id: 0,
            ty: FsmTableTransitionType::StateTransition { from: FsmCurrentState::Stopped, to: STATE_A },
            event: FsmTableEvent::Start,
            has_guard: false,
        },
        FsmTableTransition {
            id: 1,
            ty: FsmTableTransitionType::StateTransition { from: FsmCurrentState::State(STATE_A), to: STATE_B },
            event: FsmTableEvent::Event(0),
            has_guard: true,
        },
    ];
    let state = FsmTableState { region: 0, sub_machine: false, sub_event_kind: 0, timers: Vec::new() };
    FsmTable { regions: vec![FsmTableRegion { transitions }], states: vec![state.clone(), state], timers: Vec::new() }
}

#[test]
fn test_generic_ctx() -> FsmResult<()> {
    let some_str = "hello!";
    let ctx = Ctx { val: 123usize, ref_str: &some_str };

    let mut fsm = FsmFrontend::<StateMachine<usize>, _, _, _>::new(table(), ctx)?;
    assert_eq!(123, fsm.backend.get_context().val);
    assert_eq!("hello!", fsm.backend.get_context().ref_str);

    fsm.start()?;

    assert_eq!(124, fsm.backend.get_context().val);

    fsm.dispatch(Event)?;

    assert_eq!(224, fsm.backend.get_context().val);

    Ok(())
}
