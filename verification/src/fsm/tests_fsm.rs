//! A minimal machine for unit tests, written by hand: one region with one state, started by
//! the start event, and one event that nothing reacts to.

use vstd::prelude::*;
use crate::fsm::FsmResult;
use crate::fsm::states::{FsmCurrentState, FsmStateFactory, FsmStates};
use crate::fsm::events::FsmEvent;
use crate::fsm::dispatch::FsmBackend;
use crate::fsm::timers::TimerFsmSettings;
use crate::fsm::table::{
    FsmTable, FsmTableEvent, FsmTableRegion, FsmTableState, FsmTableTransition,
    FsmTableTransitionType,
};

verus! {

#[derive(Debug, Clone, Copy, PartialEq, Eq, Structural, Default)]
pub struct StateA;

#[derive(Debug, Clone, Copy, PartialEq, Eq, Structural)]
pub struct EventA {
    pub n: usize,
}

#[derive(Debug)]
pub struct TestFsm;

#[derive(Debug, Clone, Copy, PartialEq, Eq, Structural, Default)]
pub struct States {
    pub state_a: StateA,
}

#[derive(Debug, Clone, Copy, PartialEq, Eq, Structural)]
pub enum StateKind {
    StateA,
}

impl FsmStateFactory<TestFsm> for States {
    fn new_state(context: &()) -> (r: FsmResult<Self>)
        ensures
            r == Ok::<States, crate::fsm::FsmError>(States { state_a: StateA }),
    {
        Ok(States { state_a: StateA })
    }
}

impl FsmStates<TestFsm> for States {
    type StateKind = StateKind;
    type CurrentState = [FsmCurrentState<StateKind>; 1];
}

#[derive(Debug, Clone, Copy, PartialEq, Eq, Structural)]
pub enum Events {
    EventA(EventA),
}

impl From<EventA> for Events {
    fn from(e: EventA) -> (r: Self) {
        Events::EventA(e)
    }
}

impl vstd::std_specs::convert::FromSpecImpl<EventA> for Events {
    open spec fn obeys_from_spec() -> bool {
        true
    }

    open spec fn from_spec(e: EventA) -> Self {
        Events::EventA(e)
    }
}

/// The timers of the machine. Its table declares none, so no value of this type is ever
/// handed to the machine.
#[derive(Debug, Clone, Copy, PartialEq, Eq, Structural)]
pub enum FsmBackendTimers {
    Unused,
}

impl FsmBackend for TestFsm {
    type Context = ();
    type Events = Events;

    open spec fn spec_event_kind(event: Events) -> usize {
        0
    }

    fn event_kind(event: &Events) -> (r: usize) {
        0
    }

    open spec fn spec_guard(transition: usize, event: FsmEvent<Events, usize>, context: ()) -> bool {
        true
    }

    fn guard(transition: usize, event: &FsmEvent<Events, usize>, context: &()) -> (r: bool) {
        true
    }

    open spec fn spec_action(transition: usize, event: FsmEvent<Events, usize>, context: ()) -> ((), Seq<Events>) {
        ((), Seq::empty())
    }

    fn action(transition: usize, event: &FsmEvent<Events, usize>, context: &mut ()) -> (out: Vec<Events>) {
        Vec::new()
    }

    open spec fn spec_on_entry(state: usize, context: ()) -> ((), Seq<Events>) {
        ((), Seq::empty())
    }

    fn on_entry(state: usize, context: &mut ()) -> (out: Vec<Events>) {
        Vec::new()
    }

    open spec fn spec_on_exit(state: usize, context: ()) -> ((), Seq<Events>) {
        ((), Seq::empty())
    }

    fn on_exit(state: usize, context: &mut ()) -> (out: Vec<Events>) {
        Vec::new()
    }

    open spec fn spec_timer_setup(timer: usize, context: ()) -> ((), TimerFsmSettings) {
        ((), TimerFsmSettings::spec_default())
    }

    fn timer_setup(timer: usize, context: &mut ()) -> (r: TimerFsmSettings) {
        TimerFsmSettings::default()
    }

    open spec fn spec_timer_trigger(timer: usize, context: ()) -> Option<Events> {
        None
    }

    fn timer_trigger(timer: usize, context: &()) -> (r: Option<Events>) {
        None
    }

    open spec fn spec_sub_dispatch(state: usize, event: FsmEvent<Events, usize>, context: ()) -> ((), FsmResult<()>, Seq<Events>) {
        ((), Ok(()), Seq::empty())
    }

    fn sub_dispatch(state: usize, event: &FsmEvent<Events, usize>, context: &mut ()) -> (r: (FsmResult<()>, Vec<Events>)) {
        (Ok(()), Vec::new())
    }

    open spec fn spec_sub_entry(state: usize, context: ()) -> ((), Seq<Events>) {
        ((), Seq::empty())
    }

    fn sub_entry(state: usize, context: &mut ()) -> (out: Vec<Events>) {
        Vec::new()
    }
}

impl TestFsm {
    /// The machine's table: the start event enters `StateA` (state 0).
    pub fn table() -> (t: FsmTable)
        ensures
            t.wf(),
            t.regions@.len() == 1,
            t.states@.len() == 1,
            t.timers@.len() == 0,
            t.regions@[0].transitions@ == seq![
                FsmTableTransition {
                    id: 0,
                    ty: FsmTableTransitionType::StateTransition { from: FsmCurrentState::Stopped, to: 0 },
                    event: FsmTableEvent::Start,
                    has_guard: false,
                },
            ],
    {
        let start = FsmTableTransition {
            id: 0,
            ty: FsmTableTransitionType::StateTransition { from: FsmCurrentState::Stopped, to: 0 },
            event: FsmTableEvent::Start,
            has_guard: false,
        };
        let mut transitions: Vec<FsmTableTransition> = Vec::new();
        transitions.push(start);
        let mut regions: Vec<FsmTableRegion> = Vec::new();
        regions.push(FsmTableRegion { transitions });
        let mut states: Vec<FsmTableState> = Vec::new();
        states.push(FsmTableState { region: 0, sub_machine: false, sub_event_kind: 0, timers: Vec::new() });
        let t = FsmTable { regions, states, timers: Vec::new() };
        assert(t.regions@[0].transitions@ =~= seq![start]);
        t
    }
}

} // verus!
