//! A small machine with hooks that do work: state A counts its entries and the context's value
//! counts entries and transitions; an event moves A to B when the value is positive.

use vstd::prelude::*;
use crate::fsm::FsmResult;
use crate::fsm::states::FsmCurrentState;
use crate::fsm::events::FsmEvent;
use crate::fsm::dispatch::FsmBackend;
use crate::fsm::timers::TimerFsmSettings;
use crate::fsm::table::{
    FsmTable, FsmTableEvent, FsmTableRegion, FsmTableState, FsmTableTransition,
    FsmTableTransitionType,
};

verus! {

/// The first state: how many times it was entered.
#[derive(Debug, Clone, Copy, PartialEq, Eq, Structural, Default)]
pub struct MyStateA {
    pub n: usize,
}

/// The context, shared by all hooks; it holds state A.
#[derive(Debug, Clone, Copy, PartialEq, Eq, Structural, Default)]
pub struct MyContext {
    pub val: u32,
    pub state_a: MyStateA,
}

#[derive(Debug, Clone, Copy, PartialEq, Eq, Structural)]
pub struct MyEvent;

pub struct MyFsm;

/// The state numbers of the table.
pub const MY_STATE_A: usize = 0;
pub const MY_STATE_B: usize = 1;

/// One more, wrapping around at the type's maximum.
pub open spec fn next_u32(x: u32) -> u32 {
    if x == u32::MAX { 0 } else { (x + 1) as u32 }
}

pub open spec fn next_usize(x: usize) -> usize {
    if x == usize::MAX { 0 } else { (x + 1) as usize }
}

fn inc_u32(x: u32) -> (r: u32)
    ensures
        r == next_u32(x),
{
    if x == u32::MAX { 0 } else { x + 1 }
}

fn inc_usize(x: usize) -> (r: usize)
    ensures
        r == next_usize(x),
{
    if x == usize::MAX { 0 } else { x + 1 }
}

impl FsmBackend for MyFsm {
    type Context = MyContext;
    type Events = MyEvent;

    open spec fn spec_event_kind(event: MyEvent) -> usize {
        0
    }

    fn event_kind(event: &MyEvent) -> (r: usize) {
        0
    }

    /// The move from A to B is only taken while the value is positive.
    open spec fn spec_guard(transition: usize, event: FsmEvent<MyEvent, usize>, context: MyContext) -> bool {
        transition == 1 ==> context.val > 0
    }

    fn guard(transition: usize, event: &FsmEvent<MyEvent, usize>, context: &MyContext) -> (r: bool) {
        transition != 1 || context.val > 0
    }

    /// The move from A to B counts in the value.
    open spec fn spec_action(transition: usize, event: FsmEvent<MyEvent, usize>, context: MyContext) -> (
        MyContext,
        Seq<MyEvent>,
    ) {
        if transition == 1 {
            (MyContext { val: next_u32(context.val), ..context }, Seq::empty())
        } else {
            (context, Seq::empty())
        }
    }

    fn action(transition: usize, event: &FsmEvent<MyEvent, usize>, context: &mut MyContext) -> (out: Vec<MyEvent>) {
        if transition == 1 {
            context.val = inc_u32(context.val);
        }
        Vec::new()
    }

    /// Entering A counts in A and in the value.
    open spec fn spec_on_entry(state: usize, context: MyContext) -> (MyContext, Seq<MyEvent>) {
        if state == MY_STATE_A {
            (
                MyContext { val: next_u32(context.val), state_a: MyStateA { n: next_usize(context.state_a.n) } },
                Seq::empty(),
            )
        } else {
            (context, Seq::empty())
        }
    }

    fn on_entry(state: usize, context: &mut MyContext) -> (out: Vec<MyEvent>) {
        if state == MY_STATE_A {
            context.val = inc_u32(context.val);
            context.state_a.n = inc_usize(context.state_a.n);
        }
        Vec::new()
    }

    fn on_exit(state: usize, context: &mut MyContext) -> (out: Vec<MyEvent>) {
        Vec::new()
    }

    fn timer_setup(timer: usize, context: &mut MyContext) -> (r: TimerFsmSettings) {
        TimerFsmSettings::default()
    }

    fn timer_trigger(timer: usize, context: &MyContext) -> (r: Option<MyEvent>) {
        None
    }

    fn sub_dispatch(state: usize, event: &FsmEvent<MyEvent, usize>, context: &mut MyContext) -> (r: (
        FsmResult<()>,
        Vec<MyEvent>,
    )) {
        (Ok(()), Vec::new())
    }

    fn sub_entry(state: usize, context: &mut MyContext) -> (out: Vec<MyEvent>) {
        Vec::new()
    }
}

impl MyFsm {
    /// The table: the start event enters A; `MyEvent` moves A to B, guarded.
    pub fn table() -> (t: FsmTable)
        ensures
            t.wf(),
            t.regions@.len() == 1,
            t.states@.len() == 2,
            t.timers@.len() == 0,
            t.regions@[0].transitions@ == seq![
                FsmTableTransition {
                    id: 0,
                    ty: FsmTableTransitionType::StateTransition { from: FsmCurrentState::Stopped, to: MY_STATE_A },
                    event: FsmTableEvent::Start,
                    has_guard: false,
                },
                FsmTableTransition {
                    id: 1,
                    ty: FsmTableTransitionType::StateTransition {
                        from: FsmCurrentState::State(MY_STATE_A),
                        to: MY_STATE_B,
                    },
                    event: FsmTableEvent::Event(0),
                    has_guard: true,
                },
            ],
    {
        let start = FsmTableTransition {
            id: 0,
            ty: FsmTableTransitionType::StateTransition { from: FsmCurrentState::Stopped, to: MY_STATE_A },
            event: FsmTableEvent::Start,
            has_guard: false,
        };
        let to_b = FsmTableTransition {
            id: 1,
            ty: FsmTableTransitionType::StateTransition { from: FsmCurrentState::State(MY_STATE_A), to: MY_STATE_B },
            event: FsmTableEvent::Event(0),
            has_guard: true,
        };
        let mut transitions: Vec<FsmTableTransition> = Vec::new();
        transitions.push(start);
        transitions.push(to_b);
        let mut regions: Vec<FsmTableRegion> = Vec::new();
        regions.push(FsmTableRegion { transitions });
        let mut states: Vec<FsmTableState> = Vec::new();
        states.push(FsmTableState { region: 0, sub_machine: false, sub_event_kind: 0, timers: Vec::new() });
        states.push(FsmTableState { region: 0, sub_machine: false, sub_event_kind: 0, timers: Vec::new() });
        let t = FsmTable { regions, states, timers: Vec::new() };
        assert(t.regions@[0].transitions@ =~= seq![start, to_b]);
        t
    }
}

} // verus!
