//! The transition table of a machine: the plain-value description of its regions, states,
//! transitions and timers that the dispatcher interprets.

use vstd::prelude::*;
use crate::fsm::states::FsmCurrentState;

verus! {

/// The event that a transition reacts to.
#[derive(Debug, Clone, Copy, PartialEq, Eq, Structural)]
pub enum FsmTableEvent {
    Start,
    Stop,
    /// A user event of the given kind.
    Event(usize),
}

#[derive(Debug, Clone, Copy, PartialEq, Eq, Structural)]
pub enum FsmTableTransitionType {
    /// From one state to another; a transition from `Stopped` starts the region.
    StateTransition { from: FsmCurrentState<usize>, to: usize },
    /// Runs the state's exit action, the transition's action and the state's entry action.
    SelfTransition { state: usize },
    /// Runs only the transition's action.
    InternalTransition { state: usize },
}

#[derive(Debug, Clone, Copy, PartialEq, Eq, Structural)]
pub struct FsmTableTransition {
    /// The transition's id, handed to its guard and action.
    pub id: usize,
    pub ty: FsmTableTransitionType,
    pub event: FsmTableEvent,
    /// Whether the transition is only taken when its guard holds.
    pub has_guard: bool,
}

/// A state of the machine.
#[derive(Debug, Clone)]
pub struct FsmTableState {
    /// The region the state belongs to.
    pub region: usize,
    /// Whether the state is a sub-machine.
    pub sub_machine: bool,
    /// For a sub-machine: the kind of the events that are forwarded to it.
    pub sub_event_kind: usize,
    /// The timers that run while the machine is in this state.
    pub timers: Vec<usize>,
}

/// A timer of the machine, or of one of its sub-machines.
#[derive(Debug, Clone, Copy, PartialEq, Eq, Structural)]
pub struct FsmTableTimer {
    /// The state that owns the timer.
    pub state: usize,
    /// For a sub-machine's timer: the id of the timer inside the sub-machine.
    pub sub_timer: Option<usize>,
}

#[derive(Debug, Clone)]
pub struct FsmTableRegion {
    /// The region's transitions, in the order in which they are tried.
    pub transitions: Vec<FsmTableTransition>,
}

#[derive(Debug, Clone)]
pub struct FsmTable {
    pub regions: Vec<FsmTableRegion>,
    pub states: Vec<FsmTableState>,
    pub timers: Vec<FsmTableTimer>,
}

/// The state a transition leaves.
pub open spec fn transition_source(t: FsmTableTransition) -> FsmCurrentState<usize> {
    match t.ty {
        FsmTableTransitionType::StateTransition { from, .. } => from,
        FsmTableTransitionType::SelfTransition { state } => FsmCurrentState::State(state),
        FsmTableTransitionType::InternalTransition { state } => FsmCurrentState::State(state),
    }
}

pub open spec fn state_in_range(s: FsmCurrentState<usize>, n: nat) -> bool {
    match s {
        FsmCurrentState::Stopped => true,
        FsmCurrentState::State(i) => i < n,
    }
}

/// Every state a transition names exists.
pub open spec fn transition_wf(t: FsmTableTransition, n: nat) -> bool {
    match t.ty {
        FsmTableTransitionType::StateTransition { from, to } => state_in_range(from, n) && to < n,
        FsmTableTransitionType::SelfTransition { state } => state < n,
        FsmTableTransitionType::InternalTransition { state } => state < n,
    }
}

impl FsmTable {
    /// The table only refers to regions, states and timers that it holds, and sub-machine
    /// states own no timers of their own.
    pub open spec fn wf(&self) -> bool {
        &&& forall|r: int, j: int|
            0 <= r < self.regions@.len() && 0 <= j < self.regions@[r].transitions@.len()
                ==> transition_wf(
                #[trigger] self.regions@[r].transitions@[j],
                self.states@.len(),
            )
        &&& forall|s: int|
            0 <= s < self.states@.len() ==> (#[trigger] self.states@[s]).region
                < self.regions@.len()
        &&& forall|s: int, k: int|
            0 <= s < self.states@.len() && 0 <= k < self.states@[s].timers@.len() ==> (
            #[trigger] self.states@[s].timers@[k]) < self.timers@.len()
        &&& forall|s: int|
            0 <= s < self.states@.len() && (#[trigger] self.states@[s]).sub_machine
                ==> self.states@[s].timers@.len() == 0
        &&& forall|tm: int|
            0 <= tm < self.timers@.len() ==> (#[trigger] self.timers@[tm]).state
                < self.states@.len()
    }
}

fn state_index_in_range(s: FsmCurrentState<usize>, n: usize) -> (r: bool)
    ensures
        r == state_in_range(s, n as nat),
{
    match s {
        FsmCurrentState::Stopped => true,
        FsmCurrentState::State(i) => i < n,
    }
}

fn check_transition(t: &FsmTableTransition, n: usize) -> (r: bool)
    ensures
        r == transition_wf(*t, n as nat),
{
    match t.ty {
        FsmTableTransitionType::StateTransition { from, to } => state_index_in_range(from, n) && to < n,
        FsmTableTransitionType::SelfTransition { state } => state < n,
        FsmTableTransitionType::InternalTransition { state } => state < n,
    }
}

/// Whether the table is well formed (`wf`), which building a machine on it requires.
pub fn check_table(table: &FsmTable) -> (r: bool)
    ensures
        r == table.wf(),
{
    let n = table.states.len();
    let mut r: usize = 0;
    while r < table.regions.len()
        invariant
            n == table.states@.len(),
            r <= table.regions@.len(),
            forall|a: int, j: int|
                0 <= a < r && 0 <= j < table.regions@[a].transitions@.len() ==> transition_wf(
                    #[trigger] table.regions@[a].transitions@[j],
                    n as nat,
                ),
        decreases table.regions@.len() - r,
    {
        let ts = &table.regions[r].transitions;
        let mut j: usize = 0;
        while j < ts.len()
            invariant
                n == table.states@.len(),
                r < table.regions@.len(),
                *ts == table.regions@[r as int].transitions,
                j <= ts@.len(),
                forall|a: int, b: int|
                    0 <= a < r && 0 <= b < table.regions@[a].transitions@.len() ==> transition_wf(
                        #[trigger] table.regions@[a].transitions@[b],
                        n as nat,
                    ),
                forall|b: int| 0 <= b < j ==> transition_wf(#[trigger] ts@[b], n as nat),
            decreases ts@.len() - j,
        {
            if !check_transition(&ts[j], n) {
                return false;
            }
            j = j + 1;
        }
        r = r + 1;
    }
    let mut s: usize = 0;
    while s < n
        invariant
            n == table.states@.len(),
            s <= n,
            forall|a: int| 0 <= a < s ==> (#[trigger] table.states@[a]).region < table.regions@.len(),
            forall|a: int, k: int|
                0 <= a < s && 0 <= k < table.states@[a].timers@.len() ==> (
                #[trigger] table.states@[a].timers@[k]) < table.timers@.len(),
            forall|a: int|
                0 <= a < s && (#[trigger] table.states@[a]).sub_machine ==> table.states@[a].timers@.len() == 0,
        decreases n - s,
    {
        let st = &table.states[s];
        if st.region >= table.regions.len() {
            return false;
        }
        if st.sub_machine && st.timers.len() != 0 {
            return false;
        }
        let mut k: usize = 0;
        while k < st.timers.len()
            invariant
                s < n,
                n == table.states@.len(),
                *st == table.states@[s as int],
                k <= st.timers@.len(),
                forall|b: int| 0 <= b < k ==> (#[trigger] st.timers@[b]) < table.timers@.len(),
            decreases st.timers@.len() - k,
        {
            if st.timers[k] >= table.timers.len() {
                return false;
            }
            k = k + 1;
        }
        s = s + 1;
    }
    let mut tm: usize = 0;
    while tm < table.timers.len()
        invariant
            n == table.states@.len(),
            tm <= table.timers@.len(),
            forall|a: int| 0 <= a < tm ==> (#[trigger] table.timers@[a]).state < n,
        decreases table.timers@.len() - tm,
    {
        if table.timers[tm].state >= n {
            return false;
        }
        tm = tm + 1;
    }
    true
}

} // verus!
