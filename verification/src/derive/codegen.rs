//! The transition table of a validated machine: what the dispatcher of `fsm` interprets. States
//! are numbered by their declaration order, events by their type, transitions keep their
//! numbers, and each region keeps its transitions in declaration order.

use vstd::prelude::*;
use crate::derive::parse::{
    FsmState, FsmTransition, FsmTransitionEvent, FsmTransitionState, FsmTransitionType, ParseError,
};
use crate::derive::parse_fsm::find_state;
use crate::derive::validation::ValidatedFsm;
use crate::fsm::states::FsmCurrentState;
use crate::fsm::table::{
    FsmTable, FsmTableEvent, FsmTableRegion, FsmTableState, FsmTableTransition,
    FsmTableTransitionType,
};

verus! {

/// The table's state for a declared state, or `Stopped`; `None` for an undeclared state.
pub open spec fn table_state(states: Seq<FsmState>, s: FsmTransitionState) -> Option<FsmCurrentState<usize>> {
    match s {
        FsmTransitionState::Stopped => Some(FsmCurrentState::Stopped),
        FsmTransitionState::State(ty) => match find_state(states, ty, 0) {
            Some(i) => Some(FsmCurrentState::State(i as usize)),
            None => None,
        },
    }
}

pub open spec fn table_event(e: FsmTransitionEvent) -> FsmTableEvent {
    match e {
        FsmTransitionEvent::Start => FsmTableEvent::Start,
        FsmTransitionEvent::Stop => FsmTableEvent::Stop,
        FsmTransitionEvent::Event(ty) => FsmTableEvent::Event(ty),
    }
}

/// The table's transition for a declared one; `None` when it names an undeclared state or
/// leads into the stopped state.
pub open spec fn table_transition(states: Seq<FsmState>, t: FsmTransition) -> Option<FsmTableTransition> {
    match t.ty {
        FsmTransitionType::StateTransition(st) => match (
            table_state(states, st.state_from),
            table_state(states, st.state_to),
        ) {
            (Some(from), Some(FsmCurrentState::State(to))) => Some(
                FsmTableTransition {
                    id: t.transition_ty,
                    ty: FsmTableTransitionType::StateTransition { from, to },
                    event: table_event(st.event),
                    has_guard: st.action.guard is Some,
                },
            ),
            _ => None,
        },
        FsmTransitionType::InternalTransition(a) => match table_state(states, a.state) {
            Some(FsmCurrentState::State(s)) => Some(
                FsmTableTransition {
                    id: t.transition_ty,
                    ty: FsmTableTransitionType::InternalTransition { state: s },
                    event: table_event(a.event),
                    has_guard: a.action.guard is Some,
                },
            ),
            _ => None,
        },
        FsmTransitionType::SelfTransition(a) => match table_state(states, a.state) {
            Some(FsmCurrentState::State(s)) => Some(
                FsmTableTransition {
                    id: t.transition_ty,
                    ty: FsmTableTransitionType::SelfTransition { state: s },
                    event: table_event(a.event),
                    has_guard: a.action.guard is Some,
                },
            ),
            _ => None,
        },
    }
}

/// Every state has a region of the machine and every transition has a table transition.
pub open spec fn table_ok(fsm: ValidatedFsm) -> bool {
    &&& fsm.state_regions@.len() == fsm.states@.len()
    &&& forall|i: int| 0 <= i < fsm.states@.len() ==> #[trigger] fsm.state_regions@[i] < fsm.regions@.len()
    &&& forall|k: int, j: int|
        0 <= k < fsm.regions@.len() && 0 <= j < fsm.regions@[k].transitions@.len() ==> (
        #[trigger] table_transition(fsm.states@, fsm.regions@[k].transitions@[j])) is Some
}

/// The transition table of the machine: well formed, without timers; each declared state in
/// its region; each region's transitions converted, in order.
pub open spec fn table_of(fsm: ValidatedFsm, t: FsmTable) -> bool {
    &&& t.wf()
    &&& t.timers@.len() == 0
    &&& t.states@.len() == fsm.states@.len()
    &&& forall|i: int|
        0 <= i < t.states@.len() ==> {
            &&& (#[trigger] t.states@[i]).region == fsm.state_regions@[i]
            &&& !t.states@[i].sub_machine
            &&& t.states@[i].timers@.len() == 0
        }
    &&& t.regions@.len() == fsm.regions@.len()
    &&& forall|k: int|
        0 <= k < t.regions@.len() ==> (#[trigger] t.regions@[k]).transitions@.len()
            == fsm.regions@[k].transitions@.len()
    &&& forall|k: int, j: int|
        0 <= k < t.regions@.len() && 0 <= j < t.regions@[k].transitions@.len() ==> Some(
            #[trigger] t.regions@[k].transitions@[j],
        ) == table_transition(fsm.states@, fsm.regions@[k].transitions@[j])
}

fn find_state_index(states: &Vec<FsmState>, ty: usize) -> (r: Option<usize>)
    ensures
        r matches Some(i) ==> find_state(states@, ty, 0) == Some(i as int) && i < states@.len(),
        r is None ==> find_state(states@, ty, 0) is None,
{
    let mut i: usize = 0;
    while i < states.len()
        invariant
            i <= states@.len(),
            find_state(states@, ty, 0) == find_state(states@, ty, i as int),
        decreases states@.len() - i,
    {
        if states[i].ty == ty {
            return Some(i);
        }
        i = i + 1;
    }
    None
}

fn resolve_state(states: &Vec<FsmState>, s: FsmTransitionState) -> (r: Option<FsmCurrentState<usize>>)
    ensures
        r == table_state(states@, s),
        r matches Some(FsmCurrentState::State(i)) ==> i < states@.len(),
{
    match s {
        FsmTransitionState::Stopped => Some(FsmCurrentState::Stopped),
        FsmTransitionState::State(ty) => match find_state_index(states, ty) {
            Some(i) => Some(FsmCurrentState::State(i)),
            None => None,
        },
    }
}

fn to_table_event(e: FsmTransitionEvent) -> (r: FsmTableEvent)
    ensures
        r == table_event(e),
{
    match e {
        FsmTransitionEvent::Start => FsmTableEvent::Start,
        FsmTransitionEvent::Stop => FsmTableEvent::Stop,
        FsmTransitionEvent::Event(ty) => FsmTableEvent::Event(ty),
    }
}

fn to_table_transition(states: &Vec<FsmState>, t: &FsmTransition) -> (r: Option<FsmTableTransition>)
    ensures
        r == table_transition(states@, *t),
        r matches Some(tt) ==> crate::fsm::table::transition_wf(tt, states@.len()),
{
    match t.ty {
        FsmTransitionType::StateTransition(st) => {
            let from = resolve_state(states, st.state_from);
            let to = resolve_state(states, st.state_to);
            match (from, to) {
                (Some(from), Some(FsmCurrentState::State(to))) => Some(
                    FsmTableTransition {
                        id: t.transition_ty,
                        ty: FsmTableTransitionType::StateTransition { from, to },
                        event: to_table_event(st.event),
                        has_guard: st.action.guard.is_some(),
                    },
                ),
                _ => None,
            }
        },
        FsmTransitionType::InternalTransition(a) => match resolve_state(states, a.state) {
            Some(FsmCurrentState::State(s)) => Some(
                FsmTableTransition {
                    id: t.transition_ty,
                    ty: FsmTableTransitionType::InternalTransition { state: s },
                    event: to_table_event(a.event),
                    has_guard: a.action.guard.is_some(),
                },
            ),
            _ => None,
        },
        FsmTransitionType::SelfTransition(a) => match resolve_state(states, a.state) {
            Some(FsmCurrentState::State(s)) => Some(
                FsmTableTransition {
                    id: t.transition_ty,
                    ty: FsmTableTransitionType::SelfTransition { state: s },
                    event: to_table_event(a.event),
                    has_guard: a.action.guard.is_some(),
                },
            ),
            _ => None,
        },
    }
}

/// The transition table of a validated machine. Its states are the declared states, each in
/// its region, with no timers and no sub-machines; its regions hold the regions' transitions
/// in order. Refused with `Inconsistent` exactly when a state has no region of the machine or
/// a transition names an undeclared state or leads into the stopped state.
pub fn generate_fsm_table(fsm: &ValidatedFsm) -> (r: Result<FsmTable, ParseError>)
    ensures
        r is Ok <==> table_ok(*fsm),
        r matches Err(e) ==> e == ParseError::Inconsistent,
        r matches Ok(t) ==> table_of(*fsm, t),
{
    if fsm.state_regions.len() != fsm.states.len() {
        return Err(ParseError::Inconsistent);
    }
    let mut states: Vec<FsmTableState> = Vec::new();
    let mut i: usize = 0;
    while i < fsm.states.len()
        invariant
            i <= fsm.states@.len(),
            fsm.state_regions@.len() == fsm.states@.len(),
            states@.len() == i,
            forall|x: int| 0 <= x < i ==> #[trigger] fsm.state_regions@[x] < fsm.regions@.len(),
            forall|x: int|
                0 <= x < i ==> {
                    &&& (#[trigger] states@[x]).region == fsm.state_regions@[x]
                    &&& !states@[x].sub_machine
                    &&& states@[x].timers@.len() == 0
                },
        decreases fsm.states@.len() - i,
    {
        let region = fsm.state_regions[i];
        if region >= fsm.regions.len() {
            return Err(ParseError::Inconsistent);
        }
        states.push(FsmTableState { region, sub_machine: false, sub_event_kind: 0, timers: Vec::new() });
        i = i + 1;
    }
    let mut regions: Vec<FsmTableRegion> = Vec::new();
    let mut k: usize = 0;
    while k < fsm.regions.len()
        invariant
            k <= fsm.regions@.len(),
            regions@.len() == k,
            forall|x: int|
                0 <= x < k ==> (#[trigger] regions@[x]).transitions@.len()
                    == fsm.regions@[x].transitions@.len(),
            forall|x: int, j: int|
                0 <= x < k && 0 <= j < regions@[x].transitions@.len() ==> Some(
                    #[trigger] regions@[x].transitions@[j],
                ) == table_transition(fsm.states@, fsm.regions@[x].transitions@[j])
                    && crate::fsm::table::transition_wf(regions@[x].transitions@[j], fsm.states@.len()),
            forall|x: int, j: int|
                0 <= x < k && 0 <= j < fsm.regions@[x].transitions@.len() ==> (
                #[trigger] table_transition(fsm.states@, fsm.regions@[x].transitions@[j])) is Some,
        decreases fsm.regions@.len() - k,
    {
        let region = &fsm.regions[k];
        let mut transitions: Vec<FsmTableTransition> = Vec::new();
        let mut j: usize = 0;
        while j < region.transitions.len()
            invariant
                j <= region.transitions@.len(),
                k < fsm.regions@.len(),
                *region == fsm.regions@[k as int],
                transitions@.len() == j,
                forall|y: int|
                    0 <= y < j ==> Some(#[trigger] transitions@[y]) == table_transition(
                        fsm.states@,
                        region.transitions@[y],
                    ) && crate::fsm::table::transition_wf(transitions@[y], fsm.states@.len()),
            decreases region.transitions@.len() - j,
        {
            match to_table_transition(&fsm.states, &region.transitions[j]) {
                Some(t) => transitions.push(t),
                None => {
                    proof {
                        assert(table_transition(fsm.states@, fsm.regions@[k as int].transitions@[j as int]) is None);
                    }
                    return Err(ParseError::Inconsistent);
                },
            }
            j = j + 1;
        }
        regions.push(FsmTableRegion { transitions });
        proof {
            assert forall|x: int, y: int|
                0 <= x < k + 1 && 0 <= y < fsm.regions@[x].transitions@.len() implies (
                #[trigger] table_transition(fsm.states@, fsm.regions@[x].transitions@[y])) is Some by {
                if x == k {
                    assert(Some(regions@[x].transitions@[y]) == table_transition(fsm.states@, fsm.regions@[x].transitions@[y]));
                }
            }
        }
        k = k + 1;
    }
    let t = FsmTable { regions, states, timers: Vec::new() };
    assert(t.wf());
    Ok(t)
}

} // verus!
