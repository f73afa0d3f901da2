//! The static description of a machine: its regions, states and transitions.

use vstd::prelude::*;

verus! {

/// Which transition is taken: the start or stop transition, or one of the table.
#[derive(Debug, Clone, Copy, PartialEq, Eq, Structural)]
pub enum TransitionId {
    Start,
    Table(u32),
    Stop,
}

/// A machine that describes itself.
pub trait FsmInfo {
    /// The machine's name, as text.
    spec fn spec_fsm_name() -> Seq<char>;

    fn fsm_info_regions() -> Vec<FsmInfoRegion>;

    /// The machine's name.
    fn fsm_name() -> (r: &'static str)
        ensures
            r@ == Self::spec_fsm_name(),
    ;
}

#[derive(Debug, Clone)]
pub struct FsmInfoRegion {
    pub region_name: &'static str,
    pub initial_state: &'static str,
    pub states: Vec<FsmInfoState>,
    pub transitions: Vec<FsmInfoTransition>,
}

#[derive(Debug, Clone)]
pub struct FsmInfoState {
    pub state_name: &'static str,
    pub is_initial_state: bool,
    pub is_interrupt_state: bool,
}

#[derive(Debug, Clone)]
pub struct FsmInfoTransition {
    pub transition_id: TransitionId,
    pub state_from: &'static str,
    pub state_from_is_submachine: bool,
    pub state_to: &'static str,
    pub state_to_is_submachine: bool,
    pub event: &'static str,
    pub action: &'static str,
    pub guard: &'static str,
    pub is_shallow_history: bool,
    pub is_resume_event: bool,
    pub is_internal: bool,
    pub is_anonymous: bool,
    pub transition_type: FsmInfoTransitionType,
}

#[derive(Debug, Clone, Copy, PartialEq, Eq, Structural)]
pub enum FsmInfoTransitionType {
    Normal,
    SelfTransition,
    Internal,
}

} // verus!
