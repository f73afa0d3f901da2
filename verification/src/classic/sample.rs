//! Two small machines that describe themselves, with no states of their own: what the
//! inspectors and the declaration builder are exercised on.

use vstd::prelude::*;
use crate::classic::{Fsm, FsmEvents};
use crate::classic::info::{FsmInfo, FsmInfoRegion};

verus! {

#[derive(Debug, Clone, PartialEq)]
pub enum Events {
    NoEvent,
    Tick(u32),
}

impl FsmEvents for Events {
    fn new_no_event() -> Self {
        Events::NoEvent
    }
}

/// The machine named `Machine`.
pub struct Machine {
    states: (),
}

impl FsmInfo for Machine {
    open spec fn spec_fsm_name() -> Seq<char> {
        "Machine"@
    }

    fn fsm_info_regions() -> Vec<FsmInfoRegion> {
        Vec::new()
    }

    fn fsm_name() -> (r: &'static str) {
        "Machine"
    }
}

impl Fsm for Machine {
    type E = Events;
    type EventKind = u8;
    type S = ();
    type C = ();
    type CS = ();
    type RegionState = ();
    type SS = ();

    fn get_current_state(&self) -> () {
    }

    fn get_states(&self) -> &() {
        &self.states
    }

    fn get_states_mut(&mut self) -> &mut () {
        &mut self.states
    }
}

/// The machine named `Other`.
pub struct Other {
    states: (),
}

impl FsmInfo for Other {
    open spec fn spec_fsm_name() -> Seq<char> {
        "Other"@
    }

    fn fsm_info_regions() -> Vec<FsmInfoRegion> {
        Vec::new()
    }

    fn fsm_name() -> (r: &'static str) {
        "Other"
    }
}

impl Fsm for Other {
    type E = Events;
    type EventKind = u8;
    type S = ();
    type C = ();
    type CS = ();
    type RegionState = ();
    type SS = ();

    fn get_current_state(&self) -> () {
    }

    fn get_states(&self) -> &() {
        &self.states
    }

    fn get_states_mut(&mut self) -> &mut () {
        &mut self.states
    }
}

} // verus!
