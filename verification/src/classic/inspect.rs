//! Inspectors of a running machine that can follow its sub-machines too.

use vstd::prelude::*;
use crate::classic::Fsm;

verus! {

/// An inspector that can be extended to a sub-machine.
pub trait FsmInspectClone: Sized {
    fn add_fsm<FSub: Fsm>(&self) -> Self;
}

/// The inspector that ignores everything.
#[derive(Debug, Clone, Copy, PartialEq, Eq, Structural, Default)]
pub struct FsmInspectNull;

impl FsmInspectClone for FsmInspectNull {
    fn add_fsm<FSub: Fsm>(&self) -> (r: Self)
        ensures
            r == FsmInspectNull,
    {
        FsmInspectNull
    }
}

} // verus!
