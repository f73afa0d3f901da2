//! Transient structures that are used for FSM construction in definition functions. At run
//! time they only carry their types.

use vstd::prelude::*;
use core::marker::PhantomData;
use crate::classic::{Fsm, FsmEvents};
use crate::classic::timers::{TimerSettings, TransitionTimerSettings};

verus! {

/// Options of a declaration, which return the declaration itself.
pub trait FsmOptions: Sized {
    fn copy_events(&self) -> &Self;

    fn sub_machine<FSub: Fsm>(&self) -> &Self;
}

pub struct FsmDecl;

impl FsmDecl {
    /// Starts the declaration of the machine `F`, without a context.
    pub fn new_fsm<F: Fsm>() -> (r: FsmDecl2<F, ()>)
        ensures
            r == FsmDecl2::<F, ()>::spec_new(),
    {
        FsmDecl2 { fsm_ty: PhantomData, fsm_ctx_ty: PhantomData }
    }
}

pub struct FsmDecl2<F, Ctx> {
    pub fsm_ty: PhantomData<F>,
    pub fsm_ctx_ty: PhantomData<Ctx>,
}

impl<F, Ctx> FsmDecl2<F, Ctx> {
    pub open spec fn spec_new() -> Self {
        FsmDecl2 { fsm_ty: PhantomData, fsm_ctx_ty: PhantomData }
    }
}

impl<F: Fsm, Ctx> FsmDecl2<F, Ctx> {
    /// The same declaration, with the context type `C`.
    pub fn context_ty<C>(&self) -> (r: FsmDecl2<F, C>)
        ensures
            r == FsmDecl2::<F, C>::spec_new(),
    {
        FsmDecl2 { fsm_ty: PhantomData, fsm_ctx_ty: PhantomData }
    }

    /// The same declaration, with its initial state.
    pub fn initial_state<InitialState>(&self) -> (r: FsmDeclComplete<F, Ctx, InitialState>)
        ensures
            r == FsmDeclComplete::<F, Ctx, InitialState>::spec_new(),
    {
        FsmDeclComplete { fsm_ty: PhantomData, fsm_ctx_ty: PhantomData, initial_state: PhantomData }
    }
}

impl<F, Ctx> FsmOptions for FsmDecl2<F, Ctx> {
    fn copy_events(&self) -> (r: &Self)
        ensures
            *r == *self,
    {
        self
    }

    fn sub_machine<FSub: Fsm>(&self) -> (r: &Self)
        ensures
            *r == *self,
    {
        self
    }
}

pub struct FsmDeclComplete<F, Ctx, InitialState> {
    pub fsm_ty: PhantomData<F>,
    pub fsm_ctx_ty: PhantomData<Ctx>,
    pub initial_state: PhantomData<InitialState>,
}

impl<F, Ctx, InitialState> FsmDeclComplete<F, Ctx, InitialState> {
    pub open spec fn spec_new() -> Self {
        FsmDeclComplete { fsm_ty: PhantomData, fsm_ctx_ty: PhantomData, initial_state: PhantomData }
    }
}

impl<F: Fsm, Ctx, InitialState> FsmDeclComplete<F, Ctx, InitialState> {
    pub fn new_unit_state<S>(&self) -> (r: FsmDeclState<F, S>)
        ensures
            r == FsmDeclState::<F, S>::spec_new(),
    {
        FsmDeclState { fsm_ty: PhantomData, state_ty: PhantomData }
    }

    pub fn new_state<S>(&self) -> (r: FsmDeclState<F, S>)
        ensures
            r == FsmDeclState::<F, S>::spec_new(),
    {
        FsmDeclState { fsm_ty: PhantomData, state_ty: PhantomData }
    }

    pub fn new_unit_event<E>(&self) {
    }

    pub fn new_event<E>(&self) {
    }

    pub fn interrupt_state<S>(&self) -> (r: FsmDeclInterruptState<F, S>)
        ensures
            r == FsmDeclInterruptState::<F, S>::spec_new(),
    {
        FsmDeclInterruptState { fsm_ty: PhantomData, state_ty: PhantomData }
    }

    pub fn new_state_timeout<State, E, FnTimer: Fn(&F::C) -> Option<TimerSettings<E>>>(&self, create_timer: FnTimer) {
    }

    pub fn new_state_timeout_transition<StateFrom, StateTo, FnTimer: Fn(&F::C) -> Option<TransitionTimerSettings>>(
        &self,
        create_timer: FnTimer,
    ) -> (r: FsmDeclStateTimeoutTransition<F, StateFrom, StateTo>)
        ensures
            r == FsmDeclStateTimeoutTransition::<F, StateFrom, StateTo>::spec_new(),
    {
        FsmDeclStateTimeoutTransition { fsm: PhantomData, state_from: PhantomData, state_to: PhantomData }
    }

    pub fn on_event<E>(&self) -> (r: FsmDeclOnEvent<F, E>)
        ensures
            r == FsmDeclOnEvent::<F, E>::spec_new(),
    {
        FsmDeclOnEvent { fsm_ty: PhantomData, event_ty: PhantomData }
    }

    pub fn add_sub_machine<FSub: Fsm>(&self) -> (r: FsmDeclSubMachine<F, FSub>)
        ensures
            r == FsmDeclSubMachine::<F, FSub>::spec_new(),
    {
        FsmDeclSubMachine { fsm: PhantomData, fsm_sub: PhantomData }
    }
}

impl<F, Ctx, InitialState> FsmOptions for FsmDeclComplete<F, Ctx, InitialState> {
    fn copy_events(&self) -> (r: &Self)
        ensures
            *r == *self,
    {
        self
    }

    fn sub_machine<FSub: Fsm>(&self) -> (r: &Self)
        ensures
            *r == *self,
    {
        self
    }
}

pub struct FsmDeclStateTimeoutTransition<F, StateFrom, StateTo> {
    pub fsm: PhantomData<F>,
    pub state_from: PhantomData<StateFrom>,
    pub state_to: PhantomData<StateTo>,
}

impl<F, StateFrom, StateTo> FsmDeclStateTimeoutTransition<F, StateFrom, StateTo> {
    pub open spec fn spec_new() -> Self {
        FsmDeclStateTimeoutTransition { fsm: PhantomData, state_from: PhantomData, state_to: PhantomData }
    }
}

impl<F: Fsm, StateFrom, StateTo> FsmDeclStateTimeoutTransition<F, StateFrom, StateTo> {
    pub fn action<A: Fn(&mut F::C, &mut StateFrom, &mut StateTo)>(&self, action: A) {
    }
}

pub struct FsmDeclSubMachine<F, FSub> {
    pub fsm: PhantomData<F>,
    pub fsm_sub: PhantomData<FSub>,
}

impl<F, FSub> FsmDeclSubMachine<F, FSub> {
    pub open spec fn spec_new() -> Self {
        FsmDeclSubMachine { fsm: PhantomData, fsm_sub: PhantomData }
    }
}

impl<F: Fsm, FSub: Fsm> FsmDeclSubMachine<F, FSub> {
    pub fn on_entry<B: Fn(&mut FSub, &mut F::C)>(&self, body: B) -> (r: &Self)
        ensures
            *r == *self,
    {
        self
    }

    pub fn on_exit<B: Fn(&mut FSub, &mut F::C)>(&self, body: B) -> (r: &Self)
        ensures
            *r == *self,
    {
        self
    }
}

pub struct FsmDeclOnEvent<F, E> {
    pub fsm_ty: PhantomData<F>,
    pub event_ty: PhantomData<E>,
}

impl<F, E> FsmDeclOnEvent<F, E> {
    pub open spec fn spec_new() -> Self {
        FsmDeclOnEvent { fsm_ty: PhantomData, event_ty: PhantomData }
    }
}

impl<F: Fsm, E> FsmDeclOnEvent<F, E> {
    pub fn transition_from<StateFrom>(&self) -> (r: FsmlDeclTransitionFrom<F, E, StateFrom>)
        ensures
            r == FsmlDeclTransitionFrom::<F, E, StateFrom>::spec_new(),
    {
        FsmlDeclTransitionFrom { fsm_ty: PhantomData, event_ty: PhantomData, state_from: PhantomData }
    }

    pub fn transition_from_any(&self) -> (r: FsmDeclTransitionFromAny<F, E>)
        ensures
            r == FsmDeclTransitionFromAny::<F, E>::spec_new(),
    {
        FsmDeclTransitionFromAny { fsm_ty: PhantomData, event_ty: PhantomData }
    }

    pub fn transition_self<State>(&self) -> (r: FsmDeclTransitionSingle<F, E, State>)
        ensures
            r == FsmDeclTransitionSingle::<F, E, State>::spec_new(),
    {
        FsmDeclTransitionSingle { fsm_ty: PhantomData, event_ty: PhantomData, state: PhantomData }
    }

    pub fn transition_internal<State>(&self) -> (r: FsmDeclTransitionSingle<F, E, State>)
        ensures
            r == FsmDeclTransitionSingle::<F, E, State>::spec_new(),
    {
        FsmDeclTransitionSingle { fsm_ty: PhantomData, event_ty: PhantomData, state: PhantomData }
    }

    pub fn shallow_history<State>(&self) -> (r: &Self)
        ensures
            *r == *self,
    {
        self
    }
}

pub struct FsmDeclTransitionSingle<F, E, State> {
    pub fsm_ty: PhantomData<F>,
    pub event_ty: PhantomData<E>,
    pub state: PhantomData<State>,
}

impl<F, E, State> FsmDeclTransitionSingle<F, E, State> {
    pub open spec fn spec_new() -> Self {
        FsmDeclTransitionSingle { fsm_ty: PhantomData, event_ty: PhantomData, state: PhantomData }
    }
}

impl<F: Fsm, E, State> FsmDeclTransitionSingle<F, E, State> {
    pub fn action<FnAction: Fn(&E, &mut F::C, &mut State)>(&self, action: FnAction) -> (r: &Self)
        ensures
            *r == *self,
    {
        self
    }

    pub fn guard<FnGuard: Fn(&E, &mut F::C, &F::SS) -> bool>(&self, guard: FnGuard) -> (r: &Self)
        ensures
            *r == *self,
    {
        self
    }
}

pub struct FsmDeclTransitionFromAny<F, E> {
    pub fsm_ty: PhantomData<F>,
    pub event_ty: PhantomData<E>,
}

impl<F, E> FsmDeclTransitionFromAny<F, E> {
    pub open spec fn spec_new() -> Self {
        FsmDeclTransitionFromAny { fsm_ty: PhantomData, event_ty: PhantomData }
    }
}

impl<F: Fsm, E> FsmDeclTransitionFromAny<F, E> {
    /// Declares the target state of the transition from any state.
    pub fn to<StateTo>(&self) {
    }
}

pub struct FsmlDeclTransitionFrom<F, E, StateFrom> {
    pub fsm_ty: PhantomData<F>,
    pub event_ty: PhantomData<E>,
    pub state_from: PhantomData<StateFrom>,
}

impl<F, E, StateFrom> FsmlDeclTransitionFrom<F, E, StateFrom> {
    pub open spec fn spec_new() -> Self {
        FsmlDeclTransitionFrom { fsm_ty: PhantomData, event_ty: PhantomData, state_from: PhantomData }
    }
}

impl<F: Fsm, E, StateFrom> FsmlDeclTransitionFrom<F, E, StateFrom> {
    pub fn to<StateTo>(&self) -> (r: FsmDeclTransition<F, E, StateFrom, StateTo>)
        ensures
            r == FsmDeclTransition::<F, E, StateFrom, StateTo>::spec_new(),
    {
        FsmDeclTransition { fsm_ty: PhantomData, event_ty: PhantomData, state_from: PhantomData, state_to: PhantomData }
    }
}

pub struct FsmDeclTransition<F, E, StateFrom, StateTo> {
    pub fsm_ty: PhantomData<F>,
    pub event_ty: PhantomData<E>,
    pub state_from: PhantomData<StateFrom>,
    pub state_to: PhantomData<StateTo>,
}

impl<F, E, StateFrom, StateTo> FsmDeclTransition<F, E, StateFrom, StateTo> {
    pub open spec fn spec_new() -> Self {
        FsmDeclTransition { fsm_ty: PhantomData, event_ty: PhantomData, state_from: PhantomData, state_to: PhantomData }
    }
}

impl<F: Fsm, E, StateFrom, StateTo> FsmDeclTransition<F, E, StateFrom, StateTo> {
    pub fn action<FnAction: Fn(&E, &mut F::C, &mut StateFrom, &mut StateTo)>(&self, action: FnAction) -> (r: &Self)
        ensures
            *r == *self,
    {
        self
    }

    pub fn guard<FnGuard: Fn(&E, &mut F::C, &F::SS) -> bool>(&self, guard: FnGuard) -> (r: &Self)
        ensures
            *r == *self,
    {
        self
    }
}

pub struct FsmDeclState<F, S> {
    pub fsm_ty: PhantomData<F>,
    pub state_ty: PhantomData<S>,
}

impl<F, S> FsmDeclState<F, S> {
    pub open spec fn spec_new() -> Self {
        FsmDeclState { fsm_ty: PhantomData, state_ty: PhantomData }
    }
}

impl<F: Fsm, S> FsmDeclState<F, S> {
    pub fn on_entry<B: Fn(&mut S, &mut F::C)>(&self, body: B) -> (r: &Self)
        ensures
            *r == *self,
    {
        self
    }

    pub fn on_exit<B: Fn(&mut S, &mut F::C)>(&self, body: B) -> (r: &Self)
        ensures
            *r == *self,
    {
        self
    }
}

pub struct FsmDeclInterruptState<F, S> {
    pub fsm_ty: PhantomData<F>,
    pub state_ty: PhantomData<S>,
}

impl<F, S> FsmDeclInterruptState<F, S> {
    pub open spec fn spec_new() -> Self {
        FsmDeclInterruptState { fsm_ty: PhantomData, state_ty: PhantomData }
    }
}

impl<F: Fsm, S> FsmDeclInterruptState<F, S> {
    pub fn resume_on<E>(&self) -> (r: &Self)
        ensures
            *r == *self,
    {
        self
    }
}

} // verus!
