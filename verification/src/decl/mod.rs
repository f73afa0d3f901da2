//! The builder-style API for defining a Finny machine. A definition function chains these
//! calls; what the chain declares is read from the calls themselves, so at run time the
//! builders only carry their types.

use vstd::prelude::*;
use core::marker::PhantomData;
use crate::fsm::dispatch::FsmBackend;
use crate::fsm::timers::TimerFsmSettings;

verus! {

/// The main builder-API for defining your Finny state machine.
pub struct FsmBuilder<TFsm, TContext> {
    pub _fsm: PhantomData<TFsm>,
    pub _context: PhantomData<TContext>,
}

/// The consumed struct of the FSM, ensures that all of the builder's references are released.
#[derive(Debug, Clone, Copy, PartialEq, Eq, Structural)]
pub struct BuiltFsm;

impl<TFsm: FsmBackend, TContext> FsmBuilder<TFsm, TContext> {
    /// A builder for the machine `TFsm` with the context `TContext`.
    pub fn new() -> (r: Self)
        ensures
            r._fsm == PhantomData::<TFsm>,
            r._context == PhantomData::<TContext>,
    {
        FsmBuilder { _fsm: PhantomData, _context: PhantomData }
    }

    /// Sets the initial state of the state machine. Required!
    pub fn initial_state<TState>(&mut self)
        ensures
            *final(self) == *old(self),
    {
    }

    /// Defines multiple initial states for multiple regions of the FSM. The type has to be a
    /// tuple of the initial states for each region.
    ///
    /// Example : `fsm.initial_states<(StateA, StateX)>()`
    pub fn initial_states<TStates>(&mut self)
        ensures
            *final(self) == *old(self),
    {
    }

    /// Adds some information about a state.
    pub fn state<TState>(&mut self) -> (r: FsmStateBuilder<TFsm, TContext, TState>)
        ensures
            *final(self) == *old(self),
            r == FsmStateBuilder::<TFsm, TContext, TState>::spec_new(),
    {
        FsmStateBuilder { _state: PhantomData, _fsm: PhantomData, _context: PhantomData }
    }

    /// Adds a sub-machine state.
    pub fn sub_machine<TSubMachine: FsmBackend>(&mut self) -> (r: FsmSubMachineBuilder<TFsm, TContext, TSubMachine>)
        ensures
            *final(self) == *old(self),
            r._state_builder == FsmStateBuilder::<TFsm, TContext, TSubMachine>::spec_new(),
    {
        FsmSubMachineBuilder {
            _fsm: PhantomData,
            _ctx: PhantomData,
            _sub: PhantomData,
            _state_builder: FsmStateBuilder { _state: PhantomData, _fsm: PhantomData, _context: PhantomData },
        }
    }

    /// Builds the final machine. Has to be returned from the definition function.
    pub fn build(self) -> (r: BuiltFsm)
        ensures
            r == BuiltFsm,
    {
        BuiltFsm
    }
}

/// Declares what a state does.
pub struct FsmStateBuilder<TFsm, TContext, TState> {
    pub _state: PhantomData<TState>,
    pub _fsm: PhantomData<TFsm>,
    pub _context: PhantomData<TContext>,
}

impl<TFsm, TContext, TState> FsmStateBuilder<TFsm, TContext, TState> {
    pub open spec fn spec_new() -> Self {
        FsmStateBuilder { _state: PhantomData, _fsm: PhantomData, _context: PhantomData }
    }
}

impl<TFsm: FsmBackend, TContext, TState> FsmStateBuilder<TFsm, TContext, TState> {
    /// Execute this action when entering the state.
    pub fn on_entry<TAction: Fn(&mut TState, &mut TContext)>(&self, _action: TAction) -> (r: &Self)
        ensures
            *r == *self,
    {
        self
    }

    /// Execute this action when exiting the state.
    pub fn on_exit<TAction: Fn(&mut TState, &mut TContext)>(&self, _action: TAction) -> (r: &Self)
        ensures
            *r == *self,
    {
        self
    }

    /// What happens if we receive this event and we are in this state right now?
    pub fn on_event<TEvent>(&self) -> (r: FsmEventBuilderState<TFsm, TContext, TEvent, TState>)
        ensures
            r._state_builder == *self,
    {
        FsmEventBuilderState {
            _state_builder: FsmStateBuilder { _state: PhantomData, _fsm: PhantomData, _context: PhantomData },
            _event: PhantomData,
        }
    }

    /// Start a new timer when entering this state. The timer is set up within a closure and
    /// the trigger is another closure that returns an event to be enqueued in the FSM.
    pub fn on_entry_start_timer<FSetup: Fn(&mut TContext, &mut TimerFsmSettings), FTrigger: Fn(&TContext, &TState) -> Option<TFsm::Events>>(
        &self,
        _setup: FSetup,
        _trigger: FTrigger,
    ) -> (r: &Self)
        ensures
            *r == *self,
    {
        self
    }
}

/// Declares what happens when an event arrives in a state.
pub struct FsmEventBuilderState<TFsm, TContext, TEvent, TState> {
    pub _state_builder: FsmStateBuilder<TFsm, TContext, TState>,
    pub _event: PhantomData<TEvent>,
}

impl<TFsm, TContext, TEvent, TState> FsmEventBuilderState<TFsm, TContext, TEvent, TState> {
    /// An internal transition doesn't trigger the state's entry and exit actions, as opposed
    /// to self-transitions.
    pub fn internal_transition(self) {
    }

    /// A self transition triggers this state's entry and exit actions, while an internal
    /// transition does not.
    pub fn self_transition(self) {
    }

    /// A transition to the state `TStateTo`.
    pub fn to_state<TStateTo>(self) -> (r: FsmEventBuilderTransitionFull<TFsm, TContext, TEvent, TState, TStateTo>)
        ensures
            r._transition_from == self,
    {
        FsmEventBuilderTransitionFull { _transition_from: self, _state_to: PhantomData }
    }
}

/// Declares the action and guard of a transition between two states.
pub struct FsmEventBuilderTransitionFull<TFsm, TContext, TEvent, TStateFrom, TStateTo> {
    pub _transition_from: FsmEventBuilderState<TFsm, TContext, TEvent, TStateFrom>,
    pub _state_to: PhantomData<TStateTo>,
}

impl<TFsm: FsmBackend, TContext, TEvent, TStateFrom, TStateTo> FsmEventBuilderTransitionFull<TFsm, TContext, TEvent, TStateFrom, TStateTo> {
    /// The action of the transition.
    pub fn action<TAction: Fn(&TEvent, &mut TContext, &mut TStateFrom, &mut TStateTo)>(&mut self, _action: TAction) -> (r: &mut Self)
        ensures
            *r == *old(self),
            *final(self) == *final(r),
    {
        self
    }

    /// The guard of the transition: it is only taken when the guard holds.
    pub fn guard<TGuard: Fn(&TEvent, &TContext) -> bool>(&mut self, _guard: TGuard) -> (r: &mut Self)
        ensures
            *r == *old(self),
            *final(self) == *final(r),
    {
        self
    }
}

/// Declares a sub-machine state.
pub struct FsmSubMachineBuilder<TFsm, TContext, TSubMachine> {
    pub _fsm: PhantomData<TFsm>,
    pub _ctx: PhantomData<TContext>,
    pub _sub: PhantomData<TSubMachine>,
    pub _state_builder: FsmStateBuilder<TFsm, TContext, TSubMachine>,
}

impl<TFsm: FsmBackend<Context = TContext>, TContext, TSubMachine: FsmBackend> FsmSubMachineBuilder<TFsm, TContext, TSubMachine> {
    /// Adds a context adapter. A referenced context of the parent machine is provided, and a
    /// new instance of the submachine's context has to be instantiated.
    pub fn with_context<TCtxFactory: Fn(&TContext) -> TSubMachine::Context>(&mut self, _sub_context_factory: TCtxFactory) -> (r: &Self)
        ensures
            *r == *old(self),
            *final(self) == *old(self),
    {
        self
    }

    /// Execute this action when entering the sub-machine state.
    pub fn on_entry<TAction: Fn(&mut TSubMachine, &mut TContext)>(&self, _action: TAction) -> (r: &Self)
        ensures
            *r == *self,
    {
        self
    }

    /// Execute this action when exiting the sub-machine state.
    pub fn on_exit<TAction: Fn(&mut TSubMachine, &mut TContext)>(&self, _action: TAction) -> (r: &Self)
        ensures
            *r == *self,
    {
        self
    }

    /// What happens if we receive this event and we are in this submachine's state right now?
    pub fn on_event<TEvent>(&self) -> (r: FsmEventBuilderState<TFsm, TContext, TEvent, TSubMachine>)
        ensures
            r._state_builder == self._state_builder,
    {
        FsmEventBuilderState {
            _state_builder: FsmStateBuilder { _state: PhantomData, _fsm: PhantomData, _context: PhantomData },
            _event: PhantomData,
        }
    }
}

} // verus!
