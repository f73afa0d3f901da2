//! The declarations of a machine, read from the builder method calls of its definition
//! function. Types are referred to by ids; the same type always has the same id.

use vstd::prelude::*;

verus! {

/// A generic argument of a builder method call: a type, and whether it has generic
/// arguments of its own.
#[derive(Debug, Clone, Copy, PartialEq, Eq, Structural)]
pub struct TypeArg {
    pub ty: usize,
    pub has_generics: bool,
}

/// One method call of a builder chain, such as `.on_event::<E>()` or `.guard(|..| ..)`.
#[derive(Debug, Clone)]
pub struct MethodCall {
    pub name: String,
    pub generics: Vec<TypeArg>,
    /// The closure passed as the call's argument, if it is one.
    pub closure: Option<usize>,
}

/// A statement of the definition function: a chain of method calls on the builder.
#[derive(Debug, Clone)]
pub struct FsmBlock {
    pub method_calls: Vec<MethodCall>,
}

/// Why a definition function is refused.
#[derive(Debug, Clone, PartialEq, Eq)]
pub enum ParseError {
    /// The type may not have generic arguments.
    GenericsNotSupported(usize),
    DuplicateInitialState(usize),
    DuplicateOnEntry,
    DuplicateOnExit,
    DuplicateGuard,
    DuplicateAction,
    /// The method's argument has to be a closure.
    ExpectedClosure,
    /// A method that is not supported at this place of a chain.
    UnsupportedMethod,
    /// A method that is not supported after `state`.
    UnsupportedStateMethod(String),
    /// A chain of methods that is not supported.
    UnsupportedMethods,
    /// Missing the initial state declaration.
    MissingInitialState,
    /// The initial state is not declared with the `state` method.
    InitialStateNotDeclared(usize),
    /// A transition refers to a state that is not declared.
    StateNotFound(usize),
    /// A state that is reachable from the initial states of two regions.
    StateInTwoRegions(usize),
    /// A state that no initial state reaches.
    UnreachableState(usize),
    /// An internal inconsistency of the declarations.
    Inconsistent,
    /// The definition function has to take exactly one parameter, the builder.
    SingleInputOnly,
    /// The builder's type has to have the machine's and the context's types as its first two
    /// generic arguments.
    ExpectedGenericPair,
    /// The definition function has to return `BuiltFsm`.
    ReturnTypeNotBuiltFsm,
    /// The builder parameter has to be a typed parameter, not `self`.
    TypedInputOnly,
    /// The builder parameter has to be bound to an identifier.
    IdentPatternOnly,
    /// The builder's type has to be a path.
    IncorrectBuilderType,
    /// The builder's type has to be a single path segment with angle-bracketed arguments.
    SingleSegmentOnly,
    /// The machine's type has to be a path.
    UnsupportedFsmType,
    /// A statement that is not an expression, or not a chain of calls on the builder.
    UnsupportedStatement,
}

/// The closures of a transition.
#[derive(Debug, Clone, Copy, PartialEq, Eq, Structural)]
pub struct EventGuardAction {
    pub guard: Option<usize>,
    pub action: Option<usize>,
}

/// A declared state and its entry and exit closures.
#[derive(Debug, Clone, Copy, PartialEq, Eq, Structural)]
pub struct FsmState {
    pub ty: usize,
    pub on_entry_closure: Option<usize>,
    pub on_exit_closure: Option<usize>,
}

#[derive(Debug, Clone, Copy, PartialEq, Eq, Structural)]
pub enum FsmEventTransition {
    /// A transition from one state to another.
    State(usize, usize, EventGuardAction),
    /// Runs only the transition's action.
    InternalTransition(usize, EventGuardAction),
    /// Triggers the state's exit/enter actions.
    SelfTransition(usize, EventGuardAction),
}

/// A declared event and the transitions it triggers, in declaration order.
#[derive(Debug, Clone)]
pub struct FsmEvent {
    pub ty: usize,
    pub transitions: Vec<FsmEventTransition>,
}

#[derive(Debug, Clone, Copy, PartialEq, Eq, Structural)]
pub enum FsmTransitionState {
    /// The machine is stopped.
    Stopped,
    State(usize),
}

#[derive(Debug, Clone, Copy, PartialEq, Eq, Structural)]
pub enum FsmTransitionEvent {
    Stop,
    Start,
    Event(usize),
}

impl FsmTransitionEvent {
    /// The event type of a user event.
    pub fn get_event(&self) -> (r: Result<usize, ParseError>)
        ensures
            r == match *self {
                FsmTransitionEvent::Event(ev) => Ok::<usize, ParseError>(ev),
                _ => Err(ParseError::Inconsistent),
            },
    {
        match self {
            FsmTransitionEvent::Event(ev) => Ok(*ev),
            _ => Err(ParseError::Inconsistent),
        }
    }
}

#[derive(Debug, Clone, Copy, PartialEq, Eq, Structural)]
pub struct FsmStateAction {
    pub state: FsmTransitionState,
    pub event: FsmTransitionEvent,
    pub action: EventGuardAction,
}

#[derive(Debug, Clone, Copy, PartialEq, Eq, Structural)]
pub struct FsmStateTransition {
    pub state_from: FsmTransitionState,
    pub state_to: FsmTransitionState,
    pub action: EventGuardAction,
    pub event: FsmTransitionEvent,
}

#[derive(Debug, Clone, Copy, PartialEq, Eq, Structural)]
pub enum FsmTransitionType {
    /// Doesn't trigger the state's actions
    InternalTransition(FsmStateAction),
    /// Triggers the state's actions
    SelfTransition(FsmStateAction),
    /// From State A to State B
    StateTransition(FsmStateTransition),
}

/// The states a transition type involves, in order: the source, then the target.
pub open spec fn spec_get_states(t: FsmTransitionType) -> Seq<usize> {
    match t {
        FsmTransitionType::InternalTransition(s) | FsmTransitionType::SelfTransition(s) => match s.state {
            FsmTransitionState::State(ty) => seq![ty],
            FsmTransitionState::Stopped => seq![],
        },
        FsmTransitionType::StateTransition(s) => {
            let from = match s.state_from {
                FsmTransitionState::State(ty) => seq![ty],
                FsmTransitionState::Stopped => seq![],
            };
            let to = match s.state_to {
                FsmTransitionState::State(ty) => seq![ty],
                FsmTransitionState::Stopped => seq![],
            };
            from + to
        },
    }
}

impl FsmTransitionType {
    pub fn get_states(&self) -> (r: Vec<usize>)
        ensures
            r@ == spec_get_states(*self),
    {
        let mut ret: Vec<usize> = Vec::new();
        match self {
            FsmTransitionType::InternalTransition(s) | FsmTransitionType::SelfTransition(s) => {
                if let FsmTransitionState::State(ty) = s.state {
                    ret.push(ty);
                }
            },
            FsmTransitionType::StateTransition(s) => {
                if let FsmTransitionState::State(ty) = s.state_from {
                    ret.push(ty);
                }
                if let FsmTransitionState::State(ty) = s.state_to {
                    ret.push(ty);
                }
            },
        }
        proof {
            assert(ret@ =~= spec_get_states(*self));
        }
        ret
    }
}

/// A transition of the machine; `transition_ty` numbers it: the transition type generated
/// for it is called `Transition{n}`.
#[derive(Debug, Clone, Copy, PartialEq, Eq, Structural)]
pub struct FsmTransition {
    pub ty: FsmTransitionType,
    pub transition_ty: usize,
}

/// The declarations of a machine, checked: its initial states, states, events and the table
/// of transitions.
#[derive(Debug, Clone)]
pub struct FsmDeclarations {
    pub initial_states: Vec<usize>,
    pub states: Vec<FsmState>,
    pub events: Vec<FsmEvent>,
    pub transitions: Vec<FsmTransition>,
}

} // verus!
