//! Inspection of a running machine: observers that are told of each event, transition, guard,
//! state entry and exit. Observers do not take part in the machine's decisions.

use vstd::prelude::*;
use crate::fsm::events::FsmEvent;
use crate::fsm::dispatch::FsmBackend;
use crate::fsm::fsm_impl::FsmBackendImpl;

verus! {

/// What an event observer is told about.
#[derive(Debug, Clone)]
pub enum InspectFsmEvent<S> {
    StateEnter(S),
    StateExit(S),
}

/// An observer of state entries and exits.
pub trait InspectEvent {
    fn on_event<S: Clone>(&self, event: &InspectFsmEvent<S>);
}

/// An observer of the dispatch of events. `new_event` gives the observer of one event,
/// `for_transition`, `for_sub_machine` and `for_timer` narrow it to one part of the dispatch,
/// and `event_done` closes it. Transitions, states and timers are given by their numbers in
/// the machine's table.
pub trait Inspect: InspectEvent + Sized {
    fn new_event<F: FsmBackend>(&self, event: &FsmEvent<F::Events, usize>, fsm: &FsmBackendImpl<F>) -> Self;

    fn event_done<F: FsmBackend>(self, fsm: &FsmBackendImpl<F>);

    fn for_transition(&self, transition: usize) -> Self;

    fn for_sub_machine(&self, state: usize) -> Self;

    fn for_timer(&self, timer_id: usize) -> Self;

    fn on_guard(&self, transition: usize, guard_result: bool);

    fn on_state_enter(&self, state: usize);

    fn on_state_exit(&self, state: usize);

    fn on_action(&self, transition: usize);

    fn on_error<E>(&self, msg: &str, error: &E);

    fn info(&self, msg: &str);
}

/// The observer that ignores everything.
#[derive(Debug, Clone, Copy, PartialEq, Eq, Structural, Default)]
pub struct InspectNull;

impl InspectNull {
    pub fn new() -> (r: Self)
        ensures
            r == InspectNull,
    {
        InspectNull
    }
}

impl InspectEvent for InspectNull {
    fn on_event<S: Clone>(&self, event: &InspectFsmEvent<S>) {
    }
}

impl Inspect for InspectNull {
    fn new_event<F: FsmBackend>(&self, event: &FsmEvent<F::Events, usize>, fsm: &FsmBackendImpl<F>) -> Self {
        InspectNull
    }

    fn event_done<F: FsmBackend>(self, fsm: &FsmBackendImpl<F>) {
    }

    fn for_transition(&self, transition: usize) -> Self {
        InspectNull
    }

    fn for_sub_machine(&self, state: usize) -> Self {
        InspectNull
    }

    fn for_timer(&self, timer_id: usize) -> Self {
        InspectNull
    }

    fn on_guard(&self, transition: usize, guard_result: bool) {
    }

    fn on_state_enter(&self, state: usize) {
    }

    fn on_state_exit(&self, state: usize) {
    }

    fn on_action(&self, transition: usize) {
    }

    fn on_error<E>(&self, msg: &str, error: &E) {
    }

    fn info(&self, msg: &str) {
    }
}

/// An observer that only passes the state entries and exits on to an event observer.
#[derive(Debug, Clone)]
pub struct EventInspector<T: InspectEvent + Clone> {
    pub event_handler: T,
}

impl<T: InspectEvent + Clone> EventInspector<T> {
    pub fn new(inspect: T) -> (r: Self)
        ensures
            r.event_handler == inspect,
    {
        EventInspector { event_handler: inspect }
    }

    /// An inspector with a clone of the same event observer.
    fn duplicate(&self) -> (r: Self)
        ensures
            cloned(self.event_handler, r.event_handler),
    {
        EventInspector { event_handler: self.event_handler.clone() }
    }
}

impl<TI: InspectEvent + Clone> InspectEvent for EventInspector<TI> {
    fn on_event<S: Clone>(&self, event: &InspectFsmEvent<S>) {
        self.event_handler.on_event(event)
    }
}

impl<TI: InspectEvent + Clone> Inspect for EventInspector<TI> {
    fn new_event<F: FsmBackend>(&self, event: &FsmEvent<F::Events, usize>, fsm: &FsmBackendImpl<F>) -> (r: Self)
        ensures
            cloned(self.event_handler, r.event_handler),
    {
        self.duplicate()
    }

    fn event_done<F: FsmBackend>(self, fsm: &FsmBackendImpl<F>) {
    }

    fn for_transition(&self, transition: usize) -> (r: Self)
        ensures
            cloned(self.event_handler, r.event_handler),
    {
        self.duplicate()
    }

    fn for_sub_machine(&self, state: usize) -> (r: Self)
        ensures
            cloned(self.event_handler, r.event_handler),
    {
        self.duplicate()
    }

    fn for_timer(&self, timer_id: usize) -> (r: Self)
        ensures
            cloned(self.event_handler, r.event_handler),
    {
        self.duplicate()
    }

    fn on_guard(&self, transition: usize, guard_result: bool) {
    }

    fn on_state_enter(&self, state: usize) {
    }

    fn on_state_exit(&self, state: usize) {
    }

    fn on_action(&self, transition: usize) {
    }

    fn on_error<E>(&self, msg: &str, error: &E) {
    }

    fn info(&self, msg: &str) {
    }
}

/// Two observers, both told of everything.
pub struct InspectChain<A: Inspect, B: Inspect> {
    pub a: A,
    pub b: B,
}

impl<A: Inspect, B: Inspect> InspectChain<A, B> {
    pub fn new_pair(inspect_a: A, inspect_b: B) -> (r: Self)
        ensures
            r.a == inspect_a,
            r.b == inspect_b,
    {
        InspectChain { a: inspect_a, b: inspect_b }
    }

    pub fn add_inspect<C: Inspect>(self, inspect: C) -> (r: InspectChain<InspectChain<A, B>, C>)
        ensures
            r.a == self,
            r.b == inspect,
    {
        InspectChain { a: self, b: inspect }
    }
}

impl<A: Inspect> InspectChain<A, InspectNull> {
    pub fn new_chain(inspect: A) -> (r: Self)
        ensures
            r.a == inspect,
            r.b == InspectNull,
    {
        InspectChain { a: inspect, b: InspectNull::new() }
    }
}

impl<A: Inspect, B: Inspect> InspectEvent for InspectChain<A, B> {
    fn on_event<S: Clone>(&self, event: &InspectFsmEvent<S>) {
        self.a.on_event(event);
        self.b.on_event(event);
    }
}

impl<A: Inspect, B: Inspect> Inspect for InspectChain<A, B> {
    fn new_event<F: FsmBackend>(&self, event: &FsmEvent<F::Events, usize>, fsm: &FsmBackendImpl<F>) -> Self {
        InspectChain { a: self.a.new_event(event, fsm), b: self.b.new_event(event, fsm) }
    }

    fn event_done<F: FsmBackend>(self, fsm: &FsmBackendImpl<F>) {
        self.a.event_done(fsm);
        self.b.event_done(fsm);
    }

    fn for_transition(&self, transition: usize) -> (r: Self)
        ensures
            call_ensures(A::for_transition, (&self.a, transition), r.a),
            call_ensures(B::for_transition, (&self.b, transition), r.b),
    {
        InspectChain { a: self.a.for_transition(transition), b: self.b.for_transition(transition) }
    }

    fn for_sub_machine(&self, state: usize) -> (r: Self)
        ensures
            call_ensures(A::for_sub_machine, (&self.a, state), r.a),
            call_ensures(B::for_sub_machine, (&self.b, state), r.b),
    {
        InspectChain { a: self.a.for_sub_machine(state), b: self.b.for_sub_machine(state) }
    }

    fn for_timer(&self, timer_id: usize) -> (r: Self)
        ensures
            call_ensures(A::for_timer, (&self.a, timer_id), r.a),
            call_ensures(B::for_timer, (&self.b, timer_id), r.b),
    {
        InspectChain { a: self.a.for_timer(timer_id), b: self.b.for_timer(timer_id) }
    }

    fn on_guard(&self, transition: usize, guard_result: bool) {
        self.a.on_guard(transition, guard_result);
        self.b.on_guard(transition, guard_result);
    }

    fn on_state_enter(&self, state: usize) {
        self.a.on_state_enter(state);
        self.b.on_state_enter(state);
    }

    fn on_state_exit(&self, state: usize) {
        self.a.on_state_exit(state);
        self.b.on_state_exit(state);
    }

    fn on_action(&self, transition: usize) {
        self.a.on_action(transition);
        self.b.on_action(transition);
    }

    fn on_error<E>(&self, msg: &str, error: &E) {
        self.a.on_error(msg, error);
        self.b.on_error(msg, error);
    }

    fn info(&self, msg: &str) {
        self.a.info(msg);
        self.b.info(msg);
    }
}

} // verus!
