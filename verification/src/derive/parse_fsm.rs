//! The rules that the builder calls of a definition function have to follow.

use vstd::prelude::*;
use crate::derive::parse::{
    EventGuardAction, FsmBlock, FsmDeclarations, FsmEvent, FsmEventTransition, FsmState,
    FsmStateAction, FsmStateTransition, FsmTransition, FsmTransitionEvent, FsmTransitionState,
    FsmTransitionType, MethodCall, ParseError,
};

verus! {

/// What the parser has collected: the initial state, the states and, for each event, its
/// transitions, all in declaration order.
pub ghost struct ParserModel {
    pub initial_state: Option<usize>,
    pub states: Seq<FsmState>,
    pub events: Seq<(usize, Seq<FsmEventTransition>)>,
}

pub open spec fn events_model(evs: Seq<FsmEvent>) -> Seq<(usize, Seq<FsmEventTransition>)> {
    Seq::new(evs.len(), |i: int| (evs[i].ty, evs[i].transitions@))
}

/// The position of the state of type `ty`, searching from `i` on.
pub open spec fn find_state(states: Seq<FsmState>, ty: usize, i: int) -> Option<int>
    decreases states.len() - i,
{
    if i < 0 || i >= states.len() {
        None
    } else if states[i].ty == ty {
        Some(i)
    } else {
        find_state(states, ty, i + 1)
    }
}

/// The position of the event of type `ty`, searching from `i` on.
pub open spec fn find_event(
    events: Seq<(usize, Seq<FsmEventTransition>)>,
    ty: usize,
    i: int,
) -> Option<int>
    decreases events.len() - i,
{
    if i < 0 || i >= events.len() {
        None
    } else if events[i].0 == ty {
        Some(i)
    } else {
        find_event(events, ty, i + 1)
    }
}

/// Adds a transition to the event of type `ty`, declaring the event if it is new.
pub open spec fn add_event_transition(
    events: Seq<(usize, Seq<FsmEventTransition>)>,
    ty: usize,
    t: FsmEventTransition,
) -> Seq<(usize, Seq<FsmEventTransition>)> {
    match find_event(events, ty, 0) {
        Some(k) => events.update(k, (ty, events[k].1.push(t))),
        None => events.push((ty, seq![t])),
    }
}

pub open spec fn named(m: MethodCall, name: Seq<char>) -> bool {
    m.name@ == name
}

/// The `guard` and `action` calls that end a transition's chain.
pub open spec fn spec_guard_action(ms: Seq<MethodCall>) -> Result<EventGuardAction, ParseError>
    decreases ms.len(),
{
    if ms.len() == 0 {
        Ok(EventGuardAction { guard: None, action: None })
    } else {
        match spec_guard_action(ms.drop_last()) {
            Err(e) => Err(e),
            Ok(ga) => {
                let m = ms.last();
                if named(m, "guard"@) {
                    match m.closure {
                        None => Err(ParseError::ExpectedClosure),
                        Some(c) => if ga.guard is Some {
                            Err(ParseError::DuplicateGuard)
                        } else {
                            Ok(EventGuardAction { guard: Some(c), ..ga })
                        },
                    }
                } else if named(m, "action"@) {
                    match m.closure {
                        None => Err(ParseError::ExpectedClosure),
                        Some(c) => if ga.action is Some {
                            Err(ParseError::DuplicateAction)
                        } else {
                            Ok(EventGuardAction { action: Some(c), ..ga })
                        },
                    }
                } else {
                    Err(ParseError::UnsupportedMethod)
                }
            },
        }
    }
}

/// The transition declared after `state.on_event::<E>()`.
pub open spec fn spec_state_on_event(state: usize, ms: Seq<MethodCall>) -> Result<
    FsmEventTransition,
    ParseError,
> {
    if ms.len() >= 1 && named(ms[0], "transition_to"@) && ms[0].generics@.len() == 1 {
        match spec_guard_action(ms.drop_first()) {
            Ok(ga) => Ok(FsmEventTransition::State(state, ms[0].generics@[0].ty, ga)),
            Err(e) => Err(e),
        }
    } else if ms.len() >= 1 && named(ms[0], "internal_transition"@) && ms[0].generics@.len() == 0 {
        match spec_guard_action(ms.drop_first()) {
            Ok(ga) => Ok(FsmEventTransition::InternalTransition(state, ga)),
            Err(e) => Err(e),
        }
    } else {
        Err(ParseError::UnsupportedMethods)
    }
}

/// The calls that follow `state::<S>()`: entry and exit closures, and at most one `on_event`,
/// which ends the chain with a transition.
pub open spec fn spec_state_chain(
    st: FsmState,
    events: Seq<(usize, Seq<FsmEventTransition>)>,
    rest: Seq<MethodCall>,
) -> Result<(FsmState, Seq<(usize, Seq<FsmEventTransition>)>), ParseError>
    decreases rest.len(),
{
    if rest.len() == 0 {
        Ok((st, events))
    } else {
        let m = rest[0];
        if named(m, "on_entry"@) {
            match m.closure {
                None => Err(ParseError::ExpectedClosure),
                Some(c) => if st.on_entry_closure is Some {
                    Err(ParseError::DuplicateOnEntry)
                } else {
                    spec_state_chain(FsmState { on_entry_closure: Some(c), ..st }, events, rest.drop_first())
                },
            }
        } else if named(m, "on_exit"@) {
            match m.closure {
                None => Err(ParseError::ExpectedClosure),
                Some(c) => if st.on_exit_closure is Some {
                    Err(ParseError::DuplicateOnExit)
                } else {
                    spec_state_chain(FsmState { on_exit_closure: Some(c), ..st }, events, rest.drop_first())
                },
            }
        } else if named(m, "on_event"@) && m.generics@.len() == 1 {
            let ev = m.generics@[0];
            if ev.has_generics {
                Err(ParseError::GenericsNotSupported(ev.ty))
            } else {
                match spec_state_on_event(st.ty, rest.drop_first()) {
                    Ok(t) => Ok((st, add_event_transition(events, ev.ty, t))),
                    Err(e) => Err(e),
                }
            }
        } else {
            Err(ParseError::UnsupportedStateMethod(m.name))
        }
    }
}

/// The parser after one statement of the definition function.
pub open spec fn spec_parse_block(p: ParserModel, ms: Seq<MethodCall>) -> Result<ParserModel, ParseError> {
    if ms.len() == 1 && named(ms[0], "build"@) {
        Ok(p)
    } else if ms.len() == 1 && named(ms[0], "initial_state"@) && ms[0].generics@.len() == 1 {
        let ty = ms[0].generics@[0];
        if ty.has_generics {
            Err(ParseError::GenericsNotSupported(ty.ty))
        } else if p.initial_state is Some {
            Err(ParseError::DuplicateInitialState(ty.ty))
        } else {
            Ok(ParserModel { initial_state: Some(ty.ty), ..p })
        }
    } else if ms.len() >= 1 && named(ms[0], "state"@) && ms[0].generics@.len() == 1 {
        let ty = ms[0].generics@[0];
        if ty.has_generics {
            Err(ParseError::GenericsNotSupported(ty.ty))
        } else {
            let states = match find_state(p.states, ty.ty, 0) {
                Some(_) => p.states,
                None => p.states.push(
                    FsmState { ty: ty.ty, on_entry_closure: None, on_exit_closure: None },
                ),
            };
            let idx = find_state(states, ty.ty, 0).unwrap();
            match spec_state_chain(states[idx], p.events, ms.drop_first()) {
                Ok((st, events)) => Ok(ParserModel { states: states.update(idx, st), events, ..p }),
                Err(e) => Err(e),
            }
        }
    } else {
        Err(ParseError::UnsupportedMethod)
    }
}

/// The parser after all of the given statements, in order; the first refused one decides.
pub open spec fn spec_parse_blocks(p: ParserModel, blocks: Seq<FsmBlock>) -> Result<ParserModel, ParseError>
    decreases blocks.len(),
{
    if blocks.len() == 0 {
        Ok(p)
    } else {
        match spec_parse_blocks(p, blocks.drop_last()) {
            Ok(q) => spec_parse_block(q, blocks.last().method_calls@),
            Err(e) => Err(e),
        }
    }
}


/// Every transition of every event, with its event, in declaration order.
pub open spec fn flat_transitions(evs: Seq<(usize, Seq<FsmEventTransition>)>) -> Seq<(usize, FsmEventTransition)>
    decreases evs.len(),
{
    if evs.len() == 0 {
        Seq::empty()
    } else {
        let (ev, ts) = evs.last();
        flat_transitions(evs.drop_last()) + ts.map_values(|t: FsmEventTransition| (ev, t))
    }
}

pub open spec fn declared(states: Seq<FsmState>, ty: usize) -> bool {
    find_state(states, ty, 0) is Some
}

/// The first state of the transition that is not declared: the source before the target.
pub open spec fn undeclared_state(states: Seq<FsmState>, t: FsmEventTransition) -> Option<usize> {
    match t {
        FsmEventTransition::State(from, to, _) => if !declared(states, from) {
            Some(from)
        } else if !declared(states, to) {
            Some(to)
        } else {
            None
        },
        FsmEventTransition::InternalTransition(st, _) => if !declared(states, st) {
            Some(st)
        } else {
            None
        },
        FsmEventTransition::SelfTransition(st, _) => if !declared(states, st) {
            Some(st)
        } else {
            None
        },
    }
}

/// The first undeclared state among the transitions from position `k` on.
pub open spec fn first_undeclared(
    states: Seq<FsmState>,
    flat: Seq<(usize, FsmEventTransition)>,
    k: int,
) -> Option<usize>
    decreases flat.len() - k,
{
    if k < 0 || k >= flat.len() {
        None
    } else {
        match undeclared_state(states, flat[k].1) {
            Some(x) => Some(x),
            None => first_undeclared(states, flat, k + 1),
        }
    }
}

/// The transition that the event `ev`'s transition `t` becomes, numbered `n`.
pub open spec fn to_transition(ev: usize, t: FsmEventTransition, n: usize) -> FsmTransition {
    match t {
        FsmEventTransition::State(from, to, action) => FsmTransition {
            ty: FsmTransitionType::StateTransition(
                FsmStateTransition {
                    state_from: FsmTransitionState::State(from),
                    state_to: FsmTransitionState::State(to),
                    action,
                    event: FsmTransitionEvent::Event(ev),
                },
            ),
            transition_ty: n,
        },
        FsmEventTransition::InternalTransition(st, action) => FsmTransition {
            ty: FsmTransitionType::InternalTransition(
                FsmStateAction { state: FsmTransitionState::State(st), event: FsmTransitionEvent::Event(ev), action },
            ),
            transition_ty: n,
        },
        FsmEventTransition::SelfTransition(st, action) => FsmTransition {
            ty: FsmTransitionType::SelfTransition(
                FsmStateAction { state: FsmTransitionState::State(st), event: FsmTransitionEvent::Event(ev), action },
            ),
            transition_ty: n,
        },
    }
}

/// The transition that starts the machine: from stopped into the initial state, numbered 1.
pub open spec fn start_transition(initial: usize) -> FsmTransition {
    FsmTransition {
        ty: FsmTransitionType::StateTransition(
            FsmStateTransition {
                state_from: FsmTransitionState::Stopped,
                state_to: FsmTransitionState::State(initial),
                action: EventGuardAction { guard: None, action: None },
                event: FsmTransitionEvent::Start,
            },
        ),
        transition_ty: 1,
    }
}

/// The declarations that the parser's contents validate to: the initial state, which is
/// declared, the states and events, and the transitions, none naming an undeclared state: the
/// start transition first, then every event's transitions in declaration order, numbered from
/// 1 on.
pub open spec fn validated_declarations(p: ParserModel, d: FsmDeclarations) -> bool {
    let flat = flat_transitions(p.events);
    let i = p.initial_state.unwrap();
    &&& p.initial_state is Some
    &&& declared(p.states, i)
    &&& first_undeclared(p.states, flat, 0) is None
    &&& d.initial_states@ == seq![i]
    &&& d.states@ == p.states
    &&& events_model(d.events@) == p.events
    &&& d.transitions@.len() == flat.len() + 1
    &&& d.transitions@[0] == start_transition(i)
    &&& forall|k: int|
        0 <= k < flat.len() ==> d.transitions@[k + 1] == to_transition(
            #[trigger] flat[k].0,
            flat[k].1,
            (k + 2) as usize,
        )
}

fn is_named(m: &MethodCall, name: &str) -> (r: bool)
    ensures
        r == named(*m, name@),
{
    m.name == String::from_str(name)
}

pub struct FsmParser {
    initial_state: Option<usize>,
    states: Vec<FsmState>,
    events: Vec<FsmEvent>,
}

impl FsmParser {
    pub closed spec fn view(&self) -> ParserModel {
        ParserModel {
            initial_state: self.initial_state,
            states: self.states@,
            events: events_model(self.events@),
        }
    }

    pub fn new() -> (r: Self)
        ensures
            r@ == (ParserModel { initial_state: None, states: Seq::empty(), events: Seq::empty() }),
    {
        let r = FsmParser { initial_state: None, states: Vec::new(), events: Vec::new() };
        assert(events_model(r.events@) =~= Seq::empty());
        r
    }

    fn exec_find_state(&self, ty: usize) -> (r: Option<usize>)
        ensures
            r matches Some(i) ==> find_state(self.states@, ty, 0) == Some(i as int),
            r is None ==> find_state(self.states@, ty, 0) is None,
    {
        let mut i: usize = 0;
        while i < self.states.len()
            invariant
                i <= self.states@.len(),
                find_state(self.states@, ty, 0) == find_state(self.states@, ty, i as int),
            decreases self.states@.len() - i,
        {
            if self.states[i].ty == ty {
                return Some(i);
            }
            i = i + 1;
        }
        None
    }

    fn exec_find_event(events: &Vec<FsmEvent>, ty: usize) -> (r: Option<usize>)
        ensures
            r matches Some(i) ==> find_event(events_model(events@), ty, 0) == Some(i as int) && i
                < events@.len(),
            r is None ==> find_event(events_model(events@), ty, 0) is None,
    {
        let ghost em = events_model(events@);
        let mut i: usize = 0;
        while i < events.len()
            invariant
                em == events_model(events@),
                i <= events@.len(),
                find_event(em, ty, 0) == find_event(em, ty, i as int),
            decreases events@.len() - i,
        {
            if events[i].ty == ty {
                return Some(i);
            }
            i = i + 1;
        }
        None
    }

    fn add_transition(events: &mut Vec<FsmEvent>, ty: usize, t: FsmEventTransition)
        ensures
            events_model(final(events)@) == add_event_transition(events_model(old(events)@), ty, t),
    {
        match Self::exec_find_event(events, ty) {
            Some(k) => {
                proof { lemma_find_event_found(events_model(events@), ty, 0); }
                let ghost old_e = events@[k as int];
                let mut e = events.remove(k);
                e.transitions.push(t);
                events.insert(k, e);
                assert(events@ =~= old(events)@.update(k as int, FsmEvent { ty: old_e.ty, transitions: events@[k as int].transitions }));
                assert(events@[k as int].transitions@ == old_e.transitions@.push(t));
                assert(events_model(events@) =~= add_event_transition(
                    events_model(old(events)@),
                    ty,
                    t,
                ));
            },
            None => {
                let mut ts: Vec<FsmEventTransition> = Vec::new();
                ts.push(t);
                events.push(FsmEvent { ty, transitions: ts });
                assert(events_model(events@) =~= add_event_transition(
                    events_model(old(events)@),
                    ty,
                    t,
                ));
            },
        }
    }

    fn parse_event_guard_action(ms: &[MethodCall], start: usize) -> (r: Result<
        EventGuardAction,
        ParseError,
    >)
        requires
            start <= ms@.len(),
        ensures
            r == spec_guard_action(ms@.skip(start as int)),
    {
        let ghost all = ms@.skip(start as int);
        let mut ga = EventGuardAction { guard: None, action: None };
        let mut i: usize = start;
        assert(all.take(0) =~= Seq::<MethodCall>::empty());
        while i < ms.len()
            invariant
                start <= i <= ms@.len(),
                all == ms@.skip(start as int),
                spec_guard_action(all.take(i - start)) == Ok::<EventGuardAction, ParseError>(ga),
            decreases ms@.len() - i,
        {
            assert(all.take(i - start + 1).drop_last() =~= all.take(i - start));
            assert(all.take(i - start + 1).last() == ms@[i as int]);
            let m = &ms[i];
            if is_named(m, "guard") {
                match m.closure {
                    None => {
                        proof { lemma_guard_action_prefix_err(all, i - start + 1); }
                        return Err(ParseError::ExpectedClosure);
                    },
                    Some(c) => {
                        if ga.guard.is_some() {
                            proof { lemma_guard_action_prefix_err(all, i - start + 1); }
                            return Err(ParseError::DuplicateGuard);
                        }
                        ga = EventGuardAction { guard: Some(c), ..ga };
                    },
                }
            } else if is_named(m, "action") {
                match m.closure {
                    None => {
                        proof { lemma_guard_action_prefix_err(all, i - start + 1); }
                        return Err(ParseError::ExpectedClosure);
                    },
                    Some(c) => {
                        if ga.action.is_some() {
                            proof { lemma_guard_action_prefix_err(all, i - start + 1); }
                            return Err(ParseError::DuplicateAction);
                        }
                        ga = EventGuardAction { action: Some(c), ..ga };
                    },
                }
            } else {
                proof { lemma_guard_action_prefix_err(all, i - start + 1); }
                return Err(ParseError::UnsupportedMethod);
            }
            i = i + 1;
        }
        assert(all.take(all.len() as int) =~= all);
        Ok(ga)
    }

    fn parse_state_on_event(state: usize, ms: &[MethodCall], start: usize) -> (r: Result<
        FsmEventTransition,
        ParseError,
    >)
        requires
            start <= ms@.len(),
        ensures
            r == spec_state_on_event(state, ms@.skip(start as int)),
    {
        let ghost rest = ms@.skip(start as int);
        if start < ms.len() && is_named(&ms[start], "transition_to") && ms[start].generics.len() == 1 {
            assert(rest.drop_first() =~= ms@.skip(start + 1));
            let ga = Self::parse_event_guard_action(ms, start + 1)?;
            Ok(FsmEventTransition::State(state, ms[start].generics[0].ty, ga))
        } else if start < ms.len() && is_named(&ms[start], "internal_transition")
            && ms[start].generics.len() == 0 {
            assert(rest.drop_first() =~= ms@.skip(start + 1));
            let ga = Self::parse_event_guard_action(ms, start + 1)?;
            Ok(FsmEventTransition::InternalTransition(state, ga))
        } else {
            Err(ParseError::UnsupportedMethods)
        }
    }

    fn parse_state_chain(
        st: FsmState,
        events: &mut Vec<FsmEvent>,
        ms: &[MethodCall],
        start: usize,
    ) -> (r: Result<FsmState, ParseError>)
        requires
            start <= ms@.len(),
        ensures
            r matches Ok(s) ==> spec_state_chain(st, events_model(old(events)@), ms@.skip(start as int))
                == Ok::<(FsmState, Seq<(usize, Seq<FsmEventTransition>)>), ParseError>(
                (s, events_model(final(events)@)),
            ),
            r matches Err(e) ==> spec_state_chain(st, events_model(old(events)@), ms@.skip(start as int))
                == Err::<(FsmState, Seq<(usize, Seq<FsmEventTransition>)>), ParseError>(e),
    {
        let ghost goal = spec_state_chain(st, events_model(events@), ms@.skip(start as int));
        let mut cur = st;
        let mut i: usize = start;
        while i < ms.len()
            invariant
                start <= i <= ms@.len(),
                goal == spec_state_chain(st, events_model(old(events)@), ms@.skip(start as int)),
                goal == spec_state_chain(cur, events_model(events@), ms@.skip(i as int)),
            decreases ms@.len() - i,
        {
            assert(ms@.skip(i as int)[0] == ms@[i as int]);
            assert(ms@.skip(i as int).drop_first() =~= ms@.skip(i + 1));
            let m = &ms[i];
            if is_named(m, "on_entry") {
                match m.closure {
                    None => {
                        return Err(ParseError::ExpectedClosure);
                    },
                    Some(c) => {
                        if cur.on_entry_closure.is_some() {
                            return Err(ParseError::DuplicateOnEntry);
                        }
                        cur = FsmState { on_entry_closure: Some(c), ..cur };
                    },
                }
            } else if is_named(m, "on_exit") {
                match m.closure {
                    None => {
                        return Err(ParseError::ExpectedClosure);
                    },
                    Some(c) => {
                        if cur.on_exit_closure.is_some() {
                            return Err(ParseError::DuplicateOnExit);
                        }
                        cur = FsmState { on_exit_closure: Some(c), ..cur };
                    },
                }
            } else if is_named(m, "on_event") && m.generics.len() == 1 {
                let ev = m.generics[0];
                if ev.has_generics {
                    return Err(ParseError::GenericsNotSupported(ev.ty));
                }
                let t = Self::parse_state_on_event(cur.ty, ms, i + 1)?;
                Self::add_transition(events, ev.ty, t);
                return Ok(cur);
            } else {
                return Err(ParseError::UnsupportedStateMethod(m.name.clone()));
            }
            i = i + 1;
        }
        Ok(cur)
    }

    fn parse_block(&mut self, ms: &Vec<MethodCall>) -> (r: Result<(), ParseError>)
        ensures
            r is Ok ==> spec_parse_block(old(self)@, ms@) == Ok::<ParserModel, ParseError>(final(self)@),
            r matches Err(e) ==> spec_parse_block(old(self)@, ms@) == Err::<ParserModel, ParseError>(e),
    {
        if ms.len() == 1 && is_named(&ms[0], "build") {
            Ok(())
        } else if ms.len() == 1 && is_named(&ms[0], "initial_state") && ms[0].generics.len() == 1 {
            let ty = ms[0].generics[0];
            if ty.has_generics {
                return Err(ParseError::GenericsNotSupported(ty.ty));
            }
            if self.initial_state.is_some() {
                return Err(ParseError::DuplicateInitialState(ty.ty));
            }
            self.initial_state = Some(ty.ty);
            Ok(())
        } else if ms.len() >= 1 && is_named(&ms[0], "state") && ms[0].generics.len() == 1 {
            let ty = ms[0].generics[0];
            if ty.has_generics {
                return Err(ParseError::GenericsNotSupported(ty.ty));
            }
            let idx = match self.exec_find_state(ty.ty) {
                Some(i) => i,
                None => {
                    let ghost before = self.states@;
                    self.states.push(FsmState { ty: ty.ty, on_entry_closure: None, on_exit_closure: None });
                    proof { lemma_find_state_push(before, ty.ty); }
                    self.states.len() - 1
                },
            };
            proof { lemma_find_state_found(self.states@, ty.ty, 0); }
            assert(ms@.drop_first() =~= ms@.skip(1));
            let st = self.states[idx];
            let st2 = Self::parse_state_chain(st, &mut self.events, ms.as_slice(), 1)?;
            self.states.set(idx, st2);
            Ok(())
        } else {
            Err(ParseError::UnsupportedMethod)
        }
    }

    fn flatten(events: &Vec<FsmEvent>) -> (r: Vec<(usize, FsmEventTransition)>)
        ensures
            r@ == flat_transitions(events_model(events@)),
    {
        let ghost em = events_model(events@);
        let mut out: Vec<(usize, FsmEventTransition)> = Vec::new();
        let mut e: usize = 0;
        while e < events.len()
            invariant
                em == events_model(events@),
                e <= events@.len(),
                out@ == flat_transitions(em.take(e as int)),
            decreases events@.len() - e,
        {
            let ev = events[e].ty;
            let n = events[e].transitions.len();
            let ghost ts = em[e as int].1;
            let ghost base = out@;
            let mut j: usize = 0;
            while j < n
                invariant
                    em == events_model(events@),
                    e < events@.len(),
                    ts == em[e as int].1,
                    ev == em[e as int].0,
                    n == ts.len(),
                    j <= n,
                    out@ == base + ts.take(j as int).map_values(|t: FsmEventTransition| (ev, t)),
                decreases n - j,
            {
                out.push((ev, events[e].transitions[j]));
                assert(ts.take(j + 1).map_values(|t: FsmEventTransition| (ev, t)) =~= ts.take(
                    j as int,
                ).map_values(|t: FsmEventTransition| (ev, t)).push((ev, ts[j as int])));
                j = j + 1;
            }
            assert(ts.take(n as int) =~= ts);
            assert(em.take(e + 1).drop_last() =~= em.take(e as int));
            assert(em.take(e + 1).last() == em[e as int]);
            e = e + 1;
        }
        assert(em.take(events@.len() as int) =~= em);
        out
    }

    fn exec_undeclared_state(&self, t: FsmEventTransition) -> (r: Option<usize>)
        ensures
            r == undeclared_state(self.states@, t),
    {
        match t {
            FsmEventTransition::State(from, to, _) => {
                if self.exec_find_state(from).is_none() {
                    Some(from)
                } else if self.exec_find_state(to).is_none() {
                    Some(to)
                } else {
                    None
                }
            },
            FsmEventTransition::InternalTransition(st, _) | FsmEventTransition::SelfTransition(st, _) => {
                if self.exec_find_state(st).is_none() {
                    Some(st)
                } else {
                    None
                }
            },
        }
    }

    fn exec_to_transition(ev: usize, t: FsmEventTransition, n: usize) -> (r: FsmTransition)
        ensures
            r == to_transition(ev, t, n),
    {
        match t {
            FsmEventTransition::State(from, to, action) => FsmTransition {
                ty: FsmTransitionType::StateTransition(
                    FsmStateTransition {
                        state_from: FsmTransitionState::State(from),
                        state_to: FsmTransitionState::State(to),
                        action,
                        event: FsmTransitionEvent::Event(ev),
                    },
                ),
                transition_ty: n,
            },
            FsmEventTransition::InternalTransition(st, action) => FsmTransition {
                ty: FsmTransitionType::InternalTransition(
                    FsmStateAction {
                        state: FsmTransitionState::State(st),
                        event: FsmTransitionEvent::Event(ev),
                        action,
                    },
                ),
                transition_ty: n,
            },
            FsmEventTransition::SelfTransition(st, action) => FsmTransition {
                ty: FsmTransitionType::SelfTransition(
                    FsmStateAction {
                        state: FsmTransitionState::State(st),
                        event: FsmTransitionEvent::Event(ev),
                        action,
                    },
                ),
                transition_ty: n,
            },
        }
    }

    /// Checks the declarations and builds the table of transitions: the start transition into
    /// the initial state first, then every event's transitions, in declaration order, numbered
    /// from 1 on.
    pub fn validate(self) -> (r: Result<FsmDeclarations, ParseError>)
        ensures
            self@.initial_state is None ==> r == Err::<FsmDeclarations, ParseError>(ParseError::MissingInitialState),
            self@.initial_state matches Some(i) ==> {
                let flat = flat_transitions(self@.events);
                &&& !declared(self@.states, i) ==> r == Err::<FsmDeclarations, ParseError>(
                    ParseError::InitialStateNotDeclared(i),
                )
                &&& declared(self@.states, i) ==> match first_undeclared(self@.states, flat, 0) {
                    Some(x) => r == Err::<FsmDeclarations, ParseError>(ParseError::StateNotFound(x)),
                    None => flat.len() + 2 <= usize::MAX ==> r is Ok,
                }
            },
            r matches Err(e) ==> e != ParseError::Inconsistent ==> !(self@.initial_state matches Some(i)
                && declared(self@.states, i) && first_undeclared(self@.states, flat_transitions(self@.events), 0) is None),
            r matches Ok(d) ==> validated_declarations(self@, d),
    {
        let initial = match self.initial_state {
            Some(i) => i,
            None => {
                return Err(ParseError::MissingInitialState);
            },
        };
        if self.exec_find_state(initial).is_none() {
            return Err(ParseError::InitialStateNotDeclared(initial));
        }
        assert(declared(self@.states, initial));
        let flat = Self::flatten(&self.events);
        let mut transitions: Vec<FsmTransition> = Vec::new();
        transitions.push(
            FsmTransition {
                ty: FsmTransitionType::StateTransition(
                    FsmStateTransition {
                        action: EventGuardAction { guard: None, action: None },
                        event: FsmTransitionEvent::Start,
                        state_from: FsmTransitionState::Stopped,
                        state_to: FsmTransitionState::State(initial),
                    },
                ),
                transition_ty: 1,
            },
        );
        let mut c: usize = 0;
        while c < flat.len()
            invariant
                self@.initial_state == Some(initial),
                declared(self@.states, initial),
                flat@ == flat_transitions(self@.events),
                c <= flat@.len(),
                first_undeclared(self@.states, flat@, 0) == first_undeclared(self@.states, flat@, c as int),
            decreases flat@.len() - c,
        {
            let (_, t) = flat[c];
            match self.exec_undeclared_state(t) {
                Some(x) => {
                    return Err(ParseError::StateNotFound(x));
                },
                None => {},
            }
            c = c + 1;
        }
        let mut k: usize = 0;
        while k < flat.len()
            invariant
                self@.initial_state == Some(initial),
                declared(self@.states, initial),
                first_undeclared(self@.states, flat_transitions(self@.events), 0) is None,
                flat@ == flat_transitions(self@.events),
                k <= flat@.len(),
                transitions@.len() == k + 1,
                transitions@[0] == start_transition(initial),
                forall|j: int|
                    0 <= j < k ==> transitions@[j + 1] == to_transition(
                        #[trigger] flat@[j].0,
                        flat@[j].1,
                        (j + 2) as usize,
                    ),
            decreases flat@.len() - k,
        {
            let (ev, t) = flat[k];
            let n = match k.checked_add(2) {
                Some(n) => n,
                None => {
                    return Err(ParseError::Inconsistent);
                },
            };
            transitions.push(Self::exec_to_transition(ev, t, n));
            k = k + 1;
        }
        let FsmParser { initial_state: _, states, events } = self;
        let mut initial_states: Vec<usize> = Vec::new();
        initial_states.push(initial);
        proof {
            assert(initial_states@ =~= seq![initial]);
        }
        Ok(FsmDeclarations { initial_states, states, events, transitions })
    }

    /// Reads the statements of a definition function, in order. The parser's contents after a
    /// refused statement are not specified.
    pub fn parse(&mut self, blocks: &Vec<FsmBlock>) -> (r: Result<(), ParseError>)
        ensures
            r is Ok ==> spec_parse_blocks(old(self)@, blocks@) == Ok::<ParserModel, ParseError>(final(self)@),
            r matches Err(e) ==> spec_parse_blocks(old(self)@, blocks@) == Err::<ParserModel, ParseError>(e),
    {
        let ghost p0 = self@;
        let mut i: usize = 0;
        assert(blocks@.take(0) =~= Seq::<FsmBlock>::empty());
        while i < blocks.len()
            invariant
                i <= blocks@.len(),
                p0 == old(self)@,
                spec_parse_blocks(p0, blocks@.take(i as int)) == Ok::<ParserModel, ParseError>(self@),
            decreases blocks@.len() - i,
        {
            assert(blocks@.take(i + 1).drop_last() =~= blocks@.take(i as int));
            let r = self.parse_block(&blocks[i].method_calls);
            if let Err(e) = r {
                proof { lemma_parse_blocks_prefix_err(p0, blocks@, i + 1); }
                return Err(e);
            }
            i = i + 1;
        }
        assert(blocks@.take(blocks@.len() as int) =~= blocks@);
        Ok(())
    }
}

proof fn lemma_guard_action_prefix_err(ms: Seq<MethodCall>, k: int)
    requires
        0 <= k <= ms.len(),
        spec_guard_action(ms.take(k)) is Err,
    ensures
        spec_guard_action(ms) == spec_guard_action(ms.take(k)),
    decreases ms.len(),
{
    if k == ms.len() {
        assert(ms.take(k) =~= ms);
    } else {
        assert(ms.drop_last().take(k) =~= ms.take(k));
        lemma_guard_action_prefix_err(ms.drop_last(), k);
    }
}

proof fn lemma_parse_blocks_prefix_err(p: ParserModel, bs: Seq<FsmBlock>, k: int)
    requires
        0 <= k <= bs.len(),
        spec_parse_blocks(p, bs.take(k)) is Err,
    ensures
        spec_parse_blocks(p, bs) == spec_parse_blocks(p, bs.take(k)),
    decreases bs.len(),
{
    if k == bs.len() {
        assert(bs.take(k) =~= bs);
    } else {
        assert(bs.drop_last().take(k) =~= bs.take(k));
        lemma_parse_blocks_prefix_err(p, bs.drop_last(), k);
    }
}

proof fn lemma_find_state_push(states: Seq<FsmState>, ty: usize)
    requires
        find_state(states, ty, 0) is None,
    ensures
        find_state(
            states.push(FsmState { ty, on_entry_closure: None, on_exit_closure: None }),
            ty,
            0,
        ) == Some(states.len() as int),
{
    lemma_find_state_push_from(states, ty, 0);
}

proof fn lemma_find_state_push_from(states: Seq<FsmState>, ty: usize, i: int)
    requires
        0 <= i <= states.len(),
        find_state(states, ty, i) is None,
    ensures
        find_state(
            states.push(FsmState { ty, on_entry_closure: None, on_exit_closure: None }),
            ty,
            i,
        ) == Some(states.len() as int),
    decreases states.len() - i,
{
    if i < states.len() {
        lemma_find_state_push_from(states, ty, i + 1);
    }
}

proof fn lemma_find_event_found(events: Seq<(usize, Seq<FsmEventTransition>)>, ty: usize, i: int)
    ensures
        find_event(events, ty, i) matches Some(k) ==> i <= k < events.len() && events[k].0 == ty,
    decreases events.len() - i,
{
    if 0 <= i < events.len() && events[i].0 != ty {
        lemma_find_event_found(events, ty, i + 1);
    }
}

proof fn lemma_find_state_found(states: Seq<FsmState>, ty: usize, i: int)
    ensures
        find_state(states, ty, i) matches Some(k) ==> i <= k < states.len() && states[k].ty == ty,
    decreases states.len() - i,
{
    if 0 <= i < states.len() && states[i].ty != ty {
        lemma_find_state_found(states, ty, i + 1);
    }
}

/// No two of the states have the same type.
pub open spec fn distinct_state_types(states: Seq<FsmState>) -> bool {
    forall|a: int, b: int|
        0 <= a < b < states.len() ==> (#[trigger] states[a]).ty != (#[trigger] states[b]).ty
}

proof fn lemma_find_state_absent(states: Seq<FsmState>, ty: usize, i: int)
    requires
        0 <= i,
        find_state(states, ty, i) is None,
    ensures
        forall|k: int| i <= k < states.len() ==> (#[trigger] states[k]).ty != ty,
    decreases states.len() - i,
{
    if i < states.len() {
        lemma_find_state_absent(states, ty, i + 1);
    }
}

proof fn lemma_state_chain_keeps_type(
    st: FsmState,
    events: Seq<(usize, Seq<FsmEventTransition>)>,
    rest: Seq<MethodCall>,
)
    ensures
        spec_state_chain(st, events, rest) matches Ok((st2, _)) ==> st2.ty == st.ty,
    decreases rest.len(),
{
    if rest.len() > 0 {
        if let Some(c) = rest[0].closure {
            lemma_state_chain_keeps_type(FsmState { on_entry_closure: Some(c), ..st }, events, rest.drop_first());
            lemma_state_chain_keeps_type(FsmState { on_exit_closure: Some(c), ..st }, events, rest.drop_first());
        }
    }
}

proof fn lemma_parse_block_distinct(p: ParserModel, ms: Seq<MethodCall>)
    requires
        distinct_state_types(p.states),
    ensures
        spec_parse_block(p, ms) matches Ok(q) ==> distinct_state_types(q.states),
{
    if ms.len() >= 1 && ms[0].generics@.len() == 1 {
        let ty = ms[0].generics@[0].ty;
        let states = match find_state(p.states, ty, 0) {
            Some(_) => p.states,
            None => p.states.push(FsmState { ty: ty, on_entry_closure: None, on_exit_closure: None }),
        };
        if find_state(p.states, ty, 0) is None {
            lemma_find_state_absent(p.states, ty, 0);
            lemma_find_state_push(p.states, ty);
        }
        assert(distinct_state_types(states));
        lemma_find_state_found(states, ty, 0);
        let idx = find_state(states, ty, 0).unwrap();
        lemma_state_chain_keeps_type(states[idx], p.events, ms.drop_first());
        if let Ok((st, events)) = spec_state_chain(states[idx], p.events, ms.drop_first()) {
            let up = states.update(idx, st);
            assert forall|a: int, b: int| 0 <= a < b < up.len() implies (#[trigger] up[a]).ty != (#[trigger] up[b]).ty by {
                assert(up[a].ty == states[a].ty);
                assert(up[b].ty == states[b].ty);
            }
        }
    }
}

/// Law: the parser never declares two states of one type: after any statements that it
/// accepts, starting from states with distinct types, the states still have distinct types.
pub proof fn lemma_parse_blocks_distinct(p: ParserModel, bs: Seq<FsmBlock>)
    requires
        distinct_state_types(p.states),
    ensures
        spec_parse_blocks(p, bs) matches Ok(q) ==> distinct_state_types(q.states),
    decreases bs.len(),
{
    if bs.len() > 0 {
        lemma_parse_blocks_distinct(p, bs.drop_last());
        if let Ok(q) = spec_parse_blocks(p, bs.drop_last()) {
            lemma_parse_block_distinct(q, bs.last().method_calls@);
        }
    }
}

proof fn lemma_state_chain_keeps_closures(
    st: FsmState,
    events: Seq<(usize, Seq<FsmEventTransition>)>,
    rest: Seq<MethodCall>,
)
    ensures
        spec_state_chain(st, events, rest) matches Ok((st2, _)) ==> {
            &&& st2.ty == st.ty
            &&& st.on_entry_closure is Some ==> st2.on_entry_closure == st.on_entry_closure
            &&& st.on_exit_closure is Some ==> st2.on_exit_closure == st.on_exit_closure
        },
    decreases rest.len(),
{
    if rest.len() > 0 {
        if let Some(c) = rest[0].closure {
            lemma_state_chain_keeps_closures(FsmState { on_entry_closure: Some(c), ..st }, events, rest.drop_first());
            lemma_state_chain_keeps_closures(FsmState { on_exit_closure: Some(c), ..st }, events, rest.drop_first());
        }
    }
}

/// Every declared state of `q` that `p` declares too keeps its type and the entry and exit
/// closures `p` gave it.
pub open spec fn keeps_declared_states(p: ParserModel, q: ParserModel) -> bool {
    &&& q.states.len() >= p.states.len()
    &&& forall|i: int|
        0 <= i < p.states.len() ==> {
            &&& (#[trigger] q.states[i]).ty == p.states[i].ty
            &&& p.states[i].on_entry_closure is Some ==> q.states[i].on_entry_closure == p.states[i].on_entry_closure
            &&& p.states[i].on_exit_closure is Some ==> q.states[i].on_exit_closure == p.states[i].on_exit_closure
        }
}

/// Law: a statement only adds to the states declared before it: a state declared again keeps
/// its type and the entry and exit closures given earlier, and no state is dropped.
pub proof fn lemma_parse_block_keeps_states(p: ParserModel, ms: Seq<MethodCall>)
    ensures
        spec_parse_block(p, ms) matches Ok(q) ==> keeps_declared_states(p, q),
{
    if ms.len() >= 1 && ms[0].generics@.len() == 1 {
        let ty = ms[0].generics@[0].ty;
        let states = match find_state(p.states, ty, 0) {
            Some(_) => p.states,
            None => p.states.push(FsmState { ty: ty, on_entry_closure: None, on_exit_closure: None }),
        };
        if find_state(p.states, ty, 0) is None {
            lemma_find_state_push(p.states, ty);
        }
        lemma_find_state_found(states, ty, 0);
        let idx = find_state(states, ty, 0).unwrap();
        lemma_state_chain_keeps_closures(states[idx], p.events, ms.drop_first());
        if let Ok((st, events)) = spec_state_chain(states[idx], p.events, ms.drop_first()) {
            let up = states.update(idx, st);
            assert forall|i: int| 0 <= i < p.states.len() implies {
                &&& (#[trigger] up[i]).ty == p.states[i].ty
                &&& p.states[i].on_entry_closure is Some ==> up[i].on_entry_closure == p.states[i].on_entry_closure
                &&& p.states[i].on_exit_closure is Some ==> up[i].on_exit_closure == p.states[i].on_exit_closure
            } by {
                assert(states[i] == p.states[i]);
            }
        }
    }
}

/// Law: after any statements that the parser accepts, every state declared by the first of
/// them keeps its type and the entry and exit closures declared for it; later statements
/// naming the same state only add to it.
pub proof fn lemma_parse_blocks_keep_states(p: ParserModel, bs: Seq<FsmBlock>)
    ensures
        spec_parse_blocks(p, bs) matches Ok(q) ==> keeps_declared_states(p, q),
    decreases bs.len(),
{
    if bs.len() > 0 {
        lemma_parse_blocks_keep_states(p, bs.drop_last());
        if let Ok(q1) = spec_parse_blocks(p, bs.drop_last()) {
            lemma_parse_block_keeps_states(q1, bs.last().method_calls@);
            if let Ok(q) = spec_parse_block(q1, bs.last().method_calls@) {
                assert forall|i: int| 0 <= i < p.states.len() implies {
                    &&& (#[trigger] q.states[i]).ty == p.states[i].ty
                    &&& p.states[i].on_entry_closure is Some ==> q.states[i].on_entry_closure == p.states[i].on_entry_closure
                    &&& p.states[i].on_exit_closure is Some ==> q.states[i].on_exit_closure == p.states[i].on_exit_closure
                } by {
                    assert(q1.states[i].ty == p.states[i].ty);
                    assert(q.states[i].ty == q1.states[i].ty);
                }
            }
        }
    } else {
        assert(spec_parse_blocks(p, bs) == Ok::<ParserModel, ParseError>(p));
    }
}

} // verus!
