//! The description of a machine read from its definition function: the builder calls of
//! each statement, with types and closures numbered, turned into the machine's states,
//! events, sub-machines, timers and numbered transitions.

use vstd::prelude::*;
use crate::classic::inspect_data::str_equal;

verus! {

/// One builder call of a statement: its name, its generic type arguments and, when its
/// first argument is a closure, that closure.
#[derive(Debug, Clone)]
pub struct ClassicCall {
    pub method: String,
    pub generics: Vec<usize>,
    pub closure: Option<usize>,
}

/// A statement of the definition function: a chain of builder calls, the first one first.
#[derive(Debug, Clone)]
pub struct ClassicStatement {
    pub calls: Vec<ClassicCall>,
}

#[derive(Debug, Clone, Copy, PartialEq, Eq, Structural)]
pub enum ClassicTransitionType {
    Normal,
    SelfTransition,
    Internal,
}

/// A transition; `action` and `guard` are closures.
#[derive(Debug, Clone, Copy)]
pub struct ClassicTransition {
    pub id: u32,
    pub source: usize,
    pub event: usize,
    pub target: usize,
    pub transition_type: ClassicTransitionType,
    pub action: Option<usize>,
    pub guard: Option<usize>,
}

/// A state declared in the definition, with its entry and exit closures.
#[derive(Debug, Clone, Copy)]
pub struct ClassicState {
    pub ty: usize,
    pub unit: bool,
    pub on_entry: Option<usize>,
    pub on_exit: Option<usize>,
}

#[derive(Debug, Clone, Copy)]
pub struct ClassicEvent {
    pub ty: usize,
    pub unit: bool,
}

#[derive(Debug, Clone, Copy)]
pub struct ClassicSubMachine {
    pub ty: usize,
    pub on_entry: Option<usize>,
    pub on_exit: Option<usize>,
}

/// A timer started in `state`, which enqueues `event` on timeout; `closure` sets it up.
#[derive(Debug, Clone, Copy)]
pub struct ClassicTimer {
    pub id: u32,
    pub state: usize,
    pub event: usize,
    pub closure: usize,
}

/// A closure of a transition: the transition's id and the closure.
#[derive(Debug, Clone, Copy)]
pub struct ClassicTransitionClosure {
    pub transition_id: u32,
    pub closure: usize,
}

/// Everything the definition declares, in declaration order. Transitions are numbered from 1
/// on, timers from 0 on. `interrupt_states` pairs a state with the event that resumes from
/// it; `shallow_history` pairs an event with the state whose history it restores.
#[derive(Debug, Clone)]
pub struct ClassicDescription {
    pub copyable_events: bool,
    pub transitions: Vec<ClassicTransition>,
    pub states: Vec<ClassicState>,
    pub events: Vec<ClassicEvent>,
    pub sub_machines: Vec<ClassicSubMachine>,
    pub timers: Vec<ClassicTimer>,
    pub interrupt_states: Vec<(usize, usize)>,
    pub shallow_history: Vec<(usize, usize)>,
    pub actions: Vec<ClassicTransitionClosure>,
    pub guards: Vec<ClassicTransitionClosure>,
}

/// Why a definition function is refused.
#[derive(Debug, Clone, Copy, PartialEq, Eq, Structural)]
pub enum ClassicDefinitionError {
    /// The call needs exactly one generic type argument.
    ExpectedSingleGeneric,
    /// A state timeout needs the state and the event as generic arguments.
    ExpectedTimerGenerics,
    /// The call's argument has to be a closure.
    ExpectedClosure,
    /// Only `on_entry` and `on_exit` may follow a state declaration.
    UnsupportedStateMethod,
    /// Only `on_entry` and `on_exit` may follow a sub-machine declaration.
    UnsupportedSubMachineMethod,
    /// A transition, action or guard without a source state.
    MissingSourceState,
    /// A normal transition, action or guard without a target state.
    MissingTargetState,
    /// The declaration of the machine names no machine type.
    MissingFsmType,
    /// The declaration of the machine names no initial state.
    MissingInitialState,
}

/// The description as plain values.
pub ghost struct ClassicModel {
    pub copyable_events: bool,
    pub transitions: Seq<ClassicTransition>,
    pub states: Seq<ClassicState>,
    pub events: Seq<ClassicEvent>,
    pub sub_machines: Seq<ClassicSubMachine>,
    pub timers: Seq<ClassicTimer>,
    pub interrupt_states: Seq<(usize, usize)>,
    pub shallow_history: Seq<(usize, usize)>,
    pub actions: Seq<ClassicTransitionClosure>,
    pub guards: Seq<ClassicTransitionClosure>,
}

impl ClassicDescription {
    pub open spec fn view(&self) -> ClassicModel {
        ClassicModel {
            copyable_events: self.copyable_events,
            transitions: self.transitions@,
            states: self.states@,
            events: self.events@,
            sub_machines: self.sub_machines@,
            timers: self.timers@,
            interrupt_states: self.interrupt_states@,
            shallow_history: self.shallow_history@,
            actions: self.actions@,
            guards: self.guards@,
        }
    }
}

/// The description before the first statement.
pub open spec fn empty_model() -> ClassicModel {
    ClassicModel {
        copyable_events: false,
        transitions: Seq::empty(),
        states: Seq::empty(),
        events: Seq::empty(),
        sub_machines: Seq::empty(),
        timers: Seq::empty(),
        interrupt_states: Seq::empty(),
        shallow_history: Seq::empty(),
        actions: Seq::empty(),
        guards: Seq::empty(),
    }
}

/// The call's single generic type argument.
pub open spec fn single_generic(c: ClassicCall) -> Result<usize, ClassicDefinitionError> {
    if c.generics@.len() == 1 {
        Ok(c.generics@[0])
    } else {
        Err(ClassicDefinitionError::ExpectedSingleGeneric)
    }
}

/// The entry and exit closures that the calls from `i` on set, the last call deciding;
/// `unsupported` for any other call.
pub open spec fn spec_closures(
    calls: Seq<ClassicCall>,
    i: int,
    entry: Option<usize>,
    exit: Option<usize>,
    unsupported: ClassicDefinitionError,
) -> Result<(Option<usize>, Option<usize>), ClassicDefinitionError>
    decreases calls.len() - i,
{
    if i < 0 || i >= calls.len() {
        Ok((entry, exit))
    } else if calls[i].method@ == "on_entry"@ {
        match calls[i].closure {
            None => Err(ClassicDefinitionError::ExpectedClosure),
            Some(c) => spec_closures(calls, i + 1, Some(c), exit, unsupported),
        }
    } else if calls[i].method@ == "on_exit"@ {
        match calls[i].closure {
            None => Err(ClassicDefinitionError::ExpectedClosure),
            Some(c) => spec_closures(calls, i + 1, entry, Some(c), unsupported),
        }
    } else {
        Err(unsupported)
    }
}

/// What the calls after `on_event` have set so far.
pub ghost struct EventChain {
    pub transition_type: ClassicTransitionType,
    pub from: Option<usize>,
    pub to: Option<usize>,
    pub action: Option<usize>,
    pub guard: Option<usize>,
    pub entry: bool,
}

pub open spec fn empty_chain() -> EventChain {
    EventChain {
        transition_type: ClassicTransitionType::Normal,
        from: None,
        to: None,
        action: None,
        guard: None,
        entry: false,
    }
}

/// The id the next transition gets.
pub open spec fn next_transition_id(m: ClassicModel) -> u32 {
    (m.transitions.len() + 1) as u32
}

/// One call after `on_event::<event>()`. Unknown calls are ignored.
pub open spec fn spec_event_call(
    m: ClassicModel,
    ch: EventChain,
    event: usize,
    c: ClassicCall,
) -> Result<(ClassicModel, EventChain), ClassicDefinitionError> {
    let tid = next_transition_id(m);
    if c.method@ == "transition_internal"@ {
        match single_generic(c) {
            Ok(g) => Ok((m, EventChain { transition_type: ClassicTransitionType::Internal, from: Some(g), entry: true, ..ch })),
            Err(e) => Err(e),
        }
    } else if c.method@ == "transition_self"@ {
        match single_generic(c) {
            Ok(g) => Ok((m, EventChain { transition_type: ClassicTransitionType::SelfTransition, from: Some(g), entry: true, ..ch })),
            Err(e) => Err(e),
        }
    } else if c.method@ == "transition_from"@ {
        match single_generic(c) {
            Ok(g) => Ok((m, EventChain { from: Some(g), entry: true, ..ch })),
            Err(e) => Err(e),
        }
    } else if c.method@ == "to"@ {
        match single_generic(c) {
            Ok(g) => Ok((m, EventChain { to: Some(g), entry: true, ..ch })),
            Err(e) => Err(e),
        }
    } else if c.method@ == "interrupt_state"@ {
        match single_generic(c) {
            Ok(g) => Ok((ClassicModel { interrupt_states: m.interrupt_states.push((g, event)), ..m }, ch)),
            Err(e) => Err(e),
        }
    } else if c.method@ == "shallow_history"@ {
        match single_generic(c) {
            Ok(g) => Ok((ClassicModel { shallow_history: m.shallow_history.push((event, g)), ..m }, ch)),
            Err(e) => Err(e),
        }
    } else if c.method@ == "action"@ {
        match c.closure {
            None => Err(ClassicDefinitionError::ExpectedClosure),
            Some(a) => if ch.from is None {
                Err(ClassicDefinitionError::MissingSourceState)
            } else if ch.transition_type == ClassicTransitionType::Normal && ch.to is None {
                Err(ClassicDefinitionError::MissingTargetState)
            } else {
                Ok((
                    ClassicModel { actions: m.actions.push(ClassicTransitionClosure { transition_id: tid, closure: a }), ..m },
                    EventChain { action: Some(a), ..ch },
                ))
            },
        }
    } else if c.method@ == "guard"@ {
        if ch.from is None {
            Err(ClassicDefinitionError::MissingSourceState)
        } else if ch.to is None {
            Err(ClassicDefinitionError::MissingTargetState)
        } else {
            match c.closure {
                None => Err(ClassicDefinitionError::ExpectedClosure),
                Some(g) => Ok((
                    ClassicModel { guards: m.guards.push(ClassicTransitionClosure { transition_id: tid, closure: g }), ..m },
                    EventChain { guard: Some(g), ..ch },
                )),
            }
        }
    } else {
        Ok((m, ch))
    }
}

/// The calls from `i` on after `on_event::<event>()`.
pub open spec fn spec_event_calls(
    m: ClassicModel,
    ch: EventChain,
    event: usize,
    calls: Seq<ClassicCall>,
    i: int,
) -> Result<(ClassicModel, EventChain), ClassicDefinitionError>
    decreases calls.len() - i,
{
    if i < 0 || i >= calls.len() {
        Ok((m, ch))
    } else {
        match spec_event_call(m, ch, event, calls[i]) {
            Ok((m2, ch2)) => spec_event_calls(m2, ch2, event, calls, i + 1),
            Err(e) => Err(e),
        }
    }
}

/// The transition that a finished chain declares, if it declares one.
pub open spec fn spec_chain_transition(
    m: ClassicModel,
    ch: EventChain,
    event: usize,
) -> Result<ClassicModel, ClassicDefinitionError> {
    if !ch.entry {
        Ok(m)
    } else {
        match ch.from {
            None => Err(ClassicDefinitionError::MissingSourceState),
            Some(from) => if ch.transition_type == ClassicTransitionType::Normal && ch.to is None {
                Err(ClassicDefinitionError::MissingTargetState)
            } else {
                let target = if ch.transition_type == ClassicTransitionType::Normal { ch.to.unwrap() } else { from };
                let t = ClassicTransition {
                    id: next_transition_id(m),
                    source: from,
                    event,
                    target,
                    transition_type: ch.transition_type,
                    action: ch.action,
                    guard: ch.guard,
                };
                Ok(ClassicModel { transitions: m.transitions.push(t), ..m })
            },
        }
    }
}

/// The description after one statement; a statement that starts with no known call
/// declares nothing.
pub open spec fn spec_statement(m: ClassicModel, calls: Seq<ClassicCall>) -> Result<ClassicModel, ClassicDefinitionError> {
    if calls.len() == 0 {
        Ok(m)
    } else {
        let first = calls[0];
        let name = first.method@;
        if name == "new_event"@ || name == "new_unit_event"@ {
            match single_generic(first) {
                Ok(g) => Ok(ClassicModel { events: m.events.push(ClassicEvent { ty: g, unit: name == "new_unit_event"@ }), ..m }),
                Err(e) => Err(e),
            }
        } else if name == "add_sub_machine"@ {
            match single_generic(first) {
                Ok(g) => match spec_closures(calls, 1, None, None, ClassicDefinitionError::UnsupportedSubMachineMethod) {
                    Ok((entry, exit)) => Ok(ClassicModel {
                        sub_machines: m.sub_machines.push(ClassicSubMachine { ty: g, on_entry: entry, on_exit: exit }),
                        ..m
                    }),
                    Err(e) => Err(e),
                },
                Err(e) => Err(e),
            }
        } else if name == "copyable_events"@ {
            Ok(ClassicModel { copyable_events: true, ..m })
        } else if name == "new_state_timeout"@ {
            if first.generics@.len() < 2 {
                Err(ClassicDefinitionError::ExpectedTimerGenerics)
            } else {
                match first.closure {
                    None => Err(ClassicDefinitionError::ExpectedClosure),
                    Some(c) => Ok(ClassicModel {
                        timers: m.timers.push(ClassicTimer {
                            id: m.timers.len() as u32,
                            state: first.generics@[0],
                            event: first.generics@[1],
                            closure: c,
                        }),
                        ..m
                    }),
                }
            }
        } else if name == "new_unit_state"@ || name == "new_state"@ {
            match single_generic(first) {
                Ok(g) => match spec_closures(calls, 1, None, None, ClassicDefinitionError::UnsupportedStateMethod) {
                    Ok((entry, exit)) => Ok(ClassicModel {
                        states: m.states.push(ClassicState { ty: g, unit: name == "new_unit_state"@, on_entry: entry, on_exit: exit }),
                        ..m
                    }),
                    Err(e) => Err(e),
                },
                Err(e) => Err(e),
            }
        } else if name == "on_event"@ {
            match single_generic(first) {
                Ok(ev) => match spec_event_calls(m, empty_chain(), ev, calls, 1) {
                    Ok((m2, ch)) => spec_chain_transition(m2, ch, ev),
                    Err(e) => Err(e),
                },
                Err(e) => Err(e),
            }
        } else {
            Ok(m)
        }
    }
}

/// The description after the statements, in order; the first refused one decides.
pub open spec fn spec_statements(m: ClassicModel, stmts: Seq<ClassicStatement>) -> Result<ClassicModel, ClassicDefinitionError>
    decreases stmts.len(),
{
    if stmts.len() == 0 {
        Ok(m)
    } else {
        match spec_statements(m, stmts.drop_last()) {
            Ok(m2) => spec_statement(m2, stmts.last().calls@),
            Err(e) => Err(e),
        }
    }
}

proof fn lemma_statements_prefix_err(m: ClassicModel, stmts: Seq<ClassicStatement>, k: int)
    requires
        0 <= k <= stmts.len(),
        spec_statements(m, stmts.take(k)) is Err,
    ensures
        spec_statements(m, stmts) == spec_statements(m, stmts.take(k)),
    decreases stmts.len(),
{
    if k == stmts.len() {
        assert(stmts.take(k) =~= stmts);
    } else {
        assert(stmts.drop_last().take(k) =~= stmts.take(k));
        lemma_statements_prefix_err(m, stmts.drop_last(), k);
    }
}

fn is_call(c: &ClassicCall, name: &str) -> (r: bool)
    ensures
        r == (c.method@ == name@),
{
    str_equal(c.method.as_str(), name)
}

fn exec_single_generic(c: &ClassicCall) -> (r: Result<usize, ClassicDefinitionError>)
    ensures
        r == single_generic(*c),
{
    if c.generics.len() == 1 {
        Ok(c.generics[0])
    } else {
        Err(ClassicDefinitionError::ExpectedSingleGeneric)
    }
}

fn exec_closures(calls: &Vec<ClassicCall>, unsupported: ClassicDefinitionError) -> (r: Result<
    (Option<usize>, Option<usize>),
    ClassicDefinitionError,
>)
    ensures
        r == spec_closures(calls@, 1, None, None, unsupported),
{
    let mut entry: Option<usize> = None;
    let mut exit: Option<usize> = None;
    let mut i: usize = 1;
    while i < calls.len()
        invariant
            1 <= i,
            spec_closures(calls@, 1, None, None, unsupported) == spec_closures(calls@, i as int, entry, exit, unsupported),
        decreases calls@.len() - i,
    {
        let c = &calls[i];
        if is_call(c, "on_entry") {
            match c.closure {
                None => {
                    return Err(ClassicDefinitionError::ExpectedClosure);
                },
                Some(x) => {
                    entry = Some(x);
                },
            }
        } else if is_call(c, "on_exit") {
            match c.closure {
                None => {
                    return Err(ClassicDefinitionError::ExpectedClosure);
                },
                Some(x) => {
                    exit = Some(x);
                },
            }
        } else {
            return Err(unsupported);
        }
        i = i + 1;
    }
    Ok((entry, exit))
}

struct ExecChain {
    transition_type: ClassicTransitionType,
    from: Option<usize>,
    to: Option<usize>,
    action: Option<usize>,
    guard: Option<usize>,
    entry: bool,
}

impl ExecChain {
    spec fn view(&self) -> EventChain {
        EventChain {
            transition_type: self.transition_type,
            from: self.from,
            to: self.to,
            action: self.action,
            guard: self.guard,
            entry: self.entry,
        }
    }
}

fn exec_event_call(d: &mut ClassicDescription, ch: &mut ExecChain, event: usize, c: &ClassicCall) -> (r: Result<
    (),
    ClassicDefinitionError,
>)
    requires
        old(d).transitions@.len() < u32::MAX,
    ensures
        spec_event_call(old(d)@, old(ch)@, event, *c) matches Ok((m, ch2)) ==> r is Ok && final(d)@ == m
            && final(ch)@ == ch2,
        spec_event_call(old(d)@, old(ch)@, event, *c) matches Err(e) ==> r == Err::<(), ClassicDefinitionError>(e),
{
    let tid: u32 = (d.transitions.len() + 1) as u32;
    if is_call(c, "transition_internal") {
        let g = exec_single_generic(c)?;
        ch.transition_type = ClassicTransitionType::Internal;
        ch.from = Some(g);
        ch.entry = true;
    } else if is_call(c, "transition_self") {
        let g = exec_single_generic(c)?;
        ch.transition_type = ClassicTransitionType::SelfTransition;
        ch.from = Some(g);
        ch.entry = true;
    } else if is_call(c, "transition_from") {
        let g = exec_single_generic(c)?;
        ch.from = Some(g);
        ch.entry = true;
    } else if is_call(c, "to") {
        let g = exec_single_generic(c)?;
        ch.to = Some(g);
        ch.entry = true;
    } else if is_call(c, "interrupt_state") {
        let g = exec_single_generic(c)?;
        d.interrupt_states.push((g, event));
    } else if is_call(c, "shallow_history") {
        let g = exec_single_generic(c)?;
        d.shallow_history.push((event, g));
    } else if is_call(c, "action") {
        let a = match c.closure {
            None => {
                return Err(ClassicDefinitionError::ExpectedClosure);
            },
            Some(a) => a,
        };
        if ch.from.is_none() {
            return Err(ClassicDefinitionError::MissingSourceState);
        }
        if ch.transition_type == ClassicTransitionType::Normal && ch.to.is_none() {
            return Err(ClassicDefinitionError::MissingTargetState);
        }
        d.actions.push(ClassicTransitionClosure { transition_id: tid, closure: a });
        ch.action = Some(a);
    } else if is_call(c, "guard") {
        if ch.from.is_none() {
            return Err(ClassicDefinitionError::MissingSourceState);
        }
        if ch.to.is_none() {
            return Err(ClassicDefinitionError::MissingTargetState);
        }
        let g = match c.closure {
            None => {
                return Err(ClassicDefinitionError::ExpectedClosure);
            },
            Some(g) => g,
        };
        d.guards.push(ClassicTransitionClosure { transition_id: tid, closure: g });
        ch.guard = Some(g);
    }
    Ok(())
}

fn exec_statement(d: &mut ClassicDescription, calls: &Vec<ClassicCall>) -> (r: Result<(), ClassicDefinitionError>)
    requires
        old(d).transitions@.len() < u32::MAX,
        old(d).timers@.len() < u32::MAX,
    ensures
        spec_statement(old(d)@, calls@) matches Ok(m) ==> r is Ok && final(d)@ == m,
        spec_statement(old(d)@, calls@) matches Err(e) ==> r == Err::<(), ClassicDefinitionError>(e),
        r is Ok ==> final(d).transitions@.len() <= old(d).transitions@.len() + 1 && final(d).timers@.len()
            <= old(d).timers@.len() + 1,
{
    if calls.len() == 0 {
        return Ok(());
    }
    let first = &calls[0];
    if is_call(first, "new_event") || is_call(first, "new_unit_event") {
        let g = exec_single_generic(first)?;
        let unit = is_call(first, "new_unit_event");
        d.events.push(ClassicEvent { ty: g, unit });
    } else if is_call(first, "add_sub_machine") {
        let g = exec_single_generic(first)?;
        let (entry, exit) = exec_closures(calls, ClassicDefinitionError::UnsupportedSubMachineMethod)?;
        d.sub_machines.push(ClassicSubMachine { ty: g, on_entry: entry, on_exit: exit });
    } else if is_call(first, "copyable_events") {
        d.copyable_events = true;
    } else if is_call(first, "new_state_timeout") {
        if first.generics.len() < 2 {
            return Err(ClassicDefinitionError::ExpectedTimerGenerics);
        }
        let c = match first.closure {
            None => {
                return Err(ClassicDefinitionError::ExpectedClosure);
            },
            Some(c) => c,
        };
        let id: u32 = d.timers.len() as u32;
        d.timers.push(ClassicTimer { id, state: first.generics[0], event: first.generics[1], closure: c });
    } else if is_call(first, "new_unit_state") || is_call(first, "new_state") {
        let g = exec_single_generic(first)?;
        let (entry, exit) = exec_closures(calls, ClassicDefinitionError::UnsupportedStateMethod)?;
        let unit = is_call(first, "new_unit_state");
        d.states.push(ClassicState { ty: g, unit, on_entry: entry, on_exit: exit });
    } else if is_call(first, "on_event") {
        let ev = exec_single_generic(first)?;
        let ghost m0 = d@;
        let mut ch = ExecChain {
            transition_type: ClassicTransitionType::Normal,
            from: None,
            to: None,
            action: None,
            guard: None,
            entry: false,
        };
        let ghost whole = match spec_event_calls(m0, empty_chain(), ev, calls@, 1) {
            Ok((m2, ch2)) => spec_chain_transition(m2, ch2, ev),
            Err(e) => Err(e),
        };
        assert(spec_statement(old(d)@, calls@) == whole);
        let mut i: usize = 1;
        while i < calls.len()
            invariant
                1 <= i,
                spec_statement(old(d)@, calls@) == whole,
                whole == match spec_event_calls(m0, empty_chain(), ev, calls@, 1) {
                    Ok((m2, ch2)) => spec_chain_transition(m2, ch2, ev),
                    Err(e) => Err(e),
                },
                d.transitions@ == m0.transitions,
                d.timers@ == m0.timers,
                m0.transitions.len() < u32::MAX,
                spec_event_calls(m0, empty_chain(), ev, calls@, 1) == spec_event_calls(d@, ch@, ev, calls@, i as int),
            decreases calls@.len() - i,
        {
            exec_event_call(d, &mut ch, ev, &calls[i])?;
            i = i + 1;
        }
        if ch.entry {
            let from = match ch.from {
                None => {
                    return Err(ClassicDefinitionError::MissingSourceState);
                },
                Some(f) => f,
            };
            let target = if ch.transition_type == ClassicTransitionType::Normal {
                match ch.to {
                    None => {
                        return Err(ClassicDefinitionError::MissingTargetState);
                    },
                    Some(t) => t,
                }
            } else {
                from
            };
            let id: u32 = (d.transitions.len() + 1) as u32;
            d.transitions.push(ClassicTransition {
                id,
                source: from,
                event: ev,
                target,
                transition_type: ch.transition_type,
                action: ch.action,
                guard: ch.guard,
            });
        }
    }
    Ok(())
}

/// Reads the description of a machine from the statements of its definition function, in
/// order, as `spec_statements` says; refused with the first error.
pub fn parse_definition_fn(stmts: &Vec<ClassicStatement>) -> (r: Result<ClassicDescription, ClassicDefinitionError>)
    requires
        stmts@.len() < u32::MAX,
    ensures
        spec_statements(empty_model(), stmts@) matches Ok(m) ==> r matches Ok(d) && d@ == m,
        spec_statements(empty_model(), stmts@) matches Err(e) ==> r == Err::<ClassicDescription, ClassicDefinitionError>(e),
{
    let mut d = ClassicDescription {
        copyable_events: false,
        transitions: Vec::new(),
        states: Vec::new(),
        events: Vec::new(),
        sub_machines: Vec::new(),
        timers: Vec::new(),
        interrupt_states: Vec::new(),
        shallow_history: Vec::new(),
        actions: Vec::new(),
        guards: Vec::new(),
    };
    assert(d@ == empty_model());
    let mut i: usize = 0;
    assert(stmts@.take(0) =~= Seq::<ClassicStatement>::empty());
    while i < stmts.len()
        invariant
            i <= stmts@.len(),
            stmts@.len() < u32::MAX,
            d.transitions@.len() <= i,
            d.timers@.len() <= i,
            spec_statements(empty_model(), stmts@.take(i as int)) == Ok::<ClassicModel, ClassicDefinitionError>(d@),
        decreases stmts@.len() - i,
    {
        assert(stmts@.take(i + 1).drop_last() =~= stmts@.take(i as int));
        match exec_statement(&mut d, &stmts[i].calls) {
            Ok(()) => {},
            Err(e) => {
                proof {
                    lemma_statements_prefix_err(empty_model(), stmts@, i + 1);
                }
                return Err(e);
            },
        }
        i = i + 1;
    }
    assert(stmts@.take(stmts@.len() as int) =~= stmts@);
    Ok(d)
}

/// The declaration of the machine: its type, its context's type (`()` when not given) and its
/// initial state.
#[derive(Debug, Clone, Copy)]
pub struct ClassicFsmDecl {
    pub fsm_ty: usize,
    pub context_ty: Option<usize>,
    pub initial_state: usize,
}

/// The first generic argument of the first call named `name` from position `i` on that has
/// one.
pub open spec fn first_generic_of(calls: Seq<ClassicCall>, name: Seq<char>, i: int) -> Option<usize>
    decreases calls.len() - i,
{
    if i < 0 || i >= calls.len() {
        None
    } else if calls[i].method@ == name && calls[i].generics@.len() >= 1 {
        Some(calls[i].generics@[0])
    } else {
        first_generic_of(calls, name, i + 1)
    }
}

fn find_first_generic(calls: &Vec<ClassicCall>, name: &str) -> (r: Option<usize>)
    ensures
        r == first_generic_of(calls@, name@, 0),
{
    let mut i: usize = 0;
    while i < calls.len()
        invariant
            i <= calls@.len(),
            first_generic_of(calls@, name@, 0) == first_generic_of(calls@, name@, i as int),
        decreases calls@.len() - i,
    {
        if is_call(&calls[i], name) && calls[i].generics.len() >= 1 {
            return Some(calls[i].generics[0]);
        }
        i = i + 1;
    }
    None
}

/// Reads the declaration of the machine from the calls of the statement that creates it, in
/// chain order (`FsmDecl::new_fsm::<F>()` first): the machine's type from `new_fsm`, the
/// initial state from the first `initial_state` and the context's type from the first
/// `context_ty`.
pub fn let_fsm_local(calls: &Vec<ClassicCall>) -> (r: Result<ClassicFsmDecl, ClassicDefinitionError>)
    ensures
        first_generic_of(calls@, "new_fsm"@, 0) is None ==> r == Err::<ClassicFsmDecl, ClassicDefinitionError>(
            ClassicDefinitionError::MissingFsmType,
        ),
        first_generic_of(calls@, "new_fsm"@, 0) is Some && first_generic_of(calls@, "initial_state"@, 0) is None
            ==> r == Err::<ClassicFsmDecl, ClassicDefinitionError>(ClassicDefinitionError::MissingInitialState),
        first_generic_of(calls@, "new_fsm"@, 0) matches Some(f) ==> first_generic_of(calls@, "initial_state"@, 0) matches Some(s)
            ==> r matches Ok(d) && d.fsm_ty == f && d.initial_state == s && d.context_ty == first_generic_of(
            calls@,
            "context_ty"@,
            0,
        ),
{
    let fsm_ty = match find_first_generic(calls, "new_fsm") {
        None => {
            return Err(ClassicDefinitionError::MissingFsmType);
        },
        Some(f) => f,
    };
    let initial_state = match find_first_generic(calls, "initial_state") {
        None => {
            return Err(ClassicDefinitionError::MissingInitialState);
        },
        Some(s) => s,
    };
    let context_ty = find_first_generic(calls, "context_ty");
    Ok(ClassicFsmDecl { fsm_ty, context_ty, initial_state })
}

/// A region of the machine: its id, its initial state, its transitions, the sub-machine
/// states among them, and its interrupt states, each with the event that resumes from it.
#[derive(Debug, Clone)]
pub struct ClassicRegion {
    pub id: usize,
    pub initial_state: usize,
    pub transitions: Vec<ClassicTransition>,
    pub sub_machines: Vec<usize>,
    pub interrupt_states: Vec<(usize, usize)>,
}

#[derive(Debug, Clone, Copy)]
pub struct ClassicStateInfo {
    pub state: usize,
    pub is_initial_state: bool,
    pub is_interrupt_state: bool,
}

#[derive(Debug, Clone, Copy)]
pub struct ClassicTransitionInfo {
    pub transition: ClassicTransition,
    pub state_from_is_submachine: bool,
    pub state_to_is_submachine: bool,
    pub is_shallow_history: bool,
    pub is_resume_event: bool,
    pub is_internal: bool,
    pub is_anonymous: bool,
}

/// The description of a region: its id, initial state, states (not the sub-machines) and
/// transitions.
#[derive(Debug, Clone)]
pub struct ClassicRegionInfo {
    pub region_id: usize,
    pub initial_state: usize,
    pub states: Vec<ClassicStateInfo>,
    pub transitions: Vec<ClassicTransitionInfo>,
}

/// The states that the transitions leave, then those they enter, each once, in order of first
/// appearance, without the sub-machines.
pub open spec fn states_in_order(s: Seq<usize>, subs: Seq<usize>) -> Seq<usize>
    decreases s.len(),
{
    if s.len() == 0 {
        Seq::empty()
    } else {
        let d = states_in_order(s.drop_last(), subs);
        if d.contains(s.last()) || subs.contains(s.last()) {
            d
        } else {
            d.push(s.last())
        }
    }
}

pub open spec fn transition_states(ts: Seq<ClassicTransition>) -> Seq<usize> {
    ts.map_values(|t: ClassicTransition| t.source) + ts.map_values(|t: ClassicTransition| t.target)
}

pub open spec fn region_internal_states(r: ClassicRegion) -> Seq<usize> {
    states_in_order(transition_states(r.transitions@), r.sub_machines@)
}

pub open spec fn state_info(r: ClassicRegion, x: usize) -> ClassicStateInfo {
    ClassicStateInfo {
        state: x,
        is_initial_state: x == r.initial_state,
        is_interrupt_state: exists|k: int| 0 <= k < r.interrupt_states@.len() && (#[trigger] r.interrupt_states@[k]).0 == x,
    }
}

/// Some pair of `s` is `(a, b)`.
pub open spec fn has_pair_spec(s: Seq<(usize, usize)>, a: usize, b: usize) -> bool {
    exists|k: int| 0 <= k < s.len() && (#[trigger] s[k]).0 == a && s[k].1 == b
}

pub open spec fn machine_sub_machines(m: ClassicModel) -> Seq<usize> {
    m.sub_machines.map_values(|s: ClassicSubMachine| s.ty)
}

/// A transition's description: whether its states are sub-machines, whether it restores a
/// shallow history, resumes an interrupt state, is internal, or is taken without an event.
pub open spec fn transition_info(m: ClassicModel, r: ClassicRegion, no_event: usize, t: ClassicTransition) -> ClassicTransitionInfo {
    ClassicTransitionInfo {
        transition: t,
        state_from_is_submachine: machine_sub_machines(m).contains(t.source),
        state_to_is_submachine: machine_sub_machines(m).contains(t.target),
        is_shallow_history: has_pair_spec(m.shallow_history, t.event, t.target),
        is_resume_event: has_pair_spec(r.interrupt_states@, t.source, t.event),
        is_internal: t.transition_type == ClassicTransitionType::Internal,
        is_anonymous: t.event == no_event,
    }
}

pub open spec fn region_info_ok(m: ClassicModel, r: ClassicRegion, no_event: usize, i: ClassicRegionInfo) -> bool {
    &&& i.region_id == r.id
    &&& i.initial_state == r.initial_state
    &&& i.states@ == region_internal_states(r).map_values(|x: usize| state_info(r, x))
    &&& i.transitions@ == r.transitions@.map_values(|t: ClassicTransition| transition_info(m, r, no_event, t))
}

fn contains_state(v: &Vec<usize>, x: usize) -> (r: bool)
    ensures
        r == v@.contains(x),
{
    let mut i: usize = 0;
    while i < v.len()
        invariant
            i <= v@.len(),
            forall|j: int| 0 <= j < i ==> v@[j] != x,
        decreases v@.len() - i,
    {
        if v[i] == x {
            assert(v@[i as int] == x);
            return true;
        }
        i = i + 1;
    }
    false
}

fn has_pair(v: &Vec<(usize, usize)>, a: usize, b: usize) -> (r: bool)
    ensures
        r == has_pair_spec(v@, a, b),
{
    let mut i: usize = 0;
    while i < v.len()
        invariant
            i <= v@.len(),
            forall|j: int| 0 <= j < i ==> !((#[trigger] v@[j]).0 == a && v@[j].1 == b),
        decreases v@.len() - i,
    {
        if v[i].0 == a && v[i].1 == b {
            return true;
        }
        i = i + 1;
    }
    false
}

fn has_first(v: &Vec<(usize, usize)>, a: usize) -> (r: bool)
    ensures
        r == exists|k: int| 0 <= k < v@.len() && (#[trigger] v@[k]).0 == a,
{
    let mut i: usize = 0;
    while i < v.len()
        invariant
            i <= v@.len(),
            forall|j: int| 0 <= j < i ==> (#[trigger] v@[j]).0 != a,
        decreases v@.len() - i,
    {
        if v[i].0 == a {
            return true;
        }
        i = i + 1;
    }
    false
}

fn is_sub_machine(d: &ClassicDescription, x: usize) -> (r: bool)
    ensures
        r == machine_sub_machines(d@).contains(x),
{
    let ghost subs = machine_sub_machines(d@);
    let mut i: usize = 0;
    while i < d.sub_machines.len()
        invariant
            i <= d.sub_machines@.len(),
            subs == machine_sub_machines(d@),
            forall|j: int| 0 <= j < i ==> subs[j] != x,
        decreases d.sub_machines@.len() - i,
    {
        if d.sub_machines[i].ty == x {
            assert(subs[i as int] == x);
            return true;
        }
        i = i + 1;
    }
    false
}

fn region_states_exec(r: &ClassicRegion) -> (out: Vec<usize>)
    requires
        2 * r.transitions@.len() <= usize::MAX,
    ensures
        out@ == region_internal_states(*r),
{
    let ghost all = transition_states(r.transitions@);
    let n = r.transitions.len();
    let total = n + n;
    let mut out: Vec<usize> = Vec::new();
    let mut k: usize = 0;
    while k < total
        invariant
            n == r.transitions@.len(),
            total == 2 * n,
            all == transition_states(r.transitions@),
            all.len() == 2 * n,
            k <= 2 * n,
            out@ == states_in_order(all.take(k as int), r.sub_machines@),
        decreases total - k,
    {
        let x = if k < n { r.transitions[k].source } else { r.transitions[k - n].target };
        assert(all[k as int] == x);
        assert(all.take(k + 1).drop_last() =~= all.take(k as int));
        if !contains_state(&out, x) && !contains_state(&r.sub_machines, x) {
            out.push(x);
        }
        k = k + 1;
    }
    assert(all.take(2 * n as int) =~= all);
    out
}

/// The description of each region, as `region_info_ok` says; `no_event` is the event of
/// anonymous transitions.
pub fn build_fsm_info(desc: &ClassicDescription, regions: &Vec<ClassicRegion>, no_event: usize) -> (r: Vec<ClassicRegionInfo>)
    requires
        forall|k: int| 0 <= k < regions@.len() ==> 2 * (#[trigger] regions@[k]).transitions@.len() <= usize::MAX,
    ensures
        r@.len() == regions@.len(),
        forall|k: int| 0 <= k < regions@.len() ==> region_info_ok(desc@, regions@[k], no_event, #[trigger] r@[k]),
{
    let mut out: Vec<ClassicRegionInfo> = Vec::new();
    let mut k: usize = 0;
    while k < regions.len()
        invariant
            k <= regions@.len(),
            out@.len() == k,
            forall|k: int| 0 <= k < regions@.len() ==> 2 * (#[trigger] regions@[k]).transitions@.len() <= usize::MAX,
            forall|j: int| 0 <= j < k ==> region_info_ok(desc@, regions@[j], no_event, #[trigger] out@[j]),
        decreases regions@.len() - k,
    {
        let region = &regions[k];
        let names = region_states_exec(region);
        let mut states: Vec<ClassicStateInfo> = Vec::new();
        let mut i: usize = 0;
        while i < names.len()
            invariant
                i <= names@.len(),
                states@ == names@.take(i as int).map_values(|x: usize| state_info(*region, x)),
            decreases names@.len() - i,
        {
            let x = names[i];
            let info = ClassicStateInfo {
                state: x,
                is_initial_state: x == region.initial_state,
                is_interrupt_state: has_first(&region.interrupt_states, x),
            };
            states.push(info);
            assert(names@.take(i + 1).map_values(|x: usize| state_info(*region, x)) =~= names@.take(i as int).map_values(
                |x: usize| state_info(*region, x),
            ).push(state_info(*region, x)));
            i = i + 1;
        }
        assert(names@.take(names@.len() as int) =~= names@);
        let mut transitions: Vec<ClassicTransitionInfo> = Vec::new();
        let mut j: usize = 0;
        while j < region.transitions.len()
            invariant
                j <= region.transitions@.len(),
                transitions@ == region.transitions@.take(j as int).map_values(
                    |t: ClassicTransition| transition_info(desc@, *region, no_event, t),
                ),
            decreases region.transitions@.len() - j,
        {
            let t = region.transitions[j];
            let info = ClassicTransitionInfo {
                transition: t,
                state_from_is_submachine: is_sub_machine(desc, t.source),
                state_to_is_submachine: is_sub_machine(desc, t.target),
                is_shallow_history: has_pair(&desc.shallow_history, t.event, t.target),
                is_resume_event: has_pair(&region.interrupt_states, t.source, t.event),
                is_internal: t.transition_type == ClassicTransitionType::Internal,
                is_anonymous: t.event == no_event,
            };
            assert(info == transition_info(desc@, *region, no_event, t));
            transitions.push(info);
            assert(region.transitions@.take(j + 1).map_values(|t: ClassicTransition| transition_info(desc@, *region, no_event, t))
                =~= region.transitions@.take(j as int).map_values(
                |t: ClassicTransition| transition_info(desc@, *region, no_event, t),
            ).push(transition_info(desc@, *region, no_event, t)));
            j = j + 1;
        }
        assert(region.transitions@.take(region.transitions@.len() as int) =~= region.transitions@);
        out.push(ClassicRegionInfo { region_id: region.id, initial_state: region.initial_state, states, transitions });
        k = k + 1;
    }
    out
}

/// The transitions are numbered 1, 2, ... in order.
pub open spec fn ids_sequential(ts: Seq<ClassicTransition>) -> bool {
    forall|i: int| 0 <= i < ts.len() ==> (#[trigger] ts[i]).id == i + 1
}

proof fn lemma_event_calls_keep_transitions(
    m: ClassicModel,
    ch: EventChain,
    event: usize,
    calls: Seq<ClassicCall>,
    i: int,
)
    ensures
        spec_event_calls(m, ch, event, calls, i) matches Ok((m2, _)) ==> m2.transitions == m.transitions,
    decreases calls.len() - i,
{
    if 0 <= i < calls.len() {
        if let Ok((m2, ch2)) = spec_event_call(m, ch, event, calls[i]) {
            lemma_event_calls_keep_transitions(m2, ch2, event, calls, i + 1);
        }
    }
}

proof fn lemma_statement_ids(m: ClassicModel, calls: Seq<ClassicCall>)
    requires
        ids_sequential(m.transitions),
        m.transitions.len() + 1 < u32::MAX,
    ensures
        spec_statement(m, calls) matches Ok(m2) ==> ids_sequential(m2.transitions) && m2.transitions.len()
            <= m.transitions.len() + 1,
{
    if calls.len() > 0 && calls[0].method@ == "on_event"@ {
        if let Ok(ev) = single_generic(calls[0]) {
            lemma_event_calls_keep_transitions(m, empty_chain(), ev, calls, 1);
        }
    }
}

/// Law: the transitions that a definition function declares are numbered 1, 2, ... in the
/// order of their statements.
pub proof fn lemma_transition_ids_sequential(stmts: Seq<ClassicStatement>)
    requires
        stmts.len() + 1 < u32::MAX,
    ensures
        spec_statements(empty_model(), stmts) matches Ok(m) ==> ids_sequential(m.transitions)
            && m.transitions.len() <= stmts.len(),
    decreases stmts.len(),
{
    if stmts.len() > 0 {
        lemma_transition_ids_sequential(stmts.drop_last());
        if let Ok(m2) = spec_statements(empty_model(), stmts.drop_last()) {
            lemma_statement_ids(m2, stmts.last().calls@);
        }
    }
}

/// The transitions of all regions, region by region.
pub open spec fn all_transitions(rs: Seq<ClassicRegion>) -> Seq<ClassicTransition>
    decreases rs.len(),
{
    if rs.len() == 0 {
        Seq::empty()
    } else {
        all_transitions(rs.drop_last()) + rs.last().transitions@
    }
}

/// The states of a machine, each once in order of first appearance: the sources of all
/// transitions, then their targets, then the regions' initial states.
pub open spec fn all_states(rs: Seq<ClassicRegion>) -> Seq<usize> {
    states_in_order(
        transition_states(all_transitions(rs)) + rs.map_values(|r: ClassicRegion| r.initial_state),
        Seq::empty(),
    )
}

/// The first transition with id `id`, from position `i` on.
pub open spec fn find_transition_from(ts: Seq<ClassicTransition>, id: u32, i: int) -> Option<ClassicTransition>
    decreases ts.len() - i,
{
    if i < 0 || i >= ts.len() {
        None
    } else if ts[i].id == id {
        Some(ts[i])
    } else {
        find_transition_from(ts, id, i + 1)
    }
}

fn all_transitions_exec(rs: &Vec<ClassicRegion>) -> (r: Vec<ClassicTransition>)
    ensures
        r@ == all_transitions(rs@),
{
    let mut out: Vec<ClassicTransition> = Vec::new();
    let mut k: usize = 0;
    while k < rs.len()
        invariant
            k <= rs@.len(),
            out@ == all_transitions(rs@.take(k as int)),
        decreases rs@.len() - k,
    {
        assert(rs@.take(k + 1).drop_last() =~= rs@.take(k as int));
        let ts = &rs[k].transitions;
        let ghost before = out@;
        let mut j: usize = 0;
        while j < ts.len()
            invariant
                j <= ts@.len(),
                out@ == before + ts@.take(j as int),
            decreases ts@.len() - j,
        {
            out.push(ts[j]);
            assert(out@ =~= before + ts@.take(j + 1));
            j = j + 1;
        }
        assert(ts@.take(ts@.len() as int) =~= ts@);
        k = k + 1;
    }
    assert(rs@.take(rs@.len() as int) =~= rs@);
    out
}

/// The machine's states, as `all_states` says.
pub fn get_all_states(rs: &Vec<ClassicRegion>) -> (r: Vec<usize>)
    ensures
        r@ == all_states(rs@),
{
    let ts = all_transitions_exec(rs);
    let ghost s = transition_states(ts@) + rs@.map_values(|r: ClassicRegion| r.initial_state);
    let n = ts.len();
    let mut candidates: Vec<usize> = Vec::new();
    let mut k: usize = 0;
    while k < n
        invariant
            n == ts@.len(),
            k <= n,
            candidates@ == ts@.take(k as int).map_values(|t: ClassicTransition| t.source),
        decreases n - k,
    {
        candidates.push(ts[k].source);
        assert(candidates@ =~= ts@.take(k + 1).map_values(|t: ClassicTransition| t.source));
        k = k + 1;
    }
    let mut k: usize = 0;
    assert(ts@.take(n as int) =~= ts@);
    let ghost srcs = candidates@;
    while k < n
        invariant
            n == ts@.len(),
            k <= n,
            srcs == ts@.map_values(|t: ClassicTransition| t.source),
            candidates@ == srcs + ts@.take(k as int).map_values(|t: ClassicTransition| t.target),
        decreases n - k,
    {
        candidates.push(ts[k].target);
        assert(candidates@ =~= srcs + ts@.take(k + 1).map_values(|t: ClassicTransition| t.target));
        k = k + 1;
    }
    let ghost both = candidates@;
    assert(both =~= transition_states(ts@));
    let mut k: usize = 0;
    while k < rs.len()
        invariant
            k <= rs@.len(),
            candidates@ == both + rs@.take(k as int).map_values(|r: ClassicRegion| r.initial_state),
        decreases rs@.len() - k,
    {
        candidates.push(rs[k].initial_state);
        assert(candidates@ =~= both + rs@.take(k + 1).map_values(|r: ClassicRegion| r.initial_state));
        k = k + 1;
    }
    assert(rs@.take(rs@.len() as int) =~= rs@);
    assert(candidates@ =~= s);
    let mut out: Vec<usize> = Vec::new();
    let mut i: usize = 0;
    while i < candidates.len()
        invariant
            i <= candidates@.len(),
            out@ == states_in_order(candidates@.take(i as int), Seq::empty()),
        decreases candidates@.len() - i,
    {
        assert(candidates@.take(i + 1).drop_last() =~= candidates@.take(i as int));
        let x = candidates[i];
        if !contains_state(&out, x) {
            out.push(x);
        }
        i = i + 1;
    }
    assert(candidates@.take(candidates@.len() as int) =~= candidates@);
    out
}

/// The first transition of the machine with id `id`.
pub fn find_transition(rs: &Vec<ClassicRegion>, id: u32) -> (r: Option<ClassicTransition>)
    ensures
        r == find_transition_from(all_transitions(rs@), id, 0),
{
    let ts = all_transitions_exec(rs);
    let mut i: usize = 0;
    while i < ts.len()
        invariant
            i <= ts@.len(),
            ts@ == all_transitions(rs@),
            find_transition_from(ts@, id, 0) == find_transition_from(ts@, id, i as int),
        decreases ts@.len() - i,
    {
        if ts[i].id == id {
            return Some(ts[i]);
        }
        i = i + 1;
    }
    None
}

} // verus!
