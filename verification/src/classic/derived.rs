//! The description of a machine read from a definition struct: a tuple struct whose fields'
//! types (`InitialState<F, S>`, `Transition<F, Sources, E, T, Action>`, ...) declare the
//! machine. Types are numbered; a tuple type also lists its elements.

use vstd::prelude::*;
use crate::classic::inspect_data::str_equal;
use crate::classic::definition::{ClassicTransition, ClassicTransitionType};

verus! {

/// A generic type argument: its number and, for a tuple, the numbers of its elements (else
/// just its own number).
#[derive(Debug, Clone)]
pub struct ClassicTypeArg {
    pub ty: usize,
    pub elements: Vec<usize>,
}

/// A field of the definition struct: its type's name and, when the type is a single path
/// segment with angle-bracketed arguments, those arguments.
#[derive(Debug, Clone)]
pub struct ClassicField {
    pub name: String,
    pub generics: Option<Vec<ClassicTypeArg>>,
}

/// An interrupt state and the events that resume from it, in declaration order.
#[derive(Debug, Clone)]
pub struct ClassicInterruptState {
    pub state: usize,
    pub resume_events: Vec<usize>,
}

/// A state timeout: its id, the state it runs in and the event it enqueues.
#[derive(Debug, Clone, Copy)]
pub struct ClassicStateTimeout {
    pub id: u32,
    pub state: usize,
    pub event: usize,
}

/// What a definition struct declares. Transitions carry the types of their action and guard,
/// and are numbered from 1 on, one per source state; timers are numbered from 0 on.
#[derive(Debug, Clone)]
pub struct ClassicDerivedDescription {
    /// The states of `InitialState`'s second argument: one per region.
    pub initial_state: Option<Vec<usize>>,
    pub context_ty: Option<usize>,
    pub copyable_events: bool,
    pub transitions: Vec<ClassicTransition>,
    pub sub_machines: Vec<usize>,
    pub shallow_history: Vec<(usize, usize)>,
    pub interrupt_states: Vec<ClassicInterruptState>,
    pub timers: Vec<ClassicStateTimeout>,
}

#[derive(Debug, Clone, Copy, PartialEq, Eq, Structural)]
pub enum ClassicDerivedError {
    /// A field whose type is not one of the declarations, or has no angle-bracketed
    /// arguments.
    UnknownParameterType,
    /// A declaration with fewer type arguments than it needs.
    MissingTypeArguments,
    /// More transitions than their 32-bit ids can number.
    TooManyTransitions,
    /// More timers than their 32-bit ids can number.
    TooManyTimers,
    /// No `InitialState` field names the initial states.
    MissingInitialState,
}

pub ghost struct DerivedModel {
    pub initial_state: Option<Seq<usize>>,
    pub context_ty: Option<usize>,
    pub copyable_events: bool,
    pub transitions: Seq<ClassicTransition>,
    pub sub_machines: Seq<usize>,
    pub shallow_history: Seq<(usize, usize)>,
    pub interrupt_states: Seq<(usize, Seq<usize>)>,
    pub timers: Seq<ClassicStateTimeout>,
}

pub open spec fn interrupts_view(s: Seq<ClassicInterruptState>) -> Seq<(usize, Seq<usize>)> {
    s.map_values(|i: ClassicInterruptState| (i.state, i.resume_events@))
}

impl ClassicDerivedDescription {
    pub open spec fn view(&self) -> DerivedModel {
        DerivedModel {
            initial_state: match self.initial_state {
                Some(v) => Some(v@),
                None => None,
            },
            context_ty: self.context_ty,
            copyable_events: self.copyable_events,
            transitions: self.transitions@,
            sub_machines: self.sub_machines@,
            shallow_history: self.shallow_history@,
            interrupt_states: interrupts_view(self.interrupt_states@),
            timers: self.timers@,
        }
    }
}

pub open spec fn empty_derived() -> DerivedModel {
    DerivedModel {
        initial_state: None,
        context_ty: None,
        copyable_events: false,
        transitions: Seq::empty(),
        sub_machines: Seq::empty(),
        shallow_history: Seq::empty(),
        interrupt_states: Seq::empty(),
        timers: Seq::empty(),
    }
}

/// The first interrupt state `state` from position `i` on.
pub open spec fn find_interrupt(s: Seq<(usize, Seq<usize>)>, state: usize, i: int) -> Option<int>
    decreases s.len() - i,
{
    if i < 0 || i >= s.len() {
        None
    } else if s[i].0 == state {
        Some(i)
    } else {
        find_interrupt(s, state, i + 1)
    }
}

/// One transition per source state from position `i` on, numbered on from the transitions
/// there are: `event` is the event, `target` the target (`None`: the source itself).
pub open spec fn spec_expand(
    m: DerivedModel,
    sources: Seq<usize>,
    i: int,
    event: usize,
    target: Option<usize>,
    action: usize,
    guard: Option<usize>,
    tt: ClassicTransitionType,
) -> Result<DerivedModel, ClassicDerivedError>
    decreases sources.len() - i,
{
    if i < 0 || i >= sources.len() {
        Ok(m)
    } else if m.transitions.len() + 1 >= u32::MAX {
        Err(ClassicDerivedError::TooManyTransitions)
    } else {
        let t = ClassicTransition {
            id: (m.transitions.len() + 1) as u32,
            source: sources[i],
            event,
            target: match target {
                Some(x) => x,
                None => sources[i],
            },
            transition_type: tt,
            action: Some(action),
            guard,
        };
        spec_expand(DerivedModel { transitions: m.transitions.push(t), ..m }, sources, i + 1, event, target, action, guard, tt)
    }
}

/// The transitions of a `Transition`-like declaration: the sources come second, then the
/// event, for a normal transition the target, then the action and optionally the guard.
pub open spec fn spec_transitions(m: DerivedModel, g: Seq<ClassicTypeArg>, tt: ClassicTransitionType) -> Result<
    DerivedModel,
    ClassicDerivedError,
> {
    let need: int = if tt == ClassicTransitionType::Normal { 5 } else { 4 };
    if g.len() < 2 {
        Err(ClassicDerivedError::MissingTypeArguments)
    } else if g[1].elements@.len() == 0 {
        Ok(m)
    } else if g.len() < need {
        Err(ClassicDerivedError::MissingTypeArguments)
    } else if tt == ClassicTransitionType::Normal {
        spec_expand(m, g[1].elements@, 0, g[2].ty, Some(g[3].ty), g[4].ty, if g.len() > 5 { Some(g[5].ty) } else { None }, tt)
    } else {
        spec_expand(m, g[1].elements@, 0, g[2].ty, None, g[3].ty, if g.len() > 4 { Some(g[4].ty) } else { None }, tt)
    }
}

/// The description after one field.
pub open spec fn spec_field(m: DerivedModel, f: ClassicField) -> Result<DerivedModel, ClassicDerivedError> {
    match f.generics {
        None => Err(ClassicDerivedError::UnknownParameterType),
        Some(gv) => {
            let g = gv@;
            let n = f.name@;
            if n == "InitialState"@ {
                if g.len() > 1 { Ok(DerivedModel { initial_state: Some(g[1].elements@), ..m }) } else { Ok(m) }
            } else if n == "ContextType"@ {
                if g.len() > 0 { Ok(DerivedModel { context_ty: Some(g[0].ty), ..m }) } else { Ok(m) }
            } else if n == "CopyableEvents"@ {
                Ok(DerivedModel { copyable_events: true, ..m })
            } else if n == "SubMachine"@ {
                if g.len() > 0 { Ok(DerivedModel { sub_machines: m.sub_machines.push(g[0].ty), ..m }) } else { Ok(m) }
            } else if n == "InterruptState"@ {
                if g.len() < 3 {
                    Err(ClassicDerivedError::MissingTypeArguments)
                } else {
                    let st = g[1].ty;
                    let ev = g[2].ty;
                    match find_interrupt(m.interrupt_states, st, 0) {
                        Some(k) => Ok(DerivedModel {
                            interrupt_states: m.interrupt_states.update(k, (st, m.interrupt_states[k].1.push(ev))),
                            ..m
                        }),
                        None => Ok(DerivedModel { interrupt_states: m.interrupt_states.push((st, seq![ev])), ..m }),
                    }
                }
            } else if n == "ShallowHistory"@ {
                if g.len() > 2 { Ok(DerivedModel { shallow_history: m.shallow_history.push((g[1].ty, g[2].ty)), ..m }) } else { Ok(m) }
            } else if n == "Transition"@ || n == "TransitionGuard"@ {
                spec_transitions(m, g, ClassicTransitionType::Normal)
            } else if n == "TransitionSelf"@ || n == "TransitionSelfGuard"@ {
                spec_transitions(m, g, ClassicTransitionType::SelfTransition)
            } else if n == "TransitionInternal"@ || n == "TransitionInternalGuard"@ {
                spec_transitions(m, g, ClassicTransitionType::Internal)
            } else if n == "TimerStateTimeout"@ {
                if g.len() < 3 {
                    Err(ClassicDerivedError::MissingTypeArguments)
                } else if m.timers.len() >= u32::MAX {
                    Err(ClassicDerivedError::TooManyTimers)
                } else {
                    Ok(DerivedModel {
                        timers: m.timers.push(ClassicStateTimeout { id: m.timers.len() as u32, state: g[1].ty, event: g[2].ty }),
                        ..m
                    })
                }
            } else {
                Err(ClassicDerivedError::UnknownParameterType)
            }
        },
    }
}

pub open spec fn spec_fields(m: DerivedModel, fs: Seq<ClassicField>) -> Result<DerivedModel, ClassicDerivedError>
    decreases fs.len(),
{
    if fs.len() == 0 {
        Ok(m)
    } else {
        match spec_fields(m, fs.drop_last()) {
            Ok(m2) => spec_field(m2, fs.last()),
            Err(e) => Err(e),
        }
    }
}

proof fn lemma_fields_prefix_err(m: DerivedModel, fs: Seq<ClassicField>, k: int)
    requires
        0 <= k <= fs.len(),
        spec_fields(m, fs.take(k)) is Err,
    ensures
        spec_fields(m, fs) == spec_fields(m, fs.take(k)),
    decreases fs.len(),
{
    if k == fs.len() {
        assert(fs.take(k) =~= fs);
    } else {
        assert(fs.drop_last().take(k) =~= fs.take(k));
        lemma_fields_prefix_err(m, fs.drop_last(), k);
    }
}

fn exec_expand(
    d: &mut ClassicDerivedDescription,
    sources: &Vec<usize>,
    event: usize,
    target: Option<usize>,
    action: usize,
    guard: Option<usize>,
    tt: ClassicTransitionType,
) -> (r: Result<(), ClassicDerivedError>)
    ensures
        spec_expand(old(d)@, sources@, 0, event, target, action, guard, tt) matches Ok(m) ==> r is Ok && final(d)@ == m,
        spec_expand(old(d)@, sources@, 0, event, target, action, guard, tt) matches Err(e) ==> r == Err::<(), ClassicDerivedError>(e),
{
    let mut i: usize = 0;
    while i < sources.len()
        invariant
            i <= sources@.len(),
            spec_expand(old(d)@, sources@, 0, event, target, action, guard, tt) == spec_expand(d@, sources@, i as int, event, target, action, guard, tt),
        decreases sources@.len() - i,
    {
        if d.transitions.len() >= 0xffff_fffe {
            return Err(ClassicDerivedError::TooManyTransitions);
        }
        let id: u32 = (d.transitions.len() + 1) as u32;
        let tgt = match target {
            Some(x) => x,
            None => sources[i],
        };
        d.transitions.push(ClassicTransition {
            id,
            source: sources[i],
            event,
            target: tgt,
            transition_type: tt,
            action: Some(action),
            guard,
        });
        i = i + 1;
    }
    Ok(())
}

fn exec_transitions(d: &mut ClassicDerivedDescription, g: &Vec<ClassicTypeArg>, tt: ClassicTransitionType) -> (r: Result<
    (),
    ClassicDerivedError,
>)
    ensures
        spec_transitions(old(d)@, g@, tt) matches Ok(m) ==> r is Ok && final(d)@ == m,
        spec_transitions(old(d)@, g@, tt) matches Err(e) ==> r == Err::<(), ClassicDerivedError>(e),
{
    let need: usize = if tt == ClassicTransitionType::Normal { 5 } else { 4 };
    if g.len() < 2 {
        return Err(ClassicDerivedError::MissingTypeArguments);
    }
    if g[1].elements.len() == 0 {
        return Ok(());
    }
    if g.len() < need {
        return Err(ClassicDerivedError::MissingTypeArguments);
    }
    if tt == ClassicTransitionType::Normal {
        let guard = if g.len() > 5 { Some(g[5].ty) } else { None };
        exec_expand(d, &g[1].elements, g[2].ty, Some(g[3].ty), g[4].ty, guard, tt)
    } else {
        let guard = if g.len() > 4 { Some(g[4].ty) } else { None };
        exec_expand(d, &g[1].elements, g[2].ty, None, g[3].ty, guard, tt)
    }
}

fn exec_find_interrupt(s: &Vec<ClassicInterruptState>, state: usize) -> (r: Option<usize>)
    ensures
        r matches Some(k) ==> find_interrupt(interrupts_view(s@), state, 0) == Some(k as int) && k < s@.len(),
        r is None ==> find_interrupt(interrupts_view(s@), state, 0) is None,
{
    let ghost v = interrupts_view(s@);
    let mut i: usize = 0;
    while i < s.len()
        invariant
            i <= s@.len(),
            v == interrupts_view(s@),
            find_interrupt(v, state, 0) == find_interrupt(v, state, i as int),
        decreases s@.len() - i,
    {
        if s[i].state == state {
            return Some(i);
        }
        i = i + 1;
    }
    None
}

fn is_named(f: &ClassicField, name: &str) -> (r: bool)
    ensures
        r == (f.name@ == name@),
{
    str_equal(f.name.as_str(), name)
}

fn exec_field(d: &mut ClassicDerivedDescription, f: &ClassicField) -> (r: Result<(), ClassicDerivedError>)
    ensures
        spec_field(old(d)@, *f) matches Ok(m) ==> r is Ok && final(d)@ == m,
        spec_field(old(d)@, *f) matches Err(e) ==> r == Err::<(), ClassicDerivedError>(e),
{
    let g = match &f.generics {
        None => {
            return Err(ClassicDerivedError::UnknownParameterType);
        },
        Some(g) => g,
    };
    if is_named(f, "InitialState") {
        if g.len() > 1 {
            d.initial_state = Some(g[1].elements.clone());
        }
    } else if is_named(f, "ContextType") {
        if g.len() > 0 {
            d.context_ty = Some(g[0].ty);
        }
    } else if is_named(f, "CopyableEvents") {
        d.copyable_events = true;
    } else if is_named(f, "SubMachine") {
        if g.len() > 0 {
            d.sub_machines.push(g[0].ty);
        }
    } else if is_named(f, "InterruptState") {
        if g.len() < 3 {
            return Err(ClassicDerivedError::MissingTypeArguments);
        }
        let st = g[1].ty;
        let ev = g[2].ty;
        let ghost before = interrupts_view(d.interrupt_states@);
        match exec_find_interrupt(&d.interrupt_states, st) {
            Some(k) => {
                let mut events = d.interrupt_states[k].resume_events.clone();
                assert(events@ == d.interrupt_states@[k as int].resume_events@);
                events.push(ev);
                d.interrupt_states.set(k, ClassicInterruptState { state: st, resume_events: events });
                assert(interrupts_view(d.interrupt_states@) =~= before.update(k as int, (st, before[k as int].1.push(ev))));
            },
            None => {
                let mut events: Vec<usize> = Vec::new();
                events.push(ev);
                d.interrupt_states.push(ClassicInterruptState { state: st, resume_events: events });
                assert(events@ =~= seq![ev]);
                assert(interrupts_view(d.interrupt_states@) =~= before.push((st, seq![ev])));
            },
        }
    } else if is_named(f, "ShallowHistory") {
        if g.len() > 2 {
            d.shallow_history.push((g[1].ty, g[2].ty));
        }
    } else if is_named(f, "Transition") || is_named(f, "TransitionGuard") {
        return exec_transitions(d, g, ClassicTransitionType::Normal);
    } else if is_named(f, "TransitionSelf") || is_named(f, "TransitionSelfGuard") {
        return exec_transitions(d, g, ClassicTransitionType::SelfTransition);
    } else if is_named(f, "TransitionInternal") || is_named(f, "TransitionInternalGuard") {
        return exec_transitions(d, g, ClassicTransitionType::Internal);
    } else if is_named(f, "TimerStateTimeout") {
        if g.len() < 3 {
            return Err(ClassicDerivedError::MissingTypeArguments);
        }
        if d.timers.len() >= 0xffff_ffff {
            return Err(ClassicDerivedError::TooManyTimers);
        }
        let id: u32 = d.timers.len() as u32;
        d.timers.push(ClassicStateTimeout { id, state: g[1].ty, event: g[2].ty });
    } else {
        return Err(ClassicDerivedError::UnknownParameterType);
    }
    Ok(())
}

/// Reads the description from the fields of a definition struct, in order, as `spec_fields`
/// says; refused with the first error.
pub fn parse_fields(fields: &Vec<ClassicField>) -> (r: Result<ClassicDerivedDescription, ClassicDerivedError>)
    ensures
        spec_fields(empty_derived(), fields@) matches Ok(m) ==> r matches Ok(d) && d@ == m,
        spec_fields(empty_derived(), fields@) matches Err(e) ==> r == Err::<ClassicDerivedDescription, ClassicDerivedError>(e),
{
    let mut d = ClassicDerivedDescription {
        initial_state: None,
        context_ty: None,
        copyable_events: false,
        transitions: Vec::new(),
        sub_machines: Vec::new(),
        shallow_history: Vec::new(),
        interrupt_states: Vec::new(),
        timers: Vec::new(),
    };
    assert(interrupts_view(d.interrupt_states@) =~= Seq::empty());
    assert(d@ == empty_derived());
    let mut i: usize = 0;
    assert(fields@.take(0) =~= Seq::<ClassicField>::empty());
    while i < fields.len()
        invariant
            i <= fields@.len(),
            spec_fields(empty_derived(), fields@.take(i as int)) == Ok::<DerivedModel, ClassicDerivedError>(d@),
        decreases fields@.len() - i,
    {
        assert(fields@.take(i + 1).drop_last() =~= fields@.take(i as int));
        match exec_field(&mut d, &fields[i]) {
            Ok(()) => {},
            Err(e) => {
                proof {
                    lemma_fields_prefix_err(empty_derived(), fields@, i + 1);
                }
                return Err(e);
            },
        }
        i = i + 1;
    }
    assert(fields@.take(fields@.len() as int) =~= fields@);
    Ok(d)
}

/// `s` with every occurrence of `w` taken out, scanning from the left.
pub open spec fn remove_all(s: Seq<char>, w: Seq<char>) -> Seq<char>
    decreases s.len(),
{
    if s.len() == 0 {
        s
    } else if w.len() > 0 && s.len() >= w.len() && s.take(w.len() as int) == w {
        remove_all(s.skip(w.len() as int), w)
    } else {
        seq![s[0]] + remove_all(s.skip(1), w)
    }
}

/// Whether `w` occurs in `s` at position `i`.
fn occurs_at(s: &str, w: &str, i: usize) -> (r: bool)
    requires
        i <= s@.len(),
    ensures
        r == (w@.len() > 0 && s@.len() - i >= w@.len() && s@.skip(i as int).take(w@.len() as int) == w@),
{
    let n = s.unicode_len();
    let m = w.unicode_len();
    if m == 0 || n - i < m {
        return false;
    }
    let mut k: usize = 0;
    while k < m
        invariant
            n == s@.len(),
            m == w@.len(),
            i + m <= n,
            k <= m,
            forall|j: int| 0 <= j < k ==> s@[i + j] == w@[j],
        decreases m - k,
    {
        if s.get_char(i + k) != w.get_char(k) {
            assert(s@.skip(i as int).take(m as int)[k as int] != w@[k as int]);
            return false;
        }
        k = k + 1;
    }
    assert(s@.skip(i as int).take(m as int) =~= w@);
    true
}

proof fn lemma_remove_all_step(s: Seq<char>, w: Seq<char>, i: int)
    requires
        0 <= i < s.len(),
    ensures
        w.len() > 0 && s.len() - i >= w.len() && s.skip(i).take(w.len() as int) == w ==> remove_all(s.skip(i), w)
            == remove_all(s.skip(i + w.len()), w),
        !(w.len() > 0 && s.len() - i >= w.len() && s.skip(i).take(w.len() as int) == w) ==> remove_all(s.skip(i), w)
            == seq![s[i]] + remove_all(s.skip(i + 1), w),
{
    if s.len() - i >= w.len() {
        assert(s.skip(i).skip(w.len() as int) =~= s.skip(i + w.len()));
    }
    assert(s.skip(i).skip(1) =~= s.skip(i + 1));
}

/// The machine's name: the definition struct's name without `Definition`.
pub fn fsm_name_of(ident: &str) -> (r: String)
    ensures
        r@ == remove_all(ident@, "Definition"@),
{
    let w = "Definition";
    let n = ident.unicode_len();
    let mut out = String::new();
    let mut i: usize = 0;
    assert(ident@.skip(0) =~= ident@);
    assert(out@ + remove_all(ident@, w@) =~= remove_all(ident@, w@));
    while i < n
        invariant
            n == ident@.len(),
            i <= n,
            out@ + remove_all(ident@.skip(i as int), w@) == remove_all(ident@, w@),
        decreases n - i,
    {
        proof {
            lemma_remove_all_step(ident@, w@, i as int);
        }
        if occurs_at(ident, w, i) {
            i = i + w.unicode_len();
        } else {
            let c = ident.substring_char(i, i + 1);
            assert(c@ =~= seq![ident@[i as int]]);
            let ghost before = out@;
            out.append(c);
            assert(out@ + remove_all(ident@.skip(i + 1), w@) =~= before + (seq![ident@[i as int]] + remove_all(ident@.skip(i + 1), w@)));
            i = i + 1;
        }
    }
    assert(ident@.skip(n as int) =~= Seq::<char>::empty());
    assert(out@ + Seq::<char>::empty() =~= out@);
    out
}

/// A machine described by a definition struct: its name, its initial states and the rest of
/// its description.
#[derive(Debug, Clone)]
pub struct ClassicDerivedMachine {
    pub name: String,
    pub initial_states: Vec<usize>,
    pub description: ClassicDerivedDescription,
}

/// Reads the machine from its definition struct: the struct's name, without `Definition`, is
/// the machine's; the fields are read as `parse_fields` reads them, and the initial states are
/// the ones the `InitialState` field names, which has to be present.
pub fn parse_description(ident: &str, fields: &Vec<ClassicField>) -> (r: Result<ClassicDerivedMachine, ClassicDerivedError>)
    ensures
        spec_fields(empty_derived(), fields@) matches Err(e) ==> r == Err::<ClassicDerivedMachine, ClassicDerivedError>(e),
        spec_fields(empty_derived(), fields@) matches Ok(m) ==> match m.initial_state {
            None => r == Err::<ClassicDerivedMachine, ClassicDerivedError>(ClassicDerivedError::MissingInitialState),
            Some(s) => r matches Ok(x) && x.name@ == remove_all(ident@, "Definition"@) && x.initial_states@ == s
                && x.description@ == m,
        },
{
    let name = fsm_name_of(ident);
    let description = parse_fields(fields)?;
    match &description.initial_state {
        None => Err(ClassicDerivedError::MissingInitialState),
        Some(states) => {
            let initial_states = states.clone();
            Ok(ClassicDerivedMachine { name, initial_states, description })
        },
    }
}

} // verus!
