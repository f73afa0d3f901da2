//! Structures that describe the FSM. Used by inspection frontends and documentation.

use vstd::prelude::*;
use crate::derive::parse::{
    FsmState, FsmTransition, FsmTransitionEvent, FsmTransitionState, FsmTransitionType,
};
use crate::derive::validation::{FsmRegion, ValidatedFsm};

verus! {

#[derive(Debug, Clone)]
pub struct FinnyFsm {
    pub fsm_id: String,
    pub context_id: String,
    /// The regions, indexed by their id.
    pub regions: Vec<FinnyRegion>,
}

#[derive(Debug, Clone)]
pub struct FinnyRegion {
    pub region_id: usize,
    /// The region's states; each is keyed by its `get_state_id()`.
    pub states: Vec<FinnyStateKind>,
    /// The region's transitions; each is keyed by its `transition_id`.
    pub transitions: Vec<FinnyTransition>,
}

#[derive(Debug, Clone)]
pub enum FinnyStateKind {
    Stopped,
    State(FinnyState),
    SubMachine(String),
}

#[derive(Debug, Clone)]
pub struct FinnyState {
    pub state_id: String,
    pub timers: Vec<FinnyTimer>,
}

#[derive(Debug, Clone)]
pub struct FinnyTransition {
    pub transition_id: String,
    pub event: FinnyEvent,
    pub transition: FinnyTransitionKind,
}

#[derive(Debug, Clone)]
pub enum FinnyEvent {
    Start,
    Stop,
    Event(String),
}

#[derive(Debug, Clone)]
pub enum FinnyTransitionKind {
    SelfTransition { state_id: String },
    InternalTransition { state_id: String },
    NormalTransition(FinnyTransitionNormal),
}

#[derive(Debug, Clone)]
pub struct FinnyTransitionNormal {
    pub from_state: String,
    pub to_state: String,
}

#[derive(Debug, Clone)]
pub struct FinnyTimer {
    pub timer_id: String,
}

pub open spec fn spec_state_id(k: FinnyStateKind) -> Seq<char> {
    match k {
        FinnyStateKind::Stopped => "Stopped"@,
        FinnyStateKind::State(s) => s.state_id@,
        FinnyStateKind::SubMachine(id) => id@,
    }
}

impl FinnyStateKind {
    /// The id under which the state is listed.
    pub fn get_state_id(&self) -> (r: String)
        ensures
            r@ == spec_state_id(*self),
    {
        match self {
            FinnyStateKind::Stopped => String::from_str("Stopped"),
            FinnyStateKind::State(s) => s.state_id.clone(),
            FinnyStateKind::SubMachine(id) => id.clone(),
        }
    }
}

/// The decimal digits of `n`.
pub open spec fn decimal(n: nat) -> Seq<char>
    decreases n,
{
    if n < 10 {
        seq![(('0' as u8) + n) as char]
    } else {
        decimal(n / 10) + seq![(('0' as u8) + (n % 10)) as char]
    }
}

fn digit_str(d: usize) -> (r: &'static str)
    requires
        d < 10,
    ensures
        r@ == decimal(d as nat),
{
    proof {
        reveal_strlit("0");
        reveal_strlit("1");
        reveal_strlit("2");
        reveal_strlit("3");
        reveal_strlit("4");
        reveal_strlit("5");
        reveal_strlit("6");
        reveal_strlit("7");
        reveal_strlit("8");
        reveal_strlit("9");
    }
    if d == 0 { "0" } else if d == 1 { "1" } else if d == 2 { "2" } else if d == 3 { "3" }
    else if d == 4 { "4" } else if d == 5 { "5" } else if d == 6 { "6" } else if d == 7 { "7" }
    else if d == 8 { "8" } else { "9" }
}

/// Appends the decimal digits of `n` to `out`.
pub(crate) fn push_decimal(out: &mut String, n: usize)
    ensures
        final(out)@ == old(out)@ + decimal(n as nat),
    decreases n,
{
    if n < 10 {
        out.append(digit_str(n));
    } else {
        push_decimal(out, n / 10);
        out.append(digit_str(n % 10));
    }
}

/// The name of the type generated for transition `n`: `Transition{n}`.
fn transition_ident(n: usize) -> (r: String)
    ensures
        r@ == "Transition"@ + decimal(n as nat),
{
    let mut r = String::from_str("Transition");
    push_decimal(&mut r, n);
    r
}

/// The names of the types of a definition function, by type id, without their generic
/// arguments; and the names of the machine and of its context.
#[derive(Debug, Clone)]
pub struct FsmFnBase {
    pub fsm_id: String,
    pub context_id: String,
    pub type_labels: Vec<String>,
}

/// A parsed and validated definition function.
#[derive(Debug, Clone)]
pub struct FsmFnInput {
    pub base: FsmFnBase,
    pub fsm: ValidatedFsm,
}

pub open spec fn type_label(base: FsmFnBase, ty: usize) -> Seq<char> {
    if ty < base.type_labels@.len() {
        base.type_labels@[ty as int]@
    } else {
        Seq::empty()
    }
}

pub open spec fn info_state_id(base: FsmFnBase, s: FsmTransitionState) -> Seq<char> {
    match s {
        FsmTransitionState::Stopped => "Stopped"@,
        FsmTransitionState::State(ty) => type_label(base, ty),
    }
}

/// The description of a transition, as strings: its id, its event, and its kind.
pub open spec fn info_transition_ok(base: FsmFnBase, t: FsmTransition, i: FinnyTransition) -> bool {
    &&& i.transition_id@ == "Transition"@ + decimal(t.transition_ty as nat)
    &&& match t.ty {
        FsmTransitionType::InternalTransition(a) => {
            &&& i.transition matches FinnyTransitionKind::InternalTransition { state_id }
            &&& state_id@ == info_state_id(base, a.state)
            &&& info_event_ok(base, a.event, i.event)
        },
        FsmTransitionType::SelfTransition(a) => {
            &&& i.transition matches FinnyTransitionKind::SelfTransition { state_id }
            &&& state_id@ == info_state_id(base, a.state)
            &&& info_event_ok(base, a.event, i.event)
        },
        FsmTransitionType::StateTransition(st) => {
            &&& i.transition matches FinnyTransitionKind::NormalTransition(n)
            &&& n.from_state@ == info_state_id(base, st.state_from)
            &&& n.to_state@ == info_state_id(base, st.state_to)
            &&& info_event_ok(base, st.event, i.event)
        },
    }
}

pub open spec fn info_event_ok(base: FsmFnBase, e: FsmTransitionEvent, i: FinnyEvent) -> bool {
    match e {
        FsmTransitionEvent::Stop => i is Stop,
        FsmTransitionEvent::Start => i is Start,
        FsmTransitionEvent::Event(ty) => i matches FinnyEvent::Event(name) && name@ == type_label(base, ty),
    }
}

/// The description of a declared state: its type's name, and no timers.
pub open spec fn state_info_ok(base: FsmFnBase, s: FsmState, i: FinnyStateKind) -> bool {
    &&& i matches FinnyStateKind::State(st)
    &&& st.state_id@ == type_label(base, s.ty)
    &&& st.timers@.len() == 0
}

/// The description of a region: its states, then the `Stopped` state, and its transitions,
/// in order.
pub open spec fn info_region_ok(base: FsmFnBase, k: int, r: FsmRegion, i: FinnyRegion) -> bool {
    &&& i.region_id == k
    &&& i.states@.len() == r.states@.len() + 1
    &&& forall|s: int|
        0 <= s < r.states@.len() ==> state_info_ok(base, r.states@[s], #[trigger] i.states@[s])
    &&& i.states@[r.states@.len() as int] is Stopped
    &&& i.transitions@.len() == r.transitions@.len()
    &&& forall|t: int|
        0 <= t < r.transitions@.len() ==> info_transition_ok(base, r.transitions@[t], #[trigger] i.transitions@[t])
}

fn type_label_of(base: &FsmFnBase, ty: usize) -> (r: String)
    ensures
        r@ == type_label(*base, ty),
{
    if ty < base.type_labels.len() {
        base.type_labels[ty].clone()
    } else {
        String::new()
    }
}

fn to_info_state_id(base: &FsmFnBase, s: FsmTransitionState) -> (r: String)
    ensures
        r@ == info_state_id(*base, s),
{
    match s {
        FsmTransitionState::Stopped => String::from_str("Stopped"),
        FsmTransitionState::State(ty) => type_label_of(base, ty),
    }
}

fn to_info_event(base: &FsmFnBase, e: FsmTransitionEvent) -> (r: FinnyEvent)
    ensures
        info_event_ok(*base, e, r),
{
    match e {
        FsmTransitionEvent::Stop => FinnyEvent::Stop,
        FsmTransitionEvent::Start => FinnyEvent::Start,
        FsmTransitionEvent::Event(ty) => FinnyEvent::Event(type_label_of(base, ty)),
    }
}

fn to_info_transition(base: &FsmFnBase, t: &FsmTransition) -> (r: FinnyTransition)
    ensures
        info_transition_ok(*base, *t, r),
{
    let transition_id = transition_ident(t.transition_ty);
    match t.ty {
        FsmTransitionType::InternalTransition(a) => FinnyTransition {
            transition_id,
            event: to_info_event(base, a.event),
            transition: FinnyTransitionKind::InternalTransition { state_id: to_info_state_id(base, a.state) },
        },
        FsmTransitionType::SelfTransition(a) => FinnyTransition {
            transition_id,
            event: to_info_event(base, a.event),
            transition: FinnyTransitionKind::SelfTransition { state_id: to_info_state_id(base, a.state) },
        },
        FsmTransitionType::StateTransition(st) => FinnyTransition {
            transition_id,
            event: to_info_event(base, st.event),
            transition: FinnyTransitionKind::NormalTransition(
                FinnyTransitionNormal {
                    from_state: to_info_state_id(base, st.state_from),
                    to_state: to_info_state_id(base, st.state_to),
                },
            ),
        },
    }
}

fn to_info_region(base: &FsmFnBase, k: usize, r: &FsmRegion) -> (i: FinnyRegion)
    ensures
        info_region_ok(*base, k as int, *r, i),
{
    let mut states: Vec<FinnyStateKind> = Vec::new();
    let mut s: usize = 0;
    while s < r.states.len()
        invariant
            s <= r.states@.len(),
            states@.len() == s,
            forall|x: int|
                0 <= x < s ==> state_info_ok(*base, r.states@[x], #[trigger] states@[x]),
        decreases r.states@.len() - s,
    {
        let st: FsmState = r.states[s];
        states.push(FinnyStateKind::State(FinnyState { state_id: type_label_of(base, st.ty), timers: Vec::new() }));
        s = s + 1;
    }
    states.push(FinnyStateKind::Stopped);
    let mut transitions: Vec<FinnyTransition> = Vec::new();
    let mut t: usize = 0;
    while t < r.transitions.len()
        invariant
            t <= r.transitions@.len(),
            transitions@.len() == t,
            forall|x: int|
                0 <= x < t ==> info_transition_ok(*base, r.transitions@[x], #[trigger] transitions@[x]),
        decreases r.transitions@.len() - t,
    {
        transitions.push(to_info_transition(base, &r.transitions[t]));
        t = t + 1;
    }
    FinnyRegion { region_id: k, states, transitions }
}

/// The description of a machine: its id, its context's id, and one description per region.
pub fn to_info(fsm: &FsmFnInput) -> (r: FinnyFsm)
    ensures
        r.fsm_id@ == fsm.base.fsm_id@,
        r.context_id@ == fsm.base.context_id@,
        r.regions@.len() == fsm.fsm.regions@.len(),
        forall|k: int|
            0 <= k < r.regions@.len() ==> info_region_ok(
                fsm.base,
                k,
                fsm.fsm.regions@[k],
                #[trigger] r.regions@[k],
            ),
{
    let mut regions: Vec<FinnyRegion> = Vec::new();
    let mut k: usize = 0;
    while k < fsm.fsm.regions.len()
        invariant
            k <= fsm.fsm.regions@.len(),
            regions@.len() == k,
            forall|x: int|
                0 <= x < k ==> info_region_ok(fsm.base, x, fsm.fsm.regions@[x], #[trigger] regions@[x]),
        decreases fsm.fsm.regions@.len() - k,
    {
        regions.push(to_info_region(&fsm.base, k, &fsm.fsm.regions[k]));
        k = k + 1;
    }
    FinnyFsm { fsm_id: fsm.base.fsm_id.clone(), context_id: fsm.base.context_id.clone(), regions }
}

} // verus!
