//! The record of what a machine did, for inspection frontends: the events it dispatched and
//! the structures (its context and states) that changed with each of them. Structures are
//! given as JSON texts.

use vstd::prelude::*;
use vstd::string::StrSliceExecFns;
use crate::classic::{Fsm, RegionId};
use crate::classic::info::{FsmInfo as FsmInfoTrait, FsmInfoRegion, TransitionId};

verus! {

/// The description of a machine.
#[derive(Debug, Clone)]
pub struct FsmInfo {
    pub regions: Vec<FsmInfoRegion>,
    pub name: &'static str,
}

#[derive(Debug, Clone)]
pub enum FsmInspectedEvent {
    StateTransitionStart(FsmEventStateTransitionStart),
    StateTransitioned(FsmEventStateTransitioned),
    ProcessingEvent(FsmEventProcessingEvent),
    StateEvent(FsmEventState),
    Action(FsmEventAction),
    EventProcessed,
    NoTransition,
}

#[derive(Debug, Clone)]
pub struct FsmEventCommon {
    pub id: u64,
    pub fsm: String,
    pub modified_structures: Vec<FsmEventStruct>,
}

#[derive(Debug, Clone)]
pub struct FsmEventStateTransitionStart {
    pub transition_id: TransitionId,
    pub from: String,
    pub to: String,
    pub region_id: RegionId,
}

#[derive(Debug, Clone)]
pub struct FsmEventStateTransitioned {
    pub transition_id: TransitionId,
    pub from: String,
    pub to: String,
    pub region_id: RegionId,
}

#[derive(Debug, Clone)]
pub struct FsmEventProcessingEvent {
    pub event_kind: String,
    /// The event, as JSON text.
    pub event_data: String,
}

#[derive(Debug, Clone, Copy, PartialEq, Eq, Structural)]
pub enum FsmEventStateKind {
    Enter,
    Exit,
}

#[derive(Debug, Clone)]
pub struct FsmEventState {
    pub transition_id: TransitionId,
    pub state_event_kind: FsmEventStateKind,
    pub state_name: String,
}

#[derive(Debug, Clone)]
pub struct FsmEventAction {
    pub transition_id: TransitionId,
    pub action_name: String,
}

/// A structure of the machine and its value, as JSON text.
#[derive(Debug, Clone)]
pub struct FsmEventStruct {
    pub id: FsmEventStructKind,
    pub value: String,
}

#[derive(Debug, Clone)]
pub enum FsmEventStructKind {
    Context,
    State(String),
}

#[derive(Debug, Clone)]
pub struct FsmEventEntry {
    pub common: FsmEventCommon,
    pub event: FsmInspectedEvent,
}

/// The key of a structure: `None` for the context, the state's name for a state.
pub open spec fn struct_key(k: FsmEventStructKind) -> Option<Seq<char>> {
    match k {
        FsmEventStructKind::Context => None,
        FsmEventStructKind::State(name) => Some(name@),
    }
}

/// A structure as plain values: its key and its JSON text.
pub open spec fn struct_view(s: FsmEventStruct) -> (Option<Seq<char>>, Seq<char>) {
    (struct_key(s.id), s.value@)
}

/// Structures as plain values.
pub open spec fn structs_view(ss: Seq<FsmEventStruct>) -> Seq<(Option<Seq<char>>, Seq<char>)> {
    ss.map_values(|s: FsmEventStruct| struct_view(s))
}

/// The position of the last stored structure with the key `key`.
pub open spec fn lookup(store: Seq<(Option<Seq<char>>, Seq<char>)>, key: Option<Seq<char>>) -> Option<int>
    decreases store.len(),
{
    if store.len() == 0 {
        None
    } else if store.last().0 == key {
        Some(store.len() - 1)
    } else {
        lookup(store.drop_last(), key)
    }
}

/// Records one structure: a `null` value is ignored; a value that differs from the stored one,
/// or that is not stored yet, is stored and counts as modified.
pub open spec fn absorb(
    store: Seq<(Option<Seq<char>>, Seq<char>)>,
    s: (Option<Seq<char>>, Seq<char>),
) -> (Seq<(Option<Seq<char>>, Seq<char>)>, bool) {
    if s.1 == "null"@ {
        (store, false)
    } else {
        match lookup(store, s.0) {
            Some(i) => if store[i].1 != s.1 {
                (store.update(i, s), true)
            } else {
                (store, false)
            },
            None => (store.push(s), true),
        }
    }
}

/// Records the structures in order; returns the store and the modified structures.
pub open spec fn absorb_all(
    store: Seq<(Option<Seq<char>>, Seq<char>)>,
    ss: Seq<(Option<Seq<char>>, Seq<char>)>,
) -> (Seq<(Option<Seq<char>>, Seq<char>)>, Seq<(Option<Seq<char>>, Seq<char>)>)
    decreases ss.len(),
{
    if ss.len() == 0 {
        (store, Seq::empty())
    } else {
        let (st, m) = absorb_all(store, ss.drop_last());
        let (st2, changed) = absorb(st, ss.last());
        (st2, if changed { m.push(ss.last()) } else { m })
    }
}

/// The same text, char by char.
pub(crate) fn str_equal(a: &str, b: &str) -> (r: bool)
    ensures
        r == (a@ == b@),
{
    let n = a.unicode_len();
    if n != b.unicode_len() {
        return false;
    }
    let mut i: usize = 0;
    while i < n
        invariant
            n == a@.len(),
            n == b@.len(),
            i <= n,
            forall|j: int| 0 <= j < i ==> a@[j] == b@[j],
        decreases n - i,
    {
        if a.get_char(i) != b.get_char(i) {
            return false;
        }
        i = i + 1;
    }
    assert(a@ =~= b@);
    true
}

fn key_equal(a: &FsmEventStructKind, b: &FsmEventStructKind) -> (r: bool)
    ensures
        r == (struct_key(*a) == struct_key(*b)),
{
    match (a, b) {
        (FsmEventStructKind::Context, FsmEventStructKind::Context) => true,
        (FsmEventStructKind::State(x), FsmEventStructKind::State(y)) => str_equal(x.as_str(), y.as_str()),
        _ => false,
    }
}

fn copy_struct(s: &FsmEventStruct) -> (r: FsmEventStruct)
    ensures
        struct_view(r) == struct_view(*s),
{
    let id = match &s.id {
        FsmEventStructKind::Context => FsmEventStructKind::Context,
        FsmEventStructKind::State(name) => FsmEventStructKind::State(name.clone()),
    };
    FsmEventStruct { id, value: s.value.clone() }
}

/// The events and structures recorded for one machine.
#[derive(Clone)]
pub struct FsmDataState {
    pub fsm_name: &'static str,
    structures: Vec<FsmEventStruct>,
    events: Vec<FsmEventEntry>,
}

impl FsmDataState {
    /// The stored structures.
    pub closed spec fn store(&self) -> Seq<(Option<Seq<char>>, Seq<char>)> {
        self.structures@.map_values(|s: FsmEventStruct| struct_view(s))
    }

    /// The machine's name.
    pub closed spec fn name(&self) -> Seq<char> {
        self.fsm_name@
    }

    /// The events recorded since the last flush.
    pub closed spec fn recorded(&self) -> Seq<FsmEventEntry> {
        self.events@
    }

    /// The number of characters of the machine's name.
    pub fn name_len(&self) -> (r: usize)
        ensures
            r == self.name().len(),
    {
        self.fsm_name.unicode_len()
    }

    /// `new` is `old` after recording `event` of the machine named `fsm_name`, which shows the
    /// given structures: nothing changes for another machine; else the structures are
    /// absorbed and the event is recorded with the modified ones and id 0.
    pub open spec fn records(
        old: FsmDataState,
        new: FsmDataState,
        fsm_name: Seq<char>,
        event: FsmInspectedEvent,
        structures: Seq<(Option<Seq<char>>, Seq<char>)>,
    ) -> bool {
        &&& fsm_name != old.name() ==> new == old
        &&& fsm_name == old.name() ==> {
            let (st, modified) = absorb_all(old.store(), structures);
            &&& new.store() == st
            &&& new.name() == old.name()
            &&& new.recorded().len() == old.recorded().len() + 1
            &&& new.recorded().take(old.recorded().len() as int) == old.recorded()
            &&& new.recorded().last().common.id == 0
            &&& new.recorded().last().common.fsm@ == fsm_name
            &&& new.recorded().last().common.modified_structures@.map_values(
                |s: FsmEventStruct| struct_view(s),
            ) == modified
            &&& new.recorded().last().event == event
        }
    }

    /// An empty record for the machine named `fsm_name`.
    pub fn new_named(fsm_name: &'static str) -> (r: Self)
        ensures
            r.name() == fsm_name@,
            r.store() == Seq::<(Option<Seq<char>>, Seq<char>)>::empty(),
            r.recorded() == Seq::<FsmEventEntry>::empty(),
    {
        let r = FsmDataState { fsm_name, structures: Vec::new(), events: Vec::new() };
        assert(r.store() =~= Seq::<(Option<Seq<char>>, Seq<char>)>::empty());
        r
    }

    /// An empty record for the machine `F`, under its name.
    pub fn new<F: Fsm>() -> (r: Self)
        ensures
            r.name() == F::spec_fsm_name(),
            r.store() == Seq::<(Option<Seq<char>>, Seq<char>)>::empty(),
            r.recorded() == Seq::<FsmEventEntry>::empty(),
    {
        Self::new_named(F::fsm_name())
    }

    /// Takes the recorded events, oldest first, and leaves none.
    pub fn flush_events(&mut self) -> (r: Vec<FsmEventEntry>)
        ensures
            r@ == old(self).recorded(),
            final(self).recorded() == Seq::<FsmEventEntry>::empty(),
            final(self).store() == old(self).store(),
            final(self).name() == old(self).name(),
    {
        let mut ret: Vec<FsmEventEntry> = Vec::new();
        core::mem::swap(&mut ret, &mut self.events);
        ret
    }

    /// The position of the stored structure with the same key as `kind`.
    fn find_structure(&self, kind: &FsmEventStructKind) -> (r: Option<usize>)
        ensures
            r matches Some(i) ==> lookup(self.store(), struct_key(*kind)) == Some(i as int) && i < self.structures@.len(),
            r is None ==> lookup(self.store(), struct_key(*kind)) is None,
    {
        let ghost st = self.store();
        let mut found: Option<usize> = None;
        let mut j: usize = 0;
        while j < self.structures.len()
            invariant
                j <= self.structures@.len(),
                st == self.structures@.map_values(|s: FsmEventStruct| struct_view(s)),
                found matches Some(i) ==> lookup(st.take(j as int), struct_key(*kind)) == Some(i as int) && i < j,
                found is None ==> lookup(st.take(j as int), struct_key(*kind)) is None,
            decreases self.structures@.len() - j,
        {
            proof {
                let s = st.take(j + 1);
                assert(s.drop_last() =~= st.take(j as int));
                assert(s.last() == struct_view(self.structures@[j as int]));
            }
            if key_equal(&self.structures[j].id, kind) {
                found = Some(j);
            }
            j = j + 1;
        }
        proof {
            assert(st.take(j as int) =~= st);
        }
        found
    }

    /// Records one structure, as `absorb` says; returns whether it counts as modified.
    fn absorb_structure(&mut self, s: &FsmEventStruct) -> (changed: bool)
        ensures
            (final(self).store(), changed) == absorb(old(self).store(), struct_view(*s)),
            final(self).recorded() == old(self).recorded(),
            final(self).name() == old(self).name(),
    {
        if str_equal(s.value.as_str(), "null") {
            return false;
        }
        match self.find_structure(&s.id) {
            Some(i) => {
                let ghost old_store = self.store();
                if !str_equal(self.structures[i].value.as_str(), s.value.as_str()) {
                    self.structures.set(i, copy_struct(s));
                    assert(self.store() =~= old_store.update(i as int, struct_view(*s)));
                    true
                } else {
                    false
                }
            },
            None => {
                let ghost old_store = self.store();
                self.structures.push(copy_struct(s));
                assert(self.store() =~= old_store.push(struct_view(*s)));
                true
            },
        }
    }

    /// Records an event of the machine named `fsm_name`, with the structures it shows. Nothing
    /// is recorded for another machine. The event is recorded with the structures that
    /// changed, in the given order, and id 0.
    pub fn push_event_named(&mut self, fsm_name: &str, event: FsmInspectedEvent, structures: Vec<FsmEventStruct>)
        ensures
            Self::records(*old(self), *final(self), fsm_name@, event, structures@.map_values(|s: FsmEventStruct| struct_view(s))),
    {
        if !str_equal(self.fsm_name, fsm_name) {
            return;
        }
        let ghost ss = structures@.map_values(|s: FsmEventStruct| struct_view(s));
        let ghost store0 = self.store();
        let ghost events0 = self.recorded();
        let mut modified_structures: Vec<FsmEventStruct> = Vec::new();
        let mut i: usize = 0;
        while i < structures.len()
            invariant
                i <= structures@.len(),
                ss == structures@.map_values(|s: FsmEventStruct| struct_view(s)),
                (self.store(), modified_structures@.map_values(|s: FsmEventStruct| struct_view(s)))
                    == absorb_all(store0, ss.take(i as int)),
                self.recorded() == events0,
                self.name() == old(self).name(),
            decreases structures@.len() - i,
        {
            let ghost m0 = modified_structures@.map_values(|s: FsmEventStruct| struct_view(s));
            let changed = self.absorb_structure(&structures[i]);
            if changed {
                modified_structures.push(copy_struct(&structures[i]));
            }
            proof {
                let s = ss.take(i + 1);
                assert(s.drop_last() =~= ss.take(i as int));
                assert(s.last() == struct_view(structures@[i as int]));
                if changed {
                    assert(modified_structures@.map_values(|s: FsmEventStruct| struct_view(s))
                        =~= m0.push(struct_view(structures@[i as int])));
                }
            }
            i = i + 1;
        }
        proof {
            assert(ss.take(i as int) =~= ss);
        }
        let common = FsmEventCommon { id: 0, fsm: String::from_str(fsm_name), modified_structures };
        self.events.push(FsmEventEntry { common, event });
        assert(self.recorded().take(events0.len() as int) =~= events0);
    }

    /// Records an event of the machine `F`; see `push_event_named`.
    pub fn push_event<F: Fsm>(&mut self, event: FsmInspectedEvent, structures: Vec<FsmEventStruct>)
        ensures
            Self::records(*old(self), *final(self), F::spec_fsm_name(), event, structs_view(structures@)),
    {
        let name = F::fsm_name();
        self.push_event_named(name, event, structures);
    }
}

/// The structure of the context, as plain values.
pub open spec fn context_struct(json: Seq<char>) -> (Option<Seq<char>>, Seq<char>) {
    (None, json)
}

/// The structure of a state, as plain values.
pub open spec fn state_struct(name: Seq<char>, json: Seq<char>) -> (Option<Seq<char>>, Seq<char>) {
    (Some(name), json)
}

pub(crate) fn context_structure(json: String) -> (r: FsmEventStruct)
    ensures
        struct_view(r) == context_struct(json@),
{
    FsmEventStruct { id: FsmEventStructKind::Context, value: json }
}

pub(crate) fn state_structure(name: &String, json: String) -> (r: FsmEventStruct)
    ensures
        struct_view(r) == state_struct(name@, json@),
{
    FsmEventStruct { id: FsmEventStructKind::State(name.clone()), value: json }
}

/// The inspection hooks of a machine, given the machine's name, the names of its states as
/// text and its structures as JSON texts.
impl FsmDataState {
    /// An event is being processed: its kind and its data.
    pub fn on_process_event(&mut self, fsm_name: &str, event_kind: String, event_data: String)
        ensures
            Self::records(
                *old(self),
                *final(self),
                fsm_name@,
                FsmInspectedEvent::ProcessingEvent(FsmEventProcessingEvent { event_kind, event_data }),
                Seq::empty(),
            ),
    {
        let ev = FsmInspectedEvent::ProcessingEvent(FsmEventProcessingEvent { event_kind, event_data });
        let structs: Vec<FsmEventStruct> = Vec::new();
        assert(structs@.map_values(|s: FsmEventStruct| struct_view(s)) =~= Seq::empty());
        self.push_event_named(fsm_name, ev, structs);
    }

    fn on_state_event(
        &mut self,
        fsm_name: &str,
        transition_id: TransitionId,
        kind: FsmEventStateKind,
        state_name: String,
        context_json: String,
        state_json: String,
    )
        ensures
            Self::records(
                *old(self),
                *final(self),
                fsm_name@,
                FsmInspectedEvent::StateEvent(
                    FsmEventState { transition_id, state_event_kind: kind, state_name },
                ),
                seq![context_struct(context_json@), state_struct(state_name@, state_json@)],
            ),
    {
        let mut structs: Vec<FsmEventStruct> = Vec::new();
        structs.push(context_structure(context_json));
        structs.push(state_structure(&state_name, state_json));
        assert(structs@.map_values(|s: FsmEventStruct| struct_view(s)) =~= seq![
            context_struct(context_json@),
            state_struct(state_name@, state_json@),
        ]);
        let ev = FsmInspectedEvent::StateEvent(FsmEventState { transition_id, state_event_kind: kind, state_name });
        self.push_event_named(fsm_name, ev, structs);
    }

    /// A state is entered: the context and the state after its entry action.
    pub fn on_state_entry(
        &mut self,
        fsm_name: &str,
        transition_id: TransitionId,
        state_name: String,
        context_json: String,
        state_json: String,
    )
        ensures
            Self::records(
                *old(self),
                *final(self),
                fsm_name@,
                FsmInspectedEvent::StateEvent(
                    FsmEventState { transition_id, state_event_kind: FsmEventStateKind::Enter, state_name },
                ),
                seq![context_struct(context_json@), state_struct(state_name@, state_json@)],
            ),
    {
        self.on_state_event(fsm_name, transition_id, FsmEventStateKind::Enter, state_name, context_json, state_json)
    }

    /// A state is exited: the context and the state after its exit action.
    pub fn on_state_exit(
        &mut self,
        fsm_name: &str,
        transition_id: TransitionId,
        state_name: String,
        context_json: String,
        state_json: String,
    )
        ensures
            Self::records(
                *old(self),
                *final(self),
                fsm_name@,
                FsmInspectedEvent::StateEvent(
                    FsmEventState { transition_id, state_event_kind: FsmEventStateKind::Exit, state_name },
                ),
                seq![context_struct(context_json@), state_struct(state_name@, state_json@)],
            ),
    {
        self.on_state_event(fsm_name, transition_id, FsmEventStateKind::Exit, state_name, context_json, state_json)
    }

    /// A transition's action ran: the context, the source state and, when it is another
    /// state, the target state.
    pub fn on_action(
        &mut self,
        fsm_name: &str,
        transition_id: TransitionId,
        action_name: String,
        context_json: String,
        source_name: String,
        source_json: String,
        target_name: String,
        target_json: String,
    )
        ensures
            Self::records(
                *old(self),
                *final(self),
                fsm_name@,
                FsmInspectedEvent::Action(FsmEventAction { transition_id, action_name }),
                seq![context_struct(context_json@), state_struct(source_name@, source_json@)] + if source_name@
                    != target_name@ {
                    seq![state_struct(target_name@, target_json@)]
                } else {
                    Seq::empty()
                },
            ),
    {
        let ghost expected = seq![context_struct(context_json@), state_struct(source_name@, source_json@)] + if source_name@
            != target_name@ {
            seq![state_struct(target_name@, target_json@)]
        } else {
            Seq::empty()
        };
        let mut structs: Vec<FsmEventStruct> = Vec::new();
        structs.push(context_structure(context_json));
        structs.push(state_structure(&source_name, source_json));
        if !str_equal(source_name.as_str(), target_name.as_str()) {
            structs.push(state_structure(&target_name, target_json));
        }
        assert(structs@.map_values(|s: FsmEventStruct| struct_view(s)) =~= expected);
        let ev = FsmInspectedEvent::Action(FsmEventAction { transition_id, action_name });
        self.push_event_named(fsm_name, ev, structs);
    }

    /// A transition starts in region `region_id`: the context.
    pub fn on_transition_start(
        &mut self,
        fsm_name: &str,
        transition_id: TransitionId,
        from: String,
        to: String,
        region_id: RegionId,
        context_json: String,
    )
        ensures
            Self::records(
                *old(self),
                *final(self),
                fsm_name@,
                FsmInspectedEvent::StateTransitionStart(
                    FsmEventStateTransitionStart { transition_id, from, to, region_id },
                ),
                seq![context_struct(context_json@)],
            ),
    {
        let mut structs: Vec<FsmEventStruct> = Vec::new();
        structs.push(context_structure(context_json));
        assert(structs@.map_values(|s: FsmEventStruct| struct_view(s)) =~= seq![context_struct(context_json@)]);
        let ev = FsmInspectedEvent::StateTransitionStart(FsmEventStateTransitionStart { transition_id, from, to, region_id });
        self.push_event_named(fsm_name, ev, structs);
    }

    /// A transition finished in region `region_id`: the context.
    pub fn on_transition_finish(
        &mut self,
        fsm_name: &str,
        transition_id: TransitionId,
        from: String,
        to: String,
        region_id: RegionId,
        context_json: String,
    )
        ensures
            Self::records(
                *old(self),
                *final(self),
                fsm_name@,
                FsmInspectedEvent::StateTransitioned(
                    FsmEventStateTransitioned { transition_id, from, to, region_id },
                ),
                seq![context_struct(context_json@)],
            ),
    {
        let mut structs: Vec<FsmEventStruct> = Vec::new();
        structs.push(context_structure(context_json));
        assert(structs@.map_values(|s: FsmEventStruct| struct_view(s)) =~= seq![context_struct(context_json@)]);
        let ev = FsmInspectedEvent::StateTransitioned(FsmEventStateTransitioned { transition_id, from, to, region_id });
        self.push_event_named(fsm_name, ev, structs);
    }

    /// No transition took the event.
    pub fn on_no_transition(&mut self, fsm_name: &str)
        ensures
            Self::records(*old(self), *final(self), fsm_name@, FsmInspectedEvent::NoTransition, Seq::empty()),
    {
        let structs: Vec<FsmEventStruct> = Vec::new();
        assert(structs@.map_values(|s: FsmEventStruct| struct_view(s)) =~= Seq::empty());
        self.push_event_named(fsm_name, FsmInspectedEvent::NoTransition, structs);
    }

    /// The event is processed.
    pub fn on_event_processed(&mut self, fsm_name: &str)
        ensures
            Self::records(*old(self), *final(self), fsm_name@, FsmInspectedEvent::EventProcessed, Seq::empty()),
    {
        let structs: Vec<FsmEventStruct> = Vec::new();
        assert(structs@.map_values(|s: FsmEventStruct| struct_view(s)) =~= Seq::empty());
        self.push_event_named(fsm_name, FsmInspectedEvent::EventProcessed, structs);
    }
}

/// A copy of an inspected event.
pub fn copy_event(e: &FsmInspectedEvent) -> (r: FsmInspectedEvent)
    ensures
        r == *e,
{
    match e {
        FsmInspectedEvent::StateTransitionStart(t) => FsmInspectedEvent::StateTransitionStart(
            FsmEventStateTransitionStart {
                transition_id: t.transition_id,
                from: t.from.clone(),
                to: t.to.clone(),
                region_id: t.region_id,
            },
        ),
        FsmInspectedEvent::StateTransitioned(t) => FsmInspectedEvent::StateTransitioned(
            FsmEventStateTransitioned {
                transition_id: t.transition_id,
                from: t.from.clone(),
                to: t.to.clone(),
                region_id: t.region_id,
            },
        ),
        FsmInspectedEvent::ProcessingEvent(p) => FsmInspectedEvent::ProcessingEvent(
            FsmEventProcessingEvent { event_kind: p.event_kind.clone(), event_data: p.event_data.clone() },
        ),
        FsmInspectedEvent::StateEvent(st) => FsmInspectedEvent::StateEvent(
            FsmEventState {
                transition_id: st.transition_id,
                state_event_kind: st.state_event_kind,
                state_name: st.state_name.clone(),
            },
        ),
        FsmInspectedEvent::Action(a) => FsmInspectedEvent::Action(
            FsmEventAction { transition_id: a.transition_id, action_name: a.action_name.clone() },
        ),
        FsmInspectedEvent::EventProcessed => FsmInspectedEvent::EventProcessed,
        FsmInspectedEvent::NoTransition => FsmInspectedEvent::NoTransition,
    }
}

/// Copies of the structures, with the same keys and values.
pub fn copy_structs(ss: &Vec<FsmEventStruct>) -> (r: Vec<FsmEventStruct>)
    ensures
        r@.map_values(|s: FsmEventStruct| struct_view(s)) == ss@.map_values(|s: FsmEventStruct| struct_view(s)),
{
    let mut r: Vec<FsmEventStruct> = Vec::new();
    let mut i: usize = 0;
    while i < ss.len()
        invariant
            i <= ss@.len(),
            r@.map_values(|s: FsmEventStruct| struct_view(s)) == ss@.take(i as int).map_values(
                |s: FsmEventStruct| struct_view(s),
            ),
        decreases ss@.len() - i,
    {
        let ghost before = r@.map_values(|s: FsmEventStruct| struct_view(s));
        r.push(copy_struct(&ss[i]));
        proof {
            assert(r@.map_values(|s: FsmEventStruct| struct_view(s)) =~= before.push(struct_view(ss@[i as int])));
            assert(ss@.take(i + 1).map_values(|s: FsmEventStruct| struct_view(s)) =~= ss@.take(i as int).map_values(
                |s: FsmEventStruct| struct_view(s),
            ).push(struct_view(ss@[i as int])));
        }
        i = i + 1;
    }
    proof {
        assert(ss@.take(i as int) =~= ss@);
    }
    r
}

} // verus!
