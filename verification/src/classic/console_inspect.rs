//! An inspector that prints what its machines did, one line per inspected event. The lines
//! are produced here; printing them is left to the caller.

use vstd::prelude::*;
use vstd::string::StrSliceExecFns;
use crate::classic::Fsm;
use crate::classic::inspect::FsmInspectClone;
use crate::classic::RegionId;
use crate::classic::info::TransitionId;
use crate::classic::inspect_data::{
    FsmDataState, FsmEventAction, FsmEventEntry, FsmEventProcessingEvent, FsmEventState,
    FsmEventStateKind, FsmEventStateTransitionStart, FsmEventStateTransitioned, FsmEventStruct,
    FsmEventStructKind, FsmInspectedEvent, context_struct, context_structure, copy_event,
    copy_structs, state_struct, state_structure, struct_view,
};

verus! {

/// The console text of an inspected event.
pub open spec fn console_text(e: FsmInspectedEvent) -> Seq<char> {
    match e {
        FsmInspectedEvent::ProcessingEvent(p) => "* Processing event "@ + p.event_kind@,
        FsmInspectedEvent::StateTransitionStart(t) => "  / Transitioning from "@ + t.from@ + " to "@
            + t.to@,
        FsmInspectedEvent::StateEvent(s) => match s.state_event_kind {
            FsmEventStateKind::Enter => "  | Entering state "@ + s.state_name@,
            FsmEventStateKind::Exit => "  | Exiting state "@ + s.state_name@,
        },
        FsmInspectedEvent::Action(a) => "  | Performing action "@ + a.action_name@,
        FsmInspectedEvent::StateTransitioned(_) => "  \\ Transition finished."@,
        FsmInspectedEvent::EventProcessed => "Event processed."@,
        FsmInspectedEvent::NoTransition => "No transition found."@,
    }
}

/// `n` spaces.
pub open spec fn spaces(n: nat) -> Seq<char> {
    Seq::new(n, |i: int| ' ')
}

/// `s`, padded with spaces on the right to at least `width` characters.
pub open spec fn pad(s: Seq<char>, width: nat) -> Seq<char> {
    if s.len() < width {
        s + spaces((width - s.len()) as nat)
    } else {
        s
    }
}

/// The debug text of a structure's id.
pub open spec fn struct_id_text(k: FsmEventStructKind) -> Seq<char> {
    match k {
        FsmEventStructKind::Context => "Context"@,
        FsmEventStructKind::State(name) => "State(\""@ + name@ + "\")"@,
    }
}

pub open spec fn struct_lines(width: nat, ss: Seq<FsmEventStruct>) -> Seq<Seq<char>>
    decreases ss.len(),
{
    if ss.len() == 0 {
        Seq::empty()
    } else {
        struct_lines(width, ss.drop_last()).push(
            spaces(width + 4) + "|   "@ + struct_id_text(ss.last().id),
        )
    }
}

/// The lines of one recorded event: an empty line after a processed event; else the event
/// behind the machine's name, the event's data if there is any, and the id of each modified
/// structure.
pub open spec fn entry_lines(width: nat, e: FsmEventEntry) -> Seq<Seq<char>> {
    match e.event {
        FsmInspectedEvent::EventProcessed => seq![Seq::<char>::empty()],
        _ => {
            let head = seq![pad(e.common.fsm@, width) + "  "@ + console_text(e.event)];
            let data = match e.event {
                FsmInspectedEvent::ProcessingEvent(p) => if p.event_data@ != "null"@ {
                    seq![spaces(width + 5) + " "@ + p.event_data@]
                } else {
                    Seq::empty()
                },
                _ => Seq::empty(),
            };
            head + data + struct_lines(width, e.common.modified_structures@)
        },
    }
}

pub open spec fn entries_lines(width: nat, es: Seq<FsmEventEntry>) -> Seq<Seq<char>>
    decreases es.len(),
{
    if es.len() == 0 {
        Seq::empty()
    } else {
        entries_lines(width, es.drop_last()) + entry_lines(width, es.last())
    }
}

pub open spec fn data_lines(width: nat, data: Seq<FsmDataState>) -> Seq<Seq<char>>
    decreases data.len(),
{
    if data.len() == 0 {
        Seq::empty()
    } else {
        data_lines(width, data.drop_last()) + entries_lines(width, data.last().recorded())
    }
}

/// The length of the longest machine name, or 10 without machines.
pub open spec fn name_width(data: Seq<FsmDataState>) -> nat
    decreases data.len(),
{
    if data.len() == 0 {
        10
    } else if data.len() == 1 {
        data[0].name().len()
    } else {
        let w = name_width(data.drop_last());
        let n = data.last().name().len();
        if n > w {
            n
        } else {
            w
        }
    }
}

/// An inspected event, shown as a line of text.
pub struct FsmInspectedEventConsole<'a>(pub &'a FsmInspectedEvent);

impl<'a> FsmInspectedEventConsole<'a> {
    pub fn to_text(&self) -> (r: String)
        ensures
            r@ == console_text(*self.0),
    {
        let mut r = String::new();
        match self.0 {
            FsmInspectedEvent::ProcessingEvent(p) => {
                r.append("* Processing event ");
                r.append(p.event_kind.as_str());
            },
            FsmInspectedEvent::StateTransitionStart(t) => {
                r.append("  / Transitioning from ");
                r.append(t.from.as_str());
                r.append(" to ");
                r.append(t.to.as_str());
            },
            FsmInspectedEvent::StateEvent(s) => {
                match s.state_event_kind {
                    FsmEventStateKind::Enter => r.append("  | Entering state "),
                    FsmEventStateKind::Exit => r.append("  | Exiting state "),
                }
                r.append(s.state_name.as_str());
            },
            FsmInspectedEvent::Action(a) => {
                r.append("  | Performing action ");
                r.append(a.action_name.as_str());
            },
            FsmInspectedEvent::StateTransitioned(_) => r.append("  \\ Transition finished."),
            FsmInspectedEvent::EventProcessed => r.append("Event processed."),
            FsmInspectedEvent::NoTransition => r.append("No transition found."),
        }
        proof {
            assert(r@ =~= console_text(*self.0));
        }
        r
    }
}

fn push_spaces(out: &mut String, n: usize)
    ensures
        final(out)@ == old(out)@ + spaces(n as nat),
{
    let mut i: usize = 0;
    while i < n
        invariant
            i <= n,
            out@ == old(out)@ + spaces(i as nat),
        decreases n - i,
    {
        out.append(" ");
        proof {
            reveal_strlit(" ");
            assert(out@ =~= old(out)@ + spaces((i + 1) as nat));
        }
        i = i + 1;
    }
}

fn pad_text(s: &String, width: usize) -> (r: String)
    ensures
        r@ == pad(s@, width as nat),
{
    let mut r = s.clone();
    let n = s.as_str().unicode_len();
    if n < width {
        push_spaces(&mut r, width - n);
    }
    r
}

fn struct_id_string(k: &FsmEventStructKind) -> (r: String)
    ensures
        r@ == struct_id_text(*k),
{
    match k {
        FsmEventStructKind::Context => String::from_str("Context"),
        FsmEventStructKind::State(name) => {
            let mut r = String::from_str("State(\"");
            r.append(name.as_str());
            r.append("\")");
            r
        },
    }
}

/// An inspector that records what its machines did and prints it.
pub struct FsmInspectStdOut {
    pub data: Vec<FsmDataState>,
}

impl FsmInspectStdOut {
    /// Records the machine `F`.
    pub fn new<F: Fsm>() -> (r: Self)
        ensures
            r.data@.len() == 1,
            r.data@[0].name() == F::spec_fsm_name(),
            r.data@[0].store() == Seq::<(Option<Seq<char>>, Seq<char>)>::empty(),
            r.data@[0].recorded() == Seq::<FsmEventEntry>::empty(),
    {
        let mut data: Vec<FsmDataState> = Vec::new();
        data.push(FsmDataState::new::<F>());
        FsmInspectStdOut { data }
    }

    fn name_width_of(&self) -> (r: usize)
        ensures
            r == name_width(self.data@),
    {
        if self.data.len() == 0 {
            return 10;
        }
        let mut w: usize = self.data[0].name_len();
        let mut i: usize = 1;
        while i < self.data.len()
            invariant
                1 <= i <= self.data@.len(),
                w == name_width(self.data@.take(i as int)),
            decreases self.data@.len() - i,
        {
            proof {
                let s = self.data@.take(i + 1);
                assert(s.drop_last() =~= self.data@.take(i as int));
                assert(self.data@.take(1) =~= seq![self.data@[0]]);
            }
            let n = self.data[i].name_len();
            if n > w {
                w = n;
            }
            i = i + 1;
        }
        proof {
            assert(self.data@.take(i as int) =~= self.data@);
        }
        w
    }

    fn entry_text(width: usize, e: &FsmEventEntry, lines: &mut Vec<String>)
        requires
            width + 5 <= usize::MAX,
        ensures
            final(lines)@.map_values(|l: String| l@) == old(lines)@.map_values(|l: String| l@)
                + entry_lines(width as nat, *e),
    {
        let ghost l0 = lines@.map_values(|l: String| l@);
        match &e.event {
            FsmInspectedEvent::EventProcessed => {
                lines.push(String::new());
                assert(lines@.map_values(|l: String| l@) =~= l0 + entry_lines(width as nat, *e));
                return;
            },
            _ => {},
        }
        let mut head = pad_text(&e.common.fsm, width);
        head.append("  ");
        let text = FsmInspectedEventConsole(&e.event).to_text();
        head.append(text.as_str());
        lines.push(head);
        let ghost l1 = lines@.map_values(|l: String| l@);
        assert(l1 =~= l0 + seq![pad(e.common.fsm@, width as nat) + "  "@ + console_text(e.event)]);
        match &e.event {
            FsmInspectedEvent::ProcessingEvent(p) => {
                let null = String::from_str("null");
                if p.event_data != null {
                    let mut d = String::new();
                    push_spaces(&mut d, width + 5);
                    d.append(" ");
                    d.append(p.event_data.as_str());
                    lines.push(d);
                }
            },
            _ => {},
        }
        let ghost l2 = lines@.map_values(|l: String| l@);
        let ms = &e.common.modified_structures;
        let mut j: usize = 0;
        while j < ms.len()
            invariant
                j <= ms@.len(),
                width + 5 <= usize::MAX,
                lines@.map_values(|l: String| l@) == l2 + struct_lines(width as nat, ms@.take(j as int)),
            decreases ms@.len() - j,
        {
            let mut line = String::new();
            push_spaces(&mut line, width + 4);
            line.append("|   ");
            let id = struct_id_string(&ms[j].id);
            line.append(id.as_str());
            let ghost before = lines@.map_values(|l: String| l@);
            lines.push(line);
            proof {
                let s = ms@.take(j + 1);
                assert(s.drop_last() =~= ms@.take(j as int));
                assert(lines@.map_values(|l: String| l@) =~= before.push(line@));
            }
            j = j + 1;
        }
        proof {
            assert(ms@.take(j as int) =~= ms@);
            assert(lines@.map_values(|l: String| l@) =~= l0 + entry_lines(width as nat, *e));
        }
    }

    /// Takes the events recorded for every machine and returns their lines, machine by
    /// machine, oldest first.
    pub fn flush_lines(&mut self) -> (r: Vec<String>)
        requires
            name_width(old(self).data@) + 5 <= usize::MAX,
        ensures
            r@.map_values(|l: String| l@) == data_lines(name_width(old(self).data@), old(self).data@),
            final(self).data@.len() == old(self).data@.len(),
            forall|i: int|
                0 <= i < final(self).data@.len() ==> (#[trigger] final(self).data@[i]).recorded()
                    == Seq::<FsmEventEntry>::empty() && final(self).data@[i].store() == old(
                    self,
                ).data@[i].store() && final(self).data@[i].name() == old(self).data@[i].name(),
    {
        let width = self.name_width_of();
        let ghost w = width as nat;
        let ghost data0 = self.data@;
        let mut lines: Vec<String> = Vec::new();
        let mut k: usize = 0;
        while k < self.data.len()
            invariant
                k <= self.data@.len(),
                self.data@.len() == data0.len(),
                width == w,
                w + 5 <= usize::MAX,
                lines@.map_values(|l: String| l@) == data_lines(w, data0.take(k as int)),
                forall|i: int| k <= i < data0.len() ==> #[trigger] self.data@[i] == data0[i],
                forall|i: int|
                    0 <= i < k ==> (#[trigger] self.data@[i]).recorded() == Seq::<FsmEventEntry>::empty()
                        && self.data@[i].store() == data0[i].store() && self.data@[i].name()
                        == data0[i].name(),
            decreases data0.len() - k,
        {
            let mut d = self.data.remove(k);
            let events = d.flush_events();
            self.data.insert(k, d);
            let ghost l0 = lines@.map_values(|l: String| l@);
            let mut j: usize = 0;
            while j < events.len()
                invariant
                    j <= events@.len(),
                    w + 5 <= usize::MAX,
                    width == w,
                    lines@.map_values(|l: String| l@) == l0 + entries_lines(w, events@.take(j as int)),
                decreases events@.len() - j,
            {
                Self::entry_text(width, &events[j], &mut lines);
                proof {
                    let s = events@.take(j + 1);
                    assert(s.drop_last() =~= events@.take(j as int));
                }
                j = j + 1;
            }
            proof {
                assert(events@.take(j as int) =~= events@);
                let s = data0.take(k + 1);
                assert(s.drop_last() =~= data0.take(k as int));
                assert(lines@.map_values(|l: String| l@) =~= data_lines(w, s));
            }
            k = k + 1;
        }
        proof {
            assert(data0.take(k as int) =~= data0);
        }
        lines
    }
}

proof fn lemma_name_width_same(a: Seq<FsmDataState>, b: Seq<FsmDataState>)
    requires
        a.len() == b.len(),
        forall|i: int| 0 <= i < a.len() ==> (#[trigger] a[i]).name() == b[i].name(),
    ensures
        name_width(a) == name_width(b),
    decreases a.len(),
{
    if a.len() > 1 {
        assert forall|i: int| 0 <= i < a.drop_last().len() implies (#[trigger] a.drop_last()[i]).name()
            == b.drop_last()[i].name() by {
            assert(a.drop_last()[i] == a[i]);
            assert(b.drop_last()[i] == b[i]);
        }
        lemma_name_width_same(a.drop_last(), b.drop_last());
        assert(a.last() == a[a.len() - 1]);
        assert(b.last() == b[b.len() - 1]);
    } else if a.len() == 1 {
        assert(a[0].name() == b[0].name());
    }
}

/// The inspection hooks: every machine's record is told; each keeps what concerns its own
/// machine.
impl FsmInspectStdOut {
    /// Records the event, with the structures it shows, in every machine's record.
    pub fn record(&mut self, fsm_name: &str, event: &FsmInspectedEvent, structures: &Vec<FsmEventStruct>)
        ensures
            final(self).data@.len() == old(self).data@.len(),
            forall|i: int|
                0 <= i < old(self).data@.len() ==> FsmDataState::records(
                    old(self).data@[i],
                    #[trigger] final(self).data@[i],
                    fsm_name@,
                    *event,
                    structures@.map_values(|s: FsmEventStruct| struct_view(s)),
                ),
    {
        let ghost data0 = self.data@;
        let ghost ss = structures@.map_values(|s: FsmEventStruct| struct_view(s));
        let mut k: usize = 0;
        while k < self.data.len()
            invariant
                k <= self.data@.len(),
                self.data@.len() == data0.len(),
                ss == structures@.map_values(|s: FsmEventStruct| struct_view(s)),
                forall|i: int| k <= i < data0.len() ==> #[trigger] self.data@[i] == data0[i],
                forall|i: int|
                    0 <= i < k ==> FsmDataState::records(data0[i], #[trigger] self.data@[i], fsm_name@, *event, ss),
            decreases data0.len() - k,
        {
            let mut d = self.data.remove(k);
            d.push_event_named(fsm_name, copy_event(event), copy_structs(structures));
            self.data.insert(k, d);
            k = k + 1;
        }
    }

    /// An event is being processed; see `FsmDataState::on_process_event`.
    pub fn on_process_event(&mut self, fsm_name: &str, event_kind: String, event_data: String)
        ensures
            final(self).data@.len() == old(self).data@.len(),
            forall|i: int|
                0 <= i < old(self).data@.len() ==> FsmDataState::records(
                    old(self).data@[i],
                    #[trigger] final(self).data@[i],
                    fsm_name@,
                    FsmInspectedEvent::ProcessingEvent(FsmEventProcessingEvent { event_kind, event_data }),
                    Seq::empty(),
                ),
    {
        let ev = FsmInspectedEvent::ProcessingEvent(FsmEventProcessingEvent { event_kind, event_data });
        let structs: Vec<FsmEventStruct> = Vec::new();
        assert(structs@.map_values(|s: FsmEventStruct| struct_view(s)) =~= Seq::empty());
        self.record(fsm_name, &ev, &structs);
    }

    /// A state is entered or exited; see `FsmDataState::on_state_entry`.
    pub fn on_state_event(
        &mut self,
        fsm_name: &str,
        transition_id: TransitionId,
        kind: FsmEventStateKind,
        state_name: String,
        context_json: String,
        state_json: String,
    )
        ensures
            final(self).data@.len() == old(self).data@.len(),
            forall|i: int|
                0 <= i < old(self).data@.len() ==> FsmDataState::records(
                    old(self).data@[i],
                    #[trigger] final(self).data@[i],
                    fsm_name@,
                    FsmInspectedEvent::StateEvent(
                        FsmEventState { transition_id, state_event_kind: kind, state_name },
                    ),
                    seq![context_struct(context_json@), state_struct(state_name@, state_json@)],
                ),
    {
        let mut structs: Vec<FsmEventStruct> = Vec::new();
        structs.push(context_structure(context_json));
        structs.push(state_structure(&state_name, state_json));
        assert(structs@.map_values(|s: FsmEventStruct| struct_view(s)) =~= seq![
            context_struct(context_json@),
            state_struct(state_name@, state_json@),
        ]);
        let ev = FsmInspectedEvent::StateEvent(FsmEventState { transition_id, state_event_kind: kind, state_name });
        self.record(fsm_name, &ev, &structs);
    }

    /// A transition's action ran; see `FsmDataState::on_action`.
    pub fn on_action(
        &mut self,
        fsm_name: &str,
        transition_id: TransitionId,
        action_name: String,
        context_json: String,
        source_name: String,
        source_json: String,
        target_name: String,
        target_json: String,
    )
        ensures
            final(self).data@.len() == old(self).data@.len(),
            forall|i: int|
                0 <= i < old(self).data@.len() ==> FsmDataState::records(
                    old(self).data@[i],
                    #[trigger] final(self).data@[i],
                    fsm_name@,
                    FsmInspectedEvent::Action(FsmEventAction { transition_id, action_name }),
                    seq![context_struct(context_json@), state_struct(source_name@, source_json@)]
                        + if source_name@ != target_name@ {
                        seq![state_struct(target_name@, target_json@)]
                    } else {
                        Seq::empty()
                    },
                ),
    {
        let ghost expected = seq![context_struct(context_json@), state_struct(source_name@, source_json@)] + if source_name@
            != target_name@ {
            seq![state_struct(target_name@, target_json@)]
        } else {
            Seq::empty()
        };
        let mut structs: Vec<FsmEventStruct> = Vec::new();
        structs.push(context_structure(context_json));
        structs.push(state_structure(&source_name, source_json));
        if source_name != target_name {
            structs.push(state_structure(&target_name, target_json));
        }
        assert(structs@.map_values(|s: FsmEventStruct| struct_view(s)) =~= expected);
        let ev = FsmInspectedEvent::Action(FsmEventAction { transition_id, action_name });
        self.record(fsm_name, &ev, &structs);
    }

    /// A transition starts or finishes; see `FsmDataState::on_transition_start`.
    pub fn on_transition(
        &mut self,
        fsm_name: &str,
        finished: bool,
        transition_id: TransitionId,
        from: String,
        to: String,
        region_id: RegionId,
        context_json: String,
    )
        ensures
            final(self).data@.len() == old(self).data@.len(),
            forall|i: int|
                0 <= i < old(self).data@.len() ==> FsmDataState::records(
                    old(self).data@[i],
                    #[trigger] final(self).data@[i],
                    fsm_name@,
                    if finished {
                        FsmInspectedEvent::StateTransitioned(
                            FsmEventStateTransitioned { transition_id, from, to, region_id },
                        )
                    } else {
                        FsmInspectedEvent::StateTransitionStart(
                            FsmEventStateTransitionStart { transition_id, from, to, region_id },
                        )
                    },
                    seq![context_struct(context_json@)],
                ),
    {
        let mut structs: Vec<FsmEventStruct> = Vec::new();
        structs.push(context_structure(context_json));
        assert(structs@.map_values(|s: FsmEventStruct| struct_view(s)) =~= seq![context_struct(context_json@)]);
        let ev = if finished {
            FsmInspectedEvent::StateTransitioned(FsmEventStateTransitioned { transition_id, from, to, region_id })
        } else {
            FsmInspectedEvent::StateTransitionStart(FsmEventStateTransitionStart { transition_id, from, to, region_id })
        };
        self.record(fsm_name, &ev, &structs);
    }

    /// No transition took the event.
    pub fn on_no_transition(&mut self, fsm_name: &str)
        ensures
            final(self).data@.len() == old(self).data@.len(),
            forall|i: int|
                0 <= i < old(self).data@.len() ==> FsmDataState::records(
                    old(self).data@[i],
                    #[trigger] final(self).data@[i],
                    fsm_name@,
                    FsmInspectedEvent::NoTransition,
                    Seq::empty(),
                ),
    {
        let structs: Vec<FsmEventStruct> = Vec::new();
        assert(structs@.map_values(|s: FsmEventStruct| struct_view(s)) =~= Seq::empty());
        self.record(fsm_name, &FsmInspectedEvent::NoTransition, &structs);
    }

    /// The event is processed: it is recorded, and every record's events are taken and
    /// returned as lines, as `flush_lines` does.
    pub fn on_event_processed(&mut self, fsm_name: &str) -> (r: Vec<String>)
        requires
            name_width(old(self).data@) + 5 <= usize::MAX,
        ensures
            final(self).data@.len() == old(self).data@.len(),
            exists|recorded: Seq<FsmDataState>|
                {
                    &&& recorded.len() == old(self).data@.len()
                    &&& forall|i: int|
                        0 <= i < recorded.len() ==> FsmDataState::records(
                            old(self).data@[i],
                            #[trigger] recorded[i],
                            fsm_name@,
                            FsmInspectedEvent::EventProcessed,
                            Seq::empty(),
                        )
                    &&& r@.map_values(|l: String| l@) == data_lines(name_width(recorded), recorded)
                },
            forall|i: int|
                0 <= i < final(self).data@.len() ==> (#[trigger] final(self).data@[i]).recorded()
                    == Seq::<FsmEventEntry>::empty(),
    {
        let structs: Vec<FsmEventStruct> = Vec::new();
        assert(structs@.map_values(|s: FsmEventStruct| struct_view(s)) =~= Seq::empty());
        self.record(fsm_name, &FsmInspectedEvent::EventProcessed, &structs);
        let ghost recorded = self.data@;
        proof {
            assert forall|i: int| 0 <= i < recorded.len() implies (#[trigger] old(self).data@[i]).name()
                == recorded[i].name() by {
                assert(FsmDataState::records(
                    old(self).data@[i],
                    recorded[i],
                    fsm_name@,
                    FsmInspectedEvent::EventProcessed,
                    Seq::empty(),
                ));
            }
            lemma_name_width_same(old(self).data@, recorded);
        }
        self.flush_lines()
    }
}

impl FsmInspectClone for FsmInspectStdOut {
    /// The same inspector, which records the sub-machine `FSub` too.
    fn add_fsm<FSub: Fsm>(&self) -> (r: Self)
        ensures
            r.data@.len() == self.data@.len() + 1,
            r.data@.last().name() == FSub::spec_fsm_name(),
            r.data@.last().store() == Seq::<(Option<Seq<char>>, Seq<char>)>::empty(),
            r.data@.last().recorded() == Seq::<FsmEventEntry>::empty(),
    {
        let mut data: Vec<FsmDataState> = self.data.clone();
        data.push(FsmDataState::new::<FSub>());
        FsmInspectStdOut { data }
    }
}

} // verus!
