//! The PlantUML state diagram of a machine's description.

use vstd::prelude::*;
use crate::derive::meta::{
    FinnyEvent, FinnyFsm, FinnyRegion, FinnyStateKind, FinnyTimer, FinnyTransition,
    FinnyTransitionKind,
};

verus! {

/// The diagram could not be written.
#[derive(Debug, Clone, Copy, PartialEq, Eq, Structural)]
pub struct PlantUmlError;

/// The lines that list the timers of a state.
pub open spec fn timer_lines(state_id: Seq<char>, timers: Seq<FinnyTimer>) -> Seq<char>
    decreases timers.len(),
{
    if timers.len() == 0 {
        Seq::empty()
    } else {
        timer_lines(state_id, timers.drop_last()) + "state "@ + state_id + " : Timer "@
            + timers.last().timer_id@ + "\n"@
    }
}

/// The lines of a state: a block for a plain state, nothing for the stopped state, and
/// nothing for a sub-machine, whose diagram is embedded apart.
pub open spec fn state_lines(s: FinnyStateKind) -> Seq<char> {
    match s {
        FinnyStateKind::State(st) => "state "@ + st.state_id@ + " {\n"@ + "}\n"@ + timer_lines(
            st.state_id@,
            st.timers@,
        ),
        _ => Seq::empty(),
    }
}

pub open spec fn states_lines(states: Seq<FinnyStateKind>) -> Seq<char>
    decreases states.len(),
{
    if states.len() == 0 {
        Seq::empty()
    } else {
        states_lines(states.drop_last()) + state_lines(states.last())
    }
}

pub open spec fn event_label(e: FinnyEvent) -> Seq<char> {
    match e {
        FinnyEvent::Start => "Start"@,
        FinnyEvent::Stop => "Stop"@,
        FinnyEvent::Event(ev) => ev@,
    }
}

/// The source of an arrow: `[*]` for the stopped state.
pub open spec fn arrow_source(from_state: Seq<char>) -> Seq<char> {
    if from_state == "Stopped"@ {
        "[*]"@
    } else {
        from_state
    }
}

/// The arrow of a transition.
pub open spec fn transition_arrow(t: FinnyTransition) -> Seq<char> {
    let ev = event_label(t.event);
    match t.transition {
        FinnyTransitionKind::SelfTransition { state_id } => state_id@ + " --> "@ + state_id@
            + " : "@ + ev + " (Self)\n"@,
        FinnyTransitionKind::InternalTransition { state_id } => state_id@ + " --> "@ + state_id@
            + " : "@ + ev + " (Internal)\n"@,
        FinnyTransitionKind::NormalTransition(n) => arrow_source(n.from_state@) + " --> "@
            + n.to_state@ + " : "@ + ev + "\n"@,
    }
}

/// The arrow of a transition and the note that names it.
pub open spec fn transition_lines(t: FinnyTransition) -> Seq<char> {
    transition_arrow(t) + "note on link: "@ + t.transition_id@ + "\n"@
}

pub open spec fn transitions_lines(ts: Seq<FinnyTransition>) -> Seq<char>
    decreases ts.len(),
{
    if ts.len() == 0 {
        Seq::empty()
    } else {
        transitions_lines(ts.drop_last()) + transition_lines(ts.last())
    }
}

/// A region: its states, then its transitions.
pub open spec fn region_lines(r: FinnyRegion) -> Seq<char> {
    states_lines(r.states@) + transitions_lines(r.transitions@)
}

pub open spec fn regions_lines(rs: Seq<FinnyRegion>) -> Seq<char>
    decreases rs.len(),
{
    if rs.len() == 0 {
        Seq::empty()
    } else {
        regions_lines(rs.drop_last()) + region_lines(rs.last())
    }
}

/// The ids of the sub-machines of a region's states, in order.
pub open spec fn state_subs(states: Seq<FinnyStateKind>) -> Seq<Seq<char>>
    decreases states.len(),
{
    if states.len() == 0 {
        Seq::empty()
    } else {
        let rest = state_subs(states.drop_last());
        match states.last() {
            FinnyStateKind::SubMachine(id) => rest.push(id@),
            _ => rest,
        }
    }
}

pub open spec fn regions_subs(rs: Seq<FinnyRegion>) -> Seq<Seq<char>>
    decreases rs.len(),
{
    if rs.len() == 0 {
        Seq::empty()
    } else {
        regions_subs(rs.drop_last()) + state_subs(rs.last().states@)
    }
}

fn push_timer_lines(out: &mut String, state_id: &String, timers: &Vec<FinnyTimer>)
    ensures
        final(out)@ == old(out)@ + timer_lines(state_id@, timers@),
{
    let mut i: usize = 0;
    while i < timers.len()
        invariant
            i <= timers@.len(),
            out@ == old(out)@ + timer_lines(state_id@, timers@.take(i as int)),
        decreases timers@.len() - i,
    {
        let ghost before = out@;
        out.append("state ");
        out.append(state_id.as_str());
        out.append(" : Timer ");
        out.append(timers[i].timer_id.as_str());
        out.append("\n");
        proof {
            assert(timers@.take(i + 1).drop_last() =~= timers@.take(i as int));
            assert(out@ =~= before + ("state "@ + state_id@ + " : Timer "@ + timers@[i as int].timer_id@
                + "\n"@));
        }
        i = i + 1;
    }
    proof {
        assert(timers@.take(i as int) =~= timers@);
    }
}

fn push_state_lines(out: &mut String, s: &FinnyStateKind, subs: &mut Vec<String>)
    ensures
        final(out)@ == old(out)@ + state_lines(*s),
        final(subs)@.map_values(|x: String| x@) == old(subs)@.map_values(|x: String| x@) + match *s {
            FinnyStateKind::SubMachine(id) => seq![id@],
            _ => Seq::<Seq<char>>::empty(),
        },
{
    match s {
        FinnyStateKind::Stopped => {
            assert(subs@.map_values(|x: String| x@) =~= old(subs)@.map_values(|x: String| x@) + Seq::<Seq<char>>::empty());
        },
        FinnyStateKind::State(st) => {
            let ghost before = out@;
            out.append("state ");
            out.append(st.state_id.as_str());
            out.append(" {\n");
            out.append("}\n");
            assert(out@ =~= before + ("state "@ + st.state_id@ + " {\n"@ + "}\n"@));
            push_timer_lines(out, &st.state_id, &st.timers);
            assert(out@ =~= before + state_lines(*s));
            assert(subs@.map_values(|x: String| x@) =~= old(subs)@.map_values(|x: String| x@) + Seq::<Seq<char>>::empty());
        },
        FinnyStateKind::SubMachine(id) => {
            subs.push(id.clone());
            assert(subs@.map_values(|x: String| x@) =~= old(subs)@.map_values(|x: String| x@) + seq![id@]);
        },
    }
}

fn event_text(e: &FinnyEvent) -> (r: String)
    ensures
        r@ == event_label(*e),
{
    match e {
        FinnyEvent::Start => String::from_str("Start"),
        FinnyEvent::Stop => String::from_str("Stop"),
        FinnyEvent::Event(ev) => ev.clone(),
    }
}

fn push_transition_lines(out: &mut String, t: &FinnyTransition)
    ensures
        final(out)@ == old(out)@ + transition_lines(*t),
{
    let ghost before = out@;
    let ev = event_text(&t.event);
    match &t.transition {
        FinnyTransitionKind::SelfTransition { state_id } => {
            out.append(state_id.as_str());
            out.append(" --> ");
            out.append(state_id.as_str());
            out.append(" : ");
            out.append(ev.as_str());
            out.append(" (Self)\n");
        },
        FinnyTransitionKind::InternalTransition { state_id } => {
            out.append(state_id.as_str());
            out.append(" --> ");
            out.append(state_id.as_str());
            out.append(" : ");
            out.append(ev.as_str());
            out.append(" (Internal)\n");
        },
        FinnyTransitionKind::NormalTransition(n) => {
            let stopped = String::from_str("Stopped");
            if n.from_state == stopped {
                out.append("[*]");
            } else {
                out.append(n.from_state.as_str());
            }
            out.append(" --> ");
            out.append(n.to_state.as_str());
            out.append(" : ");
            out.append(ev.as_str());
            out.append("\n");
        },
    }
    let ghost mid = out@;
    out.append("note on link: ");
    out.append(t.transition_id.as_str());
    out.append("\n");
    proof {
        assert(mid =~= before + transition_arrow(*t));
        assert(out@ =~= before + transition_lines(*t));
    }
}

fn push_region_lines(out: &mut String, r: &FinnyRegion, subs: &mut Vec<String>)
    ensures
        final(out)@ == old(out)@ + region_lines(*r),
        final(subs)@.map_values(|x: String| x@) == old(subs)@.map_values(|x: String| x@)
            + state_subs(r.states@),
{
    let mut i: usize = 0;
    while i < r.states.len()
        invariant
            i <= r.states@.len(),
            out@ == old(out)@ + states_lines(r.states@.take(i as int)),
            subs@.map_values(|x: String| x@) == old(subs)@.map_values(|x: String| x@) + state_subs(
                r.states@.take(i as int),
            ),
        decreases r.states@.len() - i,
    {
        let ghost before = out@;
        let ghost subs_before = subs@.map_values(|x: String| x@);
        push_state_lines(out, &r.states[i], subs);
        proof {
            let s = r.states@.take(i + 1);
            assert(s.drop_last() =~= r.states@.take(i as int));
            assert(s.last() == r.states@[i as int]);
            assert(out@ =~= old(out)@ + states_lines(s));
            assert(subs@.map_values(|x: String| x@) =~= old(subs)@.map_values(|x: String| x@)
                + state_subs(s));
        }
        i = i + 1;
    }
    proof {
        assert(r.states@.take(i as int) =~= r.states@);
    }
    let ghost mid = out@;
    let mut j: usize = 0;
    while j < r.transitions.len()
        invariant
            j <= r.transitions@.len(),
            out@ == mid + transitions_lines(r.transitions@.take(j as int)),
        decreases r.transitions@.len() - j,
    {
        push_transition_lines(out, &r.transitions[j]);
        proof {
            let s = r.transitions@.take(j + 1);
            assert(s.drop_last() =~= r.transitions@.take(j as int));
            assert(out@ =~= mid + transitions_lines(s));
        }
        j = j + 1;
    }
    proof {
        assert(r.transitions@.take(j as int) =~= r.transitions@);
        assert(out@ =~= old(out)@ + region_lines(*r));
    }
}

/// The PlantUML text of a machine's diagram, region by region: each state block, then each
/// transition's arrow with a note that names it; and the ids of the sub-machines whose own
/// diagrams are to be embedded, in order.
pub fn to_plant_uml(fsm: &FinnyFsm) -> (r: Result<(String, Vec<String>), PlantUmlError>)
    ensures
        r is Ok,
        r matches Ok((text, subs)) ==> text@ == regions_lines(fsm.regions@) && subs@.map_values(
            |x: String| x@,
        ) == regions_subs(fsm.regions@),
{
    let mut output = String::new();
    let mut subs: Vec<String> = Vec::new();
    let mut k: usize = 0;
    while k < fsm.regions.len()
        invariant
            k <= fsm.regions@.len(),
            output@ == regions_lines(fsm.regions@.take(k as int)),
            subs@.map_values(|x: String| x@) == regions_subs(fsm.regions@.take(k as int)),
        decreases fsm.regions@.len() - k,
    {
        push_region_lines(&mut output, &fsm.regions[k], &mut subs);
        proof {
            let s = fsm.regions@.take(k + 1);
            assert(s.drop_last() =~= fsm.regions@.take(k as int));
            assert(output@ =~= regions_lines(s));
            assert(subs@.map_values(|x: String| x@) =~= regions_subs(s));
        }
        k = k + 1;
    }
    proof {
        assert(fsm.regions@.take(k as int) =~= fsm.regions@);
    }
    Ok((output, subs))
}

/// `p` occurs in `s`.
pub open spec fn occurs_in(p: Seq<char>, s: Seq<char>) -> bool {
    exists|i: int| 0 <= i && i + p.len() <= s.len() && #[trigger] s.subrange(i, i + p.len()) == p
}

proof fn lemma_occurs_left(p: Seq<char>, a: Seq<char>, b: Seq<char>)
    requires
        occurs_in(p, a),
    ensures
        occurs_in(p, a + b),
{
    let i = choose|i: int| 0 <= i && i + p.len() <= a.len() && #[trigger] a.subrange(i, i + p.len()) == p;
    assert((a + b).subrange(i, i + p.len()) =~= a.subrange(i, i + p.len()));
}

proof fn lemma_occurs_right(p: Seq<char>, a: Seq<char>, b: Seq<char>)
    requires
        occurs_in(p, b),
    ensures
        occurs_in(p, a + b),
{
    let i = choose|i: int| 0 <= i && i + p.len() <= b.len() && #[trigger] b.subrange(i, i + p.len()) == p;
    assert((a + b).subrange(a.len() + i, a.len() + i + p.len()) =~= b.subrange(i, i + p.len()));
}

proof fn lemma_occurs_self(p: Seq<char>)
    ensures
        occurs_in(p, p),
{
    assert(p.subrange(0, 0 + p.len() as int) =~= p);
    assert(0 + p.len() <= p.len());
}

proof fn lemma_state_block_in_states(states: Seq<FinnyStateKind>, j: int)
    requires
        0 <= j < states.len(),
        states[j] is State,
    ensures
        occurs_in("state "@ + states[j]->State_0.state_id@ + " {\n"@ + "}\n"@, states_lines(states)),
    decreases states.len(),
{
    let block = "state "@ + states[j]->State_0.state_id@ + " {\n"@ + "}\n"@;
    if j == states.len() - 1 {
        let st = states[j]->State_0;
        lemma_occurs_self(block);
        lemma_occurs_left(block, block, timer_lines(st.state_id@, st.timers@));
        lemma_occurs_right(block, states_lines(states.drop_last()), state_lines(states.last()));
    } else {
        assert(states.drop_last()[j] == states[j]);
        lemma_state_block_in_states(states.drop_last(), j);
        lemma_occurs_left(block, states_lines(states.drop_last()), state_lines(states.last()));
    }
}

proof fn lemma_arrow_in_transitions(ts: Seq<FinnyTransition>, j: int)
    requires
        0 <= j < ts.len(),
    ensures
        occurs_in(transition_arrow(ts[j]), transitions_lines(ts)),
    decreases ts.len(),
{
    let arrow = transition_arrow(ts[j]);
    if j == ts.len() - 1 {
        lemma_occurs_self(arrow);
        lemma_occurs_left(arrow, arrow, "note on link: "@ + ts[j].transition_id@ + "\n"@);
        assert(transition_lines(ts[j]) =~= arrow + ("note on link: "@ + ts[j].transition_id@ + "\n"@));
        lemma_occurs_right(arrow, transitions_lines(ts.drop_last()), transition_lines(ts.last()));
    } else {
        assert(ts.drop_last()[j] == ts[j]);
        lemma_arrow_in_transitions(ts.drop_last(), j);
        lemma_occurs_left(arrow, transitions_lines(ts.drop_last()), transition_lines(ts.last()));
    }
}

proof fn lemma_region_in_regions(rs: Seq<FinnyRegion>, k: int, p: Seq<char>)
    requires
        0 <= k < rs.len(),
        occurs_in(p, region_lines(rs[k])),
    ensures
        occurs_in(p, regions_lines(rs)),
    decreases rs.len(),
{
    if k == rs.len() - 1 {
        lemma_occurs_right(p, regions_lines(rs.drop_last()), region_lines(rs.last()));
    } else {
        assert(rs.drop_last()[k] == rs[k]);
        lemma_region_in_regions(rs.drop_last(), k, p);
        lemma_occurs_left(p, regions_lines(rs.drop_last()), region_lines(rs.last()));
    }
}

/// Law: the diagram shows every region: the block of each of its states and the arrow of each
/// of its transitions occur in the diagram's text.
pub proof fn lemma_diagram_shows_every_region(rs: Seq<FinnyRegion>, k: int)
    requires
        0 <= k < rs.len(),
    ensures
        forall|j: int|
            0 <= j < rs[k].states@.len() && (#[trigger] rs[k].states@[j]) is State ==> occurs_in(
                "state "@ + rs[k].states@[j]->State_0.state_id@ + " {\n"@ + "}\n"@,
                regions_lines(rs),
            ),
        forall|j: int|
            0 <= j < rs[k].transitions@.len() ==> occurs_in(
                transition_arrow(#[trigger] rs[k].transitions@[j]),
                regions_lines(rs),
            ),
{
    let r = rs[k];
    assert forall|j: int|
        0 <= j < r.states@.len() && (#[trigger] r.states@[j]) is State implies occurs_in(
            "state "@ + r.states@[j]->State_0.state_id@ + " {\n"@ + "}\n"@,
            regions_lines(rs),
        ) by {
        let block = "state "@ + r.states@[j]->State_0.state_id@ + " {\n"@ + "}\n"@;
        lemma_state_block_in_states(r.states@, j);
        lemma_occurs_left(block, states_lines(r.states@), transitions_lines(r.transitions@));
        lemma_region_in_regions(rs, k, block);
    }
    assert forall|j: int| 0 <= j < r.transitions@.len() implies occurs_in(
        transition_arrow(#[trigger] r.transitions@[j]),
        regions_lines(rs),
    ) by {
        let arrow = transition_arrow(r.transitions@[j]);
        lemma_arrow_in_transitions(r.transitions@, j);
        lemma_occurs_right(arrow, states_lines(r.states@), transitions_lines(r.transitions@));
        lemma_region_in_regions(rs, k, arrow);
    }
}

/// Law: the diagram of regions put one after the other is the diagram of the first ones
/// followed by the diagram of the others; a single region's diagram is its states' blocks
/// followed by its transitions' lines.
pub proof fn lemma_diagram_of_concatenated_regions(rs1: Seq<FinnyRegion>, rs2: Seq<FinnyRegion>)
    ensures
        regions_lines(rs1 + rs2) == regions_lines(rs1) + regions_lines(rs2),
        forall|r: FinnyRegion| #[trigger] regions_lines(seq![r]) == states_lines(r.states@) + transitions_lines(r.transitions@),
    decreases rs2.len(),
{
    assert forall|r: FinnyRegion| #[trigger] regions_lines(seq![r]) == states_lines(r.states@) + transitions_lines(r.transitions@) by {
        let one = seq![r];
        assert(one.len() == 1);
        assert(one.drop_last() =~= Seq::<FinnyRegion>::empty());
        assert(one.last() == r);
        assert(regions_lines(Seq::<FinnyRegion>::empty()) == Seq::<char>::empty());
        assert(regions_lines(one) == regions_lines(one.drop_last()) + region_lines(one.last()));
        assert(Seq::<char>::empty() + region_lines(r) =~= region_lines(r));
    }
    if rs2.len() == 0 {
        assert(rs1 + rs2 =~= rs1);
        assert(regions_lines(rs1) + Seq::<char>::empty() =~= regions_lines(rs1));
    } else {
        lemma_diagram_of_concatenated_regions(rs1, rs2.drop_last());
        assert((rs1 + rs2).drop_last() =~= rs1 + rs2.drop_last());
        assert((rs1 + rs2).last() == rs2.last());
        assert(regions_lines(rs1 + rs2) =~= regions_lines(rs1) + regions_lines(rs2));
    }
}

} // verus!
