//! Properties of the declaration side that span its steps.

use vstd::prelude::*;
use crate::derive::parse::{FsmDeclarations, FsmEventTransition, FsmState, FsmTransition, spec_get_states};
use crate::derive::parse_fsm::{
    ParserModel, declared, distinct_state_types, find_state, first_undeclared, flat_transitions,
    start_transition, to_transition, undeclared_state, validated_declarations,
};
use crate::derive::validation::{
    ValidatedFsm, decl_wf, region_transitions, regions_disjoint, split_into_regions,
};
use crate::derive::codegen::{table_ok, table_transition};

verus! {

proof fn lemma_region_transitions_from(
    states: Seq<FsmState>,
    regs: Seq<usize>,
    ts: Seq<FsmTransition>,
    k: usize,
    t: FsmTransition,
)
    requires
        region_transitions(states, regs, ts, k).contains(t),
    ensures
        ts.contains(t),
    decreases ts.len(),
{
    if ts.len() > 0 {
        let rest = region_transitions(states, regs, ts.drop_last(), k);
        if rest.contains(t) {
            lemma_region_transitions_from(states, regs, ts.drop_last(), k, t);
            let i = choose|i: int| 0 <= i < ts.drop_last().len() && ts.drop_last()[i] == t;
            assert(ts[i] == t);
        } else {
            assert(t == ts.last());
            assert(ts[ts.len() - 1] == t);
        }
    }
}

proof fn lemma_no_undeclared_from(
    states: Seq<FsmState>,
    flat: Seq<(usize, FsmEventTransition)>,
    k: int,
    j: int,
)
    requires
        0 <= k <= j < flat.len(),
        first_undeclared(states, flat, k) is None,
    ensures
        undeclared_state(states, flat[j].1) is None,
    decreases j - k,
{
    if k < j {
        lemma_no_undeclared_from(states, flat, k + 1, j);
    }
}

proof fn lemma_declared_resolves(states: Seq<FsmState>, ty: usize)
    requires
        declared(states, ty),
    ensures
        find_state(states, ty, 0) is Some,
{
}

/// Law: a machine whose declarations validate and split into regions has a transition table:
/// every state has a region, and every transition of every region names declared states and
/// leads into a state, so `generate_fsm_table` accepts it.
pub proof fn lemma_validated_machines_have_tables(p: ParserModel, d: FsmDeclarations, v: ValidatedFsm)
    requires
        validated_declarations(p, d),
        split_into_regions(d, v),
    ensures
        table_ok(v),
{
    let flat = flat_transitions(p.events);
    let i = p.initial_state.unwrap();
    assert forall|k: int, j: int|
        0 <= k < v.regions@.len() && 0 <= j < v.regions@[k].transitions@.len() implies (
        #[trigger] table_transition(v.states@, v.regions@[k].transitions@[j])) is Some by {
        let t = v.regions@[k].transitions@[j];
        let rt = region_transitions(d.states@, v.state_regions@, d.transitions@, k as usize);
        assert(v.regions@[k].transitions@ == rt);
        assert(rt.contains(t));
        lemma_region_transitions_from(d.states@, v.state_regions@, d.transitions@, k as usize, t);
        let x = choose|x: int| 0 <= x < d.transitions@.len() && d.transitions@[x] == t;
        if x == 0 {
            assert(t == start_transition(i));
            lemma_declared_resolves(p.states, i);
        } else {
            let c = x - 1;
            assert(t == to_transition(flat[c].0, flat[c].1, (c + 2) as usize));
            lemma_no_undeclared_from(p.states, flat, 0, c);
            match flat[c].1 {
                FsmEventTransition::State(from, to, _) => {
                    lemma_declared_resolves(p.states, from);
                    lemma_declared_resolves(p.states, to);
                },
                FsmEventTransition::InternalTransition(st, _) => {
                    lemma_declared_resolves(p.states, st);
                },
                FsmEventTransition::SelfTransition(st, _) => {
                    lemma_declared_resolves(p.states, st);
                },
            }
        }
    }
}

/// Law: validated declarations form a single region whose transitions each name a state, and
/// they are consistent (`decl_wf`) whenever their states have distinct types and they are
/// small enough for 32-bit graph indices.
pub proof fn lemma_validated_declarations_wf(p: ParserModel, d: FsmDeclarations)
    requires
        validated_declarations(p, d),
    ensures
        regions_disjoint(d),
        distinct_state_types(p.states) && p.states.len() < u32::MAX && flat_transitions(p.events).len()
            + 1 < u32::MAX ==> decl_wf(d),
{
    let flat = flat_transitions(p.events);
    let i = p.initial_state.unwrap();
    assert forall|k: int, x: usize|
        0 <= k < d.transitions@.len() && #[trigger] spec_get_states(d.transitions@[k].ty).contains(x)
            implies declared(d.states@, x) && spec_get_states(d.transitions@[k].ty).len() > 0 by {
        if k == 0 {
            assert(spec_get_states(d.transitions@[k].ty) =~= seq![i]);
        } else {
            let c = k - 1;
            assert(d.transitions@[k] == to_transition(flat[c].0, flat[c].1, (c + 2) as usize));
            lemma_no_undeclared_from(p.states, flat, 0, c);
            match flat[c].1 {
                FsmEventTransition::State(from, to, _) => {
                    assert(spec_get_states(d.transitions@[k].ty) =~= seq![from, to]);
                },
                FsmEventTransition::InternalTransition(st, _) => {
                    assert(spec_get_states(d.transitions@[k].ty) =~= seq![st]);
                },
                FsmEventTransition::SelfTransition(st, _) => {
                    assert(spec_get_states(d.transitions@[k].ty) =~= seq![st]);
                },
            }
        }
    }
    assert forall|t: int|
        0 <= t < d.transitions@.len() implies #[trigger] spec_get_states(d.transitions@[t].ty).len() > 0 by {
        if t == 0 {
            assert(spec_get_states(d.transitions@[t].ty) =~= seq![i]);
        } else {
            let c = t - 1;
            assert(d.transitions@[t] == to_transition(flat[c].0, flat[c].1, (c + 2) as usize));
            match flat[c].1 {
                FsmEventTransition::State(from, to, _) => {
                    assert(spec_get_states(d.transitions@[t].ty) =~= seq![from, to]);
                },
                FsmEventTransition::InternalTransition(st, _) => {
                    assert(spec_get_states(d.transitions@[t].ty) =~= seq![st]);
                },
                FsmEventTransition::SelfTransition(st, _) => {
                    assert(spec_get_states(d.transitions@[t].ty) =~= seq![st]);
                },
            }
        }
    }
    assert(d.initial_states@.len() == 1);
}

} // verus!
