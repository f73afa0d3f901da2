//! Splitting the states of a machine into regions: each initial state starts a region, which
//! holds every state reachable from it through the transitions.

use vstd::prelude::*;
use crate::derive::parse::{
    FsmDeclarations, FsmEvent, FsmState, FsmTransition, ParseError, spec_get_states,
};
use crate::derive::parse_fsm::{declared, find_state};
use crate::derive::graph::{
    graph_add_edge, graph_add_node, graph_dfs, graph_edges, graph_new, graph_nodes,
    lemma_reachable_step, reachable,
};
use petgraph::Graph;

verus! {

/// A region of the machine: its initial state, the transitions between its states, and its
/// states, in declaration order.
#[derive(Debug, Clone)]
pub struct FsmRegion {
    pub region_id: usize,
    pub initial_state: usize,
    pub transitions: Vec<FsmTransition>,
    pub states: Vec<FsmState>,
}

/// The declarations of a machine split into regions. `state_regions[i]` is the region of the
/// `i`-th declared state.
#[derive(Debug, Clone)]
pub struct ValidatedFsm {
    pub regions: Vec<FsmRegion>,
    pub states: Vec<FsmState>,
    pub events: Vec<FsmEvent>,
    pub state_regions: Vec<usize>,
}

/// The position of the declared state of type `ty`.
pub open spec fn state_pos(states: Seq<FsmState>, ty: usize) -> int {
    find_state(states, ty, 0).unwrap()
}

/// The declarations are consistent: distinct state types, every state that a transition or
/// an initial state names is declared, and the graph's 32-bit indices suffice.
pub open spec fn decl_wf(d: FsmDeclarations) -> bool {
    &&& forall|i: int, j: int|
        0 <= i < j < d.states@.len() ==> (#[trigger] d.states@[i]).ty != (#[trigger] d.states@[j]).ty
    &&& forall|k: int, x: usize|
        0 <= k < d.transitions@.len() && #[trigger] spec_get_states(d.transitions@[k].ty).contains(x)
            ==> declared(d.states@, x)
    &&& forall|k: int|
        0 <= k < d.initial_states@.len() ==> declared(d.states@, #[trigger] d.initial_states@[k])
    &&& d.states@.len() < u32::MAX
    &&& d.transitions@.len() < u32::MAX
}

/// The edge a transition adds to the graph of states: from its source to its target, when it
/// has both.
pub open spec fn transition_edge(states: Seq<FsmState>, t: FsmTransition) -> Seq<(usize, usize)> {
    let ss = spec_get_states(t.ty);
    if ss.len() == 2 {
        seq![(state_pos(states, ss[0]) as usize, state_pos(states, ss[1]) as usize)]
    } else {
        Seq::empty()
    }
}

pub open spec fn transition_edges(states: Seq<FsmState>, ts: Seq<FsmTransition>) -> Seq<(usize, usize)>
    decreases ts.len(),
{
    if ts.len() == 0 {
        Seq::empty()
    } else {
        transition_edges(states, ts.drop_last()) + transition_edge(states, ts.last())
    }
}

/// Every state is reachable from at most one initial state, and every transition names a
/// state.
pub open spec fn regions_disjoint(d: FsmDeclarations) -> bool {
    &&& forall|i: int, j: int, k: int|
        0 <= i < d.states@.len() && 0 <= j < d.initial_states@.len() && 0 <= k
            < d.initial_states@.len() && j != k && #[trigger] state_reachable(d, j, i)
            ==> !#[trigger] state_reachable(d, k, i)
    &&& forall|t: int|
        0 <= t < d.transitions@.len() ==> #[trigger] spec_get_states(d.transitions@[t].ty).len() > 0
}

/// No region after region `k`, up to `upto`, has the same initial state.
pub open spec fn no_later_same_initial(d: FsmDeclarations, k: int, upto: int) -> bool {
    forall|k2: int| k < k2 < upto ==> d.initial_states@[k2] != d.initial_states@[k]
}

/// The `i`-th declared state is reachable from the initial state of region `k`.
pub open spec fn state_reachable(d: FsmDeclarations, k: int, i: int) -> bool {
    reachable(
        transition_edges(d.states@, d.transitions@),
        state_pos(d.states@, d.initial_states@[k]) as usize,
        i as usize,
    )
}

/// The states of region `k`, in declaration order.
pub open spec fn region_states(states: Seq<FsmState>, regs: Seq<usize>, k: usize) -> Seq<FsmState>
    decreases states.len(),
{
    if states.len() == 0 {
        Seq::empty()
    } else {
        let i = states.len() - 1;
        region_states(states.drop_last(), regs, k) + if regs[i] == k {
            seq![states[i]]
        } else {
            Seq::empty()
        }
    }
}

/// The transitions whose states all belong to region `k`, in order.
pub open spec fn region_transitions(
    states: Seq<FsmState>,
    regs: Seq<usize>,
    ts: Seq<FsmTransition>,
    k: usize,
) -> Seq<FsmTransition>
    decreases ts.len(),
{
    if ts.len() == 0 {
        Seq::empty()
    } else {
        let t = ts.last();
        region_transitions(states, regs, ts.drop_last(), k) + if (forall|x: usize|
            #[trigger] spec_get_states(t.ty).contains(x) ==> regs[state_pos(states, x)] == k) {
            seq![t]
        } else {
            Seq::empty()
        }
    }
}


/// The first position of `x` in `s` from `i` on.
pub open spec fn index_of_from(s: Seq<usize>, x: usize, i: int) -> Option<int>
    decreases s.len() - i,
{
    if i < 0 || i >= s.len() {
        None
    } else if s[i] == x {
        Some(i)
    } else {
        index_of_from(s, x, i + 1)
    }
}

pub open spec fn state_types(states: Seq<FsmState>) -> Seq<usize> {
    states.map_values(|s: FsmState| s.ty)
}

proof fn lemma_index_of_found(s: Seq<usize>, x: usize, i: int)
    requires
        0 <= i,
    ensures
        index_of_from(s, x, i) matches Some(k) ==> i <= k < s.len() && s[k] == x,
        index_of_from(s, x, i) is None ==> forall|k: int| i <= k < s.len() ==> s[k] != x,
    decreases s.len() - i,
{
    if 0 <= i < s.len() && s[i] != x {
        lemma_index_of_found(s, x, i + 1);
    }
}

proof fn lemma_index_matches_find(states: Seq<FsmState>, ty: usize, i: int)
    ensures
        index_of_from(state_types(states), ty, i) == find_state(states, ty, i),
    decreases states.len() - i,
{
    if 0 <= i < states.len() {
        lemma_index_matches_find(states, ty, i + 1);
    }
}

proof fn lemma_find_state_pos(states: Seq<FsmState>, ty: usize, i: int)
    ensures
        find_state(states, ty, i) matches Some(k) ==> i <= k < states.len() && states[k].ty == ty,
    decreases states.len() - i,
{
    if 0 <= i < states.len() && states[i].ty != ty {
        lemma_find_state_pos(states, ty, i + 1);
    }
}

proof fn lemma_edges_len(states: Seq<FsmState>, ts: Seq<FsmTransition>)
    ensures
        transition_edges(states, ts).len() <= ts.len(),
    decreases ts.len(),
{
    if ts.len() > 0 {
        lemma_edges_len(states, ts.drop_last());
    }
}

/// Every edge joins two declared states.
proof fn lemma_edges_in_range(d: FsmDeclarations, ts: Seq<FsmTransition>)
    requires
        decl_wf(d),
        forall|k: int| 0 <= k < ts.len() ==> d.transitions@.contains(#[trigger] ts[k]),
    ensures
        forall|e: int|
            0 <= e < transition_edges(d.states@, ts).len() ==> (#[trigger] transition_edges(d.states@, ts)[e]).0
                < d.states@.len() && transition_edges(d.states@, ts)[e].1 < d.states@.len(),
    decreases ts.len(),
{
    if ts.len() > 0 {
        lemma_edges_in_range(d, ts.drop_last());
        let t = ts.last();
        assert(d.transitions@.contains(ts[ts.len() - 1]));
        let ss = spec_get_states(t.ty);
        if ss.len() == 2 {
            let kk = choose|kk: int| 0 <= kk < d.transitions@.len() && d.transitions@[kk] == t;
            assert(spec_get_states(d.transitions@[kk].ty).contains(ss[0]));
            assert(spec_get_states(d.transitions@[kk].ty).contains(ss[1]));
            lemma_find_state_pos(d.states@, ss[0], 0);
            lemma_find_state_pos(d.states@, ss[1], 0);
        }
        let all = transition_edges(d.states@, ts);
        let pre = transition_edges(d.states@, ts.drop_last());
        assert forall|e: int| 0 <= e < all.len() implies (#[trigger] all[e]).0 < d.states@.len()
            && all[e].1 < d.states@.len() by {
            if e < pre.len() {
                assert(all[e] == pre[e]);
            }
        }
    }
}

/// A transition with a source and a target contributes the edge between them.
proof fn lemma_transition_has_edge(states: Seq<FsmState>, ts: Seq<FsmTransition>, k: int)
    requires
        0 <= k < ts.len(),
        spec_get_states(ts[k].ty).len() == 2,
    ensures
        transition_edges(states, ts).contains(
            (
                state_pos(states, spec_get_states(ts[k].ty)[0]) as usize,
                state_pos(states, spec_get_states(ts[k].ty)[1]) as usize,
            ),
        ),
    decreases ts.len(),
{
    let e = (
        state_pos(states, spec_get_states(ts[k].ty)[0]) as usize,
        state_pos(states, spec_get_states(ts[k].ty)[1]) as usize,
    );
    let pre = transition_edges(states, ts.drop_last());
    let all = transition_edges(states, ts);
    if k == ts.len() - 1 {
        assert(all[pre.len() as int] == e);
    } else {
        assert(ts.drop_last()[k] == ts[k]);
        lemma_transition_has_edge(states, ts.drop_last(), k);
        let w = choose|w: int| 0 <= w < pre.len() && pre[w] == e;
        assert(all[w] == e);
    }
}

/// A node reachable from a declared state is a declared state.
proof fn lemma_reachable_in_range(edges: Seq<(usize, usize)>, n: nat, a: usize, b: usize)
    requires
        a < n,
        forall|e: int| 0 <= e < edges.len() ==> (#[trigger] edges[e]).0 < n && edges[e].1 < n,
        reachable(edges, a, b),
    ensures
        b < n,
{
    reveal(reachable);
    let p = choose|p: Seq<usize>| #[trigger] crate::derive::graph::is_path(edges, p) && p[0] == a && p.last() == b;
    if p.len() > 1 {
        let i = p.len() - 2;
        assert(edges.contains((p[i], p[i + 1])));
        assert(p[i + 1] == b);
        let e = choose|e: int| 0 <= e < edges.len() && edges[e] == (p[i], p[i + 1]);
        assert(edges[e].1 == b);
    } else {
        assert(b == a);
    }
}

fn get_or_add_node(nodes: &mut Vec<usize>, g: &mut Graph<usize, i32>, ty: usize) -> (r: usize)
    requires
        old(nodes)@ == graph_nodes(*old(g)),
        old(nodes)@.len() < u32::MAX,
    ensures
        final(nodes)@ == graph_nodes(*final(g)),
        graph_edges(*final(g)) == graph_edges(*old(g)),
        index_of_from(old(nodes)@, ty, 0) matches Some(k) ==> final(nodes)@ == old(nodes)@ && r == k,
        index_of_from(old(nodes)@, ty, 0) is None ==> final(nodes)@ == old(nodes)@.push(ty) && r
            == old(nodes)@.len(),
{
    let mut i: usize = 0;
    while i < nodes.len()
        invariant
            i <= nodes@.len(),
            nodes@ == old(nodes)@,
            nodes@ == graph_nodes(*g),
            *g == *old(g),
            index_of_from(nodes@, ty, 0) == index_of_from(nodes@, ty, i as int),
        decreases nodes@.len() - i,
    {
        if nodes[i] == ty {
            return i;
        }
        i = i + 1;
    }
    let r = graph_add_node(g, ty);
    nodes.push(ty);
    r
}

/// Puts the nodes of the walk `order` from `start` into region `rk`; fails with a node, other
/// than `start`, that is already in a region.
#[verifier::rlimit(40)]
fn assign_region(
    region: &mut Vec<Option<usize>>,
    order: &Vec<usize>,
    start: usize,
    rk: usize,
    Ghost(decl): Ghost<FsmDeclarations>,
    Ghost(edges): Ghost<Seq<(usize, usize)>>,
) -> (r: Result<(), (usize, usize)>)
    requires
        decl_wf(decl),
        edges == transition_edges(decl.states@, decl.transitions@),
        forall|e: int| 0 <= e < edges.len() ==> (#[trigger] edges[e]).0 < decl.states@.len() && edges[e].1 < decl.states@.len(),
        rk < decl.initial_states@.len(),
        start == state_pos(decl.states@, decl.initial_states@[rk as int]),
        start < decl.states@.len(),
        order@.no_duplicates(),
        forall|x: usize| order@.contains(x) <==> reachable(edges, start, x),
        old(region)@.len() == decl.states@.len(),
        forall|x: int|
            0 <= x < decl.states@.len() && (#[trigger] old(region)@[x]) is Some ==> old(region)@[x]->Some_0 < rk
                && state_reachable(decl, old(region)@[x]->Some_0 as int, x),
        forall|x: int, j: int|
            0 <= x < decl.states@.len() && 0 <= j < rk && (#[trigger] old(region)@[x]) is None ==> !#[trigger] state_reachable(decl, j, x),
    ensures
        final(region)@.len() == decl.states@.len(),
        r is Ok ==> {
            &&& forall|x: int|
                0 <= x < decl.states@.len() && (#[trigger] final(region)@[x]) is Some ==> final(region)@[x]->Some_0 <= rk
                    && state_reachable(decl, final(region)@[x]->Some_0 as int, x)
            &&& forall|x: int, j: int|
                0 <= x < decl.states@.len() && 0 <= j <= rk && (#[trigger] final(region)@[x]) is None ==> !#[trigger] state_reachable(decl, j, x)
        },
        r matches Err((idx, j)) ==> idx < decl.states@.len() && j < rk && state_reachable(
            decl,
            j as int,
            idx as int,
        ) && state_reachable(decl, rk as int, idx as int),
        (exists|x: int|
            0 <= x < decl.states@.len() && x != start as int && reachable(edges, start, x as usize)
                && (#[trigger] old(region)@[x]) is Some) ==> r is Err,
        r is Ok ==> final(region)@[start as int] == Some(rk),
        r is Ok ==> forall|x: int|
            0 <= x < decl.states@.len() && x != start as int && (#[trigger] old(region)@[x]) is Some
                ==> final(region)@[x] == old(region)@[x],
{
    let ghost n = decl.states@.len();
    let mut m: usize = 0;
    while m < order.len()
        invariant
            decl_wf(decl),
            n == decl.states@.len(),
            edges == transition_edges(decl.states@, decl.transitions@),
            forall|e: int| 0 <= e < edges.len() ==> (#[trigger] edges[e]).0 < n && edges[e].1 < n,
            rk < decl.initial_states@.len(),
            start == state_pos(decl.states@, decl.initial_states@[rk as int]),
            start < n,
            order@.no_duplicates(),
            forall|x: usize| order@.contains(x) <==> reachable(edges, start, x),
            m <= order@.len(),
            region@.len() == n,
            forall|x: int|
                0 <= x < n && (#[trigger] region@[x]) is Some ==> (region@[x]->Some_0 < rk
                    && state_reachable(decl, region@[x]->Some_0 as int, x)) || (region@[x]->Some_0
                    == rk && order@.take(m as int).contains(x as usize)),
            forall|x: int|
                0 <= x < n && order@.take(m as int).contains(x as usize) ==> #[trigger] region@[x] == Some(rk),
            forall|x: int, j: int|
                0 <= x < n && 0 <= j < rk && (#[trigger] region@[x]) is None ==> !#[trigger] state_reachable(decl, j, x),
            forall|x: int|
                0 <= x < n && !order@.take(m as int).contains(x as usize) ==> #[trigger] region@[x] == old(region)@[x],
            forall|x: int|
                0 <= x < n && x != start as int && order@.take(m as int).contains(x as usize)
                    ==> (#[trigger] old(region)@[x]) is None,
        decreases order@.len() - m,
    {
        let idx = order[m];
        proof {
            assert(order@.contains(idx));
            lemma_reachable_in_range(edges, n, start, idx);
            assert(!order@.take(m as int).contains(idx)) by {
                if order@.take(m as int).contains(idx) {
                    let w = choose|w: int| 0 <= w < m && order@.take(m as int)[w] == idx;
                    assert(order@[w] == order@[m as int]);
                }
            }
        }
        if idx != start && region[idx].is_some() {
            proof {
                let j = region@[idx as int]->Some_0;
                assert(j < rk && state_reachable(decl, j as int, idx as int));
                assert(reachable(edges, start, idx));
                assert(state_reachable(decl, rk as int, idx as int));
                assert(idx < n);
            }
            return Err((idx, region[idx].unwrap()));
        }
        let ghost before = region@;
        region.set(idx, Some(rk));
        proof {
            assert(order@.take(m + 1) =~= order@.take(m as int).push(idx));
            assert forall|x: int|
                0 <= x < n && (#[trigger] region@[x]) is Some implies (region@[x]->Some_0 < rk
                    && state_reachable(decl, region@[x]->Some_0 as int, x)) || (region@[x]->Some_0
                    == rk && order@.take(m + 1).contains(x as usize)) by {
                if x != idx as int {
                    assert(region@[x] == before[x]);
                    if before[x]->Some_0 == rk && order@.take(m as int).contains(x as usize) {
                        let w = choose|w: int| 0 <= w < m && order@.take(m as int)[w] == x as usize;
                        assert(order@.take(m + 1)[w] == x as usize);
                    }
                } else {
                    assert(order@.take(m + 1)[m as int] == idx);
                }
            }
            assert forall|x: int, j: int|
                0 <= x < n && 0 <= j < rk && (#[trigger] region@[x]) is None implies !#[trigger] state_reachable(decl, j, x) by {
                assert(region@[x] == before[x]);
            }
            assert forall|x: int|
                0 <= x < n && order@.take(m + 1).contains(x as usize) implies #[trigger] region@[x] == Some(rk) by {
                if x as usize != idx {
                    assert(order@.take(m as int).contains(x as usize));
                }
            }
            assert(before[idx as int] == old(region)@[idx as int]);
            assert forall|x: int|
                0 <= x < n && !order@.take(m + 1).contains(x as usize) implies #[trigger] region@[x] == old(region)@[x] by {
                assert(order@.take(m + 1)[m as int] == idx);
                assert(order@.take(m + 1).contains(idx));
                assert(x as usize != idx);
                if order@.take(m as int).contains(x as usize) {
                    let w = choose|w: int| 0 <= w < m && order@.take(m as int)[w] == x as usize;
                    assert(order@.take(m + 1)[w] == x as usize);
                }
            }
            assert forall|x: int|
                0 <= x < n && x != start as int && order@.take(m + 1).contains(x as usize)
                    implies (#[trigger] old(region)@[x]) is None by {
                if x as usize != idx {
                    assert(order@.take(m as int).contains(x as usize));
                }
            }
        }
        m = m + 1;
    }
    proof {
        assert(order@.take(order@.len() as int) =~= order@);
        assert forall|x: int|
            0 <= x < n && x != start as int && reachable(edges, start, x as usize)
                implies (#[trigger] old(region)@[x]) is None by {
            assert(order@.contains(x as usize));
        }
        assert(reachable(edges, start, start)) by {
            reveal(reachable);
            assert(crate::derive::graph::is_path(edges, seq![start]));
        }
        assert(order@.contains(start));
        assert forall|x: int|
            0 <= x < n && x != start as int && (#[trigger] old(region)@[x]) is Some
                implies region@[x] == old(region)@[x] by {
            if order@.take(order@.len() as int).contains(x as usize) {
                assert(old(region)@[x] is None);
            }
        }
        assert forall|x: int, j: int|
            0 <= x < n && 0 <= j <= rk && (#[trigger] region@[x]) is None implies !#[trigger] state_reachable(decl, j, x) by {
            if j == rk && state_reachable(decl, j, x) {
                assert(order@.contains(x as usize));
            }
        }
    }
    Ok(())
}

/// The declarations split into regions: each region's initial state, states and
/// transitions; each state lies in a region and is reachable from its initial state.
pub open spec fn split_into_regions(decl: FsmDeclarations, v: ValidatedFsm) -> bool {
    &&& v.states@ == decl.states@
    &&& v.events@ == decl.events@
    &&& v.regions@.len() == decl.initial_states@.len()
    &&& v.state_regions@.len() == decl.states@.len()
    &&& forall|i: int|
        0 <= i < decl.states@.len() ==> (#[trigger] v.state_regions@[i]) < v.regions@.len()
            && state_reachable(decl, v.state_regions@[i] as int, i)
    &&& forall|k: int|
        0 <= k < v.regions@.len() ==> {
            &&& (#[trigger] v.regions@[k]).region_id == k
            &&& v.regions@[k].initial_state == decl.initial_states@[k]
            &&& v.regions@[k].states@ == region_states(decl.states@, v.state_regions@, k as usize)
            &&& v.regions@[k].transitions@ == region_transitions(
                decl.states@,
                v.state_regions@,
                decl.transitions@,
                k as usize,
            )
        }
}

/// Finds the regions of the machine: the states reachable from each initial state, with the
/// transitions between them. Refused when a state is reachable from two initial states (other
/// than as the initial state of the later region), when a state is not reachable at all, or
/// when a transition's states do not lie in one region. The regions are found whenever every
/// state is reachable from exactly one initial state and every transition names a state.
#[verifier::rlimit(60)]
pub fn create_regions(decl: FsmDeclarations) -> (r: Result<ValidatedFsm, ParseError>)
    requires
        decl_wf(decl),
    ensures
        r matches Ok(v) ==> split_into_regions(decl, v),
        r matches Err(ParseError::UnreachableState(ty)) ==> exists|i: int|
            0 <= i < decl.states@.len() && decl.states@[i].ty == ty && forall|k: int|
                0 <= k < decl.initial_states@.len() ==> !#[trigger] state_reachable(decl, k, i),
        r matches Err(ParseError::StateInTwoRegions(ty)) ==> exists|i: int, j: int, k: int|
            0 <= i < decl.states@.len() && decl.states@[i].ty == ty && 0 <= j < k
                < decl.initial_states@.len() && #[trigger] state_reachable(decl, j, i)
                && #[trigger] state_reachable(decl, k, i),
        (exists|i: int, j: int, k: int|
            0 <= i < decl.states@.len() && 0 <= j < k < decl.initial_states@.len() && i != state_pos(
                decl.states@,
                decl.initial_states@[k],
            ) && #[trigger] state_reachable(decl, j, i) && #[trigger] state_reachable(decl, k, i))
            ==> r is Err,
        r is Err ==> r matches Err(ParseError::UnreachableState(_)) || r matches Err(
            ParseError::StateInTwoRegions(_),
        ) || r == Err::<ValidatedFsm, ParseError>(ParseError::Inconsistent),
        regions_disjoint(decl) ==> r is Ok || r matches Err(ParseError::UnreachableState(_)),
        r matches Ok(v) ==> forall|k: int|
            0 <= k < decl.initial_states@.len() && #[trigger] no_later_same_initial(
                decl,
                k,
                decl.initial_states@.len() as int,
            ) ==> v.state_regions@[state_pos(decl.states@, decl.initial_states@[k])] == k,
        regions_disjoint(decl) && (forall|i: int|
            #![trigger decl.states@[i]]
            0 <= i < decl.states@.len() ==> exists|k: int|
                0 <= k < decl.initial_states@.len() && #[trigger] state_reachable(decl, k, i))
            ==> r is Ok,
{
    let ghost states = decl.states@;
    let ghost n = states.len();
    let mut g = graph_new();
    let mut nodes: Vec<usize> = Vec::new();
    // one node per declared state
    let mut i: usize = 0;
    while i < decl.states.len()
        invariant
            decl_wf(decl),
            states == decl.states@,
            n == states.len(),
            i <= n,
            nodes@ == graph_nodes(g),
            nodes@ == state_types(states.take(i as int)),
            graph_edges(g) == Seq::<(usize, usize)>::empty(),
        decreases n - i,
    {
        let ty = decl.states[i].ty;
        proof {
            lemma_index_matches_find(states.take(i as int), ty, 0);
            assert forall|k: int| 0 <= k < i implies states.take(i as int)[k].ty != ty by {
                assert(states[k].ty != states[i as int].ty);
            }
            lemma_find_state_pos(states.take(i as int), ty, 0);
        }
        get_or_add_node(&mut nodes, &mut g, ty);
        assert(state_types(states.take(i + 1)) =~= state_types(states.take(i as int)).push(ty));
        i = i + 1;
    }
    assert(states.take(n as int) =~= states);
    // one edge per transition between two states
    let ghost ts = decl.transitions@;
    let mut k: usize = 0;
    while k < decl.transitions.len()
        invariant
            decl_wf(decl),
            states == decl.states@,
            ts == decl.transitions@,
            k <= ts.len(),
            nodes@ == graph_nodes(g),
            nodes@ == state_types(states),
            graph_edges(g) == transition_edges(states, ts.take(k as int)),
        decreases ts.len() - k,
    {
        let ss = decl.transitions[k].ty.get_states();
        let mut s: usize = 0;
        while s < ss.len()
            invariant
                decl_wf(decl),
                states == decl.states@,
                ts == decl.transitions@,
                k < ts.len(),
                ss@ == spec_get_states(ts[k as int].ty),
                s <= ss@.len(),
                nodes@ == graph_nodes(g),
                nodes@ == state_types(states),
                graph_edges(g) == transition_edges(states, ts.take(k as int)),
            decreases ss@.len() - s,
        {
            proof {
                assert(spec_get_states(decl.transitions@[k as int].ty).contains(ss@[s as int]));
                lemma_index_matches_find(states, ss@[s as int], 0);
            }
            get_or_add_node(&mut nodes, &mut g, ss[s]);
            s = s + 1;
        }
        proof {
            lemma_edges_len(states, ts.take(k as int));
            assert(ts.take(k + 1).drop_last() =~= ts.take(k as int));
        }
        if ss.len() == 2 {
            proof {
                assert(spec_get_states(decl.transitions@[k as int].ty).contains(ss@[0]));
                assert(spec_get_states(decl.transitions@[k as int].ty).contains(ss@[1]));
                lemma_index_matches_find(states, ss@[0], 0);
                lemma_index_matches_find(states, ss@[1], 0);
                lemma_find_state_pos(states, ss@[0], 0);
                lemma_find_state_pos(states, ss@[1], 0);
            }
            let a = get_or_add_node(&mut nodes, &mut g, ss[0]);
            let b = get_or_add_node(&mut nodes, &mut g, ss[1]);
            graph_add_edge(&mut g, a, b);
        }
        k = k + 1;
    }
    assert(ts.take(ts.len() as int) =~= ts);
    let ghost edges = transition_edges(states, ts);
    proof {
        assert forall|kk: int| 0 <= kk < ts.len() implies decl.transitions@.contains(#[trigger] ts[kk]) by {
            assert(decl.transitions@[kk] == ts[kk]);
        }
        lemma_edges_in_range(decl, ts);
    }
    // regions
    let mut region: Vec<Option<usize>> = Vec::new();
    let mut i: usize = 0;
    while i < decl.states.len()
        invariant
            states == decl.states@,
            n == states.len(),
            i <= n,
            region@ == Seq::new(i as nat, |x: int| None::<usize>),
        decreases n - i,
    {
        region.push(None);
        i = i + 1;
        assert(region@ =~= Seq::new(i as nat, |x: int| None::<usize>));
    }
    let mut rk: usize = 0;
    while rk < decl.initial_states.len()
        invariant
            decl_wf(decl),
            states == decl.states@,
            ts == decl.transitions@,
            edges == transition_edges(states, ts),
            graph_edges(g) == edges,
            nodes@ == graph_nodes(g),
            nodes@ == state_types(states),
            forall|e: int| 0 <= e < edges.len() ==> (#[trigger] edges[e]).0 < n && edges[e].1 < n,
            rk <= decl.initial_states@.len(),
            n == states.len(),
            region@.len() == n,
            forall|x: int|
                0 <= x < n && (#[trigger] region@[x]) is Some ==> region@[x]->Some_0 < rk
                    && state_reachable(decl, region@[x]->Some_0 as int, x),
            forall|x: int, j: int|
                0 <= x < n && 0 <= j < rk && (#[trigger] region@[x]) is None ==> !#[trigger] state_reachable(decl, j, x),
            forall|x: int, j: int, kk: int|
                0 <= x < n && 0 <= j < kk < rk && x != state_pos(states, decl.initial_states@[kk])
                    && #[trigger] state_reachable(decl, j, x) ==> !#[trigger] state_reachable(decl, kk, x),
            forall|k: int|
                0 <= k < rk && #[trigger] no_later_same_initial(decl, k, rk as int) ==> region@[state_pos(
                    states,
                    decl.initial_states@[k],
                )] == Some(k as usize),
        decreases decl.initial_states@.len() - rk,
    {
        let initial = decl.initial_states[rk];
        proof {
            assert(declared(states, initial));
            lemma_index_matches_find(states, initial, 0);
            lemma_find_state_pos(states, initial, 0);
        }
        let start = get_or_add_node(&mut nodes, &mut g, initial);
        let order = graph_dfs(&g, start);
        proof {
            lemma_index_of_found(nodes@, initial, 0);
        }
        let ghost region0 = region@;
        match assign_region(&mut region, &order, start, rk, Ghost(decl), Ghost(edges)) {
            Ok(()) => {
                proof {
                    assert forall|k: int|
                        0 <= k < rk + 1 && #[trigger] no_later_same_initial(decl, k, rk + 1) implies region@[state_pos(
                            states,
                            decl.initial_states@[k],
                        )] == Some(k as usize) by {
                        if k < rk {
                            assert(no_later_same_initial(decl, k, rk as int));
                            let ik = decl.initial_states@[k];
                            assert(decl.initial_states@[rk as int] != ik);
                            assert(declared(states, ik));
                            lemma_find_state_pos(states, ik, 0);
                            lemma_find_state_pos(states, initial, 0);
                            assert(region0[state_pos(states, ik)] == Some(k as usize));
                        }
                    }
                    assert forall|x: int, j: int, kk: int|
                        0 <= x < n && 0 <= j < kk < rk + 1 && x != state_pos(states, decl.initial_states@[kk])
                            && #[trigger] state_reachable(decl, j, x) implies !#[trigger] state_reachable(decl, kk, x) by {
                        if kk == rk && state_reachable(decl, kk, x) {
                            assert(region0[x] is Some);
                            assert(reachable(edges, start, x as usize));
                        }
                    }
                }
            },
            Err((idx, _)) => {
                proof {
                    assert(idx < n);
                    assert(states[idx as int].ty == nodes@[idx as int]);
                }
                return Err(ParseError::StateInTwoRegions(nodes[idx]));
            },
        }
        rk = rk + 1;
    }
    // every state has to belong to a region
    let mut regs: Vec<usize> = Vec::new();
    let mut i: usize = 0;
    while i < region.len()
        invariant
            states == decl.states@,
            nodes@ == state_types(states),
            n == states.len(),
            region@.len() == n,
            i <= n,
            regs@.len() == i,
            forall|x: int| 0 <= x < i ==> region@[x] == Some(#[trigger] regs@[x]),
            forall|x: int|
                0 <= x < n && (#[trigger] region@[x]) is Some ==> region@[x]->Some_0
                    < decl.initial_states@.len() && state_reachable(decl, region@[x]->Some_0 as int, x),
            forall|x: int, j: int|
                0 <= x < n && 0 <= j < decl.initial_states@.len() && (#[trigger] region@[x]) is None ==> !#[trigger] state_reachable(decl, j, x),
            forall|k: int|
                0 <= k < decl.initial_states@.len() && #[trigger] no_later_same_initial(
                    decl,
                    k,
                    decl.initial_states@.len() as int,
                ) ==> region@[state_pos(states, decl.initial_states@[k])] == Some(k as usize),
        decreases n - i,
    {
        match region[i] {
            Some(j) => {
                regs.push(j);
            },
            None => {
                proof {
                    assert(states[i as int].ty == nodes@[i as int]);
                    assert forall|k: int| 0 <= k < decl.initial_states@.len() implies !#[trigger] state_reachable(decl, k, i as int) by {
                    }
                }
                return Err(ParseError::UnreachableState(nodes[i]));
            },
        }
        i = i + 1;
    }
    assert(forall|x: int| 0 <= x < n ==> region@[x] == Some(#[trigger] regs@[x]));
    let ghost regs_s = regs@;
    assert forall|x: int| 0 <= x < n implies (#[trigger] regs_s[x]) < decl.initial_states@.len()
        && state_reachable(decl, regs_s[x] as int, x) by {
        assert(region@[x] == Some(regs_s[x]));
    }
    assert forall|k: int|
        0 <= k < decl.initial_states@.len() && #[trigger] no_later_same_initial(
            decl,
            k,
            decl.initial_states@.len() as int,
        ) implies regs_s[state_pos(states, decl.initial_states@[k])] == k by {
        let ik = decl.initial_states@[k];
        assert(declared(states, ik));
        lemma_find_state_pos(states, ik, 0);
        assert(region@[state_pos(states, ik)] == Some(regs_s[state_pos(states, ik)]));
    }
    let v = build_regions(&decl, &nodes, &regs, Ghost(edges));
    match v {
        Ok(regions) => {
            let FsmDeclarations { initial_states: _, states: st, events, transitions: _ } = decl;
            Ok(ValidatedFsm { regions, states: st, events, state_regions: regs })
        },
        Err(e) => Err(e),
    }
}

fn node_pos(nodes: &Vec<usize>, Ghost(states): Ghost<Seq<FsmState>>, ty: usize) -> (r: usize)
    requires
        nodes@ == state_types(states),
        declared(states, ty),
    ensures
        r == state_pos(states, ty),
        r < states.len(),
{
    proof {
        lemma_index_matches_find(states, ty, 0);
        lemma_find_state_pos(states, ty, 0);
    }
    let mut i: usize = 0;
    while i < nodes.len()
        invariant
            nodes@ == state_types(states),
            i <= nodes@.len(),
            index_of_from(nodes@, ty, 0) == index_of_from(nodes@, ty, i as int),
            index_of_from(nodes@, ty, 0) == find_state(states, ty, 0),
            find_state(states, ty, 0) is Some,
        decreases nodes@.len() - i,
    {
        if nodes[i] == ty {
            return i;
        }
        i = i + 1;
    }
    proof {
        lemma_index_of_found(nodes@, ty, i as int);
    }
    0
}

#[verifier::rlimit(40)]
fn build_regions(
    decl: &FsmDeclarations,
    nodes: &Vec<usize>,
    regs: &Vec<usize>,
    Ghost(edges): Ghost<Seq<(usize, usize)>>,
) -> (r: Result<Vec<FsmRegion>, ParseError>)
    requires
        decl_wf(*decl),
        nodes@ == state_types(decl.states@),
        edges == transition_edges(decl.states@, decl.transitions@),
        regs@.len() == decl.states@.len(),
        forall|x: int|
            0 <= x < decl.states@.len() ==> (#[trigger] regs@[x]) < decl.initial_states@.len()
                && state_reachable(*decl, regs@[x] as int, x),
    ensures
        r matches Ok(rs) ==> {
            &&& rs@.len() == decl.initial_states@.len()
            &&& forall|k: int|
                0 <= k < rs@.len() ==> {
                    &&& (#[trigger] rs@[k]).region_id == k
                    &&& rs@[k].initial_state == decl.initial_states@[k]
                    &&& rs@[k].states@ == region_states(decl.states@, regs@, k as usize)
                    &&& rs@[k].transitions@ == region_transitions(
                        decl.states@,
                        regs@,
                        decl.transitions@,
                        k as usize,
                    )
                }
        },
        r is Err ==> r == Err::<Vec<FsmRegion>, ParseError>(ParseError::Inconsistent),
        regions_disjoint(*decl) ==> r is Ok,
{
    let ghost states = decl.states@;
    let ghost ts = decl.transitions@;
    let ghost n = states.len();
    let ghost complete = regions_disjoint(*decl);
    let mut rs: Vec<FsmRegion> = Vec::new();
    let mut k: usize = 0;
    while k < decl.initial_states.len()
        invariant
            decl_wf(*decl),
            states == decl.states@,
            ts == decl.transitions@,
            nodes@ == state_types(states),
            edges == transition_edges(states, ts),
            n == states.len(),
            regs@.len() == n,
            forall|x: int|
                0 <= x < n ==> (#[trigger] regs@[x]) < decl.initial_states@.len()
                    && state_reachable(*decl, regs@[x] as int, x),
            k <= decl.initial_states@.len(),
            complete == regions_disjoint(*decl),
            rs@.len() == k,
            forall|kk: int|
                0 <= kk < k ==> {
                    &&& (#[trigger] rs@[kk]).region_id == kk
                    &&& rs@[kk].initial_state == decl.initial_states@[kk]
                    &&& rs@[kk].states@ == region_states(states, regs@, kk as usize)
                    &&& rs@[kk].transitions@ == region_transitions(states, regs@, ts, kk as usize)
                },
        decreases decl.initial_states@.len() - k,
    {
        let mut st: Vec<FsmState> = Vec::new();
        let mut i: usize = 0;
        while i < decl.states.len()
            invariant
                states == decl.states@,
                n == states.len(),
                regs@.len() == n,
                i <= n,
                st@ == region_states(states.take(i as int), regs@, k),
            decreases n - i,
        {
            assert(states.take(i + 1).drop_last() =~= states.take(i as int));
            if regs[i] == k {
                st.push(decl.states[i]);
            }
            i = i + 1;
        }
        assert(states.take(n as int) =~= states);
        let mut tr: Vec<FsmTransition> = Vec::new();
        let mut t: usize = 0;
        while t < decl.transitions.len()
            invariant
                decl_wf(*decl),
                states == decl.states@,
                ts == decl.transitions@,
                nodes@ == state_types(states),
                edges == transition_edges(states, ts),
                n == states.len(),
                regs@.len() == n,
                forall|x: int|
                    0 <= x < n ==> (#[trigger] regs@[x]) < decl.initial_states@.len()
                        && state_reachable(*decl, regs@[x] as int, x),
                k < decl.initial_states@.len(),
                complete == regions_disjoint(*decl),
                t <= ts.len(),
                tr@ == region_transitions(states, regs@, ts.take(t as int), k),
            decreases ts.len() - t,
        {
            assert(ts.take(t + 1).drop_last() =~= ts.take(t as int));
            assert(ts.take(t + 1).last() == ts[t as int]);
            let ss = decl.transitions[t].ty.get_states();
            if ss.len() == 0 {
                return Err(ParseError::Inconsistent);
            }
            let mut all_in = true;
            let mut any_in = false;
            let mut s: usize = 0;
            while s < ss.len()
                invariant
                    decl_wf(*decl),
                    states == decl.states@,
                    ts == decl.transitions@,
                    t < ts.len(),
                    nodes@ == state_types(states),
                    n == states.len(),
                    regs@.len() == n,
                    ss@ == spec_get_states(ts[t as int].ty),
                    s <= ss@.len(),
                    all_in <==> forall|w: int| 0 <= w < s ==> regs@[state_pos(states, #[trigger] ss@[w])] == k,
                    any_in <==> exists|w: int| 0 <= w < s && regs@[state_pos(states, #[trigger] ss@[w])] == k,
                decreases ss@.len() - s,
            {
                proof {
                    assert(spec_get_states(decl.transitions@[t as int].ty).contains(ss@[s as int]));
                }
                let pos = node_pos(nodes, Ghost(states), ss[s]);
                if regs[pos] == k {
                    any_in = true;
                } else {
                    all_in = false;
                }
                s = s + 1;
            }
            proof {
                assert((forall|x: usize| #[trigger] ss@.contains(x) ==> regs@[state_pos(states, x)] == k)
                    <==> all_in) by {
                    if all_in {
                        assert forall|x: usize| #[trigger] ss@.contains(x) implies regs@[state_pos(states, x)] == k by {
                            let w = choose|w: int| 0 <= w < ss@.len() && ss@[w] == x;
                        }
                    } else {
                        let w = choose|w: int| 0 <= w < ss@.len() && !(regs@[state_pos(states, #[trigger] ss@[w])] == k);
                        assert(ss@.contains(ss@[w]));
                    }
                }
            }
            if all_in {
                tr.push(decl.transitions[t]);
            } else if any_in {
                proof {
                    if complete {
                        let w = choose|w: int| 0 <= w < ss@.len() && regs@[state_pos(states, #[trigger] ss@[w])] == k;
                        assert(spec_get_states(decl.transitions@[t as int].ty)[w] == ss@[w]);
                        lemma_mixed_transition_impossible(*decl, regs@, t as int, k);
                        assert forall|x: usize| #[trigger] ss@.contains(x) implies regs@[state_pos(states, x)] == k by {
                            assert(spec_get_states(decl.transitions@[t as int].ty).contains(x));
                        }
                        assert(all_in);
                    }
                }
                return Err(ParseError::Inconsistent);
            }
            t = t + 1;
        }
        assert(ts.take(ts.len() as int) =~= ts);
        rs.push(
            FsmRegion {
                region_id: k,
                initial_state: decl.initial_states[k],
                transitions: tr,
                states: st,
            },
        );
        k = k + 1;
    }
    Ok(rs)
}

/// When every state is reachable from only one initial state, a transition's source and
/// target lie in the same region.
proof fn lemma_mixed_transition_impossible(d: FsmDeclarations, regs: Seq<usize>, t: int, k: usize)
    requires
        decl_wf(d),
        0 <= t < d.transitions@.len(),
        k < d.initial_states@.len(),
        regs.len() == d.states@.len(),
        forall|x: int|
            0 <= x < d.states@.len() ==> (#[trigger] regs[x]) < d.initial_states@.len()
                && state_reachable(d, regs[x] as int, x),
        forall|i: int, j: int, kk: int|
            0 <= i < d.states@.len() && 0 <= j < d.initial_states@.len() && 0 <= kk
                < d.initial_states@.len() && j != kk && #[trigger] state_reachable(d, j, i)
                ==> !#[trigger] state_reachable(d, kk, i),
        exists|w: int|
            0 <= w < spec_get_states(d.transitions@[t].ty).len() && regs[state_pos(
                d.states@,
                #[trigger] spec_get_states(d.transitions@[t].ty)[w],
            )] == k,
    ensures
        forall|x: usize| #[trigger] spec_get_states(d.transitions@[t].ty).contains(x) ==> regs[state_pos(d.states@, x)] == k,
{
    let ss = spec_get_states(d.transitions@[t].ty);
    let states = d.states@;
    assert(ss.len() <= 2);
    assert forall|x: usize| #[trigger] ss.contains(x) implies regs[state_pos(states, x)] == k by {
        assert(spec_get_states(d.transitions@[t].ty).contains(x));
        lemma_find_state_pos(states, x, 0);
        if ss.len() == 2 {
            assert(spec_get_states(d.transitions@[t].ty).contains(ss[0]));
            assert(spec_get_states(d.transitions@[t].ty).contains(ss[1]));
            lemma_find_state_pos(states, ss[0], 0);
            lemma_find_state_pos(states, ss[1], 0);
            lemma_transition_has_edge(states, d.transitions@, t);
            let a = state_pos(states, ss[0]);
            let b = state_pos(states, ss[1]);
            let edges = transition_edges(states, d.transitions@);
            let ja = regs[a];
            let jb = regs[b];
            assert(state_reachable(d, ja as int, a));
            lemma_reachable_step(edges, state_pos(states, d.initial_states@[ja as int]) as usize, a as usize, b as usize);
            assert(state_reachable(d, ja as int, b));
            assert(state_reachable(d, jb as int, b));
            assert(ja == jb);
        }
    }
}


fn is_declared(states: &Vec<FsmState>, ty: usize) -> (r: bool)
    ensures
        r == declared(states@, ty),
{
    let mut i: usize = 0;
    while i < states.len()
        invariant
            i <= states@.len(),
            find_state(states@, ty, 0) == find_state(states@, ty, i as int),
        decreases states@.len() - i,
    {
        if states[i].ty == ty {
            return true;
        }
        i = i + 1;
    }
    false
}

/// Whether `create_regions` may be called on the declarations: distinct state types, every
/// state that a transition or an initial state names is declared, and fewer states and
/// transitions than the graph's 32-bit indices can number.
pub fn check_declarations(decl: &FsmDeclarations) -> (r: bool)
    ensures
        r == decl_wf(*decl),
{
    if decl.states.len() >= 0xffff_ffff || decl.transitions.len() >= 0xffff_ffff {
        return false;
    }
    let n = decl.states.len();
    let mut i: usize = 0;
    while i < n
        invariant
            n == decl.states@.len(),
            i <= n,
            forall|a: int, b: int|
                0 <= a < b < decl.states@.len() && a < i ==> (#[trigger] decl.states@[a]).ty
                    != (#[trigger] decl.states@[b]).ty,
        decreases n - i,
    {
        let mut j: usize = i + 1;
        while j < n
            invariant
                n == decl.states@.len(),
                i < n,
                i + 1 <= j <= n,
                forall|a: int, b: int|
                    0 <= a < b < decl.states@.len() && a < i ==> (#[trigger] decl.states@[a]).ty
                        != (#[trigger] decl.states@[b]).ty,
                forall|b: int| i < b < j ==> decl.states@[i as int].ty != (#[trigger] decl.states@[b]).ty,
            decreases n - j,
        {
            if decl.states[i].ty == decl.states[j].ty {
                return false;
            }
            j = j + 1;
        }
        i = i + 1;
    }
    let mut k: usize = 0;
    while k < decl.transitions.len()
        invariant
            k <= decl.transitions@.len(),
            forall|a: int, x: usize|
                0 <= a < k && #[trigger] spec_get_states(decl.transitions@[a].ty).contains(x)
                    ==> declared(decl.states@, x),
        decreases decl.transitions@.len() - k,
    {
        let tys = decl.transitions[k].ty.get_states();
        let mut m: usize = 0;
        while m < tys.len()
            invariant
                m <= tys@.len(),
                k < decl.transitions@.len(),
                tys@ == spec_get_states(decl.transitions@[k as int].ty),
                forall|c: int| 0 <= c < m ==> declared(decl.states@, #[trigger] tys@[c]),
            decreases tys@.len() - m,
        {
            if !is_declared(&decl.states, tys[m]) {
                assert(spec_get_states(decl.transitions@[k as int].ty).contains(tys@[m as int]));
                return false;
            }
            m = m + 1;
        }
        proof {
            assert forall|a: int, x: usize|
                0 <= a < k + 1 && #[trigger] spec_get_states(decl.transitions@[a].ty).contains(x)
                    implies declared(decl.states@, x) by {
                if a == k {
                    let c = tys@.index_of(x);
                    assert(tys@[c] == x);
                }
            }
        }
        k = k + 1;
    }
    let mut q: usize = 0;
    while q < decl.initial_states.len()
        invariant
            q <= decl.initial_states@.len(),
            forall|a: int| 0 <= a < q ==> declared(decl.states@, #[trigger] decl.initial_states@[a]),
        decreases decl.initial_states@.len() - q,
    {
        if !is_declared(&decl.states, decl.initial_states[q]) {
            return false;
        }
        q = q + 1;
    }
    true
}

} // verus!
