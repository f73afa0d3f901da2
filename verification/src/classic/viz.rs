//! The visualisation of a machine: a script that draws its regions, states, sub-machines and
//! transitions with the `newFsm` drawing library. Types are given by their names.

use vstd::prelude::*;
use vstd::string::StrSliceExecFns;
use crate::classic::definition::{
    ClassicRegion, ClassicRegionInfo, ClassicStateInfo, ClassicTransitionInfo, ClassicTransitionType,
    transition_states,
};
use crate::derive::meta::{decimal, push_decimal};

verus! {

/// The name of type `id`; empty for an unknown one.
pub open spec fn label(labels: Seq<Seq<char>>, id: usize) -> Seq<char> {
    if id < labels.len() {
        labels[id as int]
    } else {
        Seq::empty()
    }
}

pub open spec fn bool_text(b: bool) -> Seq<char> {
    if b {
        "true"@
    } else {
        "false"@
    }
}

pub open spec fn transition_type_text(t: ClassicTransitionType) -> Seq<char> {
    match t {
        ClassicTransitionType::Normal => "Normal"@,
        ClassicTransitionType::SelfTransition => "SelfTransition"@,
        ClassicTransitionType::Internal => "Internal"@,
    }
}

pub open spec fn opt_label(labels: Seq<Seq<char>>, id: Option<usize>) -> Seq<char> {
    match id {
        Some(x) => label(labels, x),
        None => Seq::empty(),
    }
}

/// The states of `s`, each once, in order of first appearance, that are in `keep`.
pub open spec fn kept_in_order(s: Seq<usize>, keep: Seq<usize>) -> Seq<usize>
    decreases s.len(),
{
    if s.len() == 0 {
        Seq::empty()
    } else {
        let d = kept_in_order(s.drop_last(), keep);
        if d.contains(s.last()) || !keep.contains(s.last()) {
            d
        } else {
            d.push(s.last())
        }
    }
}

/// The variable of region `id`.
pub open spec fn region_var(name: Seq<char>, id: usize) -> Seq<char> {
    name + "_region_"@ + decimal(id as nat)
}

pub open spec fn header_text(name: Seq<char>) -> Seq<char> {
    "var f = newFsm(cy, '"@ + name + "', '##parent##'); var fsm_"@ + name + " = f;\n"@
}

/// The lines that add the region and its initial state.
pub open spec fn region_head_text(name: Seq<char>, labels: Seq<Seq<char>>, r: ClassicRegionInfo) -> Seq<char> {
    let v = region_var(name, r.region_id);
    let init = label(labels, r.initial_state);
    "var "@ + v + " = f.add_region(\"Region "@ + decimal(r.region_id as nat) + "\");\n"@ + "var state_"@ + init
        + " = "@ + v + ".add_initial_state(\""@ + init + "\");\n"@
}

/// The line that adds a state other than the initial one.
pub open spec fn state_text(v: Seq<char>, labels: Seq<Seq<char>>, initial: usize, s: ClassicStateInfo) -> Seq<char> {
    if s.state == initial {
        Seq::empty()
    } else {
        let n = label(labels, s.state);
        "var state_"@ + n + " = "@ + v + ".add_state(\""@ + n + "\", { is_initial_state: false, is_interrupt_state: "@
            + bool_text(s.is_interrupt_state) + " });\n"@
    }
}

pub open spec fn states_text(v: Seq<char>, labels: Seq<Seq<char>>, initial: usize, ss: Seq<ClassicStateInfo>) -> Seq<char>
    decreases ss.len(),
{
    if ss.len() == 0 {
        Seq::empty()
    } else {
        states_text(v, labels, initial, ss.drop_last()) + state_text(v, labels, initial, ss.last())
    }
}

/// The placeholder lines of a sub-machine.
pub open spec fn sub_text(n: Seq<char>) -> Seq<char> {
    "// submachine "@ + n + " start\n"@ + "// ##SUB_"@ + n + "##\n"@ + "// submachine "@ + n + " end\n"@
}

pub open spec fn subs_text(labels: Seq<Seq<char>>, subs: Seq<usize>) -> Seq<char>
    decreases subs.len(),
{
    if subs.len() == 0 {
        Seq::empty()
    } else {
        subs_text(labels, subs.drop_last()) + sub_text(label(labels, subs.last()))
    }
}

/// The data of a transition.
pub open spec fn transition_data(labels: Seq<Seq<char>>, t: ClassicTransitionInfo) -> Seq<char> {
    "{ event: '"@ + label(labels, t.transition.event) + "', action: '"@ + opt_label(labels, t.transition.action)
        + "', guard: '"@ + opt_label(labels, t.transition.guard) + "', transition_type: '"@ + transition_type_text(
        t.transition.transition_type,
    ) + "', is_anonymous: "@ + bool_text(t.is_anonymous) + ", shallow_history: "@ + bool_text(t.is_shallow_history)
        + ", resume_event: "@ + bool_text(t.is_resume_event) + " }"@
}

/// The line of a transition: out of a sub-machine, into one (restoring its history, or
/// starting it), or between states.
pub open spec fn transition_text(v: Seq<char>, labels: Seq<Seq<char>>, t: ClassicTransitionInfo) -> Seq<char> {
    let from = label(labels, t.transition.source);
    let to = label(labels, t.transition.target);
    let data = transition_data(labels, t);
    if t.state_from_is_submachine {
        v + ".add_transition("@ + "fsm_"@ + from + ", "@ + "state_"@ + to + ", "@ + data + ");\n"@
    } else if t.state_to_is_submachine && !t.is_shallow_history {
        "fsm_"@ + to + ".add_transition_to_start(state_"@ + from + ", "@ + data + ");\n"@
    } else if t.state_to_is_submachine {
        v + ".add_transition("@ + "state_"@ + from + ", "@ + "fsm_"@ + to + ", "@ + data + ");\n"@
    } else {
        v + ".add_transition("@ + "state_"@ + from + ", "@ + "state_"@ + to + ", "@ + data + ");\n"@
    }
}

pub open spec fn transitions_text(v: Seq<char>, labels: Seq<Seq<char>>, ts: Seq<ClassicTransitionInfo>) -> Seq<char>
    decreases ts.len(),
{
    if ts.len() == 0 {
        Seq::empty()
    } else {
        transitions_text(v, labels, ts.drop_last()) + transition_text(v, labels, ts.last())
    }
}

/// The sub-machines a region's transitions name, each once, in order.
pub open spec fn region_subs(r: ClassicRegion, subs: Seq<usize>) -> Seq<usize> {
    kept_in_order(transition_states(r.transitions@), subs)
}

pub open spec fn region_text(
    name: Seq<char>,
    labels: Seq<Seq<char>>,
    subs: Seq<usize>,
    r: ClassicRegion,
    i: ClassicRegionInfo,
) -> Seq<char> {
    let v = region_var(name, i.region_id);
    region_head_text(name, labels, i) + states_text(v, labels, i.initial_state, i.states@) + subs_text(
        labels,
        region_subs(r, subs),
    ) + transitions_text(v, labels, i.transitions@)
}

pub open spec fn regions_text(
    name: Seq<char>,
    labels: Seq<Seq<char>>,
    subs: Seq<usize>,
    rs: Seq<ClassicRegion>,
    infos: Seq<ClassicRegionInfo>,
) -> Seq<char>
    decreases rs.len(),
{
    if rs.len() == 0 || infos.len() < rs.len() {
        Seq::empty()
    } else {
        regions_text(name, labels, subs, rs.drop_last(), infos) + region_text(
            name,
            labels,
            subs,
            rs.last(),
            infos[rs.len() - 1],
        )
    }
}

/// The visualisation script of machine `name`: a header, then for each region, with its
/// description in `infos`, the region and its initial state, its other states, placeholders
/// for its sub-machines (of `subs`) and its transitions.
pub open spec fn viz_text(
    name: Seq<char>,
    labels: Seq<Seq<char>>,
    subs: Seq<usize>,
    rs: Seq<ClassicRegion>,
    infos: Seq<ClassicRegionInfo>,
) -> Seq<char> {
    header_text(name) + regions_text(name, labels, subs, rs, infos)
}

fn label_of(labels: &Vec<String>, id: usize) -> (r: &str)
    ensures
        r@ == label(labels@.map_values(|s: String| s@), id),
{
    proof {
        reveal_strlit("");
    }
    if id < labels.len() {
        labels[id].as_str()
    } else {
        ""
    }
}

fn push_bool(out: &mut String, b: bool)
    ensures
        final(out)@ == old(out)@ + bool_text(b),
{
    if b {
        out.append("true");
    } else {
        out.append("false");
    }
}

fn contains_id(v: &Vec<usize>, x: usize) -> (r: bool)
    ensures
        r == v@.contains(x),
{
    let mut i: usize = 0;
    while i < v.len()
        invariant
            i <= v@.len(),
            forall|j: int| 0 <= j < i ==> v@[j] != x,
        decreases v@.len() - i,
    {
        if v[i] == x {
            assert(v@[i as int] == x);
            return true;
        }
        i = i + 1;
    }
    false
}

fn region_subs_exec(r: &ClassicRegion, subs: &Vec<usize>) -> (out: Vec<usize>)
    requires
        2 * r.transitions@.len() <= usize::MAX,
    ensures
        out@ == region_subs(*r, subs@),
{
    let ghost all = transition_states(r.transitions@);
    let n = r.transitions.len();
    let total = n + n;
    let mut out: Vec<usize> = Vec::new();
    let mut k: usize = 0;
    while k < total
        invariant
            n == r.transitions@.len(),
            total == 2 * n,
            all == transition_states(r.transitions@),
            all.len() == 2 * n,
            k <= 2 * n,
            out@ == kept_in_order(all.take(k as int), subs@),
        decreases total - k,
    {
        let x = if k < n { r.transitions[k].source } else { r.transitions[k - n].target };
        assert(all[k as int] == x);
        assert(all.take(k + 1).drop_last() =~= all.take(k as int));
        if !contains_id(&out, x) && contains_id(subs, x) {
            out.push(x);
        }
        k = k + 1;
    }
    assert(all.take(2 * n as int) =~= all);
    out
}

fn opt_label_of(labels: &Vec<String>, id: Option<usize>) -> (r: &str)
    ensures
        r@ == opt_label(labels@.map_values(|s: String| s@), id),
{
    proof {
        reveal_strlit("");
    }
    match id {
        Some(x) => label_of(labels, x),
        None => "",
    }
}

fn bool_str(b: bool) -> (r: &'static str)
    ensures
        r@ == bool_text(b),
{
    if b {
        "true"
    } else {
        "false"
    }
}

fn transition_type_str(t: ClassicTransitionType) -> (r: &'static str)
    ensures
        r@ == transition_type_text(t),
{
    match t {
        ClassicTransitionType::Normal => "Normal",
        ClassicTransitionType::SelfTransition => "SelfTransition",
        ClassicTransitionType::Internal => "Internal",
    }
}

fn transition_data_exec(labels: &Vec<String>, t: &ClassicTransitionInfo) -> (r: String)
    ensures
        r@ == transition_data(labels@.map_values(|s: String| s@), *t),
{
    let mut d = String::from_str("{ event: '");
    d.append(label_of(labels, t.transition.event));
    d.append("', action: '");
    d.append(opt_label_of(labels, t.transition.action));
    d.append("', guard: '");
    d.append(opt_label_of(labels, t.transition.guard));
    d.append("', transition_type: '");
    d.append(transition_type_str(t.transition.transition_type));
    d.append("', is_anonymous: ");
    d.append(bool_str(t.is_anonymous));
    d.append(", shallow_history: ");
    d.append(bool_str(t.is_shallow_history));
    d.append(", resume_event: ");
    d.append(bool_str(t.is_resume_event));
    d.append(" }");
    d
}

fn transition_line(v: &str, labels: &Vec<String>, t: &ClassicTransitionInfo) -> (r: String)
    ensures
        r@ == transition_text(v@, labels@.map_values(|s: String| s@), *t),
{
    let from = label_of(labels, t.transition.source);
    let to = label_of(labels, t.transition.target);
    let data = transition_data_exec(labels, t);
    if t.state_to_is_submachine && !t.state_from_is_submachine && !t.is_shallow_history {
        let mut l = String::from_str("fsm_");
        l.append(to);
        l.append(".add_transition_to_start(state_");
        l.append(from);
        l.append(", ");
        l.append(data.as_str());
        l.append(");\n");
        return l;
    }
    let mut l = String::from_str(v);
    l.append(".add_transition(");
    if t.state_from_is_submachine {
        l.append("fsm_");
        l.append(from);
        l.append(", ");
        l.append("state_");
        l.append(to);
    } else if t.state_to_is_submachine {
        l.append("state_");
        l.append(from);
        l.append(", ");
        l.append("fsm_");
        l.append(to);
    } else {
        l.append("state_");
        l.append(from);
        l.append(", ");
        l.append("state_");
        l.append(to);
    }
    l.append(", ");
    l.append(data.as_str());
    l.append(");\n");
    l
}

fn region_var_exec(name: &str, id: usize) -> (r: String)
    ensures
        r@ == region_var(name@, id),
{
    let mut v = String::from_str(name);
    v.append("_region_");
    push_decimal(&mut v, id);
    v
}

fn push_region_head(out: &mut String, name: &str, v: &str, labels: &Vec<String>, r: &ClassicRegionInfo)
    requires
        v@ == region_var(name@, r.region_id),
    ensures
        final(out)@ == old(out)@ + region_head_text(name@, labels@.map_values(|s: String| s@), *r),
{
    let init = label_of(labels, r.initial_state);
    let mut l = String::from_str("var ");
    l.append(v);
    l.append(" = f.add_region(\"Region ");
    push_decimal(&mut l, r.region_id);
    l.append("\");\n");
    l.append("var state_");
    l.append(init);
    l.append(" = ");
    l.append(v);
    l.append(".add_initial_state(\"");
    l.append(init);
    l.append("\");\n");
    out.append(l.as_str());
}

fn push_states(out: &mut String, v: &str, labels: &Vec<String>, initial: usize, ss: &Vec<ClassicStateInfo>)
    ensures
        final(out)@ == old(out)@ + states_text(v@, labels@.map_values(|s: String| s@), initial, ss@),
{
    let ghost ls = labels@.map_values(|s: String| s@);
    let ghost start = out@;
    let mut i: usize = 0;
    assert(start =~= start + states_text(v@, ls, initial, ss@.take(0)));
    while i < ss.len()
        invariant
            i <= ss@.len(),
            ls == labels@.map_values(|s: String| s@),
            out@ == start + states_text(v@, ls, initial, ss@.take(i as int)),
        decreases ss@.len() - i,
    {
        assert(ss@.take(i + 1).drop_last() =~= ss@.take(i as int));
        let ghost before = out@;
        let st = &ss[i];
        if st.state != initial {
            let n = label_of(labels, st.state);
            let mut l = String::from_str("var state_");
            l.append(n);
            l.append(" = ");
            l.append(v);
            l.append(".add_state(\"");
            l.append(n);
            l.append("\", { is_initial_state: false, is_interrupt_state: ");
            l.append(bool_str(st.is_interrupt_state));
            l.append(" });\n");
            out.append(l.as_str());
            assert(out@ =~= start + states_text(v@, ls, initial, ss@.take(i + 1)));
        } else {
            assert(out@ =~= start + states_text(v@, ls, initial, ss@.take(i + 1)));
        }
        i = i + 1;
    }
    assert(ss@.take(ss@.len() as int) =~= ss@);
}

fn push_subs(out: &mut String, labels: &Vec<String>, subs: &Vec<usize>)
    ensures
        final(out)@ == old(out)@ + subs_text(labels@.map_values(|s: String| s@), subs@),
{
    let ghost ls = labels@.map_values(|s: String| s@);
    let ghost start = out@;
    let mut i: usize = 0;
    assert(start =~= start + subs_text(ls, subs@.take(0)));
    while i < subs.len()
        invariant
            i <= subs@.len(),
            ls == labels@.map_values(|s: String| s@),
            out@ == start + subs_text(ls, subs@.take(i as int)),
        decreases subs@.len() - i,
    {
        assert(subs@.take(i + 1).drop_last() =~= subs@.take(i as int));
        let n = label_of(labels, subs[i]);
        let mut l = String::from_str("// submachine ");
        l.append(n);
        l.append(" start\n");
        l.append("// ##SUB_");
        l.append(n);
        l.append("##\n");
        l.append("// submachine ");
        l.append(n);
        l.append(" end\n");
        out.append(l.as_str());
        assert(out@ =~= start + subs_text(ls, subs@.take(i + 1)));
        i = i + 1;
    }
    assert(subs@.take(subs@.len() as int) =~= subs@);
}

fn push_transitions(out: &mut String, v: &str, labels: &Vec<String>, ts: &Vec<ClassicTransitionInfo>)
    ensures
        final(out)@ == old(out)@ + transitions_text(v@, labels@.map_values(|s: String| s@), ts@),
{
    let ghost ls = labels@.map_values(|s: String| s@);
    let ghost start = out@;
    let mut i: usize = 0;
    assert(start =~= start + transitions_text(v@, ls, ts@.take(0)));
    while i < ts.len()
        invariant
            i <= ts@.len(),
            ls == labels@.map_values(|s: String| s@),
            out@ == start + transitions_text(v@, ls, ts@.take(i as int)),
        decreases ts@.len() - i,
    {
        assert(ts@.take(i + 1).drop_last() =~= ts@.take(i as int));
        let l = transition_line(v, labels, &ts[i]);
        out.append(l.as_str());
        assert(out@ =~= start + transitions_text(v@, ls, ts@.take(i + 1)));
        i = i + 1;
    }
    assert(ts@.take(ts@.len() as int) =~= ts@);
}

/// The visualisation script of machine `name`, as `viz_text` says; `infos` are the regions'
/// descriptions (see `build_fsm_info`), `labels` the names of the types and `subs` the
/// machine's sub-machines.
pub fn build_viz(
    name: &str,
    labels: &Vec<String>,
    subs: &Vec<usize>,
    regions: &Vec<ClassicRegion>,
    infos: &Vec<ClassicRegionInfo>,
) -> (r: String)
    requires
        infos@.len() == regions@.len(),
        forall|k: int| 0 <= k < regions@.len() ==> 2 * (#[trigger] regions@[k]).transitions@.len() <= usize::MAX,
    ensures
        r@ == viz_text(name@, labels@.map_values(|s: String| s@), subs@, regions@, infos@),
{
    let ghost ls = labels@.map_values(|s: String| s@);
    let mut out = String::from_str("var f = newFsm(cy, '");
    out.append(name);
    out.append("', '##parent##'); var fsm_");
    out.append(name);
    out.append(" = f;\n");
    let ghost head = out@;
    assert(head == header_text(name@));
    let mut k: usize = 0;
    assert(regions@.take(0) =~= Seq::<ClassicRegion>::empty());
    assert(head =~= head + regions_text(name@, ls, subs@, regions@.take(0), infos@));
    while k < regions.len()
        invariant
            k <= regions@.len(),
            infos@.len() == regions@.len(),
            forall|k: int| 0 <= k < regions@.len() ==> 2 * (#[trigger] regions@[k]).transitions@.len() <= usize::MAX,
            ls == labels@.map_values(|s: String| s@),
            out@ == head + regions_text(name@, ls, subs@, regions@.take(k as int), infos@),
        decreases regions@.len() - k,
    {
        let r = &regions[k];
        let info = &infos[k];
        let v = region_var_exec(name, info.region_id);
        let ghost before = out@;
        push_region_head(&mut out, name, v.as_str(), labels, info);
        push_states(&mut out, v.as_str(), labels, info.initial_state, &info.states);
        let rs = region_subs_exec(r, subs);
        push_subs(&mut out, labels, &rs);
        push_transitions(&mut out, v.as_str(), labels, &info.transitions);
        proof {
            let p = regions@.take(k + 1);
            assert(p.drop_last() =~= regions@.take(k as int));
            assert(p.last() == *r);
            assert(infos@[p.len() - 1] == *info);
            assert(out@ =~= before + region_text(name@, ls, subs@, *r, *info));
            assert(out@ =~= head + regions_text(name@, ls, subs@, p, infos@));
        }
        k = k + 1;
    }
    assert(regions@.take(regions@.len() as int) =~= regions@);
    out
}

} // verus!
