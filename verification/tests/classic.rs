use finny::classic::console_inspect::{FsmInspectStdOut, FsmInspectedEventConsole};
use finny::classic::info::{FsmInfo, TransitionId};
use finny::classic::sample::{Events, Machine, Other};
use finny::classic::inspect::{FsmInspectClone, FsmInspectNull};
use finny::classic::inspect_data::{
    FsmDataState, FsmEventAction, FsmEventProcessingEvent, FsmEventState, FsmEventStateKind, FsmEventStateTransitionStart,
    FsmEventStruct, FsmEventStructKind, FsmInspectedEvent,
};
use finny::classic::json_diff::{format_diff, DiffLine, DiffSide, JsonDiff, JsonDiffMode};
use finny::classic::timers::{FsmTimers, FsmTimersNull, TimerDuration, TimerId, TransitionTimerSettings};
use finny::classic::declaration::FsmDecl;
use finny::classic::{Fsm, FsmEventQueue, FsmEventQueueVec, FsmGuard, NegateGuard, NoGuard};
use std::marker::PhantomData;

#[test]
fn classic_queue_is_fifo() {
    let mut q = FsmEventQueueVec::<Machine>::new();
    assert_eq!(0, q.len());
    q.enqueue_event(Events::Tick(1)).unwrap();
    q.enqueue_event(Events::Tick(2)).unwrap();
    assert_eq!(2, q.len());
    assert_eq!(Some(Events::Tick(1)), q.dequeue_event());
    assert_eq!(Some(Events::Tick(2)), q.dequeue_event());
    assert_eq!(None, q.dequeue_event());
}

#[test]
fn guards() {
    assert!(<NoGuard as FsmGuard<Machine, Events>>::guard(&Events::Tick(1), &(), &()));
    assert!(!<NegateGuard<NoGuard> as FsmGuard<Machine, Events>>::guard(&Events::Tick(1), &(), &()));
    assert!(<NegateGuard<NegateGuard<NoGuard>> as FsmGuard<Machine, Events>>::guard(&Events::Tick(1), &(), &()));
    let _ = NegateGuard::<NoGuard>(PhantomData);
}

#[test]
fn timer_values() {
    assert_eq!(250, TimerDuration::from_millis(250).ms);
    assert_eq!(TimerDuration { ms: 5 }, TransitionTimerSettings::new(TimerDuration::from_millis(5)).timeout);
    assert!(!FsmTimersNull::implemented());
    let mut t = FsmTimersNull;
    t.create_timeout_timer(TimerId(1), TimerDuration { ms: 1 });
    t.cancel_timer(TimerId(1));
    assert!(t.receive_events().is_empty());
}

#[test]
fn declaration_builders() {
    let decl = FsmDecl::new_fsm::<Machine>();
    let decl = decl.context_ty::<u32>();
    let complete = decl.initial_state::<()>();
    complete.on_event::<Events>().transition_from_any().to::<()>();
    let _sub = complete.add_sub_machine::<Machine>();
    assert_eq!(FsmInspectNull, FsmInspectNull.add_fsm::<Machine>());
}

fn structure(id: FsmEventStructKind, value: &str) -> FsmEventStruct {
    FsmEventStruct { id, value: value.to_string() }
}

#[test]
fn data_state_records_changed_structures() {
    let mut data = FsmDataState::new::<Machine>();
    assert_eq!("Machine", data.fsm_name);
    data.push_event::<Machine>(
        FsmInspectedEvent::EventProcessed,
        vec![
            structure(FsmEventStructKind::Context, "{\"n\":1}"),
            structure(FsmEventStructKind::State("A".to_string()), "null"),
        ],
    );
    // same context again, a new state value
    data.push_event::<Machine>(
        FsmInspectedEvent::NoTransition,
        vec![
            structure(FsmEventStructKind::Context, "{\"n\":1}"),
            structure(FsmEventStructKind::State("A".to_string()), "{}"),
        ],
    );
    // a changed context
    data.push_event::<Machine>(FsmInspectedEvent::EventProcessed, vec![structure(FsmEventStructKind::Context, "{\"n\":2}")]);
    // events of another machine are not recorded
    data.push_event::<Other>(FsmInspectedEvent::EventProcessed, vec![structure(FsmEventStructKind::Context, "{\"n\":3}")]);

    let events = data.flush_events();
    assert_eq!(3, events.len());
    assert!(events.iter().all(|e| e.common.id == 0 && e.common.fsm == "Machine"));
    let modified: Vec<Vec<String>> = events
        .iter()
        .map(|e| e.common.modified_structures.iter().map(|s| s.value.clone()).collect())
        .collect();
    assert_eq!(vec![vec!["{\"n\":1}".to_string()], vec!["{}".to_string()], vec!["{\"n\":2}".to_string()]], modified);
    assert!(matches!(events[1].event, FsmInspectedEvent::NoTransition));
    assert!(data.flush_events().is_empty());
}

#[test]
fn console_text_of_events() {
    let e = FsmInspectedEvent::ProcessingEvent(FsmEventProcessingEvent { event_kind: "Tick".to_string(), event_data: "null".to_string() });
    assert_eq!("* Processing event Tick", FsmInspectedEventConsole(&e).to_text());
    let e = FsmInspectedEvent::StateTransitionStart(FsmEventStateTransitionStart {
        transition_id: TransitionId::Table(3),
        from: "A".to_string(),
        to: "B".to_string(),
        region_id: 0,
    });
    assert_eq!("  / Transitioning from A to B", FsmInspectedEventConsole(&e).to_text());
    let e = FsmInspectedEvent::StateEvent(FsmEventState {
        transition_id: TransitionId::Start,
        state_event_kind: FsmEventStateKind::Exit,
        state_name: "A".to_string(),
    });
    assert_eq!("  | Exiting state A", FsmInspectedEventConsole(&e).to_text());
    let e = FsmInspectedEvent::Action(FsmEventAction { transition_id: TransitionId::Stop, action_name: "go".to_string() });
    assert_eq!("  | Performing action go", FsmInspectedEventConsole(&e).to_text());
    assert_eq!("Event processed.", FsmInspectedEventConsole(&FsmInspectedEvent::EventProcessed).to_text());
}

#[test]
fn stdout_inspector_lines() {
    let mut inspect = FsmInspectStdOut::new::<Machine>();
    inspect.data[0].push_event::<Machine>(
        FsmInspectedEvent::ProcessingEvent(FsmEventProcessingEvent { event_kind: "Tick".to_string(), event_data: "{\"t\":1}".to_string() }),
        vec![structure(FsmEventStructKind::State("A".to_string()), "{}")],
    );
    inspect.data[0].push_event::<Machine>(FsmInspectedEvent::EventProcessed, vec![]);
    let lines = inspect.flush_lines();
    assert_eq!(
        vec![
            "Machine  * Processing event Tick".to_string(),
            format!("{} {{\"t\":1}}", " ".repeat(12)),
            format!("{}|   State(\"A\")", " ".repeat(11)),
            String::new(),
        ],
        lines
    );
    assert!(inspect.flush_lines().is_empty());
    let wider = inspect.add_fsm::<Other>();
    assert_eq!(2, wider.data.len());
}

#[test]
fn json_diff_lines() {
    let left = "{\n  \"a\": 1,\n  \"b\": 2\n}".to_string();
    let right = "{\n  \"a\": 1,\n  \"b\": 3\n}".to_string();
    let mut diff = JsonDiff::from_texts(&left, &right);
    assert_eq!("{\n  \"a\": 1,\n  \"b\": 2\n}", diff.left);
    assert_eq!(JsonDiffMode::All, diff.mode);
    assert_eq!(" {\n   \"a\": 1,\n-  \"b\": 2\n+  \"b\": 3\n }\n", diff.to_text());
    diff.mode = JsonDiffMode::DiffOnly;
    diff.padding = "> ".to_string();
    assert_eq!("> -  \"b\": 2\n> +  \"b\": 3\n", diff.to_text());
}

#[test]
fn format_diff_of_given_lines() {
    let lines = vec![
        DiffLine { side: DiffSide::Both, line: "x".to_string() },
        DiffLine { side: DiffSide::Right, line: "y".to_string() },
    ];
    assert_eq!(" x\n+y\n", format_diff(&lines, &String::new(), JsonDiffMode::All));
    assert_eq!("+y\n", format_diff(&lines, &String::new(), JsonDiffMode::DiffOnly));
}

#[test]
fn json_diff_of_a_document_with_itself() {
    let doc = "{\n  \"a\": 1\n}".to_string();
    let mut diff = JsonDiff::from_texts(&doc, &doc);
    assert_eq!(" {\n   \"a\": 1\n }\n", diff.to_text());
    diff.mode = JsonDiffMode::DiffOnly;
    assert_eq!("", diff.to_text());
}

#[test]
fn stdout_inspector_hooks() {
    let mut inspect = FsmInspectStdOut::new::<Machine>();
    inspect.on_process_event("Machine", "Tick".to_string(), "null".to_string());
    inspect.on_action(
        "Machine",
        TransitionId::Table(1),
        "go".to_string(),
        "{}".to_string(),
        "A".to_string(),
        "1".to_string(),
        "A".to_string(),
        "1".to_string(),
    );
    inspect.on_no_transition("Other");
    let lines = inspect.on_event_processed("Machine");
    assert_eq!(
        vec![
            "Machine  * Processing event Tick".to_string(),
            "Machine    | Performing action go".to_string(),
            format!("{}|   Context", " ".repeat(11)),
            format!("{}|   State(\"A\")", " ".repeat(11)),
            String::new(),
        ],
        lines
    );
}

#[test]
fn json_diff_of_values() {
    let left: serde_json::Value = serde_json::from_str("{\"a\": 1, \"b\": 2}").unwrap();
    let right: serde_json::Value = serde_json::from_str("{\"a\": 1, \"b\": 3}").unwrap();
    let mut diff = JsonDiff::new(&left, &right);
    assert_eq!("{\n  \"a\": 1,\n  \"b\": 2\n}", diff.left);
    assert_eq!(JsonDiffMode::All, diff.mode);
    assert_eq!("", diff.padding);
    diff.mode = JsonDiffMode::DiffOnly;
    assert_eq!("-  \"b\": 2\n+  \"b\": 3\n", diff.to_text());
}

use finny::classic::definition::{
    build_fsm_info, let_fsm_local, parse_definition_fn, ClassicCall, ClassicDefinitionError, ClassicRegion,
    ClassicStatement, ClassicTransitionType,
};

fn ccall(method: &str, generics: Vec<usize>, closure: Option<usize>) -> ClassicCall {
    ClassicCall { method: method.to_string(), generics, closure }
}

fn stmt(calls: Vec<ClassicCall>) -> ClassicStatement {
    ClassicStatement { calls }
}

const S_A: usize = 10;
const S_B: usize = 11;
const SUB: usize = 12;
const E_1: usize = 20;
const E_2: usize = 21;
const NO_EVENT: usize = 29;

fn classic_definition() -> Vec<ClassicStatement> {
    vec![
        stmt(vec![ccall("new_unit_event", vec![E_1], None)]),
        stmt(vec![ccall("new_event", vec![E_2], None)]),
        stmt(vec![ccall("new_unit_state", vec![S_A], None), ccall("on_entry", vec![], Some(0))]),
        stmt(vec![ccall("new_state", vec![S_B], None), ccall("on_exit", vec![], Some(1)), ccall("on_entry", vec![], Some(2))]),
        stmt(vec![ccall("add_sub_machine", vec![SUB], None)]),
        stmt(vec![
            ccall("on_event", vec![E_1], None),
            ccall("transition_from", vec![S_A], None),
            ccall("to", vec![S_B], None),
            ccall("guard", vec![], Some(3)),
            ccall("action", vec![], Some(4)),
        ]),
        stmt(vec![ccall("on_event", vec![E_2], None), ccall("transition_internal", vec![S_B], None)]),
        stmt(vec![ccall("on_event", vec![E_2], None), ccall("transition_from", vec![S_B], None), ccall("to", vec![SUB], None), ccall("shallow_history", vec![SUB], None)]),
        stmt(vec![ccall("new_state_timeout", vec![S_B, E_2], Some(5))]),
        stmt(vec![ccall("copyable_events", vec![], None)]),
        stmt(vec![ccall("on_event", vec![E_1], None), ccall("interrupt_state", vec![S_B], None)]),
    ]
}

#[test]
fn classic_definition_is_described() {
    let d = parse_definition_fn(&classic_definition()).unwrap();
    assert!(d.copyable_events);
    assert_eq!(2, d.events.len());
    assert!(d.events[0].unit && !d.events[1].unit);
    assert_eq!((S_A, true, Some(0), None), (d.states[0].ty, d.states[0].unit, d.states[0].on_entry, d.states[0].on_exit));
    assert_eq!((S_B, false, Some(2), Some(1)), (d.states[1].ty, d.states[1].unit, d.states[1].on_entry, d.states[1].on_exit));
    assert_eq!(SUB, d.sub_machines[0].ty);
    assert_eq!(3, d.transitions.len());
    let t1 = d.transitions[0];
    assert_eq!((1, S_A, E_1, S_B, Some(4), Some(3)), (t1.id, t1.source, t1.event, t1.target, t1.action, t1.guard));
    assert_eq!(ClassicTransitionType::Normal, t1.transition_type);
    let t2 = d.transitions[1];
    assert_eq!((2, S_B, S_B, ClassicTransitionType::Internal), (t2.id, t2.source, t2.target, t2.transition_type));
    assert_eq!(3, d.transitions[2].id);
    assert_eq!(vec![(E_2, SUB)], d.shallow_history);
    assert_eq!(vec![(S_B, E_1)], d.interrupt_states);
    assert_eq!((0, S_B, E_2, 5), (d.timers[0].id, d.timers[0].state, d.timers[0].event, d.timers[0].closure));
    assert_eq!((1, 4), (d.actions[0].transition_id, d.actions[0].closure));
    assert_eq!((1, 3), (d.guards[0].transition_id, d.guards[0].closure));
}

#[test]
fn classic_definition_errors() {
    let cases = vec![
        (vec![ccall("new_state", vec![], None)], ClassicDefinitionError::ExpectedSingleGeneric),
        (vec![ccall("new_state", vec![S_A], None), ccall("on_entry", vec![], None)], ClassicDefinitionError::ExpectedClosure),
        (vec![ccall("new_state", vec![S_A], None), ccall("guard", vec![], Some(0))], ClassicDefinitionError::UnsupportedStateMethod),
        (vec![ccall("add_sub_machine", vec![SUB], None), ccall("to", vec![], None)], ClassicDefinitionError::UnsupportedSubMachineMethod),
        (vec![ccall("new_state_timeout", vec![S_A], Some(0))], ClassicDefinitionError::ExpectedTimerGenerics),
        (vec![ccall("new_state_timeout", vec![S_A, E_1], None)], ClassicDefinitionError::ExpectedClosure),
        (vec![ccall("on_event", vec![E_1], None), ccall("to", vec![S_B], None)], ClassicDefinitionError::MissingSourceState),
        (vec![ccall("on_event", vec![E_1], None), ccall("transition_from", vec![S_A], None)], ClassicDefinitionError::MissingTargetState),
        (
            vec![ccall("on_event", vec![E_1], None), ccall("transition_self", vec![S_A], None), ccall("guard", vec![], Some(0))],
            ClassicDefinitionError::MissingTargetState,
        ),
        (
            vec![ccall("on_event", vec![E_1], None), ccall("transition_from", vec![S_A], None), ccall("action", vec![], Some(0))],
            ClassicDefinitionError::MissingTargetState,
        ),
    ];
    for (calls, expected) in cases {
        assert_eq!(Some(expected), parse_definition_fn(&vec![stmt(calls)]).err());
    }
    // a self transition may have an action, and unknown statements are ignored
    let d = parse_definition_fn(&vec![
        stmt(vec![ccall("on_event", vec![E_1], None), ccall("transition_self", vec![S_A], None), ccall("action", vec![], Some(7))]),
        stmt(vec![ccall("something_else", vec![], None)]),
        stmt(vec![]),
    ])
    .unwrap();
    assert_eq!((S_A, S_A, Some(7)), (d.transitions[0].source, d.transitions[0].target, d.transitions[0].action));
}

#[test]
fn classic_fsm_declaration() {
    let decl = let_fsm_local(&vec![
        ccall("new_fsm", vec![1], None),
        ccall("initial_state", vec![S_A], None),
        ccall("context_ty", vec![3], None),
        ccall("initial_state", vec![S_B], None),
    ])
    .unwrap();
    assert_eq!((1, Some(3), S_A), (decl.fsm_ty, decl.context_ty, decl.initial_state));
    let decl = let_fsm_local(&vec![ccall("new_fsm", vec![1], None), ccall("initial_state", vec![S_A], None)]).unwrap();
    assert_eq!(None, decl.context_ty);
    assert_eq!(Some(ClassicDefinitionError::MissingFsmType), let_fsm_local(&vec![ccall("initial_state", vec![S_A], None)]).err());
    assert_eq!(Some(ClassicDefinitionError::MissingInitialState), let_fsm_local(&vec![ccall("new_fsm", vec![1], None)]).err());
}

#[test]
fn classic_fsm_info_of_a_region() {
    let d = parse_definition_fn(&classic_definition()).unwrap();
    let mut transitions = d.transitions.clone();
    let anonymous = {
        let mut t = transitions[0];
        t.id = 4;
        t.event = NO_EVENT;
        t.source = S_B;
        t.target = S_A;
        t
    };
    transitions.push(anonymous);
    let region = ClassicRegion {
        id: 0,
        initial_state: S_A,
        transitions,
        sub_machines: vec![SUB],
        interrupt_states: d.interrupt_states.clone(),
    };
    let info = build_fsm_info(&d, &vec![region], NO_EVENT);
    assert_eq!(1, info.len());
    let r = &info[0];
    assert_eq!((0, S_A), (r.region_id, r.initial_state));
    let states: Vec<(usize, bool, bool)> = r.states.iter().map(|s| (s.state, s.is_initial_state, s.is_interrupt_state)).collect();
    assert_eq!(vec![(S_A, true, false), (S_B, false, true)], states);
    assert_eq!(4, r.transitions.len());
    let flags: Vec<(bool, bool, bool, bool, bool, bool)> = r
        .transitions
        .iter()
        .map(|t| {
            (
                t.state_from_is_submachine,
                t.state_to_is_submachine,
                t.is_shallow_history,
                t.is_resume_event,
                t.is_internal,
                t.is_anonymous,
            )
        })
        .collect();
    assert_eq!(
        vec![
            (false, false, false, false, false, false),
            (false, false, false, false, true, false),
            (false, true, true, false, false, false),
            (false, false, false, false, false, true),
        ],
        flags
    );
}

use finny::classic::derived::{parse_description, ClassicDerivedError, ClassicField, ClassicTypeArg};

fn arg(ty: usize) -> ClassicTypeArg {
    ClassicTypeArg { ty, elements: vec![ty] }
}

fn tuple(ty: usize, elements: Vec<usize>) -> ClassicTypeArg {
    ClassicTypeArg { ty, elements }
}

fn field(name: &str, generics: Vec<ClassicTypeArg>) -> ClassicField {
    ClassicField { name: name.to_string(), generics: Some(generics) }
}

const F: usize = 1;
const CTX: usize = 2;
const ACTION: usize = 30;
const GUARD: usize = 31;

#[test]
fn derived_description_of_the_fields() {
    let machine = parse_description("MyFsmDefinition", &vec![
        field("InitialState", vec![arg(F), arg(S_A)]),
        field("ContextType", vec![arg(CTX)]),
        field("CopyableEvents", vec![arg(F)]),
        field("SubMachine", vec![arg(SUB)]),
        field("Transition", vec![arg(F), tuple(40, vec![S_A, S_B]), arg(E_1), arg(SUB), arg(ACTION)]),
        field("TransitionSelfGuard", vec![arg(F), arg(S_B), arg(E_2), arg(ACTION), arg(GUARD)]),
        field("TransitionInternal", vec![arg(F), arg(S_A), arg(E_2), arg(ACTION)]),
        field("InterruptState", vec![arg(F), arg(S_B), arg(E_1)]),
        field("InterruptState", vec![arg(F), arg(S_B), arg(E_2)]),
        field("ShallowHistory", vec![arg(F), arg(E_2), arg(SUB)]),
        field("TimerStateTimeout", vec![arg(F), arg(S_A), arg(E_2)]),
    ])
    .unwrap();
    assert_eq!("MyFsm", machine.name);
    assert_eq!(vec![S_A], machine.initial_states);
    let d = machine.description;
    assert_eq!((Some(CTX), true), (d.context_ty, d.copyable_events));
    assert_eq!(vec![SUB], d.sub_machines);
    let ts: Vec<(u32, usize, usize, usize, Option<usize>, Option<usize>)> =
        d.transitions.iter().map(|t| (t.id, t.source, t.event, t.target, t.action, t.guard)).collect();
    assert_eq!(
        vec![
            (1, S_A, E_1, SUB, Some(ACTION), None),
            (2, S_B, E_1, SUB, Some(ACTION), None),
            (3, S_B, E_2, S_B, Some(ACTION), Some(GUARD)),
            (4, S_A, E_2, S_A, Some(ACTION), None),
        ],
        ts
    );
    assert_eq!(ClassicTransitionType::SelfTransition, d.transitions[2].transition_type);
    assert_eq!(ClassicTransitionType::Internal, d.transitions[3].transition_type);
    assert_eq!(1, d.interrupt_states.len());
    assert_eq!((S_B, vec![E_1, E_2]), (d.interrupt_states[0].state, d.interrupt_states[0].resume_events.clone()));
    assert_eq!(vec![(E_2, SUB)], d.shallow_history);
    assert_eq!((0, S_A, E_2), (d.timers[0].id, d.timers[0].state, d.timers[0].event));
}

#[test]
fn derived_description_errors() {
    let initial = field("InitialState", vec![arg(F), arg(S_A)]);
    assert_eq!(
        Some(ClassicDerivedError::UnknownParameterType),
        parse_description("X", &vec![initial.clone(), field("Unknown", vec![arg(F)])]).err()
    );
    assert_eq!(
        Some(ClassicDerivedError::UnknownParameterType),
        parse_description("X", &vec![ClassicField { name: "InitialState".to_string(), generics: None }]).err()
    );
    assert_eq!(
        Some(ClassicDerivedError::MissingTypeArguments),
        parse_description("X", &vec![initial.clone(), field("Transition", vec![arg(F), arg(S_A), arg(E_1)])]).err()
    );
    assert_eq!(
        Some(ClassicDerivedError::MissingTypeArguments),
        parse_description("X", &vec![initial.clone(), field("InterruptState", vec![arg(F), arg(S_A)])]).err()
    );
    // no sources: no transition, and the missing arguments are not read
    let m = parse_description("X", &vec![initial.clone(), field("Transition", vec![arg(F), tuple(41, vec![])])]).unwrap();
    assert!(m.description.transitions.is_empty());
    // without an initial state the definition is refused
    assert_eq!(
        Some(ClassicDerivedError::MissingInitialState),
        parse_description("X", &vec![field("InitialState", vec![arg(F)])]).err()
    );
    assert_eq!(Some(ClassicDerivedError::MissingInitialState), parse_description("X", &vec![]).err());
    // a tuple of initial states gives one per region
    let m = parse_description("TwoDefinitionRegionsDefinition", &vec![field("InitialState", vec![arg(F), tuple(42, vec![S_A, S_B])])]).unwrap();
    assert_eq!(vec![S_A, S_B], m.initial_states);
    assert_eq!("TwoRegions", m.name);
}

use finny::classic::viz::build_viz;

#[test]
fn visualisation_text_of_a_region() {
    let d = parse_description(
        "VizDefinition",
        &vec![
            field("InitialState", vec![arg(F), arg(0)]),
            field("SubMachine", vec![arg(3)]),
            field("Transition", vec![arg(F), arg(0), arg(2), arg(1), arg(4)]),
            field("TransitionInternalGuard", vec![arg(F), arg(1), arg(2), arg(4), arg(5)]),
            field("Transition", vec![arg(F), arg(1), arg(2), arg(3), arg(4)]),
        ],
    )
    .unwrap();
    let desc = d.description;
    let classic = finny::classic::definition::ClassicDescription {
        copyable_events: false,
        transitions: desc.transitions.clone(),
        states: vec![],
        events: vec![],
        sub_machines: vec![finny::classic::definition::ClassicSubMachine { ty: 3, on_entry: None, on_exit: None }],
        timers: vec![],
        interrupt_states: vec![],
        shallow_history: vec![],
        actions: vec![],
        guards: vec![],
    };
    let region = ClassicRegion {
        id: 0,
        initial_state: 0,
        transitions: desc.transitions.clone(),
        sub_machines: vec![3],
        interrupt_states: vec![],
    };
    let regions = vec![region];
    let infos = build_fsm_info(&classic, &regions, 99);
    let labels: Vec<String> = vec!["A", "B", "Ev", "Sub", "Act", "Grd"].into_iter().map(|s| s.to_string()).collect();
    let text = build_viz("Viz", &labels, &vec![3], &regions, &infos);
    let expected = "var f = newFsm(cy, 'Viz', '##parent##'); var fsm_Viz = f;\n\
var Viz_region_0 = f.add_region(\"Region 0\");\n\
var state_A = Viz_region_0.add_initial_state(\"A\");\n\
var state_B = Viz_region_0.add_state(\"B\", { is_initial_state: false, is_interrupt_state: false });\n\
// submachine Sub start\n// ##SUB_Sub##\n// submachine Sub end\n\
Viz_region_0.add_transition(state_A, state_B, { event: 'Ev', action: 'Act', guard: '', transition_type: 'Normal', is_anonymous: false, shallow_history: false, resume_event: false });\n\
Viz_region_0.add_transition(state_B, state_B, { event: 'Ev', action: 'Act', guard: 'Grd', transition_type: 'Internal', is_anonymous: false, shallow_history: false, resume_event: false });\n\
fsm_Sub.add_transition_to_start(state_B, { event: 'Ev', action: 'Act', guard: '', transition_type: 'Normal', is_anonymous: false, shallow_history: false, resume_event: false });\n";
    assert_eq!(expected, text);
}

use finny::classic::definition::{find_transition, get_all_states};

#[test]
fn all_states_and_transition_lookup() {
    let d = parse_definition_fn(&classic_definition()).unwrap();
    let r1 = ClassicRegion { id: 0, initial_state: S_A, transitions: d.transitions[..2].to_vec(), sub_machines: vec![], interrupt_states: vec![] };
    let r2 = ClassicRegion { id: 1, initial_state: 50, transitions: d.transitions[2..].to_vec(), sub_machines: vec![SUB], interrupt_states: vec![] };
    let regions = vec![r1, r2];
    assert_eq!(vec![S_A, S_B, SUB, 50], get_all_states(&regions));
    assert_eq!(Some(3), find_transition(&regions, 3).map(|t| t.id));
    assert_eq!(Some(S_B), find_transition(&regions, 2).map(|t| t.source));
    assert!(find_transition(&regions, 9).is_none());
}
