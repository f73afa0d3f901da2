use finny::derive::meta::{
    to_info, FinnyEvent, FinnyFsm, FinnyRegion, FinnyState, FinnyStateKind, FinnyTimer, FinnyTransition,
    FinnyTransitionKind, FinnyTransitionNormal, FsmFnBase, FsmFnInput,
};
use finny::derive::parse::{
    FsmBlock, FsmTransitionEvent, FsmTransitionState, FsmTransitionType, MethodCall, ParseError, TypeArg,
};
use finny::derive::parse_fsm::FsmParser;
use finny::derive::plantuml::to_plant_uml;
use finny::derive::validation::{check_declarations, create_regions};
use finny::derive::codegen::generate_fsm_table;
use finny::derive::definition::build_fsm;
use finny::derive::syntax::{parse_definition, DefinitionError};
use finny::fsm::states::FsmCurrentState;
use finny::fsm::table::{FsmTableEvent, FsmTableTransition, FsmTableTransitionType};

const STATE_A: usize = 0;
const STATE_B: usize = 1;
const EVENT_CLICK: usize = 2;
const EVENT_ENTER: usize = 3;
const STATE_C: usize = 4;

fn call(name: &str, generics: Vec<usize>, closure: Option<usize>) -> MethodCall {
    MethodCall {
        name: name.to_string(),
        generics: generics.into_iter().map(|ty| TypeArg { ty, has_generics: false }).collect(),
        closure,
    }
}

fn block(method_calls: Vec<MethodCall>) -> FsmBlock {
    FsmBlock { method_calls }
}

/// The definition of the machine: A is the initial state, a click moves A to B, an enter is
/// an internal transition of B.
fn definition() -> Vec<FsmBlock> {
    vec![
        block(vec![call("initial_state", vec![STATE_A], None)]),
        block(vec![
            call("state", vec![STATE_A], None),
            call("on_entry", vec![], Some(0)),
            call("on_exit", vec![], Some(1)),
            call("on_event", vec![EVENT_CLICK], None),
            call("transition_to", vec![STATE_B], None),
            call("guard", vec![], Some(2)),
            call("action", vec![], Some(3)),
        ]),
        block(vec![
            call("state", vec![STATE_B], None),
            call("on_entry", vec![], Some(4)),
            call("on_event", vec![EVENT_ENTER], None),
            call("internal_transition", vec![], None),
            call("guard", vec![], Some(5)),
            call("action", vec![], Some(6)),
        ]),
        block(vec![call("build", vec![], None)]),
    ]
}

#[test]
fn parse_and_validate_the_definition() {
    let mut parser = FsmParser::new();
    assert_eq!(Ok(()), parser.parse(&definition()));
    let decl = parser.validate().unwrap();
    assert_eq!(vec![STATE_A], decl.initial_states);
    assert_eq!(2, decl.states.len());
    assert_eq!(Some(0), decl.states[0].on_entry_closure);
    assert_eq!(Some(1), decl.states[0].on_exit_closure);
    assert_eq!(Some(4), decl.states[1].on_entry_closure);
    assert_eq!(3, decl.transitions.len());
    // the start transition comes first, numbered 1
    assert_eq!(1, decl.transitions[0].transition_ty);
    match decl.transitions[0].ty {
        FsmTransitionType::StateTransition(t) => {
            assert_eq!(FsmTransitionState::Stopped, t.state_from);
            assert_eq!(FsmTransitionState::State(STATE_A), t.state_to);
            assert_eq!(FsmTransitionEvent::Start, t.event);
        }
        _ => panic!("expected the start transition"),
    }
    match decl.transitions[1].ty {
        FsmTransitionType::StateTransition(t) => {
            assert_eq!(FsmTransitionState::State(STATE_A), t.state_from);
            assert_eq!(FsmTransitionState::State(STATE_B), t.state_to);
            assert_eq!(FsmTransitionEvent::Event(EVENT_CLICK), t.event);
            assert_eq!(Some(2), t.action.guard);
            assert_eq!(Some(3), t.action.action);
        }
        _ => panic!("expected a transition from A to B"),
    }
    assert_eq!(2, decl.transitions[1].transition_ty);
    match decl.transitions[2].ty {
        FsmTransitionType::InternalTransition(t) => {
            assert_eq!(FsmTransitionState::State(STATE_B), t.state);
            assert_eq!(FsmTransitionEvent::Event(EVENT_ENTER), t.event);
        }
        _ => panic!("expected an internal transition"),
    }
    assert_eq!(3, decl.transitions[2].transition_ty);
}

#[test]
fn regions_of_the_definition() {
    let mut parser = FsmParser::new();
    parser.parse(&definition()).unwrap();
    let decl = parser.validate().unwrap();
    let fsm = create_regions(decl).unwrap();
    assert_eq!(1, fsm.regions.len());
    assert_eq!(STATE_A, fsm.regions[0].initial_state);
    assert_eq!(vec![STATE_A, STATE_B], fsm.regions[0].states.iter().map(|s| s.ty).collect::<Vec<_>>());
    assert_eq!(3, fsm.regions[0].transitions.len());
    assert_eq!(vec![0, 0], fsm.state_regions);
}

#[test]
fn missing_initial_state() {
    let mut parser = FsmParser::new();
    parser.parse(&vec![block(vec![call("state", vec![STATE_A], None)])]).unwrap();
    assert_eq!(Err(ParseError::MissingInitialState), parser.validate().map(|_| ()));
}

#[test]
fn initial_state_not_declared() {
    let mut parser = FsmParser::new();
    parser.parse(&vec![block(vec![call("initial_state", vec![STATE_A], None)])]).unwrap();
    assert_eq!(Err(ParseError::InitialStateNotDeclared(STATE_A)), parser.validate().map(|_| ()));
}

#[test]
fn transition_to_an_undeclared_state() {
    let mut parser = FsmParser::new();
    parser
        .parse(&vec![
            block(vec![call("initial_state", vec![STATE_A], None)]),
            block(vec![
                call("state", vec![STATE_A], None),
                call("on_event", vec![EVENT_CLICK], None),
                call("transition_to", vec![STATE_B], None),
            ]),
        ])
        .unwrap();
    assert_eq!(Err(ParseError::StateNotFound(STATE_B)), parser.validate().map(|_| ()));
}

#[test]
fn duplicate_initial_state() {
    let mut parser = FsmParser::new();
    let r = parser.parse(&vec![
        block(vec![call("initial_state", vec![STATE_A], None)]),
        block(vec![call("initial_state", vec![STATE_B], None)]),
    ]);
    assert_eq!(Err(ParseError::DuplicateInitialState(STATE_B)), r);
}

#[test]
fn generic_initial_state_is_refused() {
    let mut parser = FsmParser::new();
    let r = parser.parse(&vec![block(vec![MethodCall {
        name: "initial_state".to_string(),
        generics: vec![TypeArg { ty: STATE_A, has_generics: true }],
        closure: None,
    }])]);
    assert_eq!(Err(ParseError::GenericsNotSupported(STATE_A)), r);
}

#[test]
fn chain_errors() {
    let cases = vec![
        (vec![call("state", vec![STATE_A], None), call("on_entry", vec![], Some(0)), call("on_entry", vec![], Some(1))], ParseError::DuplicateOnEntry),
        (vec![call("state", vec![STATE_A], None), call("on_exit", vec![], Some(0)), call("on_exit", vec![], Some(1))], ParseError::DuplicateOnExit),
        (vec![call("state", vec![STATE_A], None), call("on_entry", vec![], None)], ParseError::ExpectedClosure),
        (
            vec![
                call("state", vec![STATE_A], None),
                call("on_event", vec![EVENT_CLICK], None),
                call("transition_to", vec![STATE_B], None),
                call("guard", vec![], Some(0)),
                call("guard", vec![], Some(1)),
            ],
            ParseError::DuplicateGuard,
        ),
        (
            vec![
                call("state", vec![STATE_A], None),
                call("on_event", vec![EVENT_CLICK], None),
                call("transition_to", vec![STATE_B], None),
                call("action", vec![], Some(0)),
                call("action", vec![], Some(1)),
            ],
            ParseError::DuplicateAction,
        ),
        (
            vec![
                call("state", vec![STATE_A], None),
                call("on_event", vec![EVENT_CLICK], None),
                call("transition_to", vec![STATE_B], None),
                call("finally", vec![], Some(0)),
            ],
            ParseError::UnsupportedMethod,
        ),
        (vec![call("state", vec![STATE_A], None), call("on_event", vec![EVENT_CLICK], None)], ParseError::UnsupportedMethods),
        (vec![call("state", vec![STATE_A], None), call("blink", vec![], None)], ParseError::UnsupportedStateMethod("blink".to_string())),
        (vec![call("events_debug", vec![], None)], ParseError::UnsupportedMethod),
    ];
    for (calls, expected) in cases {
        let mut parser = FsmParser::new();
        assert_eq!(Err(expected), parser.parse(&vec![block(calls)]));
    }
}

#[test]
fn unreachable_state_is_refused() {
    let mut parser = FsmParser::new();
    parser
        .parse(&vec![
            block(vec![call("initial_state", vec![STATE_A], None)]),
            block(vec![call("state", vec![STATE_A], None)]),
            block(vec![call("state", vec![STATE_C], None)]),
        ])
        .unwrap();
    let decl = parser.validate().unwrap();
    assert_eq!(Err(ParseError::UnreachableState(STATE_C)), create_regions(decl).map(|_| ()));
}

fn input() -> FsmFnInput {
    let mut parser = FsmParser::new();
    parser.parse(&definition()).unwrap();
    let fsm = create_regions(parser.validate().unwrap()).unwrap();
    FsmFnInput {
        base: FsmFnBase {
            fsm_id: "StateMachine".to_string(),
            context_id: "StateMachineContext".to_string(),
            type_labels: vec!["StateA".to_string(), "StateB".to_string(), "EventClick".to_string(), "EventEnter".to_string()],
        },
        fsm,
    }
}

#[test]
fn description_of_the_machine() {
    let info = to_info(&input());
    assert_eq!("StateMachine", info.fsm_id);
    assert_eq!("StateMachineContext", info.context_id);
    assert_eq!(1, info.regions.len());
    let region = &info.regions[0];
    assert_eq!(0, region.region_id);
    let ids: Vec<String> = region.states.iter().map(|s| s.get_state_id()).collect();
    assert_eq!(vec!["StateA", "StateB", "Stopped"], ids);
    assert!(matches!(region.states[2], FinnyStateKind::Stopped));
    let tids: Vec<String> = region.transitions.iter().map(|t| t.transition_id.clone()).collect();
    assert_eq!(vec!["Transition1", "Transition2", "Transition3"], tids);
    assert!(matches!(region.transitions[0].event, FinnyEvent::Start));
    match &region.transitions[1].event {
        FinnyEvent::Event(e) => assert_eq!("EventClick", e),
        _ => panic!("expected the click event"),
    }
    match &region.transitions[1].transition {
        FinnyTransitionKind::NormalTransition(n) => {
            assert_eq!("StateA", n.from_state);
            assert_eq!("StateB", n.to_state);
        }
        _ => panic!("expected a normal transition"),
    }
    match &region.transitions[2].transition {
        FinnyTransitionKind::InternalTransition { state_id } => assert_eq!("StateB", state_id),
        _ => panic!("expected an internal transition"),
    }
}

#[test]
fn plantuml_of_the_machine() {
    let (text, subs) = to_plant_uml(&to_info(&input())).unwrap();
    let expected = "state StateA {\n}\nstate StateB {\n}\n\
        [*] --> StateA : Start\nnote on link: Transition1\n\
        StateA --> StateB : EventClick\nnote on link: Transition2\n\
        StateB --> StateB : EventEnter (Internal)\nnote on link: Transition3\n";
    assert_eq!(expected, text);
    assert!(subs.is_empty());
}

#[test]
fn plantuml_names_sub_machines_and_timers() {
    let fsm = FinnyFsm {
        fsm_id: "M".to_string(),
        context_id: "C".to_string(),
        regions: vec![FinnyRegion {
            region_id: 0,
            states: vec![
                FinnyStateKind::State(FinnyState { state_id: "S".to_string(), timers: vec![FinnyTimer { timer_id: "T".to_string() }] }),
                FinnyStateKind::SubMachine("Sub".to_string()),
            ],
            transitions: vec![
                FinnyTransition {
                    transition_id: "Transition4".to_string(),
                    event: FinnyEvent::Stop,
                    transition: FinnyTransitionKind::SelfTransition { state_id: "S".to_string() },
                },
                FinnyTransition {
                    transition_id: "Transition5".to_string(),
                    event: FinnyEvent::Event("E".to_string()),
                    transition: FinnyTransitionKind::NormalTransition(FinnyTransitionNormal {
                        from_state: "S".to_string(),
                        to_state: "Sub".to_string(),
                    }),
                },
            ],
        }],
    };
    let (text, subs) = to_plant_uml(&fsm).unwrap();
    assert_eq!(
        "state S {\n}\nstate S : Timer T\nS --> S : Stop (Self)\nnote on link: Transition4\nS --> Sub : E\nnote on link: Transition5\n",
        text
    );
    assert_eq!(vec!["Sub".to_string()], subs);
}

#[test]
fn table_of_the_definition() {
    let mut parser = FsmParser::new();
    parser.parse(&definition()).unwrap();
    let fsm = create_regions(parser.validate().unwrap()).unwrap();
    let table = generate_fsm_table(&fsm).unwrap();
    assert_eq!(2, table.states.len());
    assert_eq!(0, table.states[0].region);
    assert_eq!(0, table.states[1].region);
    assert!(table.timers.is_empty());
    assert_eq!(1, table.regions.len());
    assert_eq!(
        vec![
            FsmTableTransition {
                id: 1,
                ty: FsmTableTransitionType::StateTransition { from: FsmCurrentState::Stopped, to: 0 },
                event: FsmTableEvent::Start,
                has_guard: false,
            },
            FsmTableTransition {
                id: 2,
                ty: FsmTableTransitionType::StateTransition { from: FsmCurrentState::State(0), to: 1 },
                event: FsmTableEvent::Event(EVENT_CLICK),
                has_guard: true,
            },
            FsmTableTransition {
                id: 3,
                ty: FsmTableTransitionType::InternalTransition { state: 1 },
                event: FsmTableEvent::Event(EVENT_ENTER),
                has_guard: true,
            },
        ],
        table.regions[0].transitions
    );
}

#[test]
fn table_refuses_a_state_without_region() {
    let mut parser = FsmParser::new();
    parser.parse(&definition()).unwrap();
    let mut fsm = create_regions(parser.validate().unwrap()).unwrap();
    fsm.state_regions[1] = 7;
    assert_eq!(Err(ParseError::Inconsistent), generate_fsm_table(&fsm).map(|_| ()));
}

#[test]
fn declarations_checked_before_regions() {
    let mut parser = FsmParser::new();
    parser.parse(&definition()).unwrap();
    let mut decl = parser.validate().unwrap();
    assert!(check_declarations(&decl));
    decl.initial_states.push(STATE_C);
    assert!(!check_declarations(&decl));
    decl.initial_states.pop();
    let first = decl.states[0];
    decl.states.push(first);
    assert!(!check_declarations(&decl));
}

#[test]
fn build_the_whole_definition() {
    let (fsm, table) = build_fsm(&definition()).unwrap();
    assert_eq!(1, fsm.regions.len());
    assert_eq!(3, table.regions[0].transitions.len());
    assert_eq!(
        Err(ParseError::DuplicateInitialState(STATE_B)),
        build_fsm(&vec![
            block(vec![call("initial_state", vec![STATE_A], None)]),
            block(vec![call("initial_state", vec![STATE_B], None)]),
        ])
        .map(|_| ())
    );
    assert_eq!(Err(ParseError::MissingInitialState), build_fsm(&vec![]).map(|_| ()));
}

#[test]
fn build_fsm_passes_on_validation_errors() {
    assert_eq!(
        Err(ParseError::InitialStateNotDeclared(STATE_A)),
        build_fsm(&vec![
            block(vec![call("initial_state", vec![STATE_A], None)]),
            block(vec![call("state", vec![STATE_B], None)]),
        ])
        .map(|_| ())
    );
    assert_eq!(
        Err(ParseError::StateNotFound(STATE_C)),
        build_fsm(&vec![
            block(vec![call("initial_state", vec![STATE_A], None)]),
            block(vec![
                call("state", vec![STATE_A], None),
                call("on_event", vec![EVENT_CLICK], None),
                call("transition_to", vec![STATE_C], None),
            ]),
        ])
        .map(|_| ())
    );
    assert_eq!(
        Err(ParseError::UnreachableState(STATE_C)),
        build_fsm(&vec![
            block(vec![call("initial_state", vec![STATE_A], None)]),
            block(vec![call("state", vec![STATE_A], None)]),
            block(vec![call("state", vec![STATE_C], None)]),
        ])
        .map(|_| ())
    );
}

#[test]
fn state_reached_from_two_regions_is_refused() {
    let mut parser = FsmParser::new();
    parser
        .parse(&vec![
            block(vec![call("initial_state", vec![STATE_A], None)]),
            block(vec![
                call("state", vec![STATE_A], None),
                call("on_event", vec![EVENT_CLICK], None),
                call("transition_to", vec![STATE_B], None),
            ]),
            block(vec![call("state", vec![STATE_B], None)]),
            block(vec![
                call("state", vec![STATE_C], None),
                call("on_event", vec![EVENT_CLICK], None),
                call("transition_to", vec![STATE_B], None),
            ]),
        ])
        .unwrap();
    let mut decl = parser.validate().unwrap();
    decl.initial_states.push(STATE_C);
    assert!(check_declarations(&decl));
    assert_eq!(Err(ParseError::StateInTwoRegions(STATE_B)), create_regions(decl).map(|_| ()));
}

fn tokens(text: &str) -> proc_macro2::TokenStream {
    text.parse().unwrap()
}

fn refusal(text: &str) -> Option<ParseError> {
    match parse_definition(&tokens(text)) {
        Err(DefinitionError::Refused(e)) => Some(e),
        _ => None,
    }
}

#[test]
fn definition_read_from_tokens() {
    let text = "fn my_fsm<T>(mut fsm: FsmBuilder<MyFsm<T>, MyContext>) -> BuiltFsm {
        fsm.initial_state::<StateA>();
        fsm.state::<StateA>().on_entry(|s, c| { c.n += 1; }).on_event::<Click>().transition_to::<StateB>();
        fsm.state::<StateB>();
        fsm.build()
    }";
    let (def, input, table) = match parse_definition(&tokens(text)) {
        Ok(r) => r,
        Err(_) => panic!("the definition is valid"),
    };
    assert_eq!("fsm", def.builder_ident.to_string());
    assert_eq!(vec!["StateA", "Click", "StateB"], def.type_texts);
    assert_eq!(1, def.closures.len());
    assert_eq!(4, def.blocks.len());
    assert_eq!(4, def.blocks[1].method_calls.len());
    assert_eq!(Some(0), def.blocks[1].method_calls[1].closure);
    assert_eq!("MyFsm", input.base.fsm_id);
    assert_eq!("MyContext", input.base.context_id);
    assert_eq!(vec!["StateA", "Click", "StateB"], input.base.type_labels);
    assert_eq!(1, input.fsm.regions.len());
    assert_eq!(2, table.regions[0].transitions.len());
}

#[test]
fn definition_generic_types_are_marked() {
    let text = "fn f(b: FsmBuilder<F, C>) -> BuiltFsm { b.initial_state::<S<u8>>(); b.state::<S<u8>>(); }";
    match parse_definition(&tokens(text)) {
        Err(DefinitionError::Declarations(e, def)) => {
            assert_eq!(ParseError::GenericsNotSupported(0), e);
            assert!(def.blocks[0].method_calls[0].generics[0].has_generics);
        }
        _ => panic!("generic states are refused"),
    }
}

#[test]
fn definition_signature_rules_in_order() {
    assert_eq!(Some(ParseError::SingleInputOnly), refusal("fn f(a: FsmBuilder<A, B>, b: u8) -> BuiltFsm {}"));
    assert_eq!(Some(ParseError::SingleInputOnly), refusal("fn f() -> BuiltFsm {}"));
    assert_eq!(Some(ParseError::TypedInputOnly), refusal("fn f(self) -> BuiltFsm {}"));
    assert_eq!(Some(ParseError::IdentPatternOnly), refusal("fn f((a, b): FsmBuilder<A, B>) -> BuiltFsm {}"));
    assert_eq!(Some(ParseError::IncorrectBuilderType), refusal("fn f(a: &FsmBuilder<A, B>) -> BuiltFsm {}"));
    assert_eq!(Some(ParseError::SingleSegmentOnly), refusal("fn f(a: m::FsmBuilder<A, B>) -> BuiltFsm {}"));
    assert_eq!(Some(ParseError::SingleSegmentOnly), refusal("fn f(a: FsmBuilder) -> BuiltFsm {}"));
    assert_eq!(Some(ParseError::ExpectedGenericPair), refusal("fn f(a: FsmBuilder<A>) -> BuiltFsm {}"));
    assert_eq!(Some(ParseError::ExpectedGenericPair), refusal("fn f(a: FsmBuilder<'x, A>) -> BuiltFsm {}"));
    assert_eq!(Some(ParseError::UnsupportedFsmType), refusal("fn f(a: FsmBuilder<&A, B>) -> BuiltFsm {}"));
    assert_eq!(Some(ParseError::ReturnTypeNotBuiltFsm), refusal("fn f(a: FsmBuilder<A, B>) -> Other {}"));
    assert_eq!(Some(ParseError::ReturnTypeNotBuiltFsm), refusal("fn f(a: FsmBuilder<A, B>) {}"));
    assert_eq!(Some(ParseError::UnsupportedStatement), refusal("fn f(a: FsmBuilder<A, B>) -> BuiltFsm { let x = 1; }"));
    assert_eq!(Some(ParseError::UnsupportedStatement), refusal("fn f(a: FsmBuilder<A, B>) -> BuiltFsm { other.build(); }"));
    assert!(matches!(parse_definition(&tokens("struct NotAFunction;")), Err(DefinitionError::Syntax(_))));
}

#[test]
fn definition_declarations_refused_with_the_function() {
    let text = "fn f(b: FsmBuilder<F, C>) -> BuiltFsm { b.initial_state::<A>(); b.state::<A>(); b.state::<C2>(); }";
    match parse_definition(&tokens(text)) {
        Err(DefinitionError::Declarations(e, def)) => {
            assert_eq!(ParseError::UnreachableState(1), e);
            assert_eq!(vec!["A", "C2"], def.type_texts);
        }
        _ => panic!("the unreachable state is refused"),
    }
}

#[test]
fn shared_initial_state_goes_to_the_later_region() {
    let mut parser = FsmParser::new();
    parser
        .parse(&vec![
            block(vec![call("initial_state", vec![STATE_A], None)]),
            block(vec![call("state", vec![STATE_A], None)]),
        ])
        .unwrap();
    let mut decl = parser.validate().unwrap();
    decl.initial_states.push(STATE_A);
    assert!(check_declarations(&decl));
    let fsm = create_regions(decl).unwrap();
    assert_eq!(vec![1], fsm.state_regions);
}

#[test]
fn earlier_initial_state_reached_by_a_later_region_is_refused() {
    let mut parser = FsmParser::new();
    parser
        .parse(&vec![
            block(vec![call("initial_state", vec![STATE_A], None)]),
            block(vec![call("state", vec![STATE_A], None)]),
            block(vec![
                call("state", vec![STATE_C], None),
                call("on_event", vec![EVENT_CLICK], None),
                call("transition_to", vec![STATE_A], None),
            ]),
        ])
        .unwrap();
    let mut decl = parser.validate().unwrap();
    decl.initial_states.push(STATE_C);
    assert_eq!(Err(ParseError::StateInTwoRegions(STATE_A)), create_regions(decl).map(|_| ()));
}
