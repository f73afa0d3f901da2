use finny::fsm::frontend::FsmFrontend;
use finny::fsm::queue::{FsmEventQueueArray, FsmEventQueueSender};
use finny::fsm::readme_fsm::{MyContext, MyEvent, MyFsm, MY_STATE_A, MY_STATE_B};
use finny::fsm::states::FsmCurrentState;
use finny::fsm::table::{check_table, FsmTableEvent, FsmTableTransition, FsmTableTransitionType};
use finny::fsm::{FsmError, FsmResult};

#[test]
fn readme_machine_counts_entries_and_transitions() -> FsmResult<()> {
    let mut fsm = FsmFrontend::<MyFsm, _, _, _>::new(MyFsm::table(), MyContext::default())?;
    assert_eq!(0, fsm.backend.get_context().val);
    fsm.start()?;
    assert_eq!(FsmCurrentState::State(MY_STATE_A), fsm.backend.get_current_states()[0]);
    assert_eq!(1, fsm.backend.get_context().state_a.n);
    assert_eq!(1, fsm.backend.get_context().val);
    fsm.dispatch(MyEvent)?;
    assert_eq!(2, fsm.backend.get_context().val);
    assert_eq!(FsmCurrentState::State(MY_STATE_B), fsm.backend.get_current_states()[0]);
    assert_eq!(Err(FsmError::NoTransition), fsm.dispatch(MyEvent));
    Ok(())
}

#[test]
fn readme_machine_guard_needs_a_positive_value() -> FsmResult<()> {
    let context = MyContext { val: u32::MAX, state_a: Default::default() };
    let mut fsm = FsmFrontend::<MyFsm, _, _, _>::new(MyFsm::table(), context)?;
    fsm.start()?;
    // the entry into A wraps the value around to zero, which the guard refuses
    assert_eq!(0, fsm.backend.get_context().val);
    assert_eq!(Err(FsmError::NoTransition), fsm.dispatch(MyEvent));
    assert_eq!(FsmCurrentState::State(MY_STATE_A), fsm.backend.get_current_states()[0]);
    Ok(())
}

#[test]
fn table_check_finds_bad_references() {
    let mut table = MyFsm::table();
    assert!(check_table(&table));
    table.regions[0].transitions.push(FsmTableTransition {
        id: 2,
        ty: FsmTableTransitionType::SelfTransition { state: 5 },
        event: FsmTableEvent::Event(0),
        has_guard: false,
    });
    assert!(!check_table(&table));
    let mut table = MyFsm::table();
    table.states[1].region = 3;
    assert!(!check_table(&table));
    let mut table = MyFsm::table();
    table.states[0].timers.push(0);
    assert!(!check_table(&table));
}

#[test]
fn array_queue_never_exceeds_its_capacity() {
    let mut q = FsmEventQueueArray::<MyEvent, 2>::new();
    assert_eq!(2, q.capacity());
    assert_eq!(Ok(()), q.enqueue(MyEvent));
    assert_eq!(Ok(()), q.enqueue(MyEvent));
    assert_eq!(Err(FsmError::QueueOverCapacity), q.enqueue(MyEvent));
    assert_eq!(2, q.capacity());
}
