use finny::fsm::queue::{FsmEventQueue, FsmEventQueueArray, FsmEventQueueNull, FsmEventQueueSender, FsmEventQueueVec};
use finny::fsm::tests_fsm::{EventA, Events};
use finny::fsm::FsmError;

fn test_queue<Q: FsmEventQueue<Events>>(mut queue: Q) {
    // fill and drain
    {
        for i in 0..5 {
            assert_eq!(i, queue.len());
            queue.enqueue(EventA { n: i }.into()).unwrap();
            assert_eq!(i + 1, queue.len());
        }

        for i in 0..5 {
            assert_eq!(5 - i, queue.len());
            let ev = queue.dequeue().unwrap();
            assert_eq!(Events::EventA(EventA { n: i }), ev);
            assert_eq!(5 - i - 1, queue.len());
        }
    }
    assert_eq!(None, queue.dequeue());

    // zipper - enqueue 2, drain 1
    {
        let mut n = 0;
        let mut x = 0;
        for _ in 0..10 {
            queue.enqueue(EventA { n }.into()).unwrap();
            n += 1;
            queue.enqueue(EventA { n }.into()).unwrap();
            n += 1;

            {
                let ev = queue.dequeue().unwrap();
                assert_eq!(Events::EventA(EventA { n: x }), ev);
                x += 1;
            }

            assert_eq!(queue.len(), x);
        }
    }
}

#[test]
fn test_dequeue_vec() {
    let queue = FsmEventQueueVec::<Events>::new();
    test_queue(queue);
}

#[test]
fn test_array() {
    let queue = FsmEventQueueArray::<Events, 16>::new();
    test_queue(queue);
}

#[test]
fn array_queue_refuses_events_over_capacity() {
    let mut queue = FsmEventQueueArray::<Events, 2>::new();
    assert_eq!(2, queue.capacity());
    assert_eq!(Ok(()), queue.enqueue(Events::EventA(EventA { n: 1 })));
    assert_eq!(Ok(()), queue.enqueue(Events::EventA(EventA { n: 2 })));
    assert_eq!(Err(FsmError::QueueOverCapacity), queue.enqueue(Events::EventA(EventA { n: 3 })));
    assert_eq!(2, queue.len());
    assert_eq!(Some(Events::EventA(EventA { n: 1 })), queue.dequeue());
    assert_eq!(Some(Events::EventA(EventA { n: 2 })), queue.dequeue());
    assert_eq!(None, queue.dequeue());
}

#[test]
fn null_queue_drops_every_event() {
    let mut queue = FsmEventQueueNull::<Events>::new();
    assert_eq!(Ok(()), queue.enqueue(Events::EventA(EventA { n: 1 })));
    assert_eq!(0, queue.len());
    assert_eq!(None, queue.dequeue());
}
