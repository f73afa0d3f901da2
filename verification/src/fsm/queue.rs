//! Event queues. Events enqueued by actions, or from the outside, are dispatched in FIFO order.

use vstd::prelude::*;
use std::collections::VecDeque;
use std::marker::PhantomData;
use crate::fsm::{FsmError, FsmResult};

verus! {

/// The sending half of an event queue.
pub trait FsmEventQueueSender<E> {
    /// The events waiting in the queue, the next one to be dequeued first.
    spec fn queued(&self) -> Seq<E>;

    /// The queue contents after offering `event` to a queue holding `queued`, and the result
    /// of the offer.
    spec fn spec_enqueue(queued: Seq<E>, event: E) -> (Seq<E>, FsmResult<()>);

    /// Try to enqueue an event.
    fn enqueue(&mut self, event: E) -> (r: FsmResult<()>)
        ensures
            (final(self).queued(), r) == Self::spec_enqueue(old(self).queued(), event),
    ;

    /// An offered event is appended at the back, dropped by a queue that keeps nothing, or
    /// refused with `QueueOverCapacity`; nothing else changes.
    proof fn lemma_enqueue_shape(queued: Seq<E>, event: E)
        ensures
            ({
                let (q, r) = Self::spec_enqueue(queued, event);
                ||| (r is Ok && q == queued.push(event))
                ||| (r is Ok && q == queued)
                ||| (r == Err::<(), FsmError>(FsmError::QueueOverCapacity) && q == queued)
            }),
    ;
}

/// The event queueing trait for FSMs. Can be used from outside or from within the actions of the FSM.
pub trait FsmEventQueue<E>: FsmEventQueueSender<E> {
    /// Try to dequeue an event.
    fn dequeue(&mut self) -> (r: Option<E>)
        ensures
            old(self).queued().len() == 0 ==> r is None && final(self).queued() == old(self).queued(),
            old(self).queued().len() > 0 ==> r == Some(old(self).queued()[0])
                && final(self).queued() == old(self).queued().drop_first(),
    ;

    /// Number of messages to be dequeued.
    fn len(&self) -> (n: usize)
        ensures
            n == self.queued().len(),
    ;
}

/// An unbound event queue that uses `VecDeque`.
pub struct FsmEventQueueVec<E> {
    queue: VecDeque<E>,
}

impl<E> FsmEventQueueVec<E> {
    pub fn new() -> (r: Self)
        ensures
            r.queued() == Seq::<E>::empty(),
    {
        FsmEventQueueVec { queue: VecDeque::new() }
    }
}

impl<E> FsmEventQueueSender<E> for FsmEventQueueVec<E> {
    closed spec fn queued(&self) -> Seq<E> {
        self.queue@
    }

    open spec fn spec_enqueue(queued: Seq<E>, event: E) -> (Seq<E>, FsmResult<()>) {
        (queued.push(event), Ok(()))
    }

    fn enqueue(&mut self, event: E) -> (r: FsmResult<()>) {
        self.queue.push_back(event);
        Ok(())
    }

    proof fn lemma_enqueue_shape(queued: Seq<E>, event: E) {
    }
}

impl<E> FsmEventQueue<E> for FsmEventQueueVec<E> {
    fn dequeue(&mut self) -> (r: Option<E>) {
        self.queue.pop_front()
    }

    fn len(&self) -> (n: usize) {
        self.queue.len()
    }
}

/// A queue with a fixed capacity of `CAP` events; enqueueing into a full queue fails with
/// `QueueOverCapacity`.
pub struct FsmEventQueueArray<E, const CAP: usize> {
    dequeue: VecDeque<E>,
}

impl<E, const CAP: usize> FsmEventQueueArray<E, CAP> {
    /// The queue never holds more than `CAP` events.
    #[verifier::type_invariant]
    pub closed spec fn within_capacity(self) -> bool {
        self.dequeue@.len() <= CAP
    }

    pub fn new() -> (r: Self)
        ensures
            r.queued() == Seq::<E>::empty(),
    {
        Self { dequeue: VecDeque::new() }
    }

    /// The number of events the queue can hold, which it never exceeds.
    pub fn capacity(&self) -> (r: usize)
        ensures
            r == CAP,
            self.queued().len() <= CAP,
    {
        proof {
            use_type_invariant(self);
        }
        CAP
    }
}

impl<E, const CAP: usize> FsmEventQueueSender<E> for FsmEventQueueArray<E, CAP> {
    closed spec fn queued(&self) -> Seq<E> {
        self.dequeue@
    }

    open spec fn spec_enqueue(queued: Seq<E>, event: E) -> (Seq<E>, FsmResult<()>) {
        if queued.len() < CAP {
            (queued.push(event), Ok(()))
        } else {
            (queued, Err(FsmError::QueueOverCapacity))
        }
    }

    fn enqueue(&mut self, event: E) -> (r: FsmResult<()>) {
        proof {
            use_type_invariant(&*self);
        }
        if self.dequeue.len() < CAP {
            let mut d: VecDeque<E> = VecDeque::new();
            core::mem::swap(&mut d, &mut self.dequeue);
            d.push_back(event);
            self.dequeue = d;
            Ok(())
        } else {
            Err(FsmError::QueueOverCapacity)
        }
    }

    proof fn lemma_enqueue_shape(queued: Seq<E>, event: E) {
    }
}

impl<E, const CAP: usize> FsmEventQueue<E> for FsmEventQueueArray<E, CAP> {
    fn dequeue(&mut self) -> (r: Option<E>) {
        proof {
            use_type_invariant(&*self);
        }
        let mut d: VecDeque<E> = VecDeque::new();
        core::mem::swap(&mut d, &mut self.dequeue);
        let r = d.pop_front();
        self.dequeue = d;
        r
    }

    fn len(&self) -> (n: usize) {
        self.dequeue.len()
    }
}

/// A queue that accepts every event and keeps none of them.
pub struct FsmEventQueueNull<E> {
    _ty: PhantomData<E>,
}

impl<E> FsmEventQueueNull<E> {
    pub fn new() -> (r: Self)
        ensures
            r.queued() == Seq::<E>::empty(),
    {
        FsmEventQueueNull { _ty: PhantomData }
    }
}

impl<E> FsmEventQueueSender<E> for FsmEventQueueNull<E> {
    open spec fn queued(&self) -> Seq<E> {
        Seq::empty()
    }

    open spec fn spec_enqueue(queued: Seq<E>, event: E) -> (Seq<E>, FsmResult<()>) {
        (queued, Ok(()))
    }

    fn enqueue(&mut self, _event: E) -> (r: FsmResult<()>) {
        Ok(())
    }

    proof fn lemma_enqueue_shape(queued: Seq<E>, event: E) {
    }
}

impl<E> FsmEventQueue<E> for FsmEventQueueNull<E> {
    fn dequeue(&mut self) -> (r: Option<E>) {
        None
    }

    fn len(&self) -> (n: usize) {
        0
    }
}

/// Law: a queue that keeps events hands them back in the order they were enqueued. After two
/// successful appends to an empty unbounded queue, the first dequeue yields the first event.
pub proof fn lemma_fifo<E>(q0: Seq<E>, a: E, b: E)
    requires
        q0.len() == 0,
    ensures
        q0.push(a).push(b)[0] == a,
        q0.push(a).push(b).drop_first() == seq![b],
{
    assert(q0.push(a).push(b).drop_first() =~= seq![b]);
}

} // verus!

verus! {

/// The contents of a queue holding `q` after offering it each of `events` in order.
pub open spec fn enqueue_all<E, Q: FsmEventQueueSender<E>>(q: Seq<E>, events: Seq<E>) -> Seq<E>
    decreases events.len(),
{
    if events.len() == 0 {
        q
    } else {
        Q::spec_enqueue(enqueue_all::<E, Q>(q, events.drop_last()), events.last()).0
    }
}

/// Offers each of `events` to the queue, in order; an event that the queue refuses is dropped.
pub fn enqueue_all_events<E, Q: FsmEventQueueSender<E>>(queue: &mut Q, events: Vec<E>)
    ensures
        final(queue).queued() == enqueue_all::<E, Q>(old(queue).queued(), events@),
{
    let ghost evs = events@;
    let ghost q0 = queue.queued();
    let mut rest = events;
    let n = rest.len();
    let mut i: usize = 0;
    while i < n
        invariant
            n == evs.len(),
            i <= n,
            rest@ == evs.skip(i as int),
            queue.queued() == enqueue_all::<E, Q>(q0, evs.take(i as int)),
        decreases n - i,
    {
        let e = rest.remove(0);
        let _ = queue.enqueue(e);
        assert(evs.take(i + 1).drop_last() =~= evs.take(i as int));
        assert(rest@ =~= evs.skip(i + 1));
        i = i + 1;
    }
    assert(evs.take(n as int) =~= evs);
}

} // verus!
