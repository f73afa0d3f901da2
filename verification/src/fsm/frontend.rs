//! The frontend of a state machine, which also holds the environmental services: the event
//! queue, the inspection and the timer service. The usual way to use the FSM.

use vstd::prelude::*;
use crate::fsm::{FsmError, FsmResult};
use crate::fsm::events::FsmEvent;
use crate::fsm::timers::FsmTimers;
use crate::fsm::table::FsmTable;
use crate::fsm::queue::{FsmEventQueue, FsmEventQueueSender, enqueue_all, enqueue_all_events};
use crate::fsm::dispatch::{FsmBackend, FsmModel, spec_dispatch};
use crate::fsm::fsm_impl::FsmBackendImpl;
use crate::fsm::inspect::{Inspect, InspectNull};
use crate::fsm::queue::FsmEventQueueVec;
use crate::fsm::timers::FsmTimersNull;

verus! {

/// A machine together with the events waiting in its queue.
pub ghost struct FsmRunModel<C, E, M> {
    pub machine: FsmModel<C, E, M>,
    pub queued: Seq<E>,
}

/// Dispatching one event and then offering the events that the machine's hooks produced to
/// the queue.
pub open spec fn dispatch_and_enqueue<F: FsmBackend, T: FsmTimers, Q: FsmEventQueueSender<F::Events>>(
    table: FsmTable,
    s: FsmRunModel<F::Context, F::Events, T::Model>,
    ev: FsmEvent<F::Events, usize>,
) -> (FsmRunModel<F::Context, F::Events, T::Model>, FsmResult<()>) {
    let (m, res) = spec_dispatch::<F, T>(table, s.machine, ev);
    (
        FsmRunModel {
            machine: FsmModel { outbox: Seq::empty(), ..m },
            queued: enqueue_all::<F::Events, Q>(s.queued, m.outbox),
        },
        res,
    )
}

/// Dispatching the event at the front of the queue, if any.
pub open spec fn queue_step<F: FsmBackend, T: FsmTimers, Q: FsmEventQueueSender<F::Events>>(
    table: FsmTable,
    s: FsmRunModel<F::Context, F::Events, T::Model>,
) -> FsmRunModel<F::Context, F::Events, T::Model> {
    if s.queued.len() == 0 {
        s
    } else {
        dispatch_and_enqueue::<F, T, Q>(
            table,
            FsmRunModel { queued: s.queued.drop_first(), ..s },
            FsmEvent::Event(s.queued[0]),
        ).0
    }
}

/// `k` queue steps; once the queue is empty nothing changes any more.
pub open spec fn queue_steps<F: FsmBackend, T: FsmTimers, Q: FsmEventQueueSender<F::Events>>(
    table: FsmTable,
    s: FsmRunModel<F::Context, F::Events, T::Model>,
    k: nat,
) -> FsmRunModel<F::Context, F::Events, T::Model>
    decreases k,
{
    if k == 0 {
        s
    } else {
        queue_step::<F, T, Q>(table, queue_steps::<F, T, Q>(table, s, (k - 1) as nat))
    }
}

/// The run with the timer service's state replaced by `tmod`.
pub open spec fn with_timers<C, E, M>(s: FsmRunModel<C, E, M>, tmod: M) -> FsmRunModel<C, E, M> {
    FsmRunModel { machine: FsmModel { timers: tmod, ..s.machine }, ..s }
}

/// A timer fired, as reported by the timer service after polling it (which left the service
/// in `tmod`): its event `tm` was dispatched from `s`, giving `s2` and `r`.
pub open spec fn timer_dispatch<F: FsmBackend, T: FsmTimers, Q: FsmEventQueueSender<F::Events>>(
    table: FsmTable,
    s: FsmRunModel<F::Context, F::Events, T::Model>,
    tm: usize,
    tmod: T::Model,
    s2: FsmRunModel<F::Context, F::Events, T::Model>,
    r: FsmResult<()>,
) -> bool {
    dispatch_and_enqueue::<F, T, Q>(table, with_timers(s, tmod), FsmEvent::Timer(tm)) == (s2, r)
}

/// Some fired timer was dispatched from `s`, giving `s2` and `r`.
pub open spec fn timer_step<F: FsmBackend, T: FsmTimers, Q: FsmEventQueueSender<F::Events>>(
    table: FsmTable,
    s: FsmRunModel<F::Context, F::Events, T::Model>,
    s2: FsmRunModel<F::Context, F::Events, T::Model>,
    r: FsmResult<()>,
) -> bool {
    exists|tm: usize, tmod: T::Model| #[trigger] timer_dispatch::<F, T, Q>(table, s, tm, tmod, s2, r)
}

/// Fired timers were dispatched successfully, one after the other, along `path`.
pub open spec fn timer_path<F: FsmBackend, T: FsmTimers, Q: FsmEventQueueSender<F::Events>>(
    table: FsmTable,
    path: Seq<FsmRunModel<F::Context, F::Events, T::Model>>,
) -> bool {
    &&& path.len() >= 1
    &&& forall|i: int|
        0 <= i < path.len() - 1 ==> #[trigger] timer_step::<F, T, Q>(table, path[i], path[i + 1], Ok(()))
}

pub struct FsmFrontend<F: FsmBackend, Q: FsmEventQueue<F::Events>, I: Inspect, T: FsmTimers> {
    pub backend: FsmBackendImpl<F>,
    pub queue: Q,
    pub inspect: I,
    pub timers: T,
}

impl<F: FsmBackend, Q: FsmEventQueue<F::Events>, I: Inspect, T: FsmTimers> FsmFrontend<F, Q, I, T> {
    pub open spec fn wf(&self) -> bool {
        self.backend.wf()
    }

    pub open spec fn run_model(&self) -> FsmRunModel<F::Context, F::Events, T::Model> {
        FsmRunModel {
            machine: self.backend.model(self.timers.model(), Seq::empty()),
            queued: self.queue.queued(),
        }
    }

    /// Build a new frontend for the FSM with all the environmental services provided by the caller.
    pub fn new_with(table: FsmTable, context: F::Context, queue: Q, inspect: I, timers: T) -> (r:
        FsmResult<Self>)
        requires
            table.wf(),
        ensures
            r matches Ok(f) ==> {
                &&& f.wf()
                &&& f.backend.spec_table() == table
                &&& f.backend.ctx() == context
                &&& f.backend.current() == Seq::new(
                    table.regions@.len(),
                    |i: int| crate::fsm::states::FsmCurrentState::<usize>::Stopped,
                )
                &&& f.queue == queue
                &&& f.timers == timers
            },
            r is Ok,
    {
        let backend = FsmBackendImpl::new(table, context)?;
        Ok(FsmFrontend { backend, queue, inspect, timers })
    }

    /// Dispatch only this event, do not run it to completion. The events that the machine
    /// enqueued are offered to the queue.
    pub fn dispatch_single_event(&mut self, event: FsmEvent<F::Events, usize>) -> (r: FsmResult<()>)
        requires
            old(self).wf(),
        ensures
            final(self).wf(),
            final(self).backend.spec_table() == old(self).backend.spec_table(),
            (final(self).run_model(), r) == dispatch_and_enqueue::<F, T, Q>(
                old(self).backend.spec_table(),
                old(self).run_model(),
                event,
            ),
    {
        let observer = self.inspect.new_event(&event, &self.backend);
        let (res, out) = self.backend.dispatch_event(&mut self.timers, &observer, &event);
        if let Err(e) = res {
            observer.on_error("dispatch failed", &e);
        }
        observer.event_done(&self.backend);
        enqueue_all_events(&mut self.queue, out);
        res
    }

    /// Start the FSM, initiates the transition to the initial state.
    pub fn start(&mut self) -> (r: FsmResult<()>)
        requires
            old(self).wf(),
        ensures
            final(self).wf(),
            final(self).backend.spec_table() == old(self).backend.spec_table(),
            (final(self).run_model(), r) == dispatch_and_enqueue::<F, T, Q>(
                old(self).backend.spec_table(),
                old(self).run_model(),
                FsmEvent::Start,
            ),
    {
        self.dispatch_single_event(FsmEvent::Start)
    }

    /// Dispatch the event at the front of the queue, if there is one. Returns `None`, and
    /// changes nothing, when the queue is empty.
    pub fn dispatch_queued_event(&mut self) -> (r: Option<FsmResult<()>>)
        requires
            old(self).wf(),
        ensures
            final(self).wf(),
            final(self).backend.spec_table() == old(self).backend.spec_table(),
            r is None <==> old(self).queue.queued().len() == 0,
            final(self).run_model() == queue_step::<F, T, Q>(
                old(self).backend.spec_table(),
                old(self).run_model(),
            ),
    {
        match self.queue.dequeue() {
            Some(ev) => Some(self.dispatch_single_event(FsmEvent::Event(ev))),
            None => None,
        }
    }

    /// Dispatch the entire event queue and run it to completion: events that the dispatched
    /// events enqueue are dispatched too. Stops when the queue is empty, or after `usize::MAX`
    /// events.
    pub fn dispatch_queue(&mut self) -> (r: FsmResult<()>)
        requires
            old(self).wf(),
        ensures
            final(self).wf(),
            final(self).backend.spec_table() == old(self).backend.spec_table(),
            r is Ok,
            exists|k: nat|
                #![trigger queue_steps::<F, T, Q>(old(self).backend.spec_table(), old(self).run_model(), k)]
                final(self).run_model() == queue_steps::<F, T, Q>(
                    old(self).backend.spec_table(),
                    old(self).run_model(),
                    k,
                ) && (final(self).queue.queued().len() == 0 || k == usize::MAX as nat),
    {
        let ghost table = self.backend.spec_table();
        let ghost s0 = self.run_model();
        let mut k: usize = 0;
        loop
            invariant
                self.wf(),
                self.backend.spec_table() == table,
                table == old(self).backend.spec_table(),
                s0 == old(self).run_model(),
                self.run_model() == queue_steps::<F, T, Q>(table, s0, k as nat),
            ensures
                self.wf(),
                self.backend.spec_table() == table,
                exists|j: nat|
                    #![trigger queue_steps::<F, T, Q>(table, s0, j)]
                    self.run_model() == queue_steps::<F, T, Q>(table, s0, j) && (
                    self.queue.queued().len() == 0 || j == usize::MAX as nat),
            decreases usize::MAX - k,
        {
            if k == usize::MAX {
                assert(self.run_model() == queue_steps::<F, T, Q>(table, s0, k as nat));
                break ;
            }
            match self.dispatch_queued_event() {
                Some(_) => {},
                None => {
                    assert(self.run_model() == queue_steps::<F, T, Q>(table, s0, k as nat));
                    break ;
                },
            }
            k = k + 1;
        }
        Ok(())
    }

    /// Dispatch this event and run it to completion: when the event is taken, the queue is
    /// dispatched as `dispatch_queue` does; otherwise the error is returned and the queue is
    /// left as it is.
    pub fn dispatch(&mut self, event: F::Events) -> (r: FsmResult<()>)
        requires
            old(self).wf(),
        ensures
            final(self).wf(),
            final(self).backend.spec_table() == old(self).backend.spec_table(),
            r == dispatch_and_enqueue::<F, T, Q>(
                old(self).backend.spec_table(),
                old(self).run_model(),
                FsmEvent::Event(event),
            ).1,
            r is Err ==> final(self).run_model() == dispatch_and_enqueue::<F, T, Q>(
                old(self).backend.spec_table(),
                old(self).run_model(),
                FsmEvent::Event(event),
            ).0,
            r is Ok ==> exists|k: nat|
                #![trigger queue_steps::<F, T, Q>(old(self).backend.spec_table(), dispatch_and_enqueue::<F, T, Q>(old(self).backend.spec_table(), old(self).run_model(), FsmEvent::Event(event)).0, k)]
                final(self).run_model() == queue_steps::<F, T, Q>(
                    old(self).backend.spec_table(),
                    dispatch_and_enqueue::<F, T, Q>(
                        old(self).backend.spec_table(),
                        old(self).run_model(),
                        FsmEvent::Event(event),
                    ).0,
                    k,
                ) && (final(self).queue.queued().len() == 0 || k == usize::MAX as nat),
    {
        let ghost table = self.backend.spec_table();
        let ghost pre = self.run_model();
        let ghost ev: FsmEvent<F::Events, usize> = FsmEvent::Event(event);
        let r = self.dispatch_single_event(FsmEvent::Event(event));
        if r.is_err() {
            return r;
        }
        let ghost s1 = self.run_model();
        assert(s1 == dispatch_and_enqueue::<F, T, Q>(table, pre, ev).0);

        let _ = self.dispatch_queue();
        assert(exists|k: nat|
            #![trigger queue_steps::<F, T, Q>(table, s1, k)]
            self.run_model() == queue_steps::<F, T, Q>(table, s1, k) && (
            self.queue.queued().len() == 0 || k == usize::MAX as nat));
        r
    }

    /// Dispatch the event of a timer that fired, if the timer service reports one.
    /// Which timer fired, and the service's state after the poll, are the timer service's
    /// own: the contract holds for whatever it reports.
    pub fn dispatch_timer_event(&mut self) -> (r: Option<FsmResult<()>>)
        requires
            old(self).wf(),
        ensures
            final(self).wf(),
            final(self).backend.spec_table() == old(self).backend.spec_table(),
            r is None ==> final(self).run_model() == with_timers(
                old(self).run_model(),
                final(self).timers.model(),
            ),
            r matches Some(res) ==> timer_step::<F, T, Q>(
                old(self).backend.spec_table(),
                old(self).run_model(),
                final(self).run_model(),
                res,
            ),
    {
        let ghost table = self.backend.spec_table();
        let ghost s0 = self.run_model();
        match self.timers.get_triggered_timer() {
            Some(timer_id) => {
                let ghost tmod = self.timers.model();
                assert(self.run_model() == with_timers(s0, tmod));
                let res = self.dispatch_single_event(FsmEvent::Timer(timer_id));
                assert(timer_dispatch::<F, T, Q>(table, s0, timer_id, tmod, self.run_model(), res));
                Some(res)
            },
            None => {
                assert(self.run_model() == with_timers(s0, self.timers.model()));
                None
            },
        }
    }

    /// Dispatch any pending timer events, then run all the events from the queue until
    /// completion. Stops at the first timer event that fails, returning its error. Stops
    /// polling after `usize::MAX` timer events.
    pub fn dispatch_timer_events(&mut self) -> (r: FsmResult<()>)
        requires
            old(self).wf(),
        ensures
            final(self).wf(),
            final(self).backend.spec_table() == old(self).backend.spec_table(),
            r is Err ==> exists|path: Seq<FsmRunModel<F::Context, F::Events, T::Model>>|
                #[trigger] timer_path::<F, T, Q>(old(self).backend.spec_table(), path) && path[0]
                    == old(self).run_model() && timer_step::<F, T, Q>(
                    old(self).backend.spec_table(),
                    path.last(),
                    final(self).run_model(),
                    r,
                ),
            r is Ok ==> exists|path: Seq<FsmRunModel<F::Context, F::Events, T::Model>>, tmod: T::Model, k: nat|
                #[trigger] timer_path::<F, T, Q>(old(self).backend.spec_table(), path) && path[0]
                    == old(self).run_model() && #[trigger] queue_steps::<F, T, Q>(
                    old(self).backend.spec_table(),
                    with_timers(path.last(), tmod),
                    k,
                ) == final(self).run_model() && (final(self).queue.queued().len() == 0 || k
                    == usize::MAX as nat),
    {
        let ghost table = self.backend.spec_table();
        let ghost s0 = self.run_model();
        let mut k: usize = 0;
        let ghost mut path: Seq<FsmRunModel<F::Context, F::Events, T::Model>> = seq![s0];
        let ghost mut tmod = self.timers.model();
        loop
            invariant_except_break
                self.wf(),
                self.backend.spec_table() == table,
                table == old(self).backend.spec_table(),
                s0 == old(self).run_model(),
                timer_path::<F, T, Q>(table, path),
                path[0] == s0,
                path.last() == self.run_model(),
            ensures
                self.wf(),
                self.backend.spec_table() == table,
                table == old(self).backend.spec_table(),
                s0 == old(self).run_model(),
                timer_path::<F, T, Q>(table, path),
                path[0] == s0,
                self.run_model() == with_timers(path.last(), tmod),
            decreases usize::MAX - k,
        {
            let ghost before = self.run_model();
            if k == usize::MAX {
                proof {
                    tmod = self.timers.model();
                    assert(self.run_model() == with_timers(path.last(), tmod));
                }
                break ;
            }
            let polled = self.dispatch_timer_event();
            assert(polled matches Some(res) ==> timer_step::<F, T, Q>(table, before, self.run_model(), res));
            match polled {
                Some(Err(e)) => {
                    proof {
                        assert(timer_step::<F, T, Q>(table, path.last(), self.run_model(), Err::<(), FsmError>(e)));
                    }
                    return Err(e);
                },
                Some(Ok(u)) => {
                    proof {
                        assert(polled == Some(Ok::<(), FsmError>(u)));
                        assert(timer_step::<F, T, Q>(table, before, self.run_model(), Ok(())));
                        let p2 = path.push(self.run_model());
                        assert forall|i: int| 0 <= i < p2.len() - 1 implies #[trigger] timer_step::<F, T, Q>(
                            table,
                            p2[i],
                            p2[i + 1],
                            Ok(()),
                        ) by {
                            if i < path.len() - 1 {
                                assert(p2[i] == path[i] && p2[i + 1] == path[i + 1]);
                            } else {
                                assert(p2[i] == before && p2[i + 1] == self.run_model());
                            }
                        }
                        path = p2;
                    }
                },
                None => {
                    proof {
                        tmod = self.timers.model();
                    }
                    break ;
                },
            }
            k = k + 1;
        }
        let ghost s1 = self.run_model();
        let r = self.dispatch_queue();
        proof {
            let kk = choose|kk: nat|
                #![trigger queue_steps::<F, T, Q>(table, s1, kk)]
                self.run_model() == queue_steps::<F, T, Q>(table, s1, kk) && (
                self.queue.queued().len() == 0 || kk == usize::MAX as nat);
            assert(queue_steps::<F, T, Q>(table, with_timers(path.last(), tmod), kk) == self.run_model());
        }
        r
    }
}

impl<F: FsmBackend> FsmFrontend<F, FsmEventQueueVec<F::Events>, InspectNull, FsmTimersNull> {
    /// Build a new frontend for the FSM with a `FsmEventQueueVec` queue, no inspection and no
    /// timers.
    pub fn new(table: FsmTable, context: F::Context) -> (r: FsmResult<Self>)
        requires
            table.wf(),
        ensures
            r is Ok,
            r matches Ok(f) ==> {
                &&& f.wf()
                &&& f.backend.spec_table() == table
                &&& f.backend.ctx() == context
                &&& f.backend.current() == Seq::new(
                    table.regions@.len(),
                    |i: int| crate::fsm::states::FsmCurrentState::<usize>::Stopped,
                )
                &&& f.queue.queued() == Seq::<F::Events>::empty()
            },
    {
        Self::new_with(table, context, FsmEventQueueVec::new(), InspectNull::new(), FsmTimersNull)
    }
}

} // verus!
