//! A timer service on the standard library's clock. Times are kept as nanoseconds since the
//! service was created.

use vstd::prelude::*;
use core::time::Duration;
use std::time::Instant;
use crate::fsm::FsmResult;
use crate::fsm::timers::{FsmTimers, TimerSettings};

verus! {

/// `std::time::Instant`, declared so that the service can hold one; nothing inside it is
/// seen.
#[verifier::external_type_specification]
#[verifier::external_body]
pub struct ExInstant(std::time::Instant);

/// What `Duration::as_nanos` returns: the whole duration in nanoseconds.
pub uninterp spec fn duration_nanos(d: Duration) -> u128;

/// Calls `Instant::now`. The result is the clock's current time; nothing more is stated.
#[verifier::external_body]
fn instant_now() -> (r: Instant) {
    Instant::now()
}

/// Calls `Instant::elapsed`: the time since `since`, which depends on the clock; nothing is
/// stated of it.
#[verifier::external_body]
fn instant_elapsed(since: &Instant) -> (r: Duration) {
    since.elapsed()
}

/// Calls `Duration::as_nanos`; its result is named `duration_nanos(d)`.
#[verifier::external_body]
fn duration_as_nanos(d: &Duration) -> (r: u128)
    ensures
        r == duration_nanos(*d),
{
    d.as_nanos()
}

/// A started timer; times in nanoseconds since the service was created.
#[derive(Debug, Clone, Copy, PartialEq, Eq, Structural)]
pub enum StdTimer {
    /// Fires once, `duration` after `started_at`.
    Timeout { started_at: u128, duration: u128 },
    /// Fires every `interval` after `started_at`, which moves to each firing.
    Interval { started_at: u128, interval: u128 },
}

/// The time from `started_at` to `now`, or zero when `now` comes first.
pub open spec fn elapsed(now: u128, started_at: u128) -> u128 {
    if now >= started_at {
        (now - started_at) as u128
    } else {
        0
    }
}

pub open spec fn expired(t: StdTimer, now: u128) -> bool {
    match t {
        StdTimer::Timeout { started_at, duration } => elapsed(now, started_at) >= duration,
        StdTimer::Interval { started_at, interval } => elapsed(now, started_at) >= interval,
    }
}

/// The position of the first expired timer, searching from `i` on.
pub open spec fn first_expired(timers: Seq<(usize, StdTimer)>, now: u128, i: int) -> Option<int>
    decreases timers.len() - i,
{
    if i < 0 || i >= timers.len() {
        None
    } else if expired(timers[i].1, now) {
        Some(i)
    } else {
        first_expired(timers, now, i + 1)
    }
}

proof fn lemma_first_expired(timers: Seq<(usize, StdTimer)>, now: u128, i: int)
    ensures
        first_expired(timers, now, i) matches Some(k) ==> i <= k < timers.len() && expired(
            timers[k].1,
            now,
        ),
    decreases timers.len() - i,
{
    if 0 <= i < timers.len() && !expired(timers[i].1, now) {
        lemma_first_expired(timers, now, i + 1);
    }
}

/// How many more times an interval timer has fired, besides the firing it reports now.
pub open spec fn missed_intervals(elapsed: u128, interval: u128) -> u128 {
    if interval == 0 {
        0
    } else {
        (elapsed / interval - 1) as u128
    }
}

/// The timers other than `id`, in order.
pub open spec fn without_timer(timers: Seq<(usize, StdTimer)>, id: usize) -> Seq<(usize, StdTimer)>
    decreases timers.len(),
{
    if timers.len() == 0 {
        Seq::empty()
    } else {
        let rest = without_timer(timers.drop_last(), id);
        if timers.last().0 == id {
            rest
        } else {
            rest.push(timers.last())
        }
    }
}

/// What the machine observes of a timer: its id, whether it repeats, and its period.
pub open spec fn timer_view(e: (usize, StdTimer)) -> (usize, bool, u128) {
    match e.1 {
        StdTimer::Timeout { duration, .. } => (e.0, false, duration),
        StdTimer::Interval { interval, .. } => (e.0, true, interval),
    }
}

/// The observed timers other than `id`, in order.
pub open spec fn without_id(timers: Seq<(usize, bool, u128)>, id: usize) -> Seq<(usize, bool, u128)>
    decreases timers.len(),
{
    if timers.len() == 0 {
        Seq::empty()
    } else {
        let rest = without_id(timers.drop_last(), id);
        if timers.last().0 == id {
            rest
        } else {
            rest.push(timers.last())
        }
    }
}

/// Polling the service at time `now`: a pending repetition of an interval timer is reported
/// first; else the first expired timer in order, a timeout being removed and an interval
/// restarted at `now`, with its missed repetitions pending (at most `usize::MAX`).
pub open spec fn spec_poll(
    timers: Seq<(usize, StdTimer)>,
    pending: Option<(usize, usize)>,
    now: u128,
) -> (Seq<(usize, StdTimer)>, Option<(usize, usize)>, Option<usize>) {
    match pending {
        Some((id, times)) => (timers, if times > 1 { Some((id, (times - 1) as usize)) } else { None }, Some(id)),
        None => match first_expired(timers, now, 0) {
            None => (timers, None, None),
            Some(i) => match timers[i].1 {
                StdTimer::Timeout { .. } => (timers.remove(i), None, Some(timers[i].0)),
                StdTimer::Interval { started_at, interval } => {
                    let times = missed_intervals(elapsed(now, started_at), interval);
                    (
                        timers.update(i, (timers[i].0, StdTimer::Interval { started_at: now, interval })),
                        if times == 0 {
                            None
                        } else if times <= usize::MAX {
                            Some((timers[i].0, times as usize))
                        } else {
                            Some((timers[i].0, usize::MAX))
                        },
                        Some(timers[i].0),
                    )
                },
            },
        },
    }
}

/// The started timers after starting timer `id` at time `now`: any timer with that id is
/// dropped, and the new one comes last, repeating when the settings renew it.
pub open spec fn spec_start_timer(
    timers: Seq<(usize, StdTimer)>,
    id: usize,
    settings: TimerSettings,
    now: u128,
) -> Seq<(usize, StdTimer)> {
    let length = duration_nanos(settings.timeout);
    without_timer(timers, id).push(
        (id, if settings.renew {
            StdTimer::Interval { started_at: now, interval: length }
        } else {
            StdTimer::Timeout { started_at: now, duration: length }
        }),
    )
}

/// Timers on the standard library's clock, kept in a `Vec`.
pub struct TimersStd {
    base: Instant,
    timers: Vec<(usize, StdTimer)>,
    pending_intervals: Option<(usize, usize)>,
    clock: u128,
}

impl TimersStd {
    /// The started timers, in the order they were created.
    pub closed spec fn started(&self) -> Seq<(usize, StdTimer)> {
        self.timers@
    }

    /// The interval timer whose missed repetitions are still to be reported, and how many.
    pub closed spec fn pending(&self) -> Option<(usize, usize)> {
        self.pending_intervals
    }

    /// The latest reading of the clock, in nanoseconds since the service was created; later
    /// readings never go back before it.
    pub closed spec fn clock(&self) -> u128 {
        self.clock
    }

    pub fn new() -> (r: Self)
        ensures
            r.started() == Seq::<(usize, StdTimer)>::empty(),
            r.pending() is None,
            r.clock() == 0,
    {
        TimersStd { base: instant_now(), timers: Vec::new(), pending_intervals: None, clock: 0 }
    }

    /// Reads the clock: the time elapsed since the service was created, kept from going back
    /// before an earlier reading (`Instant` never does).
    fn read_clock(&mut self) -> (now: u128)
        ensures
            now == final(self).clock(),
            final(self).clock() >= old(self).clock(),
            final(self).started() == old(self).started(),
            final(self).pending() == old(self).pending(),
    {
        let e = duration_as_nanos(&instant_elapsed(&self.base));
        if e > self.clock {
            self.clock = e;
        }
        self.clock
    }

    fn remove_timer(&mut self, id: usize)
        ensures
            final(self).started() == without_timer(old(self).started(), id),
            final(self).pending() == old(self).pending(),
            final(self).clock() == old(self).clock(),
            final(self).started().map_values(|e: (usize, StdTimer)| timer_view(e)) == without_id(
                old(self).started().map_values(|e: (usize, StdTimer)| timer_view(e)),
                id,
            ),
    {
        let ghost old_timers = self.timers@;
        let mut kept: Vec<(usize, StdTimer)> = Vec::new();
        let mut i: usize = 0;
        while i < self.timers.len()
            invariant
                i <= self.timers@.len(),
                self.timers@ == old_timers,
                kept@ == without_timer(old_timers.take(i as int), id),
                kept@.map_values(|e: (usize, StdTimer)| timer_view(e)) == without_id(
                    old_timers.take(i as int).map_values(|e: (usize, StdTimer)| timer_view(e)),
                    id,
                ),
            decreases self.timers@.len() - i,
        {
            let e = self.timers[i];
            let ghost kv = kept@.map_values(|e: (usize, StdTimer)| timer_view(e));
            if e.0 != id {
                kept.push(e);
            }
            proof {
                let s = old_timers.take(i + 1);
                assert(s.drop_last() =~= old_timers.take(i as int));
                let sv = s.map_values(|e: (usize, StdTimer)| timer_view(e));
                assert(sv.drop_last() =~= old_timers.take(i as int).map_values(|e: (usize, StdTimer)| timer_view(e)));
                if e.0 != id {
                    assert(kept@.map_values(|e: (usize, StdTimer)| timer_view(e)) =~= kv.push(timer_view(e)));
                }
            }
            i = i + 1;
        }
        proof {
            assert(old_timers.take(i as int) =~= old_timers);
        }
        self.timers = kept;
    }

    /// Starts timer `id` at time `now` (nanoseconds since the service was created), replacing
    /// any started timer with the same id.
    pub fn create_at(&mut self, id: usize, settings: &TimerSettings, now: u128)
        ensures
            final(self).started() == spec_start_timer(old(self).started(), id, *settings, now),
            final(self).pending() == old(self).pending(),
            final(self).clock() == old(self).clock(),
            final(self).model() == without_id(old(self).model(), id).push(
                (id, settings.renew, duration_nanos(settings.timeout)),
            ),
    {
        self.remove_timer(id);
        let length = duration_as_nanos(&settings.timeout);
        let ghost before = self.timers@;
        if settings.renew {
            self.timers.push((id, StdTimer::Interval { started_at: now, interval: length }));
        } else {
            self.timers.push((id, StdTimer::Timeout { started_at: now, duration: length }));
        }
        proof {
            assert(self.timers@.map_values(|e: (usize, StdTimer)| timer_view(e)) =~= before.map_values(
                |e: (usize, StdTimer)| timer_view(e),
            ).push((id, settings.renew, length)));
        }
    }

    /// The first expired timer at time `now`, searching from the start.
    fn find_expired(&self, now: u128) -> (r: Option<usize>)
        ensures
            r matches Some(i) ==> first_expired(self.started(), now, 0) == Some(i as int) && i
                < self.started().len(),
            r is None ==> first_expired(self.started(), now, 0) is None,
    {
        let mut i: usize = 0;
        while i < self.timers.len()
            invariant
                i <= self.timers@.len(),
                first_expired(self.timers@, now, 0) == first_expired(self.timers@, now, i as int),
            decreases self.timers@.len() - i,
        {
            let (_, t) = self.timers[i];
            let is_expired = match t {
                StdTimer::Timeout { started_at, duration } => {
                    let e = if now >= started_at { now - started_at } else { 0 };
                    e >= duration
                },
                StdTimer::Interval { started_at, interval } => {
                    let e = if now >= started_at { now - started_at } else { 0 };
                    e >= interval
                },
            };
            if is_expired {
                return Some(i);
            }
            i = i + 1;
        }
        None
    }

    /// Polls the service at time `now`, as `spec_poll` says.
    pub fn poll_at(&mut self, now: u128) -> (r: Option<usize>)
        ensures
            (final(self).started(), final(self).pending(), r) == spec_poll(
                old(self).started(),
                old(self).pending(),
                now,
            ),
            final(self).clock() == old(self).clock(),
    {
        if let Some((id, times)) = self.pending_intervals {
            if times > 1 {
                self.pending_intervals = Some((id, times - 1));
            } else {
                self.pending_intervals = None;
            }
            return Some(id);
        }
        match self.find_expired(now) {
            None => None,
            Some(i) => {
                let (id, t) = self.timers[i];
                match t {
                    StdTimer::Timeout { .. } => {
                        self.timers.remove(i);
                        Some(id)
                    },
                    StdTimer::Interval { started_at, interval } => {
                        let e = if now >= started_at { now - started_at } else { 0 };
                        proof {
                            lemma_first_expired(self.timers@, now, 0);
                            if interval > 0 {
                                assert(e / interval >= 1) by (nonlinear_arith)
                                    requires
                                        e >= interval,
                                        interval > 0,
                                ;
                            }
                        }
                        let times: u128 = if interval == 0 { 0 } else { e / interval - 1 };
                        if times > 0 {
                            let n: usize = if times <= usize::MAX as u128 { times as usize } else { usize::MAX };
                            self.pending_intervals = Some((id, n));
                        }
                        self.timers.set(i, (id, StdTimer::Interval { started_at: now, interval }));
                        Some(id)
                    },
                }
            },
        }
    }
}

impl FsmTimers for TimersStd {
    /// Each started timer: its id, whether it repeats, and its period in nanoseconds.
    type Model = Seq<(usize, bool, u128)>;

    closed spec fn model(&self) -> Seq<(usize, bool, u128)> {
        self.timers@.map_values(|e: (usize, StdTimer)| timer_view(e))
    }

    /// A timer replaces any started timer with the same id.
    open spec fn spec_create(model: Seq<(usize, bool, u128)>, id: usize, settings: TimerSettings) -> (
        Seq<(usize, bool, u128)>,
        FsmResult<()>,
    ) {
        (without_id(model, id).push((id, settings.renew, duration_nanos(settings.timeout))), Ok(()))
    }

    open spec fn spec_cancel(model: Seq<(usize, bool, u128)>, id: usize) -> (
        Seq<(usize, bool, u128)>,
        FsmResult<()>,
    ) {
        (without_id(model, id), Ok(()))
    }

    /// Starts the timer at the clock's current time, read at the call: no earlier than any
    /// earlier reading, such as that of a poll; see `create_at`.
    fn create(&mut self, id: usize, settings: &TimerSettings) -> (r: FsmResult<()>)
        ensures
            final(self).pending() == old(self).pending(),
            exists|now: u128| final(self).started() == #[trigger] spec_start_timer(old(self).started(), id, *settings, now),
            final(self).clock() >= old(self).clock(),
            final(self).started() == spec_start_timer(old(self).started(), id, *settings, final(self).clock()),
    {
        let now = self.read_clock();
        self.create_at(id, settings, now);
        Ok(())
    }

    /// Drops every started timer `id`.
    fn cancel(&mut self, id: usize) -> (r: FsmResult<()>)
        ensures
            final(self).started() == without_timer(old(self).started(), id),
            final(self).pending() == old(self).pending(),
            final(self).clock() == old(self).clock(),
    {
        self.remove_timer(id);
        Ok(())
    }

    /// Polls the service at the clock's current time, read at the call: no earlier than any
    /// earlier reading; see `poll_at`.
    fn get_triggered_timer(&mut self) -> (r: Option<usize>)
        ensures
            exists|now: u128|
                (final(self).started(), final(self).pending(), r) == #[trigger] spec_poll(
                    old(self).started(),
                    old(self).pending(),
                    now,
                ),
            final(self).clock() >= old(self).clock(),
            (final(self).started(), final(self).pending(), r) == spec_poll(
                old(self).started(),
                old(self).pending(),
                final(self).clock(),
            ),
    {
        let now = self.read_clock();
        self.poll_at(now)
    }
}

proof fn lemma_without_id_twice(timers: Seq<(usize, bool, u128)>, id: usize)
    ensures
        without_id(without_id(timers, id), id) == without_id(timers, id),
    decreases timers.len(),
{
    if timers.len() > 0 {
        lemma_without_id_twice(timers.drop_last(), id);
        let rest = without_id(timers.drop_last(), id);
        if timers.last().0 != id {
            assert(rest.push(timers.last()).drop_last() =~= rest);
        }
    }
}

/// Law: cancelling a timer right after creating it leaves the service as cancelling it alone
/// would: no timer with that id, the others in their order.
pub proof fn lemma_cancel_undoes_create(
    model: Seq<(usize, bool, u128)>,
    id: usize,
    settings: TimerSettings,
)
    ensures
        <TimersStd as FsmTimers>::spec_cancel(
            <TimersStd as FsmTimers>::spec_create(model, id, settings).0,
            id,
        ).0 == <TimersStd as FsmTimers>::spec_cancel(model, id).0,
{
    let created = without_id(model, id).push((id, settings.renew, duration_nanos(settings.timeout)));
    assert(created.drop_last() =~= without_id(model, id));
    lemma_without_id_twice(model, id);
}

proof fn lemma_without_timer_twice(timers: Seq<(usize, StdTimer)>, id: usize)
    ensures
        without_timer(without_timer(timers, id), id) == without_timer(timers, id),
    decreases timers.len(),
{
    if timers.len() > 0 {
        lemma_without_timer_twice(timers.drop_last(), id);
        let rest = without_timer(timers.drop_last(), id);
        if timers.last().0 != id {
            assert(rest.push(timers.last()).drop_last() =~= rest);
        }
    }
}

/// Law: on the started timers themselves, start times included, cancelling timer `id` right
/// after (re)starting it at any time leaves the timers that cancelling it alone would: every
/// other timer, in its order, with its start time.
pub proof fn lemma_cancel_undoes_start(
    timers: Seq<(usize, StdTimer)>,
    id: usize,
    settings: TimerSettings,
    now: u128,
)
    ensures
        without_timer(spec_start_timer(timers, id, settings, now), id) == without_timer(timers, id),
{
    let started = spec_start_timer(timers, id, settings, now);
    assert(started.drop_last() =~= without_timer(timers, id));
    lemma_without_timer_twice(timers, id);
}

/// Searching from `i`, where only the last timer may be expired, finds it or nothing.
proof fn lemma_first_expired_last(timers: Seq<(usize, StdTimer)>, now: u128, i: int)
    requires
        0 <= i < timers.len(),
        forall|k: int| i <= k < timers.len() - 1 ==> !expired(#[trigger] timers[k].1, now),
    ensures
        first_expired(timers, now, i) == if expired(timers.last().1, now) {
            Some(timers.len() - 1)
        } else {
            None::<int>
        },
    decreases timers.len() - i,
{
    assert(timers.last() == timers[timers.len() - 1]);
    if i < timers.len() - 1 {
        assert(!expired(timers[i].1, now));
        lemma_first_expired_last(timers, now, i + 1);
    }
}

/// Dropping timers keeps none that is expired.
proof fn lemma_without_timer_quiet(timers: Seq<(usize, StdTimer)>, id: usize, now: u128)
    requires
        forall|k: int| 0 <= k < timers.len() ==> !expired(#[trigger] timers[k].1, now),
    ensures
        forall|k: int|
            0 <= k < without_timer(timers, id).len() ==> !expired(
                #[trigger] without_timer(timers, id)[k].1,
                now,
            ),
    decreases timers.len(),
{
    if timers.len() > 0 {
        let rest = timers.drop_last();
        assert forall|k: int| 0 <= k < rest.len() implies !expired(#[trigger] rest[k].1, now) by {
            assert(rest[k] == timers[k]);
        }
        lemma_without_timer_quiet(rest, id, now);
        let kept = without_timer(rest, id);
        assert(!expired(timers.last().1, now));
        if timers.last().0 != id {
            let w = kept.push(timers.last());
            assert(without_timer(timers, id) == w);
            assert forall|k: int| 0 <= k < w.len() implies !expired(#[trigger] w[k].1, now) by {
                if k < kept.len() {
                    assert(w[k] == kept[k]);
                }
            }
        } else {
            assert(without_timer(timers, id) == kept);
        }
    }
}

/// Law: a timer started at time `now` is reported by a poll at time `t` exactly when its
/// timeout has passed between `now` and `t` (the time from `now` to `t` being zero when `t`
/// comes first), where no other started timer is due at `t`
/// and no repetition is pending; until then a poll reports nothing and changes nothing.
pub proof fn lemma_started_timer_fires_after_its_timeout(
    timers: Seq<(usize, StdTimer)>,
    id: usize,
    settings: TimerSettings,
    now: u128,
    t: u128,
)
    requires
        forall|k: int| 0 <= k < timers.len() ==> !expired(#[trigger] timers[k].1, t),
    ensures
        spec_poll(spec_start_timer(timers, id, settings, now), None, t).2 == if elapsed(t, now)
            >= duration_nanos(settings.timeout) {
            Some(id)
        } else {
            None::<usize>
        },
        elapsed(t, now) < duration_nanos(settings.timeout) ==> spec_poll(
            spec_start_timer(timers, id, settings, now),
            None,
            t,
        ) == (spec_start_timer(timers, id, settings, now), None::<(usize, usize)>, None::<usize>),
{
    let started = spec_start_timer(timers, id, settings, now);
    let rest = without_timer(timers, id);
    lemma_without_timer_quiet(timers, id, t);
    assert(started.drop_last() =~= rest);
    assert forall|k: int| 0 <= k < started.len() - 1 implies !expired(#[trigger] started[k].1, t) by {
        assert(started[k] == rest[k]);
    }
    lemma_first_expired_last(started, t, 0);
    assert(started.last().0 == id);
}

} // verus!
