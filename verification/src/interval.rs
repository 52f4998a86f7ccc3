//! The state machine of a timer that ticks at a fixed period.

use crate::spawner::Poll;
use crate::time::{max_nanos, Duration};
use vstd::prelude::*;

verus! {

/// One poll of a timer whose next tick is due at `deadline`, at the time
/// `now`: the deadline afterwards and the poll's outcome. A tick that is
/// due completes and the next one is due one `period` later.
pub open spec fn tick_step(deadline: nat, period: nat, now: nat) -> (nat, Poll) {
    if now >= deadline {
        (deadline + period, Poll::Ready)
    } else {
        (deadline, Poll::Pending)
    }
}

/// Polls of a timer at the times `times`, one after another, from the
/// deadline `deadline`: the deadline afterwards and how many ticks
/// completed.
pub open spec fn run_ticks(deadline: nat, period: nat, times: Seq<nat>) -> (nat, nat)
    decreases times.len(),
{
    if times.len() == 0 {
        (deadline, 0)
    } else {
        let (d, r) = tick_step(deadline, period, times[0]);
        let (d2, n) = run_ticks(d, period, times.drop_first());
        (d2, if r == Poll::Ready { n + 1 } else { n })
    }
}

/// A timer made at `now` completes its first tick at once.
pub proof fn lemma_first_tick_at_once(period: nat, now: nat)
    ensures
        tick_step(now, period, now) == (now + period, Poll::Ready),
{
}

/// Missed ticks complete in a burst: when the clock has passed the
/// deadline by a whole period or more, two polls at that time both
/// complete a tick.
pub proof fn lemma_missed_ticks_burst(deadline: nat, period: nat, now: nat)
    requires
        now >= deadline + period,
    ensures
        tick_step(deadline, period, now) == (deadline + period, Poll::Ready),
        tick_step(deadline + period, period, now) == (deadline + 2 * period, Poll::Ready),
{
}

/// Ticks keep to the schedule: after any polls, the next tick is due one
/// period later for each tick that completed, counted from where it was
/// due before.
pub proof fn lemma_ticks_keep_schedule(deadline: nat, period: nat, times: Seq<nat>)
    ensures
        run_ticks(deadline, period, times).0 == deadline + run_ticks(deadline, period, times).1
            * period,
    decreases times.len(),
{
    if times.len() > 0 {
        let (d, r) = tick_step(deadline, period, times[0]);
        lemma_ticks_keep_schedule(d, period, times.drop_first());
        let n = run_ticks(d, period, times.drop_first()).1;
        assert((n + 1) * period == n * period + period) by (nonlinear_arith);
    }
}

/// An interval never ticks faster than its period: when every poll reads
/// the clock at `limit` or earlier, no tick completes if the deadline is
/// after `limit`, and otherwise at most `(limit - deadline) / period + 1`
/// do.
pub proof fn lemma_tick_rate_bound(deadline: nat, period: nat, times: Seq<nat>, limit: nat)
    requires
        period > 0,
        forall|i: int| 0 <= i < times.len() ==> times[i] <= limit,
    ensures
        deadline > limit ==> run_ticks(deadline, period, times).1 == 0,
        deadline <= limit ==> run_ticks(deadline, period, times).1 <= (limit - deadline) / (
        period as int) + 1,
    decreases times.len(),
{
    if times.len() > 0 {
        let rest = times.drop_first();
        assert forall|i: int| 0 <= i < rest.len() implies rest[i] <= limit by {
            assert(rest[i] == times[i + 1]);
        }
        if times[0] >= deadline {
            let next = deadline + period;
            lemma_tick_rate_bound(next, period, rest, limit);
            let x: int = limit - deadline;
            let p: int = period as int;
            assert(x / p >= 0) by (nonlinear_arith)
                requires
                    x >= 0,
                    p > 0,
            ;
            if next <= limit {
                assert((x - p) / p + 1 == x / p) by (nonlinear_arith)
                    requires
                        x >= p,
                        p > 0,
                ;
            }
        } else {
            lemma_tick_rate_bound(deadline, period, rest, limit);
        }
    }
}

/// A tick is never early: a poll completes a tick only when the clock
/// has reached the deadline.
pub proof fn lemma_tick_not_early(deadline: nat, period: nat, now: nat)
    ensures
        tick_step(deadline, period, now).1 == Poll::Ready <==> now >= deadline,
{
}

/// A timer that ticks every `period`, starting at the instant it was made
/// (the first tick completes at once). Ticks that were missed complete in
/// a burst, one per poll, until the timer has caught up. The time source
/// is read by the code that polls it.
#[derive(Debug)]
pub struct Interval {
    next_tick: Duration,
    period: Duration,
}

impl Interval {
    /// The instant at which the next tick is due.
    pub closed spec fn deadline(self) -> nat {
        self.next_tick@
    }

    /// The time between two ticks.
    pub closed spec fn period_length(self) -> nat {
        self.period@
    }

    /// A timer ticking every `period`, made at `now`: its first tick is
    /// due at once.
    pub fn new(period: Duration, now: Duration) -> (i: Self)
        ensures
            i.deadline() == now@,
            i.period_length() == period@,
    {
        Interval { next_tick: now, period }
    }

    /// The instant at which the next tick is due.
    pub fn next_tick(&self) -> (d: Duration)
        ensures
            d@ == self.deadline(),
    {
        self.next_tick
    }

    /// The time between two ticks.
    pub fn period(&self) -> (p: Duration)
        ensures
            p@ == self.period_length(),
    {
        self.period
    }

    /// A future that completes when the next tick is due.
    pub fn tick(&mut self) -> (t: IntervalTick<'_>)
        ensures
            t.timer() == *old(self),
            *final(self) == *final(t.interval),
    {
        IntervalTick { interval: self }
    }

    /// Restarts the timer at `now`, dropping the ticks that were missed:
    /// the next tick is due at once.
    pub fn reset(&mut self, now: Duration)
        ensures
            final(self).deadline() == now@,
            final(self).period_length() == old(self).period_length(),
    {
        self.next_tick = now;
    }
}

/// The future returned by [`Interval::tick`].
pub struct IntervalTick<'a> {
    /// The timer the future ticks, borrowed until the future is dropped.
    pub interval: &'a mut Interval,
}

impl<'a> IntervalTick<'a> {
    /// The timer the future ticks, as it stands now.
    pub open spec fn timer(self) -> Interval {
        *self.interval
    }

    /// Polls the future at the time `now`: ready when the tick is due,
    /// which moves the next tick one period later; pending otherwise.
    pub fn poll(&mut self, now: Duration) -> (r: Poll)
        requires
            now@ >= old(self).timer().deadline() ==> old(self).timer().deadline()
                + old(self).timer().period_length() <= max_nanos(),
        ensures
            *final(final(self).interval) == *final(old(self).interval),
            final(self).timer().period_length() == old(self).timer().period_length(),
            (final(self).timer().deadline(), r) == tick_step(
                old(self).timer().deadline(),
                old(self).timer().period_length(),
                now@,
            ),
    {
        if now.is_at_least(&self.interval.next_tick) {
            match self.interval.next_tick.checked_add(self.interval.period) {
                Some(next) => {
                    self.interval.next_tick = next;
                },
                None => {},
            }
            Poll::Ready
        } else {
            Poll::Pending
        }
    }
}

} // verus!
