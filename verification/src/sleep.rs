//! The state machine of a sleep that lasts at least a given duration,
//! measured from the first time it is polled.

use crate::spawner::Poll;
use crate::time::{saturating_diff, Duration};
use vstd::prelude::*;

verus! {

/// The instant a sleep counts from: the one recorded at its first poll,
/// or `now` for the first poll itself.
pub open spec fn sleep_start(started: Option<nat>, now: nat) -> nat {
    match started {
        Some(s) => s,
        None => now,
    }
}

/// Whether a sleep of `length` that counts from `start` is over at `now`:
/// the time elapsed since `start` (none if the clock reads earlier) is at
/// least `length`.
pub open spec fn sleep_over(start: nat, length: nat, now: nat) -> bool {
    saturating_diff(now, start) >= length
}

/// A sleep is over exactly when its whole length has elapsed since it
/// started; one of zero length is over at once.
pub proof fn lemma_sleep_over_iff(start: nat, length: nat, now: nat)
    ensures
        sleep_over(start, length, now) <==> (length == 0 || now >= start + length),
        sleep_over(start, 0, now),
{
}

/// A sleep that is over stays over: polled again at the same time or
/// later, it is still ready.
pub proof fn lemma_sleep_stays_over(start: nat, length: nat, now: nat, later: nat)
    requires
        sleep_over(start, length, now),
        later >= now,
    ensures
        sleep_over(start, length, later),
{
}

/// The start of a sleep is fixed by its first poll: later polls count
/// from it whatever the clock reads.
pub proof fn lemma_start_fixed_at_first_poll(first: nat, now: nat)
    ensures
        sleep_start(Some(sleep_start(None, first)), now) == first,
{
}

/// The outcomes of polling, one after another at the times `times`, a
/// sleep of `length` that recorded the start `started` (if any).
pub open spec fn sleep_polls(started: Option<nat>, length: nat, times: Seq<nat>) -> Seq<Poll>
    decreases times.len(),
{
    if times.len() == 0 {
        Seq::empty()
    } else {
        let start = sleep_start(started, times[0]);
        let r = if sleep_over(start, length, times[0]) {
            Poll::Ready
        } else {
            Poll::Pending
        };
        seq![r] + sleep_polls(Some(start), length, times.drop_first())
    }
}

/// Over any number of polls, a sleep counts from its first poll: the
/// `i`-th poll of a fresh sleep is ready exactly when at least its length
/// has elapsed between the first poll's reading and the `i`-th's, so it
/// never completes before its length has passed since it started, and it
/// completes at the first poll that reads a time that late.
pub proof fn lemma_sleep_polls(length: nat, times: Seq<nat>)
    requires
        times.len() > 0,
    ensures
        sleep_polls(None, length, times).len() == times.len(),
        forall|i: int|
            0 <= i < times.len() ==> (sleep_polls(None, length, times)[i] == Poll::Ready
                <==> sleep_over(times[0], length, times[i])),
{
    lemma_sleep_polls_from(times[0], length, times.drop_first());
    let rest = sleep_polls(Some(times[0]), length, times.drop_first());
    assert forall|i: int| 0 <= i < times.len() implies (sleep_polls(None, length, times)[i]
        == Poll::Ready <==> sleep_over(times[0], length, times[i])) by {
        if i > 0 {
            assert(sleep_polls(None, length, times)[i] == rest[i - 1]);
            assert(times.drop_first()[i - 1] == times[i]);
        }
    }
}

/// The polls of a sleep that started at `start` are each ready exactly
/// when its length has elapsed since `start` at that poll's time.
pub proof fn lemma_sleep_polls_from(start: nat, length: nat, times: Seq<nat>)
    ensures
        sleep_polls(Some(start), length, times).len() == times.len(),
        forall|i: int|
            0 <= i < times.len() ==> (sleep_polls(Some(start), length, times)[i] == Poll::Ready
                <==> sleep_over(start, length, times[i])),
    decreases times.len(),
{
    if times.len() > 0 {
        lemma_sleep_polls_from(start, length, times.drop_first());
        let rest = sleep_polls(Some(start), length, times.drop_first());
        assert forall|i: int| 0 <= i < times.len() implies (sleep_polls(
            Some(start),
            length,
            times,
        )[i] == Poll::Ready <==> sleep_over(start, length, times[i])) by {
            if i > 0 {
                assert(sleep_polls(Some(start), length, times)[i] == rest[i - 1]);
                assert(times.drop_first()[i - 1] == times[i]);
            }
        }
    }
}

/// A sleep for at least a given duration; the time source is read by the
/// code that polls it, which hands the reading to [`DurationSleep::poll`].
#[derive(Debug)]
pub struct DurationSleep {
    start_time: Option<Duration>,
    duration: Duration,
}

impl DurationSleep {
    /// The instant recorded at the first poll, if there was one.
    pub closed spec fn started(self) -> Option<nat> {
        match self.start_time {
            Some(t) => Some(t@),
            None => None,
        }
    }

    /// How long the sleep lasts at least.
    pub closed spec fn length(self) -> nat {
        self.duration@
    }

    /// A sleep of `duration` that has not been polled yet.
    pub fn new(duration: Duration) -> (s: Self)
        ensures
            s.started() is None,
            s.length() == duration@,
    {
        DurationSleep { start_time: None, duration }
    }

    /// Polls the sleep at the time `current_time`. The first poll records
    /// the time it starts from; the sleep is ready once at least its
    /// duration has elapsed since then (at once for a zero duration).
    pub fn poll(&mut self, current_time: Duration) -> (r: Poll)
        ensures
            final(self).started() == Some(sleep_start(old(self).started(), current_time@)),
            final(self).length() == old(self).length(),
            r == (if sleep_over(
                sleep_start(old(self).started(), current_time@),
                old(self).length(),
                current_time@,
            ) {
                Poll::Ready
            } else {
                Poll::Pending
            }),
    {
        let start_time = match self.start_time {
            Some(time) => time,
            None => {
                self.start_time = Some(current_time);
                current_time
            },
        };
        if self.duration.is_zero() {
            return Poll::Ready;
        }
        let elapsed = current_time.saturating_sub(start_time);
        if elapsed.is_at_least(&self.duration) {
            Poll::Ready
        } else {
            Poll::Pending
        }
    }
}

/// A sleep for at least `duration`, counted from its first poll.
pub fn sleep(duration: Duration) -> (s: DurationSleep)
    ensures
        s.started() is None,
        s.length() == duration@,
{
    DurationSleep::new(duration)
}

} // verus!
