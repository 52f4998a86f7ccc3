//! The state machine of a future that gives control back to the scheduler
//! once before it completes.

use crate::spawner::Poll;
use vstd::prelude::*;

verus! {

/// One poll of a yielding future that has (`yielded`) or has not yet
/// given control back: whether it has afterwards, and the poll's outcome.
pub open spec fn yield_step(yielded: bool) -> (bool, Poll) {
    if yielded {
        (true, Poll::Ready)
    } else {
        (true, Poll::Pending)
    }
}

/// Yielding happens exactly once: a fresh future's first poll is pending
/// and its second is ready, as is every poll after that.
pub proof fn lemma_yields_once()
    ensures
        yield_step(false).1 == Poll::Pending,
        yield_step(yield_step(false).0).1 == Poll::Ready,
        forall|y: bool| yield_step(yield_step(y).0) == (true, Poll::Ready),
{
}

/// The outcomes of `n` polls, one after another, of a yielding future
/// that has (`yielded`) or has not yet given control back.
pub open spec fn yield_polls(yielded: bool, n: nat) -> Seq<Poll>
    decreases n,
{
    if n == 0 {
        Seq::empty()
    } else {
        seq![yield_step(yielded).1] + yield_polls(yield_step(yielded).0, (n - 1) as nat)
    }
}

/// Over any number of polls, a fresh yielding future is pending exactly
/// once, at its first poll, and ready at every later one: control goes
/// back to the scheduler exactly once.
pub proof fn lemma_yield_polls(n: nat)
    requires
        n >= 1,
    ensures
        yield_polls(false, n).len() == n,
        yield_polls(false, n)[0] == Poll::Pending,
        forall|i: int| 1 <= i < n ==> yield_polls(false, n)[i] == Poll::Ready,
{
    lemma_yielded_polls_ready((n - 1) as nat);
    let rest = yield_polls(true, (n - 1) as nat);
    assert forall|i: int| 1 <= i < n implies yield_polls(false, n)[i] == Poll::Ready by {
        assert(yield_polls(false, n)[i] == rest[i - 1]);
    }
}

/// Once a future has yielded, every poll of it is ready.
pub proof fn lemma_yielded_polls_ready(n: nat)
    ensures
        yield_polls(true, n).len() == n,
        forall|i: int| 0 <= i < n ==> yield_polls(true, n)[i] == Poll::Ready,
    decreases n,
{
    if n > 0 {
        lemma_yielded_polls_ready((n - 1) as nat);
        let rest = yield_polls(true, (n - 1) as nat);
        assert forall|i: int| 0 <= i < n implies yield_polls(true, n)[i] == Poll::Ready by {
            if i > 0 {
                assert(yield_polls(true, n)[i] == rest[i - 1]);
            }
        }
    }
}

/// A future that yields once: its first poll is pending, every later one
/// is ready.
#[derive(Debug, Default)]
pub struct YieldNow {
    yielded: bool,
}

impl YieldNow {
    /// Whether the future has already given control back once.
    pub closed spec fn has_yielded(self) -> bool {
        self.yielded
    }

    /// Polls the future: pending the first time, ready afterwards.
    pub fn poll(&mut self) -> (r: Poll)
        ensures
            (final(self).has_yielded(), r) == yield_step(old(self).has_yielded()),
    {
        if self.yielded {
            Poll::Ready
        } else {
            self.yielded = true;
            Poll::Pending
        }
    }
}

/// A future that yields control back to the scheduler once.
pub fn yield_now() -> (y: YieldNow)
    ensures
        !y.has_yielded(),
{
    YieldNow { yielded: false }
}

} // verus!
