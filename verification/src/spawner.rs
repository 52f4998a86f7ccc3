//! The task spawner: a bounded FIFO queue of tasks and the decisions a
//! round-robin scheduler takes around each poll.

use crate::queue::{dequeue_spec, valid_capacity, BoundedQueue};
use vstd::prelude::*;

verus! {

/// Errors of the spawner.
#[derive(Clone, Copy, Debug, PartialEq, Eq, Structural)]
pub enum Error {
    /// The task queue had no room for a task.
    TaskQueueFail,
}

/// The outcome of polling a task or a timer once.
#[derive(Clone, Copy, Debug, PartialEq, Eq, Structural)]
pub enum Poll {
    /// The work is complete.
    Ready,
    /// The work is not complete; poll again later.
    Pending,
}

/// A handle to a task (a pinned future, for the code that polls it) that
/// can be handed to a [`Spawner`].
pub struct TaskHandle<T> {
    inner: T,
}

impl<T> TaskHandle<T> {
    /// The task the handle carries.
    pub closed spec fn task(self) -> T {
        self.inner
    }

    /// Creates a new handle carrying `future`.
    pub fn new(future: T) -> (h: Self)
        ensures
            h.task() == future,
    {
        TaskHandle { inner: future }
    }

    /// Gives back the task the handle carries.
    pub fn into_inner(self) -> (t: T)
        ensures
            t == self.task(),
    {
        self.inner
    }
}

/// What spawning `task` makes of the queue `tasks` of a spawner with room
/// for `cap` tasks: the task joins the back, or the spawn fails and the
/// queue is unchanged.
pub open spec fn spawn_spec<T>(tasks: Seq<T>, task: T, cap: nat) -> (Seq<T>, Result<(), Error>) {
    if tasks.len() < cap {
        (tasks.push(task), Ok(()))
    } else {
        (tasks, Err(Error::TaskQueueFail))
    }
}

/// What the spawner does with `task`, just polled with `outcome`: a ready
/// task is done and leaves; a pending one goes back to the back of the
/// queue, and the run fails when there is no room for it.
pub open spec fn complete_poll_spec<T>(tasks: Seq<T>, task: T, outcome: Poll, cap: nat) -> (
    Seq<T>,
    Result<(), Error>,
) {
    match outcome {
        Poll::Ready => (tasks, Ok(())),
        Poll::Pending => spawn_spec(tasks, task, cap),
    }
}

/// One scheduling step on `tasks`, where `outcome` is what polling the
/// task at the front gives: the queue afterwards and the step's result.
/// On an empty queue nothing happens and the step succeeds.
pub open spec fn run_once_spec<T>(tasks: Seq<T>, outcome: Poll, cap: nat) -> (
    Seq<T>,
    Result<(), Error>,
) {
    if tasks.len() == 0 {
        (tasks, Ok(()))
    } else {
        complete_poll_spec(tasks.drop_first(), tasks[0], outcome, cap)
    }
}

/// Scheduling steps one after another from the queue `tasks`, where
/// `outcomes` are what the successive polls give; stops at the first step
/// that fails.
pub open spec fn run_steps<T>(tasks: Seq<T>, outcomes: Seq<Poll>, cap: nat) -> (
    Seq<T>,
    Result<(), Error>,
)
    decreases outcomes.len(),
{
    if outcomes.len() == 0 {
        (tasks, Ok(()))
    } else {
        let (next, r) = run_once_spec(tasks, outcomes[0], cap);
        match r {
            Ok(()) => run_steps(next, outcomes.drop_first(), cap),
            Err(e) => (next, Err(e)),
        }
    }
}

/// Running until done is running one step at a time: the steps for the
/// outcomes `first + second` are the steps for `first`, then, if none of
/// them failed, those for `second` from where `first` left the queue.
pub proof fn lemma_steps_compose<T>(tasks: Seq<T>, first: Seq<Poll>, second: Seq<Poll>, cap: nat)
    ensures
        run_steps(tasks, first + second, cap) == (if run_steps(tasks, first, cap).1 is Ok {
            run_steps(run_steps(tasks, first, cap).0, second, cap)
        } else {
            run_steps(tasks, first, cap)
        }),
    decreases first.len(),
{
    if first.len() == 0 {
        assert(first + second =~= second);
    } else {
        assert((first + second).drop_first() =~= first.drop_first() + second);
        assert((first + second)[0] == first[0]);
        let (next, r) = run_once_spec(tasks, first[0], cap);
        if r is Ok {
            lemma_steps_compose(next, first.drop_first(), second, cap);
        }
    }
}

/// Tasks are polled in the order they were spawned: a spawned task waits
/// behind every task already queued, and spawning leaves untouched which
/// task is polled next. Spawning fails exactly when `cap` tasks wait.
pub proof fn lemma_spawn_order<T>(tasks: Seq<T>, task: T, cap: nat)
    requires
        tasks.len() <= cap,
    ensures
        spawn_spec(tasks, task, cap).1 is Err <==> tasks.len() == cap,
        tasks.len() < cap ==> spawn_spec(tasks, task, cap).0 == tasks.push(task),
        tasks.len() < cap ==> spawn_spec(tasks, task, cap).0.len() <= cap,
        tasks.len() < cap && tasks.len() > 0 ==> spawn_spec(tasks, task, cap).0[0] == tasks[0],
        tasks.len() == 0 && cap > 0 ==> spawn_spec(tasks, task, cap).0[0] == task,
{
}

/// A spawn either queues the task behind all the others or fails and
/// leaves the queue exactly as it was (same tasks, same order); a failed
/// requeue after a poll likewise changes nothing, and settling a ready
/// task never touches the queue. In every case the tasks already queued
/// keep their order at the front.
pub proof fn lemma_failed_spawn_changes_nothing<T>(tasks: Seq<T>, task: T, outcome: Poll, cap: nat)
    ensures
        spawn_spec(tasks, task, cap).1 is Err ==> spawn_spec(tasks, task, cap) == (
            tasks,
            Err::<(), Error>(Error::TaskQueueFail),
        ),
        spawn_spec(tasks, task, cap).1 is Ok ==> spawn_spec(tasks, task, cap).0 == tasks.push(task),
        spawn_spec(tasks, task, cap).0.take(tasks.len() as int) == tasks,
        complete_poll_spec(tasks, task, outcome, cap).1 is Err ==> complete_poll_spec(
            tasks,
            task,
            outcome,
            cap,
        ).0 == tasks,
        outcome == Poll::Ready ==> complete_poll_spec(tasks, task, outcome, cap) == (
            tasks,
            Ok::<(), Error>(()),
        ),
        complete_poll_spec(tasks, task, outcome, cap).0.take(tasks.len() as int) == tasks,
{
    assert(tasks.push(task).take(tasks.len() as int) =~= tasks);
    assert(tasks.take(tasks.len() as int) =~= tasks);
}

/// Round robin: a scheduling step polls the task at the front; a ready
/// task leaves the queue, a pending one goes behind all the others. With
/// nothing spawned in between, a step never fails, since taking the task
/// left room for it; on an empty queue a step does nothing.
pub proof fn lemma_round_robin<T>(tasks: Seq<T>, cap: nat)
    requires
        tasks.len() <= cap,
    ensures
        tasks.len() == 0 ==> run_once_spec(tasks, Poll::Pending, cap) == (tasks, Ok::<(), Error>(())),
        tasks.len() == 0 ==> run_once_spec(tasks, Poll::Ready, cap) == (tasks, Ok::<(), Error>(())),
        tasks.len() > 0 ==> run_once_spec(tasks, Poll::Ready, cap) == (
            tasks.drop_first(),
            Ok::<(), Error>(()),
        ),
        tasks.len() > 0 ==> run_once_spec(tasks, Poll::Pending, cap) == (
            tasks.drop_first().push(tasks[0]),
            Ok::<(), Error>(()),
        ),
{
}

/// A scheduling step is taking the front task and settling it with the
/// outcome of its poll, with nothing spawned in between; on an empty queue
/// there is no task to take.
pub proof fn lemma_step_is_take_then_settle<T>(tasks: Seq<T>, outcome: Poll, cap: nat)
    ensures
        tasks.len() == 0 ==> dequeue_spec(tasks) == (tasks, None::<T>) && run_once_spec(
            tasks,
            outcome,
            cap,
        ) == (tasks, Ok::<(), Error>(())),
        tasks.len() > 0 ==> dequeue_spec(tasks).1 == Some(tasks[0]) && run_once_spec(
            tasks,
            outcome,
            cap,
        ) == complete_poll_spec(dequeue_spec(tasks).0, tasks[0], outcome, cap),
{
}

/// A full round gives every task one turn: when `k` tasks in turn stay
/// pending, the queue has turned by `k`, and after as many steps as there
/// are tasks it is back in its first order.
pub proof fn lemma_pending_round<T>(tasks: Seq<T>, outcomes: Seq<Poll>, cap: nat)
    requires
        tasks.len() <= cap,
        outcomes.len() <= tasks.len(),
        forall|i: int| 0 <= i < outcomes.len() ==> outcomes[i] == Poll::Pending,
    ensures
        run_steps(tasks, outcomes, cap) == (
            tasks.skip(outcomes.len() as int) + tasks.take(outcomes.len() as int),
            Ok::<(), Error>(()),
        ),
        outcomes.len() == tasks.len() ==> run_steps(tasks, outcomes, cap).0 == tasks,
    decreases outcomes.len(),
{
    let k = outcomes.len() as int;
    if k == 0 {
        assert(tasks.skip(0) + tasks.take(0) =~= tasks);
    } else {
        let turned = tasks.drop_first().push(tasks[0]);
        lemma_round_robin(tasks, cap);
        assert(outcomes.drop_first().len() == k - 1);
        assert forall|i: int| 0 <= i < outcomes.drop_first().len() implies outcomes.drop_first()[i]
            == Poll::Pending by {
            assert(outcomes.drop_first()[i] == outcomes[i + 1]);
        }
        lemma_pending_round(turned, outcomes.drop_first(), cap);
        assert(turned.skip(k - 1) + turned.take(k - 1) =~= tasks.skip(k) + tasks.take(k));
    }
    assert(tasks.skip(tasks.len() as int) + tasks.take(tasks.len() as int) =~= tasks);
}

/// Tasks that complete on their poll leave in spawn order: after `k`
/// steps whose polls are all ready, the first `k` tasks are gone and the
/// others wait in the same order; once every task has had its step, the
/// queue is empty and no step failed.
pub proof fn lemma_ready_tasks_drain<T>(tasks: Seq<T>, outcomes: Seq<Poll>, cap: nat)
    requires
        tasks.len() <= cap,
        outcomes.len() <= tasks.len(),
        forall|i: int| 0 <= i < outcomes.len() ==> outcomes[i] == Poll::Ready,
    ensures
        run_steps(tasks, outcomes, cap) == (tasks.skip(outcomes.len() as int), Ok::<(), Error>(())),
        outcomes.len() == tasks.len() ==> run_steps(tasks, outcomes, cap).0.len() == 0,
    decreases outcomes.len(),
{
    let k = outcomes.len() as int;
    if k == 0 {
        assert(tasks.skip(0) =~= tasks);
    } else {
        lemma_round_robin(tasks, cap);
        assert forall|i: int| 0 <= i < outcomes.drop_first().len() implies outcomes.drop_first()[i]
            == Poll::Ready by {
            assert(outcomes.drop_first()[i] == outcomes[i + 1]);
        }
        lemma_ready_tasks_drain(tasks.drop_first(), outcomes.drop_first(), cap);
        assert(tasks.drop_first().skip(k - 1) =~= tasks.skip(k));
    }
}

/// A task spawner for a FIFO, round-robin scheduler, with room for `N`
/// tasks. Its view is the queue of tasks waiting to be polled, front first.
#[verifier::reject_recursive_types(T)]
pub struct Spawner<T, const N: usize> {
    tasks: BoundedQueue<T, N>,
}

impl<T, const N: usize> View for Spawner<T, N> {
    type V = Seq<T>;

    closed spec fn view(&self) -> Seq<T> {
        self.tasks@
    }
}

impl<T, const N: usize> Spawner<T, N> {
    /// A spawner with no task. `N` must be a power of two, at least 2 and
    /// below 255.
    pub fn new() -> (s: Self)
        requires
            valid_capacity(N),
        ensures
            s@ == Seq::<T>::empty(),
    {
        Spawner { tasks: BoundedQueue::new() }
    }

    /// Queues the task of `future` behind those already queued; fails with
    /// [`Error::TaskQueueFail`] when `N` tasks are queued.
    pub fn spawn(&mut self, future: TaskHandle<T>) -> (r: Result<(), Error>)
        ensures
            (final(self)@, r) == spawn_spec(old(self)@, future.task(), N as nat),
            old(self)@.len() <= N,
            final(self)@.len() <= N,
            r is Err <==> old(self)@.len() == N,
            r is Err ==> r == Err::<(), Error>(Error::TaskQueueFail) && final(self)@ == old(self)@,
            r is Ok ==> final(self)@ == old(self)@.push(future.task()),
    {
        match self.tasks.enqueue(future.into_inner()) {
            Ok(()) => Ok(()),
            Err(_) => Err(Error::TaskQueueFail),
        }
    }

    /// Takes the task at the front of the queue, to be polled once; `None`
    /// when no task waits.
    pub fn next_task(&mut self) -> (r: Option<T>)
        ensures
            (final(self)@, r) == dequeue_spec(old(self)@),
            old(self)@.len() <= N,
            final(self)@.len() <= N,
            r is None <==> old(self)@.len() == 0,
            r is None ==> final(self)@ == old(self)@,
            r matches Some(t) ==> t == old(self)@[0] && final(self)@ == old(self)@.drop_first(),
    {
        self.tasks.dequeue()
    }

    /// Settles `task` after it was polled with `outcome`: a ready task is
    /// done; a pending one goes to the back of the queue, and the call
    /// fails with [`Error::TaskQueueFail`] when there is no room for it.
    pub fn complete_poll(&mut self, task: T, outcome: Poll) -> (r: Result<(), Error>)
        ensures
            (final(self)@, r) == complete_poll_spec(old(self)@, task, outcome, N as nat),
            old(self)@.len() <= N,
            final(self)@.len() <= N,
            outcome == Poll::Ready ==> r is Ok && final(self)@ == old(self)@,
            r is Err <==> outcome == Poll::Pending && old(self)@.len() == N,
            r is Err ==> r == Err::<(), Error>(Error::TaskQueueFail) && final(self)@ == old(self)@,
            outcome == Poll::Pending && r is Ok ==> final(self)@ == old(self)@.push(task),
    {
        match outcome {
            Poll::Ready => {
                let _ = self.tasks.capacity();
                Ok(())
            },
            Poll::Pending => match self.tasks.enqueue(task) {
                Ok(()) => Ok(()),
                Err(_) => Err(Error::TaskQueueFail),
            },
        }
    }
}

} // verus!
