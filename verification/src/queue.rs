//! A first-in first-out queue that holds at most `N` items, stored in a
//! fixed-size, allocation-free `heapless` MPMC queue.

use heapless::mpmc::MpMcQueue;
use vstd::prelude::*;

verus! {

/// What `enqueue` makes of `items` when `item` is offered to a queue of
/// capacity `cap`: the item joins the back, or it is handed back because
/// the queue is full.
pub open spec fn enqueue_spec<T>(items: Seq<T>, item: T, cap: nat) -> (Seq<T>, Result<(), T>) {
    if items.len() < cap {
        (items.push(item), Ok(()))
    } else {
        (items, Err(item))
    }
}

/// What `dequeue` makes of `items`: the front item leaves, or nothing
/// happens on an empty queue.
pub open spec fn dequeue_spec<T>(items: Seq<T>) -> (Seq<T>, Option<T>) {
    if items.len() == 0 {
        (items, None)
    } else {
        (items.drop_first(), Some(items[0]))
    }
}

/// First in, first out: what is added waits behind what was already
/// queued. Dequeuing after an enqueue gives the same item as dequeuing
/// before it would, and leaves the new item at the back; on an empty
/// queue it gives back the item just added.
pub proof fn lemma_first_in_first_out<T>(items: Seq<T>, item: T, cap: nat)
    requires
        items.len() < cap,
    ensures
        enqueue_spec(items, item, cap) == (items.push(item), Ok::<(), T>(())),
        items.len() == 0 ==> dequeue_spec(items.push(item)) == (Seq::<T>::empty(), Some(item)),
        items.len() > 0 ==> dequeue_spec(items.push(item)) == (
            dequeue_spec(items).0.push(item),
            dequeue_spec(items).1,
        ),
{
    if items.len() > 0 {
        assert(items.push(item).drop_first() =~= items.drop_first().push(item));
    } else {
        assert(items.push(item).drop_first() =~= Seq::<T>::empty());
    }
}

/// A queue never holds more than its capacity, and an enqueue fails
/// exactly when the queue is full; a failed enqueue hands the item back
/// and changes nothing.
pub proof fn lemma_capacity_kept<T>(items: Seq<T>, item: T, cap: nat)
    requires
        items.len() <= cap,
    ensures
        enqueue_spec(items, item, cap).0.len() <= cap,
        dequeue_spec(items).0.len() <= cap,
        enqueue_spec(items, item, cap).1 is Err <==> items.len() == cap,
        enqueue_spec(items, item, cap).1 is Err ==> enqueue_spec(items, item, cap) == (
            items,
            Err::<(), T>(item),
        ),
{
}

/// The queue after offering the items `xs`, one after another.
pub open spec fn enqueue_all<T>(items: Seq<T>, xs: Seq<T>, cap: nat) -> Seq<T>
    decreases xs.len(),
{
    if xs.len() == 0 {
        items
    } else {
        enqueue_all(enqueue_spec(items, xs[0], cap).0, xs.drop_first(), cap)
    }
}

/// `n` dequeues one after another: the queue afterwards and the items
/// they returned, in order.
pub open spec fn dequeue_n<T>(items: Seq<T>, n: nat) -> (Seq<T>, Seq<T>)
    decreases n,
{
    if n == 0 {
        (items, Seq::empty())
    } else {
        let (rest, x) = dequeue_spec(items);
        let (left, taken) = dequeue_n(rest, (n - 1) as nat);
        (
            left,
            match x {
                Some(v) => seq![v] + taken,
                None => taken,
            },
        )
    }
}

/// Items offered while there is room all join the back, in order.
pub proof fn lemma_enqueue_all<T>(items: Seq<T>, xs: Seq<T>, cap: nat)
    requires
        items.len() + xs.len() <= cap,
    ensures
        enqueue_all(items, xs, cap) == items + xs,
    decreases xs.len(),
{
    if xs.len() > 0 {
        lemma_enqueue_all(items.push(xs[0]), xs.drop_first(), cap);
        assert(items.push(xs[0]) + xs.drop_first() =~= items + xs);
    } else {
        assert(items + xs =~= items);
    }
}

/// `n` dequeues return the first `n` items, front first, and leave the
/// rest in order.
pub proof fn lemma_dequeue_n<T>(items: Seq<T>, n: nat)
    requires
        n <= items.len(),
    ensures
        dequeue_n(items, n) == (items.skip(n as int), items.take(n as int)),
    decreases n,
{
    if n == 0 {
        assert(items.skip(0) =~= items);
        assert(items.take(0) =~= Seq::<T>::empty());
    } else {
        lemma_dequeue_n(items.drop_first(), (n - 1) as nat);
        assert(items.drop_first().skip(n - 1) =~= items.skip(n as int));
        assert(seq![items[0]] + items.drop_first().take(n - 1) =~= items.take(n as int));
    }
}

/// First in, first out over any number of items: offering `xs` to an
/// empty queue with room for them and dequeuing as many times gives back
/// exactly `xs`, in order, and leaves the queue empty.
pub proof fn lemma_fifo_round_trip<T>(xs: Seq<T>, cap: nat)
    requires
        xs.len() <= cap,
    ensures
        dequeue_n(enqueue_all(Seq::empty(), xs, cap), xs.len()) == (Seq::<T>::empty(), xs),
{
    lemma_enqueue_all(Seq::empty(), xs, cap);
    assert(Seq::<T>::empty() + xs =~= xs);
    lemma_dequeue_n(xs, xs.len());
    assert(xs.skip(xs.len() as int) =~= Seq::<T>::empty());
    assert(xs.take(xs.len() as int) =~= xs);
}

/// The capacities a queue can be made with: a power of two, at least 2
/// and below 255 (the positions of the underlying queue are bytes).
pub open spec fn valid_capacity(n: usize) -> bool {
    &&& 2 <= n < 255
    &&& n & (n - 1) as usize == 0
}

/// The lock-free bounded queue of `heapless`, carried opaquely.
#[verifier::external_type_specification]
#[verifier::external_body]
#[verifier::reject_recursive_types(T)]
pub struct ExMpMcQueue<T, const N: usize>(MpMcQueue<T, N>);

/// A FIFO queue with room for `N` items, in fixed-size storage. Its view
/// is the sequence of the items it holds, front first.
#[verifier::reject_recursive_types(T)]
pub struct BoundedQueue<T, const N: usize> {
    ring: MpMcQueue<T, N>,
    items: Ghost<Seq<T>>,
}

impl<T, const N: usize> View for BoundedQueue<T, N> {
    type V = Seq<T>;

    closed spec fn view(&self) -> Seq<T> {
        self.items@
    }
}

/// Makes an empty queue with `heapless::mpmc::MpMcQueue::new`. Trusted:
/// the storage it returns holds no item. `new` fails to compile for any
/// other capacity than those of `valid_capacity`.
#[verifier::external_body]
fn ring_new<T, const N: usize>() -> (q: BoundedQueue<T, N>)
    requires
        valid_capacity(N),
    ensures
        q@ == Seq::<T>::empty(),
{
    BoundedQueue { ring: MpMcQueue::new(), items: Ghost(Seq::empty()) }
}

/// Calls `heapless::mpmc::MpMcQueue::enqueue`. Trusted: with `q` owned
/// by the caller, the item joins the back when fewer than `N` items are
/// held, and is handed back otherwise with the contents unchanged.
#[verifier::external_body]
fn ring_enqueue<T, const N: usize>(q: &mut BoundedQueue<T, N>, item: T) -> (r: Result<(), T>)
    ensures
        (final(q)@, r) == enqueue_spec(old(q)@, item, N as nat),
{
    q.ring.enqueue(item)
}

/// Calls `heapless::mpmc::MpMcQueue::dequeue`. Trusted: with `q` owned
/// by the caller, it removes and returns the front item, or returns
/// `None` and changes nothing when the queue is empty.
#[verifier::external_body]
fn ring_dequeue<T, const N: usize>(q: &mut BoundedQueue<T, N>) -> (r: Option<T>)
    ensures
        (final(q)@, r) == dequeue_spec(old(q)@),
{
    q.ring.dequeue()
}

impl<T, const N: usize> BoundedQueue<T, N> {
    #[verifier::type_invariant]
    spec fn within_capacity(self) -> bool {
        self.items@.len() <= N
    }

    /// An empty queue.
    pub fn new() -> (q: Self)
        requires
            valid_capacity(N),
        ensures
            q@ == Seq::<T>::empty(),
    {
        ring_new()
    }

    /// The number of items the queue can hold, never fewer than it holds.
    pub fn capacity(&self) -> (c: usize)
        ensures
            c == N,
            self@.len() <= N,
    {
        proof {
            use_type_invariant(self);
        }
        N
    }

    /// Adds `item` at the back; hands it back in `Err` when the queue is
    /// full. The queue never holds more than `N` items.
    pub fn enqueue(&mut self, item: T) -> (r: Result<(), T>)
        ensures
            (final(self)@, r) == enqueue_spec(old(self)@, item, N as nat),
            old(self)@.len() <= N,
            final(self)@.len() <= N,
            r is Err <==> old(self)@.len() == N,
            r is Err ==> r == Err::<(), T>(item) && final(self)@ == old(self)@,
            r is Ok ==> final(self)@ == old(self)@.push(item),
    {
        proof {
            use_type_invariant(&*self);
        }
        ring_enqueue(self, item)
    }

    /// Removes and returns the item at the front, or `None` when empty.
    /// The queue never holds more than `N` items.
    pub fn dequeue(&mut self) -> (r: Option<T>)
        ensures
            (final(self)@, r) == dequeue_spec(old(self)@),
            old(self)@.len() <= N,
            final(self)@.len() <= N,
            r is None <==> old(self)@.len() == 0,
            r is None ==> final(self)@ == old(self)@,
            r matches Some(x) ==> x == old(self)@[0] && final(self)@ == old(self)@.drop_first(),
    {
        proof {
            use_type_invariant(&*self);
        }
        ring_dequeue(self)
    }
}

} // verus!
