# ato

A small cooperative task runtime, verified with Verus.

`src/` is the verified library:

- `queue`: `BoundedQueue`, a FIFO queue with room for `N` items, stored in
  a fixed-size `heapless::mpmc::MpMcQueue` (no allocation). Its contents
  are modelled by a ghost sequence; the three calls into `heapless`
  (`new`, `enqueue`, `dequeue`) are trusted wrappers whose contracts state
  FIFO order and the capacity bound. `N` must be a power of two, at least
  2 and below 255, as `heapless` demands.
- `spawner`: `Spawner`, the task queue of a round-robin scheduler, with the
  two decisions a scheduler loop takes around each poll (`next_task`,
  `complete_poll`), and the laws of FIFO order and round robin.
- `time`: `Duration`, a span of time with nanosecond precision.
- `sleep`, `yield_now`, `interval`: the state machines of the sleep, yield
  and interval futures; each poll takes the current time as an argument.

`app/` holds the async side: the `Future` impls that read the user's time
source and call the state machines, the executor loop over `Spawner`, and
the channel handles over `BoundedQueue`. It is `no_std` and needs no
allocator; the shared spawner and channel queues sit in `RefCell`s, so
they are shared between tasks of one executor.
