//! A small cooperative task runtime: a bounded FIFO task queue with
//! round-robin scheduling decisions, and the state machines behind `sleep`,
//! `yield_now` and `Interval`.
//!
//! The library decides; the code that owns the futures polls them. A
//! scheduler loop takes a task with [`Spawner::next_task`], polls it, and
//! reports the outcome with [`Spawner::complete_poll`].

pub mod interval;
pub mod queue;
pub mod sleep;
pub mod spawner;
pub mod time;
pub mod yield_now;

pub use crate::queue::BoundedQueue;
pub use crate::spawner::{Error, Poll, Spawner, TaskHandle};
pub use crate::sleep::{sleep, DurationSleep};
pub use crate::time::Duration;
pub use crate::yield_now::{yield_now, YieldNow};
