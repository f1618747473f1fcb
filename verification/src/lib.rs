//! Timers delivered over channels: a caller asks to be notified once after a
//! delay, or again and again at a fixed period, and is handed the receiving
//! end of a channel on which each expiry arrives.
//!
//! One worker owns every pending timer. It keeps them in a queue ordered by
//! deadline, moves newly submitted requests into that queue, notifies the
//! timers that have come due, and reports how long it may sleep before the
//! next deadline. The caller runs the worker: it calls
//! [`ScheduleWorker::run_once`] and then waits on the worker's condition
//! variable for the span that call returned.
//!
//! All times are nanoseconds. Clock readings and delays are `u64`; a deadline
//! is the sum of a clock reading and delays, and is kept as `u128` so that it
//! never wraps. The period of a timer that repeats is above zero.
pub mod channel;
pub mod clock;
pub mod event;
pub mod firing;
pub mod schedule;
pub mod scheduler;
pub mod worker;

pub use clock::clock_reading;
pub use event::{ScheduleError, ScheduledEvent, SchedulingRequest};
pub use schedule::Schedule;
pub use scheduler::{
    add_request, oneshot, oneshot_ms, periodic, periodic_after, periodic_ms, submit,
    SchedulingInterface,
};
pub use worker::ScheduleWorker;
