//! The steady clock the worker reads its deadlines against. Its readings are
//! nanoseconds since the worker was made.
use vstd::prelude::*;

verus! {

/// Nanoseconds in a millisecond.
pub const NANOS_PER_MILLI: u64 = 1_000_000;

/// A point on the steady clock of the `time` crate. Verus sees nothing inside
/// such a value; the library only carries the instant its clock started at.
#[verifier::external_type_specification]
#[verifier::external_body]
pub struct ExSteadyTime(time::SteadyTime);

/// `time::SteadyTime::now` reads the steady clock, which never jumps and
/// never runs backwards. Nothing is claimed of the instant it returns. On a
/// host without such a clock the call panics.
pub assume_specification[ time::SteadyTime::now ]() -> (instant: time::SteadyTime);

/// The whole nanoseconds from `earlier` to `later`: the two instants are
/// subtracted (`Sub` of `time::SteadyTime`) and the difference is counted by
/// `time::Duration::num_nanoseconds`, which gives `None` when the count does
/// not fit an `i64`. Nothing is claimed of the number. The subtraction panics
/// on a difference beyond the range of `time::Duration`, some 292 million
/// years; every instant in this library is a reading of one process's steady
/// clock, and two of those are never that far apart.
#[verifier::external_body]
pub(crate) fn nanos_between(later: time::SteadyTime, earlier: time::SteadyTime) -> (elapsed: Option<i64>) {
    (later - earlier).num_nanoseconds()
}

/// The clock reading that stands for an elapsed span.
pub open spec fn reading_of(elapsed: Option<i64>) -> u64 {
    match elapsed {
        Some(ns) => if ns < 0 { 0 } else { ns as u64 },
        None => i64::MAX as u64,
    }
}

/// Turns the span since the clock started into a clock reading: the span
/// itself, zero where the clock reports a negative span, and the largest span
/// an `i64` holds where it reports none.
pub fn clock_reading(elapsed: Option<i64>) -> (now: u64)
    ensures
        now == reading_of(elapsed),
        now <= i64::MAX,
{
    match elapsed {
        Some(ns) => if ns < 0 { 0 } else { ns as u64 },
        None => i64::MAX as u64,
    }
}

} // verus!
