//! The callers' side: each call makes a fresh notification channel, hands the
//! worker a request that holds the sending end, wakes the worker, and returns
//! the receiving end at once. No call waits for the worker.
use crate::clock::NANOS_PER_MILLI;
use crate::event::{ScheduleError, SchedulingRequest};
use std::sync::mpsc::{channel, Receiver, Sender};
use std::sync::{Arc, Condvar};
use vstd::prelude::*;

verus! {

/// The way to a worker: the sending end of its request queue and the
/// condition variable it sleeps on.
pub struct SchedulingInterface {
    trigger: Arc<Condvar>,
    adder: Sender<SchedulingRequest>,
}

/// `ms` milliseconds in nanoseconds.
pub fn millis(ms: u32) -> (nanos: u64)
    ensures
        nanos == ms * 1_000_000,
{
    ms as u64 * NANOS_PER_MILLI
}

/// The request that `add_request` submits: first firing after `delay`
/// nanoseconds, then, if `period` is given, every `period` nanoseconds, each
/// announced on `completion_sink`. A period that is given must be above zero.
pub fn request_for(delay: u64, period: Option<u64>, completion_sink: Sender<()>) -> (request:
    SchedulingRequest)
    requires
        period != Some(0u64),
    ensures
        request.delay() == delay,
        request.period() == period,
        request.sink() == completion_sink,
{
    match period {
        Some(period) => SchedulingRequest::periodic(period, delay, completion_sink),
        None => SchedulingRequest::oneshot(delay, completion_sink),
    }
}

/// The request that `oneshot` submits: one firing, `duration` nanoseconds
/// after the worker takes the request up.
pub fn oneshot_request(duration: u64, completion_sink: Sender<()>) -> (request: SchedulingRequest)
    ensures
        request.delay() == duration,
        request.period() is None,
        request.sink() == completion_sink,
{
    SchedulingRequest::oneshot(duration, completion_sink)
}

/// The request that `periodic` submits: `duration` nanoseconds are both the
/// delay to the first firing and the period of those that follow.
pub fn periodic_request(duration: u64, completion_sink: Sender<()>) -> (request: SchedulingRequest)
    requires
        duration > 0,
    ensures
        request.delay() == duration,
        request.period() == Some(duration),
        request.sink() == completion_sink,
{
    SchedulingRequest::periodic(duration, duration, completion_sink)
}

/// The request that `periodic_after` submits: the first firing `start`
/// nanoseconds after the worker takes the request up, the following ones
/// every `period` nanoseconds.
pub fn periodic_after_request(period: u64, start: u64, completion_sink: Sender<()>) -> (request:
    SchedulingRequest)
    requires
        period > 0,
    ensures
        request.delay() == start,
        request.period() == Some(period),
        request.sink() == completion_sink,
{
    SchedulingRequest::periodic(period, start, completion_sink)
}

/// The request that `oneshot_ms` submits: one firing after `ms` milliseconds.
pub fn oneshot_ms_request(ms: u32, completion_sink: Sender<()>) -> (request: SchedulingRequest)
    ensures
        request.delay() == ms * 1_000_000,
        request.period() is None,
        request.sink() == completion_sink,
{
    oneshot_request(millis(ms), completion_sink)
}

/// The request that `periodic_ms` submits: `ms` milliseconds are both the
/// delay to the first firing and the period of those that follow.
pub fn periodic_ms_request(ms: u32, completion_sink: Sender<()>) -> (request: SchedulingRequest)
    requires
        ms > 0,
    ensures
        request.delay() == ms * 1_000_000,
        request.period() == Some(request.delay()),
        request.sink() == completion_sink,
{
    periodic_request(millis(ms), completion_sink)
}

/// What the caller is told once the request has been offered to the worker's
/// queue: the receiving end of the timer's channel if the queue took the
/// request, and otherwise that the worker is gone.
pub fn submission_result(sent: bool, receiver: Receiver<()>) -> (result: Result<
    Receiver<()>,
    ScheduleError,
>)
    ensures
        sent ==> result == Ok::<Receiver<()>, ScheduleError>(receiver),
        !sent ==> result == Err::<Receiver<()>, ScheduleError>(ScheduleError::WorkerUnavailable),
{
    if sent {
        Ok(receiver)
    } else {
        Err(ScheduleError::WorkerUnavailable)
    }
}

impl SchedulingInterface {
    /// The condition variable that each submission signals.
    pub closed spec fn condvar(&self) -> Arc<Condvar> {
        self.trigger
    }

    /// The sending end of the worker's request queue.
    pub closed spec fn queue(&self) -> Sender<SchedulingRequest> {
        self.adder
    }

    /// The way to the worker that receives from `adder` and sleeps on
    /// `trigger`.
    pub fn new(trigger: Arc<Condvar>, adder: Sender<SchedulingRequest>) -> (interface:
        SchedulingInterface)
        ensures
            interface.condvar() == trigger,
            interface.queue() == adder,
    {
        SchedulingInterface { trigger, adder }
    }
}

/// Puts `request` on the worker's queue and, if the queue took it, wakes the
/// worker once. `receiver` is the receiving end of the request's channel: it
/// is handed back if the queue took the request. The queue refuses only when
/// the worker's end of it is gone, which no caller can foresee.
pub fn submit(interface: &SchedulingInterface, request: SchedulingRequest, receiver: Receiver<()>) -> (result:
    Result<Receiver<()>, ScheduleError>)
    ensures
        result matches Ok(handed_back) ==> handed_back == receiver,
        result is Ok || result matches Err(ScheduleError::WorkerUnavailable),
{
    let sent = interface.adder.send(request).is_ok();
    if sent {
        interface.trigger.notify_one();
    }
    submission_result(sent, receiver)
}

/// Asks the worker for a timer that fires first after `delay` nanoseconds and
/// then, if `period` is given, every `period` nanoseconds; a period that is
/// given must be above zero. The request is the one `request_for` builds,
/// with the sending end of a new channel, whose receiving end is returned.
pub fn add_request(interface: &SchedulingInterface, delay: u64, period: Option<u64>) -> (receiver:
    Result<Receiver<()>, ScheduleError>)
    requires
        period != Some(0u64),
    ensures
        receiver is Ok || receiver matches Err(ScheduleError::WorkerUnavailable),
{
    let (completion_sink, receiver) = channel();
    submit(interface, request_for(delay, period, completion_sink), receiver)
}

/// Starts a timer that sends once, `ms` milliseconds after the worker takes
/// it up. The request is the one `oneshot_ms_request` builds.
pub fn oneshot_ms(interface: &SchedulingInterface, ms: u32) -> (receiver: Result<
    Receiver<()>,
    ScheduleError,
>)
    ensures
        receiver is Ok || receiver matches Err(ScheduleError::WorkerUnavailable),
{
    let (completion_sink, receiver) = channel();
    submit(interface, oneshot_ms_request(ms, completion_sink), receiver)
}

/// Starts a timer that sends every `ms` milliseconds, first `ms` milliseconds
/// after the worker takes it up; `ms` must be above zero. The request is the
/// one `periodic_ms_request` builds.
pub fn periodic_ms(interface: &SchedulingInterface, ms: u32) -> (receiver: Result<
    Receiver<()>,
    ScheduleError,
>)
    requires
        ms > 0,
    ensures
        receiver is Ok || receiver matches Err(ScheduleError::WorkerUnavailable),
{
    let (completion_sink, receiver) = channel();
    submit(interface, periodic_ms_request(ms, completion_sink), receiver)
}

/// Starts a timer that sends once, `duration` nanoseconds after the worker
/// takes it up. The request is the one `oneshot_request` builds.
pub fn oneshot(interface: &SchedulingInterface, duration: u64) -> (receiver: Result<
    Receiver<()>,
    ScheduleError,
>)
    ensures
        receiver is Ok || receiver matches Err(ScheduleError::WorkerUnavailable),
{
    let (completion_sink, receiver) = channel();
    submit(interface, oneshot_request(duration, completion_sink), receiver)
}

/// Starts a timer that sends every `duration` nanoseconds, first `duration`
/// nanoseconds after the worker takes it up; `duration` must be above zero.
/// The request is the one `periodic_request` builds.
pub fn periodic(interface: &SchedulingInterface, duration: u64) -> (receiver: Result<
    Receiver<()>,
    ScheduleError,
>)
    requires
        duration > 0,
    ensures
        receiver is Ok || receiver matches Err(ScheduleError::WorkerUnavailable),
{
    let (completion_sink, receiver) = channel();
    submit(interface, periodic_request(duration, completion_sink), receiver)
}

/// Starts a timer that sends every `period` nanoseconds, first `start`
/// nanoseconds after the worker takes it up; `period` must be above zero.
/// The request is the one `periodic_after_request` builds.
pub fn periodic_after(interface: &SchedulingInterface, period: u64, start: u64) -> (receiver: Result<
    Receiver<()>,
    ScheduleError,
>)
    requires
        period > 0,
    ensures
        receiver is Ok || receiver matches Err(ScheduleError::WorkerUnavailable),
{
    let (completion_sink, receiver) = channel();
    submit(interface, periodic_after_request(period, start, completion_sink), receiver)
}

} // verus!
