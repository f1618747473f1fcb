//! What callers ask for and what the worker keeps: a request names a delay
//! relative to the moment the worker takes it up, an event names a deadline
//! on the worker's clock.
use std::sync::mpsc::Sender;
use vstd::prelude::*;

verus! {

/// Why a timer could not be set up.
#[derive(Clone, Copy, Debug, PartialEq, Eq, Structural)]
pub enum ScheduleError {
    /// The worker's end of the request queue is gone, so the request could
    /// not be handed over.
    WorkerUnavailable,
}

/// A timer as its caller asked for it: the delay to the first firing, the
/// period of a timer that repeats, and where the firings are announced. The
/// period of a request is never zero.
#[derive(Debug)]
pub struct SchedulingRequest {
    delay: u64,
    period: Option<u64>,
    completion_sink: Sender<()>,
}

/// One pending firing of a timer.
#[derive(Debug)]
pub struct ScheduledEvent {
    /// The deadline, in nanoseconds on the worker's clock.
    pub when: u128,
    /// Nanoseconds between firings; `None` for a timer that fires once.
    pub period: Option<u64>,
    /// Where the firing is announced.
    pub completion_sink: Sender<()>,
}

/// The event that a request becomes when the worker takes it up at `now`.
pub open spec fn event_of(request: SchedulingRequest, now: u64) -> ScheduledEvent {
    ScheduledEvent {
        when: (now + request.delay()) as u128,
        period: request.period(),
        completion_sink: request.sink(),
    }
}

/// The event that follows `event` once its firing has been attempted: none
/// after a failed delivery, none for a timer that fires once, and otherwise
/// the same timer one period after the deadline just served.
pub open spec fn successor(event: ScheduledEvent, delivered: bool) -> Option<ScheduledEvent> {
    match event.period {
        Some(period) if delivered => Some(
            ScheduledEvent {
                when: (event.when + period) as u128,
                period: event.period,
                completion_sink: event.completion_sink,
            },
        ),
        _ => None,
    }
}

/// The event behind the `k`-th notification of the timer that starts as
/// `first`, counting from 1, when every earlier notification was delivered.
pub open spec fn nth_firing(first: ScheduledEvent, k: nat) -> ScheduledEvent
    decreases k,
{
    if k <= 1 {
        first
    } else {
        match successor(nth_firing(first, (k - 1) as nat), true) {
            Some(next) => next,
            None => first,
        }
    }
}

impl SchedulingRequest {
    #[verifier::type_invariant]
    spec fn recurs_later(&self) -> bool {
        self.period != Some(0u64)
    }

    /// Nanoseconds from the moment the worker takes the request up to the
    /// first firing.
    pub closed spec fn delay(&self) -> u64 {
        self.delay
    }

    /// Nanoseconds between firings; `None` for a timer that fires once.
    pub closed spec fn period(&self) -> Option<u64> {
        self.period
    }

    /// Where each firing is announced.
    pub closed spec fn sink(&self) -> Sender<()> {
        self.completion_sink
    }

    /// A timer that fires once, `delay` nanoseconds after the worker takes it
    /// up.
    pub fn oneshot(delay: u64, completion_sink: Sender<()>) -> (request: SchedulingRequest)
        ensures
            request.delay() == delay,
            request.period() is None,
            request.sink() == completion_sink,
    {
        SchedulingRequest { delay, period: None, completion_sink }
    }

    /// A timer that fires first after `delay` nanoseconds and then every
    /// `period` nanoseconds. The period must be above zero.
    pub fn periodic(period: u64, delay: u64, completion_sink: Sender<()>) -> (request:
        SchedulingRequest)
        requires
            period > 0,
        ensures
            request.delay() == delay,
            request.period() == Some(period),
            request.sink() == completion_sink,
    {
        SchedulingRequest { delay, period: Some(period), completion_sink }
    }

    /// The delay to the first firing, in nanoseconds.
    pub fn delay_ns(&self) -> (delay: u64)
        ensures
            delay == self.delay(),
    {
        self.delay
    }

    /// The period in nanoseconds, `None` for a timer that fires once. It is
    /// never zero.
    pub fn period_ns(&self) -> (period: Option<u64>)
        ensures
            period == self.period(),
            period != Some(0u64),
    {
        proof {
            use_type_invariant(self);
        }
        self.period
    }

    /// Where each firing is announced.
    pub fn completion_sink(&self) -> (sink: &Sender<()>)
        ensures
            *sink == self.sink(),
    {
        &self.completion_sink
    }

    /// Fixes the deadline: `delay` nanoseconds after `now`. The period of the
    /// event is that of the request, so it is not zero.
    pub fn into_event(self, now: u64) -> (event: ScheduledEvent)
        ensures
            event == event_of(self, now),
            event.when == now + self.delay(),
            event.period != Some(0u64),
    {
        proof {
            use_type_invariant(&self);
        }
        ScheduledEvent {
            when: now as u128 + self.delay as u128,
            period: self.period,
            completion_sink: self.completion_sink,
        }
    }
}

impl ScheduledEvent {
    /// Whether the deadline has been reached at `now`. A deadline that is
    /// exactly `now` has been reached.
    pub open spec fn is_due(self, now: u64) -> bool {
        self.when <= now
    }

    /// Whether the deadline has been reached at `now`.
    pub fn due(&self, now: u64) -> (due: bool)
        ensures
            due == self.is_due(now),
    {
        self.when <= now as u128
    }

    /// What is left of the timer after a firing that was `delivered` or not:
    /// its next event, or nothing. The deadline of the next event is counted
    /// from the deadline just served, not from the time of the firing, and
    /// must fit a `u128`; that of an event which has come due always does.
    pub fn rescheduled(self, delivered: bool) -> (next: Option<ScheduledEvent>)
        requires
            delivered ==> (self.period matches Some(period) ==> self.when + period <= u128::MAX),
        ensures
            next == successor(self, delivered),
    {
        match self.period {
            Some(period) => {
                if delivered {
                    Some(
                        ScheduledEvent {
                            when: self.when + period as u128,
                            period: self.period,
                            completion_sink: self.completion_sink,
                        },
                    )
                } else {
                    None
                }
            },
            None => None,
        }
    }
}

/// A timer that fires once is due exactly from its delay after the moment it
/// was taken up, and nothing follows its firing, delivered or not.
pub proof fn lemma_oneshot_fires_once(request: SchedulingRequest, accepted_at: u64, now: u64, delivered: bool)
    requires
        request.period() is None,
    ensures
        event_of(request, accepted_at).is_due(now) <==> now >= accepted_at + request.delay(),
        successor(event_of(request, accepted_at), delivered) is None,
{
}

/// The deadlines of a periodic timer are spaced by its period exactly: the
/// `k`-th is `k - 1` periods after the first. No deadline depends on when an
/// earlier firing was handled, so lateness does not add up.
pub proof fn lemma_periodic_deadlines(request: SchedulingRequest, accepted_at: u64, k: nat)
    requires
        k >= 1,
        request.period() matches Some(period) && period > 0 && accepted_at + request.delay() + (k
            - 1) * period <= u128::MAX,
    ensures
        nth_firing(event_of(request, accepted_at), k).when == accepted_at + request.delay() + (k
            - 1) * request.period()->0,
        nth_firing(event_of(request, accepted_at), k).period == request.period(),
        nth_firing(event_of(request, accepted_at), k).completion_sink == request.sink(),
    decreases k,
{
    let period = request.period()->0;
    let first = event_of(request, accepted_at);
    if k > 1 {
        let j = (k - 1) as nat;
        assert((j - 1) * period + period == (k - 1) * period && (j - 1) * period <= (k - 1)
            * period) by (nonlinear_arith)
            requires
                j == k - 1,
                k >= 2,
                period > 0,
        ;
        lemma_periodic_deadlines(request, accepted_at, j);
        assert(nth_firing(first, k) == successor(nth_firing(first, j), true)->0);
    } else {
        assert((k - 1) * period == 0) by (nonlinear_arith)
            requires
                k == 1,
        ;
    }
}

/// A timer whose first delay is its period has its `k`-th deadline exactly
/// `k` periods after it was taken up.
pub proof fn lemma_periodic_regularity(request: SchedulingRequest, accepted_at: u64, k: nat)
    requires
        k >= 1,
        request.period() == Some(request.delay()),
        request.delay() > 0,
        accepted_at + k * request.delay() <= u128::MAX,
    ensures
        nth_firing(event_of(request, accepted_at), k).when == accepted_at + k * request.delay(),
{
    let period = request.delay();
    assert(period + (k - 1) * period == k * period) by (nonlinear_arith);
    lemma_periodic_deadlines(request, accepted_at, k);
}

/// Two timers of one period, each with that period as its first delay, keep
/// for every firing the distance at which they were taken up.
pub proof fn lemma_offset_is_kept(
    tick: SchedulingRequest,
    tock: SchedulingRequest,
    tick_at: u64,
    tock_at: u64,
    k: nat,
)
    requires
        k >= 1,
        tick.delay() > 0,
        tick.period() == Some(tick.delay()),
        tock.period() == Some(tick.delay()),
        tock.delay() == tick.delay(),
        tick_at + k * tick.delay() <= u128::MAX,
        tock_at + k * tick.delay() <= u128::MAX,
    ensures
        nth_firing(event_of(tock, tock_at), k).when - nth_firing(event_of(tick, tick_at), k).when
            == tock_at - tick_at,
{
    lemma_periodic_regularity(tick, tick_at, k);
    lemma_periodic_regularity(tock, tock_at, k);
}

} // verus!
