//! The worker: sole owner of the pending timers. Each pass takes up the
//! requests that have arrived, fires what is due, and says how long nothing
//! more will be due.
use crate::clock::{clock_reading, nanos_between, NANOS_PER_MILLI};
use crate::event::{event_of, successor, ScheduledEvent, SchedulingRequest};
use crate::firing::{
    after_firing, all_recur_later, fired, fired_in_order, fired_out, follows_due, has_due,
    lemma_due_means_earliest_due, lemma_earliest_deadline, lemma_firing_lowers_slack,
    lemma_successor_follows, taken_up, time_until_next, total_slack, Arrival, Firing,
};
use crate::schedule::{is_earliest, Schedule};
use std::sync::mpsc::Receiver;
use std::sync::{Arc, Condvar};
use vstd::multiset::Multiset;
use vstd::prelude::*;

verus! {

/// The wait of `time_until_next` in whole milliseconds: `None` when nothing is
/// pending, and otherwise the milliseconds that fit into the time left until
/// the earliest deadline.
pub open spec fn millis_until_next(events: Multiset<ScheduledEvent>, now: u64) -> Option<u128> {
    match time_until_next(events, now) {
        None => None,
        Some(wait) => Some(wait / (NANOS_PER_MILLI as u128)),
    }
}

/// `after` is what one pass of the worker makes of `before`: the `arrivals`
/// are taken up, each at its own clock reading, and then what is due at `now`
/// is fired, earliest first, as `trace` tells, until nothing is due.
pub open spec fn is_pass(
    before: Multiset<ScheduledEvent>,
    after: Multiset<ScheduledEvent>,
    arrivals: Seq<Arrival>,
    now: u64,
    trace: Seq<Firing>,
) -> bool {
    &&& fired_in_order(taken_up(before, arrivals), trace, now)
    &&& after == fired(taken_up(before, arrivals), trace)
    &&& fired_out(taken_up(before, arrivals), after, now)
}

/// The worker's state: the queue of pending events, the channel on which
/// requests arrive, the condition variable on which the worker is woken, and
/// the instant its clock counts from.
pub struct ScheduleWorker {
    trigger: Arc<Condvar>,
    request_source: Receiver<SchedulingRequest>,
    schedule: Schedule,
    started: time::SteadyTime,
}

impl View for ScheduleWorker {
    type V = Multiset<ScheduledEvent>;

    /// The pending events.
    closed spec fn view(&self) -> Multiset<ScheduledEvent> {
        self.schedule@
    }
}

impl ScheduleWorker {
    #[verifier::type_invariant]
    spec fn every_timer_moves_on(&self) -> bool {
        all_recur_later(self.schedule@)
    }

    /// A worker with nothing pending, which receives its requests from
    /// `request_source`, is woken through `trigger`, and whose clock starts
    /// now.
    pub fn new(trigger: Arc<Condvar>, request_source: Receiver<SchedulingRequest>) -> (worker:
        ScheduleWorker)
        ensures
            worker@ == Multiset::<ScheduledEvent>::empty(),
            worker.condvar() == trigger,
            worker.source() == request_source,
    {
        ScheduleWorker {
            trigger,
            request_source,
            schedule: Schedule::new(),
            started: time::SteadyTime::now(),
        }
    }

    /// The condition variable the worker was made with.
    pub closed spec fn condvar(&self) -> Arc<Condvar> {
        self.trigger
    }

    /// The receiving end of the request queue the worker was made with.
    pub closed spec fn source(&self) -> Receiver<SchedulingRequest> {
        self.request_source
    }

    /// The condition variable that a new request signals. Whoever runs the
    /// worker waits on it between passes.
    pub fn trigger(&self) -> (trigger: &Arc<Condvar>)
        ensures
            *trigger == self.condvar(),
    {
        &self.trigger
    }

    /// How many events are pending.
    pub fn pending(&self) -> (count: usize)
        ensures
            count == self@.len(),
    {
        self.schedule.len()
    }

    /// Reads the clock: nanoseconds since the worker was made.
    pub fn now(&self) -> (now: u64)
        ensures
            now <= i64::MAX,
    {
        clock_reading(nanos_between(time::SteadyTime::now(), self.started))
    }

    /// Takes one request up at `now`: its event is pending from now on, due
    /// `request.delay()` after `now`.
    pub fn accept(&mut self, request: SchedulingRequest, now: u64)
        ensures
            final(self)@ == old(self)@.insert(event_of(request, now)),
    {
        proof {
            use_type_invariant(&*self);
        }
        let mut schedule = Schedule::new();
        core::mem::swap(&mut self.schedule, &mut schedule);
        schedule.push(request.into_event(now));
        proof {
            broadcast use vstd::multiset::group_multiset_axioms;

            assert forall|event: ScheduledEvent| #[trigger]
                schedule@.contains(event) implies event.period != Some(0u64) by {
                if event != event_of(request, now) {
                    assert(old(self)@.contains(event));
                }
            }
        }
        self.schedule = schedule;
    }

    /// Takes up every request that is waiting on the channel, in the order
    /// they arrive, and returns when none is waiting. The clock is read for
    /// each request when it has been received, and its deadline is counted
    /// from that reading. Which requests arrive is up to the senders.
    pub fn drain_request_queue(&mut self)
        ensures
            exists|arrivals: Seq<Arrival>| #[trigger]
                taken_up(old(self)@, arrivals) == final(self)@,
    {
        let ghost mut arrivals = Seq::<Arrival>::empty();
        loop
            invariant
                self@ == taken_up(old(self)@, arrivals),
            ensures
                self@ == taken_up(old(self)@, arrivals),
            decreases usize::MAX - self@.len(),
        {
            proof {
                self.schedule.lemma_view_of_stored();
            }
            match self.request_source.try_recv() {
                Ok(request) => {
                    let now = self.now();
                    self.accept(request, now);
                    proof {
                        let arrival = Arrival { request, at: now };
                        assert(arrivals.push(arrival).drop_last() =~= arrivals);
                        arrivals = arrivals.push(arrival);
                        self.schedule.lemma_view_of_stored();
                    }
                },
                Err(_) => {
                    break ;
                },
            }
        }
    }

    /// Whether some pending event has reached its deadline at `now`.
    pub fn has_event_now(&self, now: u64) -> (due: bool)
        ensures
            due == has_due(self@, now),
    {
        match self.schedule.peek() {
            Some(event) => {
                proof {
                    lemma_due_means_earliest_due(self@, *event, now);
                }
                event.due(now)
            },
            None => false,
        }
    }

    /// Fires the earliest pending event if it is due at `now`, and says
    /// whether it did. Firing takes the event out of the queue and sends one
    /// notification on its channel. If the receiver is gone the timer ends
    /// there; if not, an event that carries a period is pending again one
    /// period after the deadline just served.
    pub fn fire_event(&mut self, now: u64) -> (fired: bool)
        ensures
            fired == has_due(old(self)@, now),
            !fired ==> final(self)@ == old(self)@,
            fired ==> exists|event: ScheduledEvent, delivered: bool|
                is_earliest(old(self)@, event) && event.is_due(now) && final(self)@
                    == #[trigger] after_firing(old(self)@, event, delivered),
    {
        proof {
            use_type_invariant(&*self);
        }
        if !self.has_event_now(now) {
            return false;
        }
        let mut schedule = Schedule::new();
        core::mem::swap(&mut self.schedule, &mut schedule);
        let fired = match schedule.pop() {
            Some(event) => {
                proof {
                    lemma_due_means_earliest_due(old(self)@, event, now);
                }
                let delivered = event.completion_sink.send(()).is_ok();
                let ghost served = event;
                match event.rescheduled(delivered) {
                    Some(next) => {
                        schedule.push(next);
                    },
                    None => {},
                }
                assert(schedule@ == after_firing(old(self)@, served, delivered));
                true
            },
            None => false,
        };
        proof {
            broadcast use vstd::multiset::group_multiset_axioms;

            assert forall|event: ScheduledEvent| #[trigger]
                schedule@.contains(event) implies event.period != Some(0u64) by {
                if !old(self)@.contains(event) {
                    let (served, delivered) = choose|served: ScheduledEvent, delivered: bool|
                        old(self)@.contains(served) && schedule@ == #[trigger] after_firing(
                            old(self)@,
                            served,
                            delivered,
                        );
                    assert(successor(served, delivered) == Some(event));
                }
            }
        }
        self.schedule = schedule;
        fired
    }

    /// Fires pending events, earliest first, until none is due at `now`. A
    /// periodic timer that is several periods behind fires once for each
    /// period it has missed. This comes to an end because no pending event
    /// has a period of zero.
    pub fn fire_ready(&mut self, now: u64)
        ensures
            fired_out(old(self)@, final(self)@, now),
            exists|trace: Seq<Firing>|
                fired_in_order(old(self)@, trace, now) && final(self)@ == #[trigger] fired(
                    old(self)@,
                    trace,
                ),
    {
        let ghost mut trace = Seq::<Firing>::empty();
        loop
            invariant
                fired_in_order(old(self)@, trace, now),
                self@ == fired(old(self)@, trace),
                self@.len() <= old(self)@.len(),
                forall|event: ScheduledEvent|
                    !event.is_due(now) ==> self@.count(event) >= #[trigger] old(self)@.count(event),
                forall|event: ScheduledEvent| #[trigger]
                    self@.contains(event) ==> old(self)@.contains(event) || follows_due(
                        old(self)@,
                        event,
                        now,
                    ),
            ensures
                fired_out(old(self)@, self@, now),
                fired_in_order(old(self)@, trace, now),
                self@ == fired(old(self)@, trace),
            decreases total_slack(self.schedule.stored(), now),
        {
            let ghost before = self.schedule.stored();
            let ghost pending = self@;
            proof {
                use_type_invariant(&*self);
                self.schedule.lemma_view_of_stored();
            }
            let fired = self.fire_event(now);
            if !fired {
                break ;
            }
            proof {
                broadcast use vstd::multiset::group_multiset_axioms;

                self.schedule.lemma_view_of_stored();
                let (fired_event, delivered) = choose|event: ScheduledEvent, delivered: bool|
                    is_earliest(pending, event) && event.is_due(now) && self@
                        == #[trigger] after_firing(pending, event, delivered);
                lemma_firing_lowers_slack(
                    before,
                    self.schedule.stored(),
                    fired_event,
                    delivered,
                    now,
                );
                assert forall|event: ScheduledEvent| #[trigger] self@.contains(event) implies old(
                    self,
                )@.contains(event) || follows_due(old(self)@, event, now) by {
                    if !pending.contains(event) {
                        lemma_successor_follows(old(self)@, fired_event, now);
                    }
                }
                let firing = Firing { event: fired_event, delivered };
                assert(trace.push(firing).drop_last() =~= trace);
                trace = trace.push(firing);
            }
        }
    }

    /// How long nothing will be due, counted from `now`: `None` when nothing
    /// is pending, zero when the earliest deadline has been reached, and
    /// otherwise the nanoseconds left until it.
    pub fn dur_until_next_event(&self, now: u64) -> (wait: Option<u128>)
        ensures
            wait == time_until_next(self@, now),
            wait matches Some(nanos) ==> exists|event: ScheduledEvent| #[trigger]
                is_earliest(self@, event) && nanos == if event.is_due(now) {
                    0
                } else {
                    event.when - now
                },
    {
        proof {
            self.schedule.lemma_view_of_stored();
        }
        match self.schedule.peek() {
            Some(event) => {
                proof {
                    lemma_earliest_deadline(self@, *event);
                }
                if event.when <= now as u128 {
                    Some(0)
                } else {
                    Some(event.when - now as u128)
                }
            },
            None => None,
        }
    }

    /// The wait of `dur_until_next_event` for a timer that counts in
    /// milliseconds: `None` when nothing is pending, and otherwise the whole
    /// milliseconds of the time left until the earliest deadline.
    pub fn ms_until_next_event(&self, now: u64) -> (wait: Option<u128>)
        ensures
            wait == millis_until_next(self@, now),
    {
        match self.dur_until_next_event(now) {
            Some(nanos) => Some(nanos / (NANOS_PER_MILLI as u128)),
            None => None,
        }
    }

    /// One pass of the worker: takes up the requests that have arrived, each
    /// at the clock reading taken when it was received; then reads the clock
    /// and fires what is due at that reading; then reads the clock again and
    /// returns how long the worker may sleep from then on, `None` meaning
    /// until it is woken. A wait of zero says that something has come due
    /// during the pass.
    pub fn run_once(&mut self) -> (wait: Option<u128>)
        ensures
            wait is None <==> final(self)@.len() == 0,
            exists|arrivals: Seq<Arrival>, now: u64, trace: Seq<Firing>| #[trigger]
                is_pass(old(self)@, final(self)@, arrivals, now, trace),
            exists|later: u64| wait == #[trigger] time_until_next(final(self)@, later),
    {
        self.drain_request_queue();
        let ghost taken = self@;
        let now = self.now();
        self.fire_ready(now);
        proof {
            let arrivals = choose|arrivals: Seq<Arrival>| #[trigger]
                taken_up(old(self)@, arrivals) == taken;
            let trace = choose|trace: Seq<Firing>|
                fired_in_order(taken, trace, now) && self@ == #[trigger] fired(taken, trace);
            assert(is_pass(old(self)@, self@, arrivals, now, trace));
        }
        let later = self.now();
        self.dur_until_next_event(later)
    }
}

} // verus!
