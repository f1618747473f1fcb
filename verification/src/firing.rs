//! What the worker's steps do to the set of pending events, stated over the
//! multiset that the queue holds, and why firing what is due comes to an end.
use crate::event::{event_of, nth_firing, successor, ScheduledEvent, SchedulingRequest};
use crate::schedule::is_earliest;
use vstd::multiset::Multiset;
use vstd::prelude::*;
use vstd::seq_lib::group_to_multiset_ensures;

verus! {

/// Some pending event has reached its deadline at `now`.
pub open spec fn has_due(events: Multiset<ScheduledEvent>, now: u64) -> bool {
    exists|event: ScheduledEvent| #[trigger] events.contains(event) && event.is_due(now)
}

/// The deadline that comes first among `events`, which must not be empty.
pub open spec fn earliest_deadline(events: Multiset<ScheduledEvent>) -> u128 {
    (choose|event: ScheduledEvent| is_earliest(events, event)).when
}

/// How long the worker may sleep at `now`: forever (`None`) when nothing is
/// pending, not at all when the earliest deadline has been reached, and
/// otherwise until that deadline.
pub open spec fn time_until_next(events: Multiset<ScheduledEvent>, now: u64) -> Option<u128> {
    if events.len() == 0 {
        None
    } else if earliest_deadline(events) <= now {
        Some(0u128)
    } else {
        Some((earliest_deadline(events) - now) as u128)
    }
}

/// A request that the worker received, and the clock reading at which it
/// took the request up.
pub struct Arrival {
    /// The request.
    pub request: SchedulingRequest,
    /// The reading the deadline is counted from.
    pub at: u64,
}

/// The pending events after the arrivals were taken up, one after the other,
/// each at its own clock reading.
pub open spec fn taken_up(events: Multiset<ScheduledEvent>, arrivals: Seq<Arrival>) -> Multiset<
    ScheduledEvent,
>
    decreases arrivals.len(),
{
    if arrivals.len() == 0 {
        events
    } else {
        taken_up(events, arrivals.drop_last()).insert(
            event_of(arrivals.last().request, arrivals.last().at),
        )
    }
}

/// No event of `events` has a period of zero, so each firing moves a timer
/// on.
pub open spec fn all_recur_later(events: Multiset<ScheduledEvent>) -> bool {
    forall|event: ScheduledEvent| #[trigger] events.contains(event) ==> event.period != Some(0u64)
}

/// The pending events after `event` was taken out and its firing was
/// `delivered` or not: the event is gone, and its successor, where it has
/// one, is pending in its place.
pub open spec fn after_firing(
    events: Multiset<ScheduledEvent>,
    event: ScheduledEvent,
    delivered: bool,
) -> Multiset<ScheduledEvent> {
    match successor(event, delivered) {
        Some(next) => events.remove(event).insert(next),
        None => events.remove(event),
    }
}

/// One firing: the event that was taken out of the queue, and whether its
/// notification was delivered.
pub struct Firing {
    /// The event that fired.
    pub event: ScheduledEvent,
    /// Whether the receiver was still there to take the notification.
    pub delivered: bool,
}

/// The pending events after the firings of `trace`, one after the other.
pub open spec fn fired(before: Multiset<ScheduledEvent>, trace: Seq<Firing>) -> Multiset<
    ScheduledEvent,
>
    decreases trace.len(),
{
    if trace.len() == 0 {
        before
    } else {
        after_firing(fired(before, trace.drop_last()), trace.last().event, trace.last().delivered)
    }
}

/// Each firing of `trace` took an event that was due at `now` and that was
/// the earliest pending at its turn.
pub open spec fn fired_in_order(before: Multiset<ScheduledEvent>, trace: Seq<Firing>, now: u64) -> bool
    decreases trace.len(),
{
    trace.len() == 0 || {
        &&& fired_in_order(before, trace.drop_last(), now)
        &&& is_earliest(fired(before, trace.drop_last()), trace.last().event)
        &&& trace.last().event.is_due(now)
    }
}

/// How many firings of `trace` took `event`.
pub open spec fn times_fired(trace: Seq<Firing>, event: ScheduledEvent) -> nat
    decreases trace.len(),
{
    if trace.len() == 0 {
        0
    } else if trace.last().event == event {
        times_fired(trace.drop_last(), event) + 1
    } else {
        times_fired(trace.drop_last(), event)
    }
}

/// `event` is the `k`-th firing of `first`, a timer of `events`, and the
/// firing before it was due at `now`.
pub open spec fn is_later_firing(
    events: Multiset<ScheduledEvent>,
    first: ScheduledEvent,
    k: nat,
    event: ScheduledEvent,
    now: u64,
) -> bool {
    &&& events.contains(first)
    &&& k >= 2
    &&& event == nth_firing(first, k)
    &&& nth_firing(first, (k - 1) as nat).is_due(now)
}

/// `event` is what a timer of `events` became by firing while due at `now`:
/// a later firing of one of `events`, reached by delivered firings only.
pub open spec fn follows_due(events: Multiset<ScheduledEvent>, event: ScheduledEvent, now: u64) -> bool {
    exists|first: ScheduledEvent, k: nat| #[trigger] is_later_firing(events, first, k, event, now)
}

/// `after` is what firing leaves of `before` once nothing is due at `now`:
/// nothing in it is due; what was not due is all still there; nothing was
/// added but in the place of an event that fired; and whatever is new is a
/// later firing of a timer that was due.
pub open spec fn fired_out(
    before: Multiset<ScheduledEvent>,
    after: Multiset<ScheduledEvent>,
    now: u64,
) -> bool {
    &&& !has_due(after, now)
    &&& after.len() <= before.len()
    &&& forall|event: ScheduledEvent|
        !event.is_due(now) ==> after.count(event) >= #[trigger] before.count(event)
    &&& forall|event: ScheduledEvent| #[trigger]
        after.contains(event) ==> before.contains(event) || follows_due(before, event, now)
}

/// Taking requests up loses nothing and adds one event for each request.
pub proof fn lemma_taken_up_adds_each(events: Multiset<ScheduledEvent>, arrivals: Seq<Arrival>)
    ensures
        taken_up(events, arrivals).len() == events.len() + arrivals.len(),
        forall|event: ScheduledEvent|
            events.count(event) <= #[trigger] taken_up(events, arrivals).count(event),
        forall|i: int|
            0 <= i < arrivals.len() ==> taken_up(events, arrivals).contains(
                #[trigger] event_of(arrivals[i].request, arrivals[i].at),
            ),
    decreases arrivals.len(),
{
    broadcast use vstd::multiset::group_multiset_axioms;

    if arrivals.len() > 0 {
        lemma_taken_up_adds_each(events, arrivals.drop_last());
        assert forall|i: int| 0 <= i < arrivals.len() implies taken_up(events, arrivals).contains(
            #[trigger] event_of(arrivals[i].request, arrivals[i].at),
        ) by {
            if i < arrivals.len() - 1 {
                assert(arrivals.drop_last()[i] == arrivals[i]);
            }
        }
    }
}

/// Where anything is pending, one of the pending events is earliest.
pub proof fn lemma_earliest_exists(events: Multiset<ScheduledEvent>)
    requires
        events.len() > 0,
    ensures
        exists|event: ScheduledEvent| is_earliest(events, event),
    decreases events.len(),
{
    broadcast use vstd::multiset::group_multiset_axioms;

    let one = events.choose();
    let rest = events.remove(one);
    if rest.len() == 0 {
        assert forall|other: ScheduledEvent| #[trigger] events.contains(other) implies one.when
            <= other.when by {
            if other != one {
                assert(rest.contains(other));
            }
        }
        assert(is_earliest(events, one));
    } else {
        lemma_earliest_exists(rest);
        let first_of_rest = choose|event: ScheduledEvent| is_earliest(rest, event);
        let first = if one.when <= first_of_rest.when {
            one
        } else {
            first_of_rest
        };
        assert forall|other: ScheduledEvent| #[trigger] events.contains(other) implies first.when
            <= other.when by {
            if other != one {
                assert(rest.contains(other));
            }
        }
        assert(is_earliest(events, first));
    }
}

/// All earliest events of a multiset share one deadline.
pub proof fn lemma_earliest_deadline(events: Multiset<ScheduledEvent>, event: ScheduledEvent)
    requires
        is_earliest(events, event),
    ensures
        earliest_deadline(events) == event.when,
{
    let chosen = choose|e: ScheduledEvent| is_earliest(events, e);
    assert(event.when <= chosen.when && chosen.when <= event.when);
}

/// Something is due exactly when the earliest event is.
pub proof fn lemma_due_means_earliest_due(events: Multiset<ScheduledEvent>, event: ScheduledEvent, now: u64)
    requires
        is_earliest(events, event),
    ensures
        has_due(events, now) <==> event.is_due(now),
{
    if has_due(events, now) {
        let due = choose|e: ScheduledEvent| #[trigger] events.contains(e) && e.is_due(now);
        assert(event.when <= due.when);
    }
}

/// The wait is zero exactly when something is due, and there is no end to it
/// exactly when nothing is pending.
pub proof fn lemma_wait_is_zero_when_due(events: Multiset<ScheduledEvent>, now: u64)
    ensures
        time_until_next(events, now) == Some(0u128) <==> has_due(events, now),
        time_until_next(events, now) is None <==> events.len() == 0,
{
    broadcast use vstd::multiset::group_multiset_axioms;

    if events.len() > 0 {
        lemma_earliest_exists(events);
        let first = choose|event: ScheduledEvent| is_earliest(events, event);
        lemma_earliest_deadline(events, first);
        lemma_due_means_earliest_due(events, first, now);
    } else if has_due(events, now) {
        let due = choose|event: ScheduledEvent| #[trigger]
            events.contains(event) && event.is_due(now);
        assert(events.count(due) > 0);
    }
}

/// After a failed delivery the event is gone and nothing is pending in its
/// place, periodic or not: the queue is one event shorter, and every other
/// event is pending as before.
pub proof fn lemma_abandoned_timer_is_evicted(events: Multiset<ScheduledEvent>, event: ScheduledEvent)
    requires
        events.contains(event),
    ensures
        after_firing(events, event, false) == events.remove(event),
        after_firing(events, event, false).len() == events.len() - 1,
        after_firing(events, event, false).count(event) == events.count(event) - 1,
        forall|other: ScheduledEvent|
            other != event ==> #[trigger] after_firing(events, event, false).count(other)
                == events.count(other),
{
    broadcast use vstd::multiset::group_multiset_axioms;

}

/// The successor of an event that fired while due is a later firing of the
/// timer the event belongs to.
pub proof fn lemma_successor_follows(origin: Multiset<ScheduledEvent>, event: ScheduledEvent, now: u64)
    requires
        origin.contains(event) || follows_due(origin, event, now),
        event.is_due(now),
        successor(event, true) is Some,
    ensures
        follows_due(origin, successor(event, true)->0, now),
{
    let next = successor(event, true)->0;
    if origin.contains(event) {
        reveal_with_fuel(nth_firing, 3);
        assert(is_later_firing(origin, event, 2, next, now));
    } else {
        let (first, k) = choose|first: ScheduledEvent, k: nat| #[trigger]
            is_later_firing(origin, first, k, event, now);
        assert(is_later_firing(origin, first, k + 1, next, now));
    }
}

/// An event without period is fired as often as it leaves the queue, and no
/// firing puts it back: what was pending of it is either still pending or
/// was fired, once each.
pub proof fn lemma_oneshot_fired_once_each(
    before: Multiset<ScheduledEvent>,
    trace: Seq<Firing>,
    now: u64,
    event: ScheduledEvent,
)
    requires
        event.period is None,
        fired_in_order(before, trace, now),
    ensures
        times_fired(trace, event) + fired(before, trace).count(event) == before.count(event),
        !event.is_due(now) ==> times_fired(trace, event) == 0,
    decreases trace.len(),
{
    broadcast use vstd::multiset::group_multiset_axioms;

    if trace.len() > 0 {
        lemma_oneshot_fired_once_each(before, trace.drop_last(), now, event);
    }
}

/// Firing until nothing is due fires every pending event without period
/// that is due exactly once, and none that is not due.
pub proof fn lemma_oneshot_fires_exactly_once(
    before: Multiset<ScheduledEvent>,
    trace: Seq<Firing>,
    now: u64,
    event: ScheduledEvent,
)
    requires
        event.period is None,
        fired_in_order(before, trace, now),
        !has_due(fired(before, trace), now),
    ensures
        event.is_due(now) ==> times_fired(trace, event) == before.count(event),
        !event.is_due(now) ==> times_fired(trace, event) == 0 && fired(before, trace).count(event)
            == before.count(event),
{
    broadcast use vstd::multiset::group_multiset_axioms;

    lemma_oneshot_fired_once_each(before, trace, now, event);
    if event.is_due(now) && fired(before, trace).count(event) > 0 {
        assert(fired(before, trace).contains(event));
    }
}

/// After a firing nothing pending is earlier than the event that fired.
proof fn lemma_nothing_earlier_is_left(before: Multiset<ScheduledEvent>, trace: Seq<Firing>, now: u64)
    requires
        fired_in_order(before, trace, now),
        trace.len() > 0,
    ensures
        forall|event: ScheduledEvent| #[trigger]
            fired(before, trace).contains(event) ==> trace.last().event.when <= event.when,
{
    broadcast use vstd::multiset::group_multiset_axioms;

    let state = fired(before, trace.drop_last());
    let last = trace.last();
    assert forall|event: ScheduledEvent| #[trigger]
        fired(before, trace).contains(event) implies last.event.when <= event.when by {
        if !state.contains(event) {
            assert(successor(last.event, last.delivered) == Some(event));
        }
    }
}

/// Notifications go out in the order of their deadlines: of two firings of
/// one run, the earlier one served a deadline that is no later.
pub proof fn lemma_fired_in_deadline_order(
    before: Multiset<ScheduledEvent>,
    trace: Seq<Firing>,
    now: u64,
    i: int,
    j: int,
)
    requires
        fired_in_order(before, trace, now),
        0 <= i <= j < trace.len(),
    ensures
        trace[i].event.when <= trace[j].event.when,
    decreases trace.len(),
{
    let earlier = trace.drop_last();
    if j < trace.len() - 1 {
        lemma_fired_in_deadline_order(before, earlier, now, i, j);
    } else if i < j {
        lemma_fired_in_deadline_order(before, earlier, now, i, j - 1);
        lemma_nothing_earlier_is_left(before, earlier, now);
    }
}

/// An upper bound on the firings that `event` still has before it at `now`:
/// nothing while it is not due, and otherwise one for each nanosecond from its
/// deadline to `now`, since each firing moves the deadline on by at least one
/// where the period is not zero.
pub open spec fn slack(event: ScheduledEvent, now: u64) -> nat {
    if event.when <= now {
        (now - event.when + 1) as nat
    } else {
        0
    }
}

/// The slack of all the items together.
pub open spec fn total_slack(items: Seq<ScheduledEvent>, now: u64) -> nat
    decreases items.len(),
{
    if items.len() == 0 {
        0
    } else {
        total_slack(items.drop_last(), now) + slack(items.last(), now)
    }
}

proof fn lemma_slack_push(items: Seq<ScheduledEvent>, event: ScheduledEvent, now: u64)
    ensures
        total_slack(items.push(event), now) == total_slack(items, now) + slack(event, now),
{
    assert(items.push(event).drop_last() =~= items);
}

proof fn lemma_slack_remove(items: Seq<ScheduledEvent>, i: int, now: u64)
    requires
        0 <= i < items.len(),
    ensures
        total_slack(items.remove(i), now) + slack(items[i], now) == total_slack(items, now),
    decreases items.len(),
{
    if i == items.len() - 1 {
    } else {
        lemma_slack_remove(items.drop_last(), i, now);
        assert(items.remove(i) =~= items.drop_last().remove(i).push(items.last()));
        lemma_slack_push(items.drop_last().remove(i), items.last(), now);
    }
}

/// The total slack depends on what the sequence holds, not on the order.
proof fn lemma_slack_of_same_items(a: Seq<ScheduledEvent>, b: Seq<ScheduledEvent>, now: u64)
    requires
        a.to_multiset() == b.to_multiset(),
    ensures
        total_slack(a, now) == total_slack(b, now),
    decreases a.len(),
{
    broadcast use group_to_multiset_ensures;

    if a.len() == 0 {
        assert(a.len() == a.to_multiset().len());
    } else {
        let last = a.last();
        assert(b.to_multiset().count(last) > 0);
        let j = choose|j: int| 0 <= j < b.len() && b[j] == last;
        assert(a.drop_last() =~= a.remove(a.len() - 1));
        lemma_slack_of_same_items(a.drop_last(), b.remove(j), now);
        lemma_slack_remove(b, j, now);
    }
}

/// Firing an event that is due lowers the total slack of what is stored,
/// unless its period is zero: the event leaves, and its successor, if any, is
/// due strictly later.
pub proof fn lemma_firing_lowers_slack(
    before: Seq<ScheduledEvent>,
    after: Seq<ScheduledEvent>,
    event: ScheduledEvent,
    delivered: bool,
    now: u64,
)
    requires
        before.to_multiset().contains(event),
        event.is_due(now),
        event.period != Some(0u64),
        after.to_multiset() == after_firing(before.to_multiset(), event, delivered),
    ensures
        total_slack(after, now) < total_slack(before, now),
{
    broadcast use group_to_multiset_ensures;
    broadcast use vstd::multiset::group_multiset_axioms;

    let j = choose|j: int| 0 <= j < before.len() && before[j] == event;
    let rest = before.remove(j);
    lemma_slack_remove(before, j, now);
    match successor(event, delivered) {
        Some(next) => {
            lemma_slack_push(rest, next, now);
            lemma_slack_of_same_items(after, rest.push(next), now);
        },
        None => {
            lemma_slack_of_same_items(after, rest, now);
        },
    }
}

} // verus!
