//! The worker's queue of pending events: a binary heap on a `Vec`, earliest
//! deadline at the root. Events with equal deadlines leave in no particular
//! order.
use crate::event::ScheduledEvent;
use vstd::multiset::Multiset;
use vstd::prelude::*;
use vstd::seq_lib::group_to_multiset_ensures;

verus! {

/// The place of the parent of the item at place `i`.
spec fn parent(i: int) -> int {
    (i - 1) / 2
}

/// No item is earlier than its parent.
spec fn heap_ordered(items: Seq<ScheduledEvent>) -> bool {
    forall|i: int| 0 < i < items.len() ==> items[parent(i)].when <= #[trigger] items[i].when
}

/// `event` is among `events` and none of them has an earlier deadline.
pub open spec fn is_earliest(events: Multiset<ScheduledEvent>, event: ScheduledEvent) -> bool {
    &&& events.contains(event)
    &&& forall|other: ScheduledEvent| #[trigger]
        events.contains(other) ==> event.when <= other.when
}

/// The heap order holds everywhere but between the item at `k` and its
/// parent, and the children of `k` are no earlier than that parent.
spec fn ordered_but_above(items: Seq<ScheduledEvent>, k: int) -> bool {
    &&& forall|i: int|
        0 < i < items.len() && i != k ==> items[parent(i)].when <= #[trigger] items[i].when
    &&& forall|i: int|
        0 < i < items.len() && parent(i) == k && k > 0 ==> items[parent(k)].when
            <= #[trigger] items[i].when
}

/// The heap order holds everywhere but between the item at `k` and its
/// children, and those children are no earlier than the parent of `k`.
spec fn ordered_but_below(items: Seq<ScheduledEvent>, k: int) -> bool {
    &&& forall|i: int|
        0 < i < items.len() && parent(i) != k ==> items[parent(i)].when <= #[trigger] items[i].when
    &&& forall|i: int|
        0 < i < items.len() && parent(i) == k && k > 0 ==> items[parent(k)].when
            <= #[trigger] items[i].when
}

/// `items` with the items at `i` and `j` exchanged.
spec fn exchanged(items: Seq<ScheduledEvent>, i: int, j: int) -> Seq<ScheduledEvent> {
    items.update(i, items[j]).update(j, items[i])
}

/// Exchanging two items changes nothing in what the sequence holds.
proof fn lemma_exchanged_holds_the_same(items: Seq<ScheduledEvent>, i: int, j: int)
    requires
        0 <= i < items.len(),
        0 <= j < items.len(),
    ensures
        exchanged(items, i, j).to_multiset() == items.to_multiset(),
{
    broadcast use group_to_multiset_ensures;
    broadcast use vstd::multiset::group_multiset_axioms;

    let halfway = items.update(i, items[j]);
    assert(exchanged(items, i, j).to_multiset() == halfway.to_multiset().insert(items[i]).remove(
        halfway[j],
    ));
}

/// In a heap the root is no later than any item.
proof fn lemma_root_is_earliest(items: Seq<ScheduledEvent>, i: int)
    requires
        heap_ordered(items),
        0 <= i < items.len(),
    ensures
        items[0].when <= items[i].when,
    decreases i,
{
    if i > 0 {
        lemma_root_is_earliest(items, parent(i));
    }
}

/// In a heap the root is the earliest of what the heap holds.
proof fn lemma_root_is_earliest_of_all(items: Seq<ScheduledEvent>)
    requires
        heap_ordered(items),
        items.len() > 0,
    ensures
        is_earliest(items.to_multiset(), items[0]),
{
    broadcast use group_to_multiset_ensures;

    assert(items.contains(items[0]));
    assert forall|other: ScheduledEvent| #[trigger]
        items.to_multiset().contains(other) implies items[0].when <= other.when by {
        let i = choose|i: int| 0 <= i < items.len() && items[i] == other;
        lemma_root_is_earliest(items, i);
    }
}

/// Exchanges the items at `i` and `j`.
fn exchange(items: &mut Vec<ScheduledEvent>, i: usize, j: usize)
    requires
        i < j < old(items)@.len(),
    ensures
        final(items)@ == exchanged(old(items)@, i as int, j as int),
{
    let last = items.len() - 1;
    let mut held = items.swap_remove(j);
    items.set_and_swap(i, &mut held);
    items.push(held);
    if j < last {
        let tail = items.swap_remove(j);
        items.push(tail);
    }
}

/// Moves the item at `start` towards the root until its parent is no later.
fn sift_up(items: &mut Vec<ScheduledEvent>, start: usize)
    requires
        start < old(items)@.len(),
        ordered_but_above(old(items)@, start as int),
    ensures
        heap_ordered(final(items)@),
        final(items)@.to_multiset() == old(items)@.to_multiset(),
{
    let mut k = start;
    while k > 0
        invariant
            k < items@.len(),
            ordered_but_above(items@, k as int),
            items@.to_multiset() == old(items)@.to_multiset(),
        ensures
            heap_ordered(items@),
            items@.to_multiset() == old(items)@.to_multiset(),
        decreases k,
    {
        let up = (k - 1) / 2;
        if items[up].when <= items[k].when {
            break ;
        }
        proof {
            lemma_exchanged_holds_the_same(items@, up as int, k as int);
        }
        exchange(items, up, k);
        k = up;
    }
}

/// Moves the item at `start` away from the root until its children are no
/// earlier.
fn sift_down(items: &mut Vec<ScheduledEvent>, start: usize)
    requires
        start < old(items)@.len(),
        ordered_but_below(old(items)@, start as int),
    ensures
        heap_ordered(final(items)@),
        final(items)@.to_multiset() == old(items)@.to_multiset(),
{
    let len = items.len();
    let mut k = start;
    while k < len / 2
        invariant
            len == items@.len(),
            k < len,
            ordered_but_below(items@, k as int),
            items@.to_multiset() == old(items)@.to_multiset(),
        ensures
            heap_ordered(items@),
            items@.to_multiset() == old(items)@.to_multiset(),
        decreases len - k,
    {
        let left = 2 * k + 1;
        let right = left + 1;
        let child = if right < len && items[right].when < items[left].when {
            right
        } else {
            left
        };
        if items[k].when <= items[child].when {
            break ;
        }
        proof {
            lemma_exchanged_holds_the_same(items@, k as int, child as int);
        }
        exchange(items, k, child);
        k = child;
    }
}

/// The pending events, kept so that the earliest is at hand.
pub struct Schedule {
    items: Vec<ScheduledEvent>,
}

impl View for Schedule {
    type V = Multiset<ScheduledEvent>;

    /// What the queue holds, each event as often as it was pushed.
    closed spec fn view(&self) -> Multiset<ScheduledEvent> {
        self.items@.to_multiset()
    }
}

impl Schedule {
    #[verifier::type_invariant]
    spec fn ordered(&self) -> bool {
        heap_ordered(self.items@)
    }

    /// The events in the order the queue stores them.
    pub closed spec fn stored(&self) -> Seq<ScheduledEvent> {
        self.items@
    }

    /// What the queue holds is what it stores, whatever the order, and the
    /// count of it fits a `usize`.
    pub proof fn lemma_view_of_stored(&self)
        ensures
            self@ == self.stored().to_multiset(),
            self@.len() == self.stored().len(),
            self@.len() <= usize::MAX,
    {
        broadcast use group_to_multiset_ensures;

        assert(self.items.len() == self.items@.len());
    }

    /// An empty queue.
    pub fn new() -> (schedule: Schedule)
        ensures
            schedule@ == Multiset::<ScheduledEvent>::empty(),
    {
        let schedule = Schedule { items: Vec::new() };
        assert(schedule.items@.to_multiset() =~= Multiset::<ScheduledEvent>::empty()) by {
            broadcast use group_to_multiset_ensures;
            broadcast use vstd::multiset::group_multiset_axioms;

        }
        schedule
    }

    /// How many events are pending.
    pub fn len(&self) -> (len: usize)
        ensures
            len == self@.len(),
    {
        proof {
            self.lemma_view_of_stored();
        }
        self.items.len()
    }

    /// Whether nothing is pending.
    pub fn is_empty(&self) -> (empty: bool)
        ensures
            empty <==> self@.len() == 0,
    {
        self.len() == 0
    }

    /// The earliest pending event, left in the queue: `None` exactly when the
    /// queue is empty, and otherwise an event of the queue than which none has
    /// an earlier deadline.
    pub fn peek(&self) -> (earliest: Option<&ScheduledEvent>)
        ensures
            self@.len() == 0 <==> earliest is None,
            earliest matches Some(event) ==> is_earliest(self@, *event),
    {
        proof {
            use_type_invariant(self);
            self.lemma_view_of_stored();
        }
        if self.items.len() == 0 {
            None
        } else {
            proof {
                lemma_root_is_earliest_of_all(self.items@);
            }
            Some(&self.items[0])
        }
    }

    /// Adds an event to the queue.
    pub fn push(&mut self, event: ScheduledEvent)
        ensures
            final(self)@ == old(self)@.insert(event),
    {
        proof {
            use_type_invariant(&*self);
        }
        let mut items = Vec::new();
        core::mem::swap(&mut self.items, &mut items);
        let place = items.len();
        items.push(event);
        proof {
            broadcast use group_to_multiset_ensures;

        }
        sift_up(&mut items, place);
        self.items = items;
    }

    /// Takes the earliest pending event out of the queue: `None` exactly when
    /// the queue is empty, and otherwise an event of the queue than which none
    /// had an earlier deadline. Everything else stays.
    pub fn pop(&mut self) -> (earliest: Option<ScheduledEvent>)
        ensures
            old(self)@.len() == 0 <==> earliest is None,
            earliest is None ==> final(self)@ == old(self)@,
            earliest matches Some(event) ==> is_earliest(old(self)@, event) && final(self)@ == old(
                self,
            )@.remove(event),
    {
        proof {
            use_type_invariant(&*self);
            self.lemma_view_of_stored();
        }
        if self.items.len() == 0 {
            return None;
        }
        let mut items = Vec::new();
        core::mem::swap(&mut self.items, &mut items);
        proof {
            lemma_root_is_earliest_of_all(items@);
        }
        let ghost before = items@;
        let earliest = items.swap_remove(0);
        proof {
            broadcast use group_to_multiset_ensures;
            broadcast use vstd::multiset::group_multiset_axioms;

            let moved = before.update(0, before.last());
            assert(items@ =~= moved.remove(moved.len() - 1));
        }
        if items.len() > 0 {
            sift_down(&mut items, 0);
        }
        self.items = items;
        Some(earliest)
    }
}

} // verus!
