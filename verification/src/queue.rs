//! The global event queue: a min-priority queue keyed by (delivery time,
//! event id).

use core::cmp::Reverse;
use priority_queue::PriorityQueue;
use std::collections::hash_map::RandomState;
use std::collections::HashMap;
use vstd::prelude::*;
use crate::events::Event;
use crate::events::EventId;
use crate::jiffy::Jiffies;

verus! {

/// `core::cmp::Reverse`, carried through as it is.
#[verifier::external_type_specification]
#[verifier::external_body]
#[verifier::reject_recursive_types(T)]
pub struct ExReverse<T>(Reverse<T>);

/// `priority_queue::PriorityQueue`, seen only through what it holds.
#[verifier::external_type_specification]
#[verifier::external_body]
#[verifier::reject_recursive_types(I)]
#[verifier::reject_recursive_types(P)]
#[verifier::reject_recursive_types(H)]
pub struct ExPriorityQueue<I, P, H>(PriorityQueue<I, P, H>);

/// A key: delivery time, then event id.
pub type Key = (usize, usize);

/// The outside queue as it is used here: event ids under reversed keys, so
/// that its greatest priority is the earliest key.
pub type Heap = PriorityQueue<usize, Reverse<Key>, RandomState>;

/// What a heap holds: each item with the key it was pushed under.
pub uninterp spec fn heap_entries(
    q: PriorityQueue<usize, Reverse<(usize, usize)>, RandomState>,
) -> Map<usize, (usize, usize)>;

/// Lexicographic order on keys: `a` comes no later than `b`.
pub open spec fn key_le(a: Key, b: Key) -> bool {
    a.0 < b.0 || (a.0 == b.0 && a.1 <= b.1)
}

/// Strict lexicographic order on keys.
pub open spec fn key_lt(a: Key, b: Key) -> bool {
    a.0 < b.0 || (a.0 == b.0 && a.1 < b.1)
}

/// The map with no entry.
pub open spec fn no_entries() -> Map<usize, Key> {
    Map::empty()
}

/// `item` is in `m` and no key in `m` comes before its key.
pub open spec fn is_earliest(m: Map<usize, Key>, item: usize) -> bool {
    &&& m.contains_key(item)
    &&& forall|j: usize| #[trigger] m.contains_key(j) ==> key_le(m[item], m[j])
}

/// `PriorityQueue::new`: an empty queue.
#[verifier::external_body]
fn heap_new() -> (q: Heap)
    ensures
        heap_entries(q) == no_entries(),
{
    PriorityQueue::new()
}

/// `PriorityQueue::push` with the key wrapped in `Reverse`: the item is in
/// the queue under the new key, whether or not it was there before.
#[verifier::external_body]
fn heap_push(q: &mut Heap, item: usize, key: Key)
    ensures
        heap_entries(*final(q)) == heap_entries(*old(q)).insert(item, key),
{
    q.push(item, Reverse(key));
}

/// `PriorityQueue::peek`: the item of greatest priority, which under
/// `Reverse` is one whose key no other key precedes; `None` exactly on an
/// empty queue.
#[verifier::external_body]
fn heap_peek(q: &Heap) -> (r: Option<(usize, Key)>)
    ensures
        match r {
            Some((item, key)) => is_earliest(heap_entries(*q), item) && heap_entries(*q)[item]
                == key,
            None => heap_entries(*q) == no_entries(),
        },
{
    q.peek().map(|(item, key)| (*item, key.0))
}

/// `PriorityQueue::pop`: removes and returns the item of greatest priority,
/// which under `Reverse` is one whose key no other key precedes; `None`
/// exactly on an empty queue, which it leaves as it is.
#[verifier::external_body]
fn heap_pop(q: &mut Heap) -> (r: Option<(usize, Key)>)
    ensures
        match r {
            Some((item, key)) => {
                &&& is_earliest(heap_entries(*old(q)), item)
                &&& heap_entries(*old(q))[item] == key
                &&& heap_entries(*final(q)) == heap_entries(*old(q)).remove(item)
            },
            None => {
                &&& heap_entries(*old(q)) == no_entries()
                &&& heap_entries(*final(q)) == heap_entries(*old(q))
            },
        },
{
    q.pop().map(|(item, key)| (item, key.0))
}

/// `PriorityQueue::remove`: takes the item out if it is there and returns
/// the key it had; otherwise returns `None` and changes nothing.
#[verifier::external_body]
fn heap_remove(q: &mut Heap, item: usize) -> (r: Option<Key>)
    ensures
        heap_entries(*final(q)) == heap_entries(*old(q)).remove(item),
        r == (if heap_entries(*old(q)).contains_key(item) {
            Some(heap_entries(*old(q))[item])
        } else {
            None
        }),
{
    q.remove(&item).map(|(_, key)| key.0)
}

/// The key under which an event is queued: its delivery time, then its id.
pub open spec fn event_key(e: Event) -> Key {
    (e.time.0, e.id)
}

/// Every event of `m` is filed under its own id.
pub open spec fn keyed(m: Map<EventId, Event>) -> bool {
    forall|id: EventId| #[trigger] m.contains_key(id) ==> m[id].id == id
}

/// `e` is queued in `m` and no event of `m` is due before it.
pub open spec fn is_next(m: Map<EventId, Event>, e: Event) -> bool {
    &&& m.contains_key(e.id)
    &&& m[e.id] == e
    &&& forall|j: EventId| #[trigger] m.contains_key(j) ==> key_le(event_key(e), event_key(m[j]))
}

/// The pending events of a simulation, handed out earliest first.
pub struct EventQueue {
    heap: Heap,
    pending: HashMap<EventId, Event>,
}

impl View for EventQueue {
    type V = Map<EventId, Event>;

    /// The queued events by id.
    closed spec fn view(&self) -> Map<EventId, Event> {
        self.pending@
    }
}

impl EventQueue {
    /// The heap orders exactly the pending events, each under its key.
    pub closed spec fn wf(&self) -> bool {
        &&& heap_entries(self.heap).dom() == self.pending@.dom()
        &&& forall|id: EventId| #[trigger]
            self.pending@.contains_key(id) ==> self.pending@[id].id == id && heap_entries(
                self.heap,
            )[id] == event_key(self.pending@[id])
    }

    /// In a well-formed queue every event is filed under its own id, and
    /// the events are finitely many.
    pub proof fn lemma_keyed(&self)
        requires
            self.wf(),
        ensures
            keyed(self@),
            self@.dom().finite(),
    {
        broadcast use vstd::std_specs::hash::group_hash_axioms;

    }

    /// An empty queue.
    pub fn new() -> (q: EventQueue)
        ensures
            q.wf(),
            q@ == Map::<EventId, Event>::empty(),
    {
        broadcast use vstd::std_specs::hash::group_hash_axioms;

        let q = EventQueue { heap: heap_new(), pending: HashMap::new() };
        assert(heap_entries(q.heap).dom() =~= q.pending@.dom());
        q
    }

    /// The number of queued events.
    pub fn len(&self) -> (n: usize)
        requires
            self.wf(),
        ensures
            n == self@.len(),
    {
        broadcast use vstd::std_specs::hash::group_hash_axioms;

        self.pending.len()
    }

    /// The queued event of the given id, if there is one.
    pub fn get(&self, id: EventId) -> (r: Option<&Event>)
        requires
            self.wf(),
        ensures
            match r {
                Some(e) => self@.contains_key(id) && *e == self@[id],
                None => !self@.contains_key(id),
            },
    {
        broadcast use vstd::std_specs::hash::group_hash_axioms;

        self.pending.get(&id)
    }

    /// Queues `event` under its id; an event already queued under that id
    /// is replaced.
    pub fn push(&mut self, event: Event)
        requires
            old(self).wf(),
        ensures
            final(self).wf(),
            final(self)@ == old(self)@.insert(event.id, event),
    {
        broadcast use vstd::std_specs::hash::group_hash_axioms;

        let id = event.id;
        heap_push(&mut self.heap, id, (event.time.0, id));
        self.pending.insert(id, event);
        assert(heap_entries(self.heap).dom() =~= self.pending@.dom());
    }

    /// The delivery time and id of the event that `pop_min` would return.
    pub fn peek(&self) -> (r: Option<(Jiffies, EventId)>)
        requires
            self.wf(),
        ensures
            match r {
                Some((time, id)) => self@.contains_key(id) && is_next(self@, self@[id])
                    && self@[id].time == time,
                None => self@ == Map::<EventId, Event>::empty(),
            },
    {
        broadcast use vstd::std_specs::hash::group_hash_axioms;

        match heap_peek(&self.heap) {
            Some((id, key)) => {
                proof {
                    assert(heap_entries(self.heap).dom().contains(id));
                    assert(self.pending@.contains_key(id));
                    assert forall|j: EventId| #[trigger] self@.contains_key(j) implies key_le(
                        event_key(self@[id]),
                        event_key(self@[j]),
                    ) by {
                        assert(heap_entries(self.heap).dom().contains(j));
                        assert(heap_entries(self.heap).contains_key(j));
                    }
                }
                Some((Jiffies(key.0), id))
            },
            None => {
                assert(self.pending@ =~= Map::<EventId, Event>::empty()) by {
                    assert(heap_entries(self.heap).dom() =~= Set::<usize>::empty());
                }
                None
            },
        }
    }

    /// Takes out the earliest event: the one of least delivery time, and
    /// among those of least id. `None` exactly when nothing is queued.
    pub fn pop_min(&mut self) -> (r: Option<Event>)
        requires
            old(self).wf(),
        ensures
            final(self).wf(),
            match r {
                Some(e) => is_next(old(self)@, e) && final(self)@ == old(self)@.remove(e.id),
                None => old(self)@ == Map::<EventId, Event>::empty() && final(self)@ == old(self)@,
            },
    {
        broadcast use vstd::std_specs::hash::group_hash_axioms;

        let ghost before = self.pending@;
        let ghost heap_before = heap_entries(self.heap);
        match heap_pop(&mut self.heap) {
            Some((id, key)) => {
                proof {
                    assert(heap_before.dom().contains(id));
                    assert(before.contains_key(id));
                }
                let taken = self.pending.remove(&id);
                proof {
                    assert(self.pending@ =~= before.remove(id));
                    assert(heap_entries(self.heap).dom() =~= self.pending@.dom());
                    assert forall|j: EventId| #[trigger] before.contains_key(j) implies key_le(
                        event_key(before[id]),
                        event_key(before[j]),
                    ) by {
                        assert(heap_before.dom().contains(j));
                        assert(heap_before.contains_key(j));
                    }
                }
                taken
            },
            None => {
                assert(self.pending@ =~= Map::<EventId, Event>::empty()) by {
                    assert(heap_before.dom() =~= Set::<usize>::empty());
                }
                None
            },
        }
    }

    /// Takes the event `id` out of the queue, so that it never fires.
    /// Returns whether it was queued.
    pub fn cancel(&mut self, id: EventId) -> (was_queued: bool)
        requires
            old(self).wf(),
        ensures
            final(self).wf(),
            final(self)@ == old(self)@.remove(id),
            was_queued == old(self)@.contains_key(id),
    {
        broadcast use vstd::std_specs::hash::group_hash_axioms;

        let ghost before = self.pending@;
        let ghost heap_before = heap_entries(self.heap);
        let key = heap_remove(&mut self.heap, id);
        let taken = self.pending.remove(&id);
        proof {
            assert(heap_before.dom().contains(id) == before.dom().contains(id));
            assert(self.pending@ =~= before.remove(id));
            assert(heap_entries(self.heap).dom() =~= self.pending@.dom());
        }
        key.is_some()
    }
}

/// The event that comes out is determined by what is queued: two events
/// that are both earliest in the same queue are one event.
pub proof fn law_next_is_unique(m: Map<EventId, Event>, a: Event, b: Event)
    requires
        keyed(m),
        is_next(m, a),
        is_next(m, b),
    ensures
        a == b,
{
    assert(key_le(event_key(a), event_key(m[b.id])));
    assert(key_le(event_key(b), event_key(m[a.id])));
}

/// Of two events popped one after the other, the first has the earlier
/// delivery time, or the same time and the smaller id.
pub proof fn law_pop_order(m: Map<EventId, Event>, first: Event, second: Event)
    requires
        keyed(m),
        is_next(m, first),
        is_next(m.remove(first.id), second),
    ensures
        first.time.0 < second.time.0 || (first.time.0 == second.time.0 && first.id < second.id),
{
    assert(m.contains_key(second.id));
    assert(m[second.id] == second);
    assert(key_le(event_key(first), event_key(m[second.id])));
}

} // verus!
