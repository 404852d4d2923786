//! The event queue: a min-priority queue over the (timestamp, rank) key.
//!
//! The queue is a plain vector scanned for its least element on pop, stated
//! directly as a min-priority-queue: pop removes the first event that is no
//! greater than every queued event, so completely tied events leave in
//! insertion order, which is one of the orders the tie permits.
use vstd::prelude::*;
use crate::event::Event;

verus! {

/// A min-priority queue of events keyed by (timestamp, rank).
pub struct EventQueue {
    items: Vec<Event>,
}

/// The index the next pop takes from a non-empty sequence after scanning
/// its first `k` entries: the earliest index holding the least key so far.
pub open spec fn min_index_upto(s: Seq<Event>, k: int) -> int
    recommends
        1 <= k <= s.len(),
    decreases k,
{
    if k <= 1 {
        0
    } else {
        let m = min_index_upto(s, k - 1);
        if s[k - 1].key_lt_spec(s[m]) {
            k - 1
        } else {
            m
        }
    }
}

/// The index the next pop of a non-empty queue takes.
pub open spec fn min_index(s: Seq<Event>) -> int {
    min_index_upto(s, s.len() as int)
}

/// After scanning `k` entries, the chosen index is in range and least.
pub proof fn lemma_min_index_upto(s: Seq<Event>, k: int)
    requires
        1 <= k <= s.len(),
    ensures
        0 <= min_index_upto(s, k) < k,
        forall|j: int| 0 <= j < k ==> s[min_index_upto(s, k)].key_le_spec(#[trigger] s[j]),
    decreases k,
{
    if k > 1 {
        lemma_min_index_upto(s, k - 1);
    }
}

/// The index the next pop takes is in range and holds a least key.
pub proof fn lemma_min_index(s: Seq<Event>)
    requires
        s.len() > 0,
    ensures
        0 <= min_index(s) < s.len(),
        forall|j: int| 0 <= j < s.len() ==> s[min_index(s)].key_le_spec(#[trigger] s[j]),
{
    lemma_min_index_upto(s, s.len() as int);
}

impl View for EventQueue {
    type V = Seq<Event>;

    closed spec fn view(&self) -> Seq<Event> {
        self.items@
    }
}

impl EventQueue {
    /// An empty queue.
    pub fn new() -> (q: EventQueue)
        ensures
            q@ == Seq::<Event>::empty(),
    {
        EventQueue { items: Vec::new() }
    }

    /// How many events are queued.
    pub fn len(&self) -> (n: usize)
        ensures
            n == self@.len(),
    {
        self.items.len()
    }

    /// Whether the queue is exhausted.
    pub fn is_empty(&self) -> (r: bool)
        ensures
            r == (self@.len() == 0),
    {
        self.items.len() == 0
    }

    /// Schedule an event.
    pub fn push(&mut self, e: Event)
        ensures
            final(self)@ == old(self)@.push(e),
    {
        self.items.push(e);
    }

    /// Remove and return an event whose key is no greater than the key of
    /// every queued event; `None` exactly when the queue is empty. Among
    /// completely tied least events the earliest queued one is taken.
    pub fn pop(&mut self) -> (r: Option<Event>)
        ensures
            old(self)@.len() == 0 ==> r is None && final(self)@ == old(self)@,
            old(self)@.len() > 0 ==> {
                &&& r == Some(old(self)@[min_index(old(self)@)])
                &&& final(self)@ == old(self)@.remove(min_index(old(self)@))
                &&& forall|j: int|
                    0 <= j < old(self)@.len() ==> r.unwrap().key_le_spec(#[trigger] old(self)@[j])
            },
    {
        let n = self.items.len();
        if n == 0 {
            return None;
        }
        let mut best: usize = 0;
        let mut i: usize = 1;
        while i < n
            invariant
                1 <= i <= n,
                n == self.items@.len(),
                best == min_index_upto(self.items@, i as int),
                0 <= best < i,
            decreases n - i,
        {
            proof {
                lemma_min_index_upto(self.items@, i as int);
            }
            if self.items[i].key_lt(&self.items[best]) {
                best = i;
            }
            i = i + 1;
        }
        proof {
            lemma_min_index(self.items@);
        }
        let e = self.items.remove(best);
        Some(e)
    }
}

/// Monotonic dequeue: when a least event is removed, every least event of
/// what remains is due no earlier, so popped timestamps never decrease as
/// long as nothing earlier than the last popped event is pushed in between.
pub proof fn lemma_monotonic_dequeue(s: Seq<Event>, i: int, k: int)
    requires
        0 <= i < s.len(),
        forall|j: int| 0 <= j < s.len() ==> s[i].key_le_spec(#[trigger] s[j]),
        0 <= k < s.remove(i).len(),
    ensures
        s[i].timestamp <= s.remove(i)[k].timestamp,
{
    if k < i {
        assert(s.remove(i)[k] == s[k]);
    } else {
        assert(s.remove(i)[k] == s[k + 1]);
    }
}

} // verus!
