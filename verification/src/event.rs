//! Timestamped simulation events and the two-level dequeue order.
//!
//! Events are ordered primarily by timestamp and secondarily by a rank
//! derived from the event kind: every non-timeout kind shares one rank and
//! timeouts carry a strictly greater rank, so that at a given instant a
//! timeout is handled only after every co-timestamped non-timeout event.
use vstd::prelude::*;

verus! {

/// What a scheduled occurrence does when it fires.
///
/// `Arrival` introduces a fresh request with the given service demand.
/// `Departure` and `QuantumOver` refer to a core together with the request
/// and the remaining service that were current when the event was emitted;
/// the pair is the stale-event guard checked at fire time. `Timeout` holds
/// only a request identifier, a non-owning reference resolved at fire time.
#[derive(Clone, Copy, Debug)]
pub enum EventKind {
    Arrival { service: u64 },
    Departure { core: usize, req: usize, expected_remaining: u64 },
    QuantumOver { core: usize, req: usize, expected_remaining: u64 },
    Timeout { req: usize },
}

/// A typed occurrence due at a simulation instant.
#[derive(Clone, Copy, Debug)]
pub struct Event {
    pub kind: EventKind,
    pub timestamp: u64,
}

impl EventKind {
    /// Secondary sort rank: all non-timeout kinds are mutually incomparable
    /// (equal rank) and a timeout ranks strictly after them.
    pub open spec fn rank_spec(self) -> int {
        if self is Timeout {
            1
        } else {
            0
        }
    }

    /// Executable form of the secondary sort rank.
    pub fn rank(&self) -> (r: u64)
        ensures
            r == self.rank_spec(),
    {
        match self {
            EventKind::Timeout { .. } => 1,
            _ => 0,
        }
    }

    /// Whether two kinds are the same variant, payloads disregarded.
    pub open spec fn same_kind_spec(self, other: EventKind) -> bool {
        match (self, other) {
            (EventKind::Arrival { .. }, EventKind::Arrival { .. }) => true,
            (EventKind::Departure { .. }, EventKind::Departure { .. }) => true,
            (EventKind::QuantumOver { .. }, EventKind::QuantumOver { .. }) => true,
            (EventKind::Timeout { .. }, EventKind::Timeout { .. }) => true,
            _ => false,
        }
    }

    /// Executable variant equality, payloads disregarded.
    pub fn same_kind(&self, other: &EventKind) -> (r: bool)
        ensures
            r == self.same_kind_spec(*other),
    {
        match (self, other) {
            (EventKind::Arrival { .. }, EventKind::Arrival { .. }) => true,
            (EventKind::Departure { .. }, EventKind::Departure { .. }) => true,
            (EventKind::QuantumOver { .. }, EventKind::QuantumOver { .. }) => true,
            (EventKind::Timeout { .. }, EventKind::Timeout { .. }) => true,
            _ => false,
        }
    }
}

impl Event {
    /// The dequeue order: lexicographic on (timestamp, rank).
    pub open spec fn key_le_spec(self, other: Event) -> bool {
        self.timestamp < other.timestamp || (self.timestamp == other.timestamp
            && self.kind.rank_spec() <= other.kind.rank_spec())
    }

    /// Strict part of the dequeue order.
    pub open spec fn key_lt_spec(self, other: Event) -> bool {
        self.key_le_spec(other) && !other.key_le_spec(self)
    }

    /// Two events tie completely: equal timestamp and equal rank. Such
    /// events may leave the queue in either relative order.
    pub open spec fn tie_equal_spec(self, other: Event) -> bool {
        self.timestamp == other.timestamp && self.kind.rank_spec() == other.kind.rank_spec()
    }

    /// Executable dequeue-order test.
    pub fn key_le(&self, other: &Event) -> (r: bool)
        ensures
            r == self.key_le_spec(*other),
    {
        self.timestamp < other.timestamp || (self.timestamp == other.timestamp && self.kind.rank()
            <= other.kind.rank())
    }

    /// Executable strict dequeue-order test.
    pub fn key_lt(&self, other: &Event) -> (r: bool)
        ensures
            r == self.key_lt_spec(*other),
    {
        self.timestamp < other.timestamp || (self.timestamp == other.timestamp && self.kind.rank()
            < other.kind.rank())
    }

    /// Executable complete-tie test.
    pub fn tie_equal(&self, other: &Event) -> (r: bool)
        ensures
            r == self.tie_equal_spec(*other),
    {
        self.timestamp == other.timestamp && self.kind.rank() == other.kind.rank()
    }
}

/// The dequeue order is total: any two events are comparable.
pub proof fn lemma_key_total(a: Event, b: Event)
    ensures
        a.key_le_spec(b) || b.key_le_spec(a),
{
}

/// The dequeue order is transitive.
pub proof fn lemma_key_trans(a: Event, b: Event, c: Event)
    requires
        a.key_le_spec(b),
        b.key_le_spec(c),
    ensures
        a.key_le_spec(c),
{
}

/// Timeout-last tie-break: at one timestamp, a non-timeout event sorts
/// strictly before a timeout event, so it always dequeues first.
pub proof fn lemma_timeout_last(t: Event, e: Event)
    requires
        t.timestamp == e.timestamp,
        t.kind is Timeout,
        !(e.kind is Timeout),
    ensures
        e.key_lt_spec(t),
        e.key_le_spec(t),
        !t.key_le_spec(e),
{
}

/// Incomparable-kind tie-break: two co-timestamped events whose kinds are
/// both non-timeout tie completely, so neither is forced to dequeue first.
pub proof fn lemma_incomparable_tie(a: Event, b: Event)
    requires
        a.timestamp == b.timestamp,
        !(a.kind is Timeout),
        !(b.kind is Timeout),
    ensures
        a.tie_equal_spec(b),
        a.key_le_spec(b),
        b.key_le_spec(a),
{
}

} // verus!
