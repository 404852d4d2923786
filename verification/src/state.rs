//! Requests and cores: the entities the dispatcher mutates.
use vstd::prelude::*;

verus! {

/// Lifecycle state of a request. `Completed` and `TimedOut` are terminal:
/// no transition leaves them.
#[derive(Clone, Copy, Debug, PartialEq, Eq, Structural)]
pub enum ReqState {
    Waiting,
    Running,
    Completed,
    TimedOut,
}

impl ReqState {
    /// Whether no further transition may touch the request.
    pub open spec fn is_terminal(self) -> bool {
        self is Completed || self is TimedOut
    }
}

/// A unit of work. Requests live in an arena indexed by `id`; a pending
/// timeout refers to a request only through that identifier, so a timer can
/// outlive the phase of the request it was armed for.
#[derive(Clone, Copy, Debug)]
pub struct Request {
    /// Arena index, assigned at creation, immutable.
    pub id: usize,
    /// Instant the request entered the system, immutable.
    pub arrival_time: u64,
    /// Total processing time demanded, immutable.
    pub total_service: u64,
    /// Processing time still owed; reaches 0 exactly at completion.
    pub remaining_service: u64,
    /// Lifecycle state.
    pub state: ReqState,
    /// Instant a terminal state was reached, once one is.
    pub finished_at: Option<u64>,
}

impl Request {
    /// Service already applied across the request's running segments.
    pub open spec fn consumed(self) -> int {
        self.total_service - self.remaining_service
    }

    /// Internal consistency of one request.
    pub open spec fn wf(self) -> bool {
        &&& self.remaining_service <= self.total_service
        &&& self.total_service >= 1
        &&& self.state is Completed ==> self.remaining_service == 0
        &&& (self.state is Waiting || self.state is Running) ==> self.remaining_service >= 1
        &&& self.state.is_terminal() <==> self.finished_at is Some
    }
}

/// Whether a core currently runs a request.
#[derive(Clone, Copy, Debug, PartialEq, Eq, Structural)]
pub enum CoreStatus {
    Idle,
    Busy,
}

/// A processing resource. While busy it exclusively owns one request.
#[derive(Clone, Copy, Debug)]
pub struct Core {
    /// Idle or busy.
    pub status: CoreStatus,
    /// The request this core owns, present exactly while busy.
    pub request: Option<usize>,
    /// Instant the current run segment began, meaningful while busy.
    pub quantum_start: u64,
    /// Cumulative busy time, kept for an external reporting layer.
    pub total_busy_time: u64,
}

impl Core {
    /// Internal consistency of one core at simulation instant `now`:
    /// a request is held exactly while busy, the current segment began no
    /// later than `now`, and busy time fits in the time already elapsed
    /// outside the current segment.
    pub open spec fn wf(self, now: u64) -> bool {
        &&& (self.status is Busy) <==> (self.request is Some)
        &&& self.status is Busy ==> self.quantum_start <= now && self.total_busy_time
            <= self.quantum_start
        &&& self.status is Idle ==> self.total_busy_time <= now
    }

    /// A fresh idle core.
    pub fn idle() -> (c: Core)
        ensures
            c == (Core { status: CoreStatus::Idle, request: None, quantum_start: 0, total_busy_time: 0 }),
    {
        Core { status: CoreStatus::Idle, request: None, quantum_start: 0, total_busy_time: 0 }
    }
}

} // verus!
