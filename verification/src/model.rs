//! The mathematical model of the simulation: an abstract state and one
//! transition function per event kind. The executable kernel's contracts
//! state that each step computes exactly these transitions.
use vstd::prelude::*;
use crate::event::{Event, EventKind};
use crate::queue::min_index;
use crate::state::{Core, CoreStatus, ReqState, Request};

verus! {

/// Saturating addition on timestamps: simulated time clamps at the largest
/// representable instant instead of wrapping.
pub open spec fn sat_add_spec(a: u64, b: u64) -> u64 {
    if a + b > u64::MAX {
        u64::MAX
    } else {
        (a + b) as u64
    }
}

/// Abstract simulation state: the arena of requests, the round-robin
/// waiting list of request identifiers, the cores, and the pending events.
pub struct SimModel {
    pub now: u64,
    pub quantum: u64,
    pub requests: Seq<Request>,
    pub waiting: Seq<usize>,
    pub cores: Seq<Core>,
    pub events: Seq<Event>,
}

impl SimModel {
    /// Every request is internally consistent and sits at its own index.
    pub open spec fn requests_wf(self) -> bool {
        forall|r: int|
            0 <= r < self.requests.len() ==> (#[trigger] self.requests[r]).wf()
                && self.requests[r].id == r
    }

    /// The waiting list holds distinct identifiers of waiting requests.
    pub open spec fn waiting_wf(self) -> bool {
        &&& forall|i: int|
            0 <= i < self.waiting.len() ==> (#[trigger] self.waiting[i]) < self.requests.len()
                && self.requests[self.waiting[i] as int].state is Waiting
        &&& forall|i: int, j: int|
            0 <= i < j < self.waiting.len() ==> self.waiting[i] != self.waiting[j]
    }

    /// Cores are consistent with `now`, hold running requests only, and no
    /// two cores hold the same request.
    pub open spec fn cores_wf(self) -> bool {
        &&& self.cores.len() >= 1
        &&& forall|c: int| 0 <= c < self.cores.len() ==> (#[trigger] self.cores[c]).wf(self.now)
        &&& forall|c: int|
            0 <= c < self.cores.len() ==> ((#[trigger] self.cores[c]).request matches Some(r)
                ==> r < self.requests.len() && self.requests[r as int].state is Running)
        &&& forall|c1: int, c2: int|
            0 <= c1 < c2 < self.cores.len() ==> !(self.cores[c1].request is Some
                && self.cores[c1].request == self.cores[c2].request)
    }

    /// Every waiting request is on the waiting list and every running
    /// request is held by some core.
    pub open spec fn owners_wf(self) -> bool {
        &&& forall|r: int|
            0 <= r < self.requests.len() && (#[trigger] self.requests[r]).state is Waiting
                ==> self.waiting.contains(r as usize)
        &&& forall|r: int|
            0 <= r < self.requests.len() && (#[trigger] self.requests[r]).state is Running
                ==> exists|c: int|
                0 <= c < self.cores.len() && (#[trigger] self.cores[c]).request == Some(r as usize)
    }

    /// One pending event is acceptable: it is not overdue, and an arrival
    /// demands at least one unit of service.
    pub open spec fn event_ok(self, e: Event) -> bool {
        &&& e.timestamp >= self.now
        &&& e.kind matches EventKind::Arrival { service } ==> service >= 1
    }

    /// Every pending event is acceptable.
    pub open spec fn events_wf(self) -> bool {
        forall|i: int| 0 <= i < self.events.len() ==> self.event_ok(#[trigger] self.events[i])
    }

    /// The whole state is well-formed.
    pub open spec fn wf(self) -> bool {
        &&& self.quantum >= 1
        &&& self.requests_wf()
        &&& self.waiting_wf()
        &&& self.cores_wf()
        &&& self.owners_wf()
        &&& self.events_wf()
    }
}

/// Index of the first idle core at or after position `k`, or `cores.len()`
/// when every core from `k` on is busy.
pub open spec fn first_idle_from(cores: Seq<Core>, k: int) -> int
    decreases cores.len() - k,
{
    if k < 0 || k >= cores.len() {
        cores.len() as int
    } else if cores[k].status is Idle {
        k
    } else {
        first_idle_from(cores, k + 1)
    }
}

/// Index of the first idle core, or `cores.len()` when all are busy.
pub open spec fn first_idle(cores: Seq<Core>) -> int {
    first_idle_from(cores, 0)
}

/// Assign the front of the waiting list, if any, to idle core `c`: the
/// request starts a run segment at `now`, a quantum-expiry event is
/// scheduled one quantum ahead, and, when the request could finish within
/// the quantum, a departure event is scheduled at its completion instant.
pub open spec fn dispatch_model(m: SimModel, c: int) -> SimModel {
    if m.waiting.len() == 0 || !(0 <= c < m.cores.len()) || !(m.waiting[0] < m.requests.len()) {
        m
    } else {
        let rid = m.waiting[0];
        let req0 = m.requests[rid as int];
        let rem = req0.remaining_service;
        let core0 = m.cores[c];
        let qo = Event {
            kind: EventKind::QuantumOver { core: c as usize, req: rid, expected_remaining: rem },
            timestamp: sat_add_spec(m.now, m.quantum),
        };
        let dep = Event {
            kind: EventKind::Departure { core: c as usize, req: rid, expected_remaining: rem },
            timestamp: sat_add_spec(m.now, rem),
        };
        SimModel {
            now: m.now,
            quantum: m.quantum,
            requests: m.requests.update(
                rid as int,
                Request {
                    id: req0.id,
                    arrival_time: req0.arrival_time,
                    total_service: req0.total_service,
                    remaining_service: req0.remaining_service,
                    state: ReqState::Running,
                    finished_at: req0.finished_at,
                },
            ),
            waiting: m.waiting.remove(0),
            cores: m.cores.update(
                c,
                Core {
                    status: CoreStatus::Busy,
                    request: Some(rid),
                    quantum_start: m.now,
                    total_busy_time: core0.total_busy_time,
                },
            ),
            events: if rem <= m.quantum {
                m.events.push(qo).push(dep)
            } else {
                m.events.push(qo)
            },
        }
    }
}

/// A departure or quantum-expiry event is stale when the named core no
/// longer runs the named request, or the request's remaining service no
/// longer matches what was expected when the event was emitted.
pub open spec fn segment_stale(m: SimModel, c: int, rid: int, expected: u64) -> bool {
    ||| !(0 <= c < m.cores.len())
    ||| !(0 <= rid < m.requests.len())
    ||| m.cores[c].request != Some(rid as usize)
    ||| m.requests[rid].remaining_service != expected
}

/// Release core `c` at `now`, crediting the elapsed run segment to its
/// cumulative busy time.
pub open spec fn release_core(m: SimModel, c: int) -> Core {
    let core0 = m.cores[c];
    let elapsed = if m.now >= core0.quantum_start {
        (m.now - core0.quantum_start) as u64
    } else {
        0u64
    };
    Core {
        status: CoreStatus::Idle,
        request: None,
        quantum_start: core0.quantum_start,
        total_busy_time: sat_add_spec(core0.total_busy_time, elapsed),
    }
}

/// The state right after a non-stale departure resolves, before the freed
/// core is offered the next waiting request: the running request completes
/// (its remaining service reaches 0 exactly now) and the core is released.
pub open spec fn departure_release(m: SimModel, c: int, rid: int) -> SimModel {
    let req0 = m.requests[rid];
    SimModel {
        now: m.now,
        quantum: m.quantum,
        requests: m.requests.update(
            rid,
            Request {
                id: req0.id,
                arrival_time: req0.arrival_time,
                total_service: req0.total_service,
                remaining_service: 0,
                state: ReqState::Completed,
                finished_at: Some(m.now),
            },
        ),
        waiting: m.waiting,
        cores: m.cores.update(c, release_core(m, c)),
        events: m.events,
    }
}

/// A departure fires: unless stale, the running request completes, the
/// core is released, and the next waiting request, if any, is dispatched.
pub open spec fn departure_model(m: SimModel, c: int, rid: int, expected: u64) -> SimModel {
    if segment_stale(m, c, rid, expected) {
        m
    } else {
        dispatch_model(departure_release(m, c, rid), c)
    }
}

/// The state right after a non-stale quantum expiry resolves, before the
/// freed core is offered the next waiting request: the running request is
/// charged one quantum of service (clamped at its remainder); if nothing
/// remains it completes as a departure would, otherwise it rejoins the
/// back of the waiting list; the core is released either way.
pub open spec fn quantum_release(m: SimModel, c: int, rid: int) -> SimModel {
    let req0 = m.requests[rid];
    let rem = req0.remaining_service;
    SimModel {
        now: m.now,
        quantum: m.quantum,
        requests: m.requests.update(
            rid,
            if rem <= m.quantum {
                Request {
                    id: req0.id,
                    arrival_time: req0.arrival_time,
                    total_service: req0.total_service,
                    remaining_service: 0,
                    state: ReqState::Completed,
                    finished_at: Some(m.now),
                }
            } else {
                Request {
                    id: req0.id,
                    arrival_time: req0.arrival_time,
                    total_service: req0.total_service,
                    remaining_service: (rem - m.quantum) as u64,
                    state: ReqState::Waiting,
                    finished_at: None,
                }
            },
        ),
        waiting: if rem <= m.quantum {
            m.waiting
        } else {
            m.waiting.push(rid as usize)
        },
        cores: m.cores.update(c, release_core(m, c)),
        events: m.events,
    }
}

/// A quantum expires: unless stale, the running request is charged one
/// quantum, completing or rejoining the waiting list, and the freed core
/// is offered the next waiting request.
pub open spec fn quantum_over_model(m: SimModel, c: int, rid: int, expected: u64) -> SimModel {
    if segment_stale(m, c, rid, expected) {
        m
    } else {
        dispatch_model(quantum_release(m, c, rid), c)
    }
}

/// A timeout fires: it resolves its request identifier, and only a request
/// still waiting is torn down — marked timed out and dropped from the
/// waiting list. A request already running, already terminal, or unknown
/// makes the timeout a no-op.
pub open spec fn timeout_model(m: SimModel, rid: int) -> SimModel {
    if 0 <= rid < m.requests.len() && m.requests[rid].state is Waiting {
        let req0 = m.requests[rid];
        SimModel {
            now: m.now,
            quantum: m.quantum,
            requests: m.requests.update(
                rid,
                Request {
                    id: req0.id,
                    arrival_time: req0.arrival_time,
                    total_service: req0.total_service,
                    remaining_service: req0.remaining_service,
                    state: ReqState::TimedOut,
                    finished_at: Some(m.now),
                },
            ),
            waiting: m.waiting.remove_value(rid as usize),
            cores: m.cores,
            events: m.events,
        }
    } else {
        m
    }
}

/// An arrival fires: a fresh request with the event's service demand
/// enters the arena and the back of the waiting list; its timeout is armed
/// `timeout_delay` ahead, the next arrival of the stream is scheduled
/// `interarrival` ahead with service demand `next_service`, and, when an
/// idle core exists, the front waiting request is dispatched at once.
pub open spec fn arrival_model(
    m: SimModel,
    service: u64,
    interarrival: u64,
    next_service: u64,
    timeout_delay: u64,
) -> SimModel {
    let m1 = arrival_seed(m, service, interarrival, next_service, timeout_delay);
    if first_idle(m.cores) < m.cores.len() {
        dispatch_model(m1, first_idle(m.cores))
    } else {
        m1
    }
}

/// One step of the simulation loop: remove the due event — the least under
/// the (timestamp, rank) order — advance the clock to it, and apply its
/// handler. An empty queue leaves the state unchanged.
pub open spec fn step_model(
    m: SimModel,
    interarrival: u64,
    next_service: u64,
    timeout_delay: u64,
) -> SimModel {
    if m.events.len() == 0 {
        m
    } else {
        let e = m.events[min_index(m.events)];
        let m1 = SimModel {
            now: e.timestamp,
            quantum: m.quantum,
            requests: m.requests,
            waiting: m.waiting,
            cores: m.cores,
            events: m.events.remove(min_index(m.events)),
        };
        match e.kind {
            EventKind::Arrival { service } => arrival_model(
                m1,
                service,
                interarrival,
                next_service,
                timeout_delay,
            ),
            EventKind::Departure { core, req, expected_remaining } => departure_model(
                m1,
                core as int,
                req as int,
                expected_remaining,
            ),
            EventKind::QuantumOver { core, req, expected_remaining } => quantum_over_model(
                m1,
                core as int,
                req as int,
                expected_remaining,
            ),
            EventKind::Timeout { req } => timeout_model(m1, req as int),
        }
    }
}

/// Saturating addition never goes below either operand.
pub proof fn lemma_sat_add_ge(a: u64, b: u64)
    ensures
        sat_add_spec(a, b) >= a,
        sat_add_spec(a, b) >= b,
{
}

/// `first_idle_from` lands on the first idle core at or after `k`.
pub proof fn lemma_first_idle_from(cores: Seq<Core>, k: int)
    requires
        0 <= k <= cores.len(),
    ensures
        k <= first_idle_from(cores, k) <= cores.len(),
        first_idle_from(cores, k) < cores.len() ==> cores[first_idle_from(cores, k)].status is Idle,
        forall|j: int| k <= j < first_idle_from(cores, k) ==> !((#[trigger] cores[j]).status is Idle),
    decreases cores.len() - k,
{
    if k < cores.len() && !(cores[k].status is Idle) {
        lemma_first_idle_from(cores, k + 1);
    }
}








/// Dispatching touches neither the clock, the quantum, the core count,
/// nor the arena's size.
pub proof fn lemma_dispatch_frame(m: SimModel, c: int)
    ensures
        dispatch_model(m, c).now == m.now,
        dispatch_model(m, c).quantum == m.quantum,
        dispatch_model(m, c).cores.len() == m.cores.len(),
        dispatch_model(m, c).requests.len() == m.requests.len(),
{
}

/// Monotonic dequeue, at the level of whole steps: the due event of a
/// state whose pending events are all current or future carries a
/// timestamp at least `now`, and no handler moves the clock, so stepping
/// never turns it back.
pub proof fn lemma_step_monotonic(
    m: SimModel,
    interarrival: u64,
    next_service: u64,
    timeout_delay: u64,
)
    requires
        m.events_wf(),
    ensures
        step_model(m, interarrival, next_service, timeout_delay).now >= m.now,
{
    if m.events.len() > 0 {
        let s = m.events;
        let i = crate::queue::min_index(s);
        crate::queue::lemma_min_index(s);
        let e = s[i];
        assert(m.event_ok(e));
        let m1 = SimModel {
            now: e.timestamp,
            quantum: m.quantum,
            requests: m.requests,
            waiting: m.waiting,
            cores: m.cores,
            events: s.remove(i),
        };
        match e.kind {
            EventKind::Arrival { service } => {
                lemma_dispatch_frame(
                    arrival_seed(m1, service, interarrival, next_service, timeout_delay),
                    first_idle(m1.cores),
                );
            },
            EventKind::Departure { core, req, expected_remaining } => {
                if !segment_stale(m1, core as int, req as int, expected_remaining) {
                    lemma_dispatch_frame(
                        departure_release(m1, core as int, req as int),
                        core as int,
                    );
                }
            },
            EventKind::QuantumOver { core, req, expected_remaining } => {
                if !segment_stale(m1, core as int, req as int, expected_remaining) {
                    lemma_dispatch_frame(
                        quantum_release(m1, core as int, req as int),
                        core as int,
                    );
                }
            },
            EventKind::Timeout { .. } => {},
        }
    }
}

/// A step leaves the quantum and the core count alone and grows the
/// arena by at most one request — by exactly one when the due event is
/// an arrival.
pub proof fn lemma_step_frame(
    m: SimModel,
    interarrival: u64,
    next_service: u64,
    timeout_delay: u64,
)
    ensures
        step_model(m, interarrival, next_service, timeout_delay).quantum == m.quantum,
        step_model(m, interarrival, next_service, timeout_delay).cores.len() == m.cores.len(),
        m.requests.len() <= step_model(m, interarrival, next_service, timeout_delay).requests.len()
            <= m.requests.len() + 1,
        m.events.len() > 0 && m.events[crate::queue::min_index(m.events)].kind is Arrival
            ==> step_model(m, interarrival, next_service, timeout_delay).requests.len()
            == m.requests.len() + 1,
{
    if m.events.len() > 0 {
        let s = m.events;
        let i = crate::queue::min_index(s);
        crate::queue::lemma_min_index(s);
        let e = s[i];
        let m1 = SimModel {
            now: e.timestamp,
            quantum: m.quantum,
            requests: m.requests,
            waiting: m.waiting,
            cores: m.cores,
            events: s.remove(i),
        };
        match e.kind {
            EventKind::Arrival { service } => {
                lemma_dispatch_frame(
                    arrival_seed(m1, service, interarrival, next_service, timeout_delay),
                    first_idle(m1.cores),
                );
            },
            EventKind::Departure { core, req, expected_remaining } => {
                if !segment_stale(m1, core as int, req as int, expected_remaining) {
                    lemma_dispatch_frame(
                        departure_release(m1, core as int, req as int),
                        core as int,
                    );
                }
            },
            EventKind::QuantumOver { core, req, expected_remaining } => {
                if !segment_stale(m1, core as int, req as int, expected_remaining) {
                    lemma_dispatch_frame(
                        quantum_release(m1, core as int, req as int),
                        core as int,
                    );
                }
            },
            EventKind::Timeout { .. } => {},
        }
    }
}

/// Exclusive ownership, for a waiting request: in a well-formed state it
/// sits at exactly one waiting position and on no core.
#[verifier::rlimit(50)]
#[verifier::spinoff_prover]
pub proof fn lemma_waiting_exclusively_owned(m: SimModel, r: int)
    requires
        m.wf(),
        0 <= r < m.requests.len(),
        m.requests[r].state is Waiting,
    ensures
        exists|i: int| 0 <= i < m.waiting.len() && m.waiting[i] == r as usize,
        forall|i: int, j: int|
            0 <= i < m.waiting.len() && 0 <= j < m.waiting.len() && m.waiting[i] == r as usize
                && m.waiting[j] == r as usize ==> i == j,
        forall|c: int|
            0 <= c < m.cores.len() ==> (#[trigger] m.cores[c]).request != Some(r as usize),
{
    assert(m.waiting.contains(r as usize));
    assert forall|c: int| 0 <= c < m.cores.len() implies (#[trigger] m.cores[c]).request != Some(
        r as usize,
    ) by {
        if m.cores[c].request == Some(r as usize) {
            assert(m.requests[r].state is Running);
        }
    }
}

/// Exclusive ownership, for a running request: in a well-formed state it
/// is held by exactly one core and sits nowhere on the waiting list.
#[verifier::rlimit(50)]
#[verifier::spinoff_prover]
pub proof fn lemma_running_exclusively_owned(m: SimModel, r: int)
    requires
        m.wf(),
        0 <= r < m.requests.len(),
        m.requests[r].state is Running,
    ensures
        exists|c: int| 0 <= c < m.cores.len() && (#[trigger] m.cores[c]).request == Some(r as usize),
        forall|c1: int, c2: int|
            0 <= c1 < m.cores.len() && 0 <= c2 < m.cores.len() && (#[trigger] m.cores[c1]).request
                == Some(r as usize) && (#[trigger] m.cores[c2]).request == Some(r as usize) ==> c1
                == c2,
        forall|i: int| 0 <= i < m.waiting.len() ==> (#[trigger] m.waiting[i]) != r as usize,
{
    assert forall|i: int| 0 <= i < m.waiting.len() implies (#[trigger] m.waiting[i])
        != r as usize by {
        assert(m.requests[m.waiting[i] as int].state is Waiting);
    }
}

/// Exclusive ownership, for a terminal request: in a well-formed state a
/// completed or timed-out request is owned by neither the waiting list nor
/// any core.
#[verifier::rlimit(50)]
#[verifier::spinoff_prover]
pub proof fn lemma_terminal_unowned(m: SimModel, r: int)
    requires
        m.wf(),
        0 <= r < m.requests.len(),
        m.requests[r].state.is_terminal(),
    ensures
        forall|i: int| 0 <= i < m.waiting.len() ==> (#[trigger] m.waiting[i]) != r as usize,
        forall|c: int|
            0 <= c < m.cores.len() ==> (#[trigger] m.cores[c]).request != Some(r as usize),
{
    assert forall|i: int| 0 <= i < m.waiting.len() implies (#[trigger] m.waiting[i])
        != r as usize by {
        assert(m.requests[m.waiting[i] as int].state is Waiting);
    }
    assert forall|c: int| 0 <= c < m.cores.len() implies (#[trigger] m.cores[c]).request != Some(
        r as usize,
    ) by {
        if m.cores[c].request == Some(r as usize) {
            assert(m.requests[r].state is Running);
        }
    }
}

/// Conservation of service: in a well-formed state a completed request
/// has consumed, across all its running segments, exactly its total
/// demand — its remaining service is zero.
pub proof fn lemma_conservation(m: SimModel, r: int)
    requires
        m.wf(),
        0 <= r < m.requests.len(),
        m.requests[r].state is Completed,
    ensures
        m.requests[r].consumed() == m.requests[r].total_service,
        m.requests[r].remaining_service == 0,
{
    assert(m.requests[r].wf());
}

/// Stale timeout no-op: a timeout that fires for a request that is no
/// longer waiting — in particular one already completed, and, under the
/// conservative policy, one already running — changes nothing at all, so
/// a request that completed in time stays completed when its old timer
/// finally pops.
pub proof fn lemma_timeout_noop_unless_waiting(m: SimModel, rid: int)
    requires
        !(0 <= rid < m.requests.len() && m.requests[rid].state is Waiting),
    ensures
        timeout_model(m, rid) == m,
{
}

/// The arena, waiting list and event additions an arrival makes before any
/// immediate dispatch.
pub open spec fn arrival_seed(
    m: SimModel,
    service: u64,
    interarrival: u64,
    next_service: u64,
    timeout_delay: u64,
) -> SimModel {
    let id = m.requests.len() as usize;
    SimModel {
        now: m.now,
        quantum: m.quantum,
        requests: m.requests.push(
            Request {
                id,
                arrival_time: m.now,
                total_service: service,
                remaining_service: service,
                state: ReqState::Waiting,
                finished_at: None,
            },
        ),
        waiting: m.waiting.push(id),
        cores: m.cores,
        events: m.events.push(
            Event { kind: EventKind::Timeout { req: id }, timestamp: sat_add_spec(m.now, timeout_delay) },
        ).push(
            Event {
                kind: EventKind::Arrival { service: next_service },
                timestamp: sat_add_spec(m.now, interarrival),
            },
        ),
    }
}


} // verus!
