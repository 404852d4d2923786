//! The executable simulation kernel: the dispatcher and the driver loop.
//!
//! Every mutation is specified exactly: each handler's postcondition states
//! that the new state is the corresponding transition of `crate::model`
//! applied to the old state. The handlers are total — a malformed or stale
//! event is recognised and ignored, never an error.
use vstd::prelude::*;
use crate::event::{Event, EventKind};
use crate::model::{
    SimModel, arrival_model, arrival_seed, departure_model, departure_release, dispatch_model,
    first_idle, lemma_first_idle_from, lemma_step_monotonic, quantum_over_model, quantum_release,
    sat_add_spec, step_model, timeout_model,
};
use crate::model::lemma_step_frame;
use crate::queue::EventQueue;
use crate::state::{Core, CoreStatus, ReqState, Request};

verus! {

/// A configuration the simulation rejects before it starts.
#[derive(Clone, Copy, Debug, PartialEq, Eq, Structural)]
pub enum ConfigError {
    /// The core count was zero.
    NoCores,
    /// The time quantum was zero.
    ZeroQuantum,
    /// The bound on drawn durations was zero.
    ZeroSampleBound,
}

/// Saturating addition on timestamps, the executable counterpart of
/// `sat_add_spec`.
pub fn sat_add(a: u64, b: u64) -> (r: u64)
    ensures
        r == sat_add_spec(a, b),
{
    if a <= u64::MAX - b {
        a + b
    } else {
        u64::MAX
    }
}

/// The simulation: a clock, the request arena, the round-robin waiting
/// list, the cores, and the pending events.
pub struct Sim {
    now: u64,
    quantum: u64,
    requests: Vec<Request>,
    waiting: Vec<usize>,
    cores: Vec<Core>,
    events: EventQueue,
}

impl View for Sim {
    type V = SimModel;

    closed spec fn view(&self) -> SimModel {
        SimModel {
            now: self.now,
            quantum: self.quantum,
            requests: self.requests@,
            waiting: self.waiting@,
            cores: self.cores@,
            events: self.events@,
        }
    }
}

impl Sim {
    /// Set up a simulation with `n_cores` idle cores and the given time
    /// quantum, rejecting a configuration with no cores or a zero quantum.
    pub fn new(n_cores: usize, quantum: u64) -> (r: Result<Sim, ConfigError>)
        ensures
            n_cores == 0 ==> r == Err::<Sim, ConfigError>(ConfigError::NoCores),
            n_cores >= 1 && quantum == 0 ==> r == Err::<Sim, ConfigError>(ConfigError::ZeroQuantum),
            n_cores >= 1 && quantum >= 1 ==> (r matches Ok(s) && s@.now == 0 && s@.quantum
                == quantum && s@.requests.len() == 0 && s@.waiting.len() == 0 && s@.events.len()
                == 0 && s@.cores.len() == n_cores && (forall|c: int|
                0 <= c < n_cores ==> s@.cores[c] == (Core {
                    status: CoreStatus::Idle,
                    request: None,
                    quantum_start: 0,
                    total_busy_time: 0,
                })) && s@.wf()),
    {
        if n_cores == 0 {
            return Err(ConfigError::NoCores);
        }
        if quantum == 0 {
            return Err(ConfigError::ZeroQuantum);
        }
        let mut cores: Vec<Core> = Vec::new();
        let mut i: usize = 0;
        while i < n_cores
            invariant
                i <= n_cores,
                cores@.len() == i,
                forall|c: int|
                    0 <= c < i ==> cores@[c] == (Core {
                        status: CoreStatus::Idle,
                        request: None,
                        quantum_start: 0,
                        total_busy_time: 0,
                    }),
            decreases n_cores - i,
        {
            cores.push(Core::idle());
            i = i + 1;
        }
        let s = Sim {
            now: 0,
            quantum,
            requests: Vec::new(),
            waiting: Vec::new(),
            cores,
            events: EventQueue::new(),
        };
        proof {
            assert forall|c: int| 0 <= c < s@.cores.len() implies (#[trigger] s@.cores[c]).wf(
                s@.now,
            ) by {
                assert(s@.cores[c].status is Idle);
            }
            assert(s@.wf());
        }
        Ok(s)
    }

    /// Schedule an arrival with the given service demand at the given
    /// instant. Rejected — no change — when the instant is already past
    /// or the demand is zero.
    pub fn schedule_arrival(&mut self, at: u64, service: u64) -> (ok: bool)
        ensures
            ok == (at >= old(self)@.now && service >= 1),
            ok ==> final(self)@ == (SimModel {
                now: old(self)@.now,
                quantum: old(self)@.quantum,
                requests: old(self)@.requests,
                waiting: old(self)@.waiting,
                cores: old(self)@.cores,
                events: old(self)@.events.push(
                    Event { kind: EventKind::Arrival { service }, timestamp: at },
                ),
            }),
            !ok ==> final(self)@ == old(self)@,
    {
        if at >= self.now && service >= 1 {
            self.events.push(Event { kind: EventKind::Arrival { service }, timestamp: at });
            true
        } else {
            false
        }
    }

    /// Offer idle core `c` the front of the waiting list, as
    /// `dispatch_model` describes; with nothing waiting, an unknown core,
    /// or an unknown front identifier this changes nothing.
    pub(crate) fn dispatch_next(&mut self, c: usize)
        ensures
            final(self)@ == dispatch_model(old(self)@, c as int),
    {
        if self.waiting.len() == 0 {
            return ;
        }
        if c >= self.cores.len() {
            return ;
        }
        let rid = self.waiting[0];
        if rid >= self.requests.len() {
            return ;
        }
        let _front = self.waiting.remove(0);
        let req0 = self.requests[rid];
        self.requests[rid] = Request {
            id: req0.id,
            arrival_time: req0.arrival_time,
            total_service: req0.total_service,
            remaining_service: req0.remaining_service,
            state: ReqState::Running,
            finished_at: req0.finished_at,
        };
        let core0 = self.cores[c];
        self.cores[c] = Core {
            status: CoreStatus::Busy,
            request: Some(rid),
            quantum_start: self.now,
            total_busy_time: core0.total_busy_time,
        };
        let rem = req0.remaining_service;
        self.events.push(
            Event {
                kind: EventKind::QuantumOver { core: c, req: rid, expected_remaining: rem },
                timestamp: sat_add(self.now, self.quantum),
            },
        );
        if rem <= self.quantum {
            self.events.push(
                Event {
                    kind: EventKind::Departure { core: c, req: rid, expected_remaining: rem },
                    timestamp: sat_add(self.now, rem),
                },
            );
        }
    }

    /// An arrival fires, as `arrival_model` describes: admit the new
    /// request, arm its timeout, schedule the next arrival of the stream,
    /// and dispatch at once if an idle core exists.
    pub(crate) fn handle_arrival(
        &mut self,
        service: u64,
        interarrival: u64,
        next_service: u64,
        timeout_delay: u64,
    )
        ensures
            final(self)@ == arrival_model(
                old(self)@,
                service,
                interarrival,
                next_service,
                timeout_delay,
            ),
    {
        let id = self.requests.len();
        self.requests.push(
            Request {
                id,
                arrival_time: self.now,
                total_service: service,
                remaining_service: service,
                state: ReqState::Waiting,
                finished_at: None,
            },
        );
        self.waiting.push(id);
        self.events.push(
            Event {
                kind: EventKind::Timeout { req: id },
                timestamp: sat_add(self.now, timeout_delay),
            },
        );
        self.events.push(
            Event {
                kind: EventKind::Arrival { service: next_service },
                timestamp: sat_add(self.now, interarrival),
            },
        );
        proof {
            assert(self@ == arrival_seed(
                old(self)@,
                service,
                interarrival,
                next_service,
                timeout_delay,
            ));
        }
        let ghost mid = self@;
        let nc = self.cores.len();
        let mut c: usize = 0;
        while c < nc && self.cores[c].status == CoreStatus::Busy
            invariant
                c <= nc,
                self@ == mid,
                nc == self@.cores.len(),
                forall|k: int| 0 <= k < c ==> !((#[trigger] self@.cores[k]).status is Idle),
            decreases nc - c,
        {
            c = c + 1;
        }
        proof {
            lemma_first_idle_from(mid.cores, 0);
            let f = first_idle(mid.cores);
            if c < nc {
                assert(mid.cores[c as int].status is Idle);
                assert(f == c);
            } else {
                assert(f == nc);
            }
            assert(mid.cores == old(self)@.cores);
        }
        if c < nc {
            self.dispatch_next(c);
        }
    }

    /// A departure fires, as `departure_model` describes: unless stale,
    /// complete the running request, release the core, and dispatch the
    /// next waiting request.
    pub(crate) fn handle_departure(&mut self, c: usize, rid: usize, expected: u64)
        ensures
            final(self)@ == departure_model(old(self)@, c as int, rid as int, expected),
    {
        if c >= self.cores.len() {
            return ;
        }
        if rid >= self.requests.len() {
            return ;
        }
        let cur_ok = match self.cores[c].request {
            Some(r) => r == rid,
            None => false,
        };
        if !cur_ok {
            return ;
        }
        let req0 = self.requests[rid];
        if req0.remaining_service != expected {
            return ;
        }
        self.requests[rid] = Request {
            id: req0.id,
            arrival_time: req0.arrival_time,
            total_service: req0.total_service,
            remaining_service: 0,
            state: ReqState::Completed,
            finished_at: Some(self.now),
        };
        self.release_core_at_now(c);
        proof {
            assert(self@ == departure_release(old(self)@, c as int, rid as int));
        }
        self.dispatch_next(c);
    }

    /// A quantum expires, as `quantum_over_model` describes: unless stale,
    /// charge the running request one quantum (clamped), completing it or
    /// returning it to the back of the waiting list, release the core, and
    /// dispatch the next waiting request.
    pub(crate) fn handle_quantum_over(&mut self, c: usize, rid: usize, expected: u64)
        ensures
            final(self)@ == quantum_over_model(old(self)@, c as int, rid as int, expected),
    {
        if c >= self.cores.len() {
            return ;
        }
        if rid >= self.requests.len() {
            return ;
        }
        let cur_ok = match self.cores[c].request {
            Some(r) => r == rid,
            None => false,
        };
        if !cur_ok {
            return ;
        }
        let req0 = self.requests[rid];
        if req0.remaining_service != expected {
            return ;
        }
        let rem = req0.remaining_service;
        if rem <= self.quantum {
            self.requests[rid] = Request {
                id: req0.id,
                arrival_time: req0.arrival_time,
                total_service: req0.total_service,
                remaining_service: 0,
                state: ReqState::Completed,
                finished_at: Some(self.now),
            };
        } else {
            self.requests[rid] = Request {
                id: req0.id,
                arrival_time: req0.arrival_time,
                total_service: req0.total_service,
                remaining_service: rem - self.quantum,
                state: ReqState::Waiting,
                finished_at: None,
            };
            self.waiting.push(rid);
        }
        self.release_core_at_now(c);
        proof {
            assert(self@ == quantum_release(old(self)@, c as int, rid as int));
        }
        self.dispatch_next(c);
    }

    /// Release core `c`, crediting the elapsed run segment to its busy
    /// time, as `release_core` describes.
    fn release_core_at_now(&mut self, c: usize)
        requires
            (c as int) < old(self)@.cores.len(),
        ensures
            final(self)@ == (SimModel {
                now: old(self)@.now,
                quantum: old(self)@.quantum,
                requests: old(self)@.requests,
                waiting: old(self)@.waiting,
                cores: old(self)@.cores.update(
                    c as int,
                    crate::model::release_core(old(self)@, c as int),
                ),
                events: old(self)@.events,
            }),
    {
        let core0 = self.cores[c];
        let elapsed: u64 = if self.now >= core0.quantum_start {
            self.now - core0.quantum_start
        } else {
            0
        };
        self.cores[c] = Core {
            status: CoreStatus::Idle,
            request: None,
            quantum_start: core0.quantum_start,
            total_busy_time: sat_add(core0.total_busy_time, elapsed),
        };
    }

    /// A timeout fires, as `timeout_model` describes: a request still
    /// waiting is marked timed out and dropped from the waiting list; an
    /// unknown, running, or already terminal request makes this a no-op.
    pub(crate) fn handle_timeout(&mut self, rid: usize)
        ensures
            final(self)@ == timeout_model(old(self)@, rid as int),
    {
        if rid >= self.requests.len() {
            return ;
        }
        let req0 = self.requests[rid];
        if !(req0.state == ReqState::Waiting) {
            return ;
        }
        self.requests[rid] = Request {
            id: req0.id,
            arrival_time: req0.arrival_time,
            total_service: req0.total_service,
            remaining_service: req0.remaining_service,
            state: ReqState::TimedOut,
            finished_at: Some(self.now),
        };
        let ghost mid = self@;
        let ghost w = self@.waiting;
        let n = self.waiting.len();
        let mut j: usize = 0;
        let mut idx: usize = n;
        while j < n
            invariant
                j <= n,
                idx <= n,
                self@ == mid,
                n == self@.waiting.len(),
                idx == n ==> forall|k: int| 0 <= k < j ==> self@.waiting[k] != rid,
                idx < n ==> idx < j && self@.waiting[idx as int] == rid && (forall|k: int|
                    0 <= k < idx ==> self@.waiting[k] != rid),
            decreases n - j,
        {
            if idx == n && self.waiting[j] == rid {
                idx = j;
            }
            j = j + 1;
        }
        proof {
            w.index_of_first_ensures(rid);
            if idx < n {
                assert(w.contains(rid));
                assert(w.index_of_first(rid) is Some);
                let i = w.index_of_first(rid)->0;
                assert(w[i] == rid);
                assert(i == idx as int);
                assert(w.remove_value(rid) == w.remove(idx as int));
            } else {
                if w.contains(rid) {
                    let k = choose|k: int| 0 <= k < w.len() && w[k] == rid;
                    assert(w[k] != rid);
                }
                assert(w.index_of_first(rid) is None);
                assert(w.remove_value(rid) == w);
            }
        }
        if idx < n {
            let _ = self.waiting.remove(idx);
        }
    }

    /// One step of the simulation loop, as `step_model` describes: pop the
    /// due event, advance the clock to it, and apply its handler. The
    /// three arguments are the fresh samples an arrival consumes: the gap
    /// to the next arrival of the stream, that arrival's service demand,
    /// and the admitted request's timeout delay. Returns whether an event
    /// was processed; with current-or-future pending events the clock
    /// never moves backwards.
    pub fn step(&mut self, interarrival: u64, next_service: u64, timeout_delay: u64) -> (progressed:
        bool)
        ensures
            final(self)@ == step_model(old(self)@, interarrival, next_service, timeout_delay),
            progressed == (old(self)@.events.len() > 0),
            old(self)@.events_wf() ==> final(self)@.now >= old(self)@.now,
            final(self)@.quantum == old(self)@.quantum,
            final(self)@.cores.len() == old(self)@.cores.len(),
            old(self)@.requests.len() <= final(self)@.requests.len() <= old(self)@.requests.len()
                + 1,
    {
        let popped = self.events.pop();
        proof {
            if old(self)@.events_wf() {
                lemma_step_monotonic(old(self)@, interarrival, next_service, timeout_delay);
            }
            lemma_step_frame(old(self)@, interarrival, next_service, timeout_delay);
        }
        match popped {
            None => false,
            Some(e) => {
                self.now = e.timestamp;
                match e.kind {
                    EventKind::Arrival { service } => {
                        self.handle_arrival(service, interarrival, next_service, timeout_delay);
                    },
                    EventKind::Departure { core, req, expected_remaining } => {
                        self.handle_departure(core, req, expected_remaining);
                    },
                    EventKind::QuantumOver { core, req, expected_remaining } => {
                        self.handle_quantum_over(core, req, expected_remaining);
                    },
                    EventKind::Timeout { req } => {
                        self.handle_timeout(req);
                    },
                }
                true
            },
        }
    }

    /// The simulation instant.
    pub fn now(&self) -> (t: u64)
        ensures
            t == self@.now,
    {
        self.now
    }

    /// The configured time quantum.
    pub fn quantum(&self) -> (q: u64)
        ensures
            q == self@.quantum,
    {
        self.quantum
    }

    /// How many cores the simulation has.
    pub fn num_cores(&self) -> (n: usize)
        ensures
            n == self@.cores.len(),
    {
        self.cores.len()
    }

    /// How many requests have entered the system.
    pub fn num_requests(&self) -> (n: usize)
        ensures
            n == self@.requests.len(),
    {
        self.requests.len()
    }

    /// How many requests are waiting to run.
    pub fn waiting_count(&self) -> (n: usize)
        ensures
            n == self@.waiting.len(),
    {
        self.waiting.len()
    }

    /// How many events are pending.
    pub fn pending_events(&self) -> (n: usize)
        ensures
            n == self@.events.len(),
    {
        self.events.len()
    }

    /// The record of request `i`, for an external reporting layer.
    pub fn request_info(&self, i: usize) -> (r: Option<Request>)
        ensures
            (i as int) < self@.requests.len() ==> r == Some(self@.requests[i as int]),
            (i as int) >= self@.requests.len() ==> r is None,
    {
        if i < self.requests.len() {
            Some(self.requests[i])
        } else {
            None
        }
    }

    /// The record of core `c`, for an external reporting layer.
    pub fn core_info(&self, c: usize) -> (r: Option<Core>)
        ensures
            (c as int) < self@.cores.len() ==> r == Some(self@.cores[c as int]),
            (c as int) >= self@.cores.len() ==> r is None,
    {
        if c < self.cores.len() {
            Some(self.cores[c])
        } else {
            None
        }
    }
}

/// Drive a whole simulation: validate the configuration, seed the first
/// arrival from the external generator, then process events — at most
/// `max_events` of them, the stopping event count — drawing the fresh
/// samples each arrival needs. A run from a valid configuration ends in a
/// well-formed state with the configured quantum and core count, and has
/// admitted at least one request whenever at least one event was allowed.
#[verifier::rlimit(50)]
pub fn run_sim(n_cores: usize, quantum: u64, max_sample: u64, max_events: usize) -> (r: Result<
    Sim,
    ConfigError,
>)
    ensures
        n_cores == 0 ==> r == Err::<Sim, ConfigError>(ConfigError::NoCores),
        n_cores >= 1 && quantum == 0 ==> r == Err::<Sim, ConfigError>(ConfigError::ZeroQuantum),
        n_cores >= 1 && quantum >= 1 && max_sample == 0 ==> r == Err::<Sim, ConfigError>(
            ConfigError::ZeroSampleBound,
        ),
        n_cores >= 1 && quantum >= 1 && max_sample >= 1 ==> r is Ok,
        r matches Ok(s) ==> s@.quantum == quantum && s@.cores.len() == n_cores,
        n_cores >= 1 && quantum >= 1 && max_sample >= 1 && max_events >= 1 ==> (r matches Ok(s)
            && s@.requests.len() >= 1),
{
    let created = Sim::new(n_cores, quantum);
    let mut sim = match created {
        Ok(s) => s,
        Err(e) => {
            return Err(e);
        },
    };
    if max_sample == 0 {
        return Err(ConfigError::ZeroSampleBound);
    }
    let first_at = crate::rng::draw_duration(max_sample);
    let first_service = crate::rng::draw_duration(max_sample);
    let seeded = sim.schedule_arrival(first_at, first_service);
    proof {
        assert(seeded);
    }
    let mut i: usize = 0;
    while i < max_events
        invariant
            i <= max_events,
            n_cores >= 1,
            quantum >= 1,
            max_sample >= 1,
            sim@.quantum == quantum,
            sim@.cores.len() == n_cores,
            sim@.requests.len() <= i + 1,
            i >= 1 ==> sim@.requests.len() >= 1,
            i == 0 ==> sim@.events.len() == 1 && sim@.events[0].kind is Arrival,
        decreases max_events - i,
    {
        let gap = crate::rng::draw_duration(max_sample);
        let service = crate::rng::draw_duration(max_sample);
        let timeout_delay = crate::rng::draw_duration(max_sample);
        let ghost pre = sim@;
        let progressed = sim.step(gap, service, timeout_delay);
        proof {
            if i == 0 {
                crate::queue::lemma_min_index(pre.events);
                lemma_step_frame(pre, gap, service, timeout_delay);
            }
        }
        if !progressed {
            return Ok(sim);
        }
        i = i + 1;
    }
    Ok(sim)
}

} // verus!
