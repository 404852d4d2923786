use rrsim::event::{Event, EventKind};
use rrsim::queue::EventQueue;
use rrsim::sim::{run_sim, ConfigError, Sim};
use rrsim::state::ReqState;

fn ev(kind: EventKind, timestamp: u64) -> Event {
    Event { kind, timestamp }
}

fn arrival(service: u64, t: u64) -> Event {
    ev(EventKind::Arrival { service }, t)
}

fn timeout(req: usize, t: u64) -> Event {
    ev(EventKind::Timeout { req }, t)
}

#[test]
fn monotonic_dequeue_concrete() {
    let mut q = EventQueue::new();
    q.push(arrival(1, 9));
    q.push(timeout(0, 3));
    q.push(arrival(2, 7));
    q.push(timeout(1, 3));
    q.push(arrival(3, 3));
    let mut last: u64 = 0;
    for _ in 0..5 {
        let e = q.pop().unwrap();
        assert!(e.timestamp >= last);
        last = e.timestamp;
    }
    assert!(q.pop().is_none());
}

#[test]
fn timeout_pops_last_both_push_orders() {
    let mut q = EventQueue::new();
    q.push(timeout(0, 5));
    q.push(arrival(1, 5));
    let first = q.pop().unwrap();
    assert!(!matches!(first.kind, EventKind::Timeout { .. }));
    let second = q.pop().unwrap();
    assert!(matches!(second.kind, EventKind::Timeout { .. }));

    let mut q2 = EventQueue::new();
    q2.push(arrival(1, 5));
    q2.push(timeout(0, 5));
    let first2 = q2.pop().unwrap();
    assert!(!matches!(first2.kind, EventKind::Timeout { .. }));
    let second2 = q2.pop().unwrap();
    assert!(matches!(second2.kind, EventKind::Timeout { .. }));
}

#[test]
fn incomparable_kinds_tie() {
    // Two co-timestamped non-timeout events: both pop orders are correct,
    // so only check that both leave and that no order is imposed by kind.
    let mut q = EventQueue::new();
    q.push(ev(EventKind::Departure { core: 0, req: 0, expected_remaining: 1 }, 4));
    q.push(ev(EventKind::QuantumOver { core: 0, req: 0, expected_remaining: 1 }, 4));
    let a = q.pop().unwrap();
    let b = q.pop().unwrap();
    assert_eq!(a.timestamp, 4);
    assert_eq!(b.timestamp, 4);
    let mut saw_dep = false;
    let mut saw_qo = false;
    for e in [a, b] {
        match e.kind {
            EventKind::Departure { .. } => saw_dep = true,
            EventKind::QuantumOver { .. } => saw_qo = true,
            _ => panic!("unexpected kind"),
        }
    }
    assert!(saw_dep && saw_qo);
}

#[test]
fn config_errors() {
    assert!(matches!(Sim::new(0, 4), Err(ConfigError::NoCores)));
    assert!(matches!(Sim::new(1, 0), Err(ConfigError::ZeroQuantum)));
    assert!(Sim::new(1, 4).is_ok());
    assert!(matches!(run_sim(0, 4, 5, 10), Err(ConfigError::NoCores)));
    assert!(matches!(run_sim(1, 0, 5, 10), Err(ConfigError::ZeroQuantum)));
    assert!(matches!(run_sim(1, 4, 0, 10), Err(ConfigError::ZeroSampleBound)));
}

#[test]
fn completes_within_quantum_and_stale_timeout_noop() {
    // 1 core, quantum 4, one request of service 4, timeout longer than 4:
    // it completes at arrival + 4 and the late timeout is a no-op.
    let mut sim = Sim::new(1, 4).unwrap();
    assert!(sim.schedule_arrival(0, 4));
    // Arrival at 0: next arrival pushed far away, timeout armed at 50.
    assert!(sim.step(1000, 1, 50));
    // Quantum expiry and departure tie at 4; the first to pop completes
    // the request, the other is stale.
    assert!(sim.step(1000, 1, 50));
    let r = sim.request_info(0).unwrap();
    assert_eq!(r.state, ReqState::Completed);
    assert_eq!(r.finished_at, Some(4));
    assert_eq!(r.remaining_service, 0);
    assert_eq!(sim.core_info(0).unwrap().total_busy_time, 4);
    // The stale co-timestamped segment event.
    assert!(sim.step(1000, 1, 50));
    // The stale timeout at 50: still completed, not timed out.
    assert_eq!(sim.now(), 4);
    assert!(sim.step(1000, 1, 50));
    assert_eq!(sim.now(), 50);
    let r = sim.request_info(0).unwrap();
    assert_eq!(r.state, ReqState::Completed);
    assert_eq!(r.finished_at, Some(4));
}

#[test]
fn round_robin_preemption_service_five_quantum_two() {
    // 1 core, quantum 2, one request of service 5: quantum expiries at
    // 2 and 4 leave 3 then 1 remaining, departure at 5, busy time 5.
    let mut sim = Sim::new(1, 2).unwrap();
    assert!(sim.schedule_arrival(0, 5));
    assert!(sim.step(1000, 1, 900)); // arrival at 0
    assert!(sim.step(1000, 1, 900)); // quantum over at 2
    assert_eq!(sim.now(), 2);
    assert_eq!(sim.request_info(0).unwrap().remaining_service, 3);
    assert!(sim.step(1000, 1, 900)); // quantum over at 4
    assert_eq!(sim.now(), 4);
    assert_eq!(sim.request_info(0).unwrap().remaining_service, 1);
    assert!(sim.step(1000, 1, 900)); // departure at 5
    assert_eq!(sim.now(), 5);
    let r = sim.request_info(0).unwrap();
    assert_eq!(r.state, ReqState::Completed);
    assert_eq!(r.finished_at, Some(5));
    assert_eq!(r.total_service, 5);
    assert_eq!(r.remaining_service, 0);
    assert_eq!(sim.core_info(0).unwrap().total_busy_time, 5);
}

#[test]
fn waiting_request_times_out_while_core_busy() {
    // Request A occupies the single core; request B arrives, waits, and
    // its short timeout fires first: B ends timed out without running and
    // A's service is unaffected.
    let mut sim = Sim::new(1, 10).unwrap();
    assert!(sim.schedule_arrival(0, 6));
    // A arrives at 0 with timeout 100; B arrives at 2 with service 5.
    assert!(sim.step(2, 5, 100));
    // B arrives at 2, waits (core busy), timeout armed at 3.
    assert!(sim.step(1000, 1, 1));
    assert_eq!(sim.waiting_count(), 1);
    // B's timeout fires at 3 while B still waits.
    assert!(sim.step(1000, 1, 1));
    let b = sim.request_info(1).unwrap();
    assert_eq!(b.state, ReqState::TimedOut);
    assert_eq!(b.finished_at, Some(3));
    assert_eq!(b.remaining_service, b.total_service);
    assert_eq!(sim.waiting_count(), 0);
    // A departs at 6, unaffected.
    assert!(sim.step(1000, 1, 1));
    assert_eq!(sim.now(), 6);
    let a = sim.request_info(0).unwrap();
    assert_eq!(a.state, ReqState::Completed);
    assert_eq!(a.finished_at, Some(6));
    assert_eq!(a.remaining_service, 0);
    assert_eq!(sim.core_info(0).unwrap().total_busy_time, 6);
}

#[test]
fn timeout_after_start_is_noop() {
    // The conservative policy: a timeout firing for a request that has
    // already started running is ignored.
    let mut sim = Sim::new(1, 10).unwrap();
    assert!(sim.schedule_arrival(0, 6));
    // A arrives at 0, starts at once, timeout armed at 2.
    assert!(sim.step(1000, 1, 2));
    // The timeout pops at 2 while A runs: no-op.
    assert!(sim.step(1000, 1, 2));
    let a = sim.request_info(0).unwrap();
    assert_eq!(a.state, ReqState::Running);
    // A still departs at 6.
    assert!(sim.step(1000, 1, 2));
    assert_eq!(sim.request_info(0).unwrap().state, ReqState::Completed);
}

#[test]
fn two_cores_two_arrivals_run_in_parallel() {
    let mut sim = Sim::new(2, 8).unwrap();
    assert!(sim.schedule_arrival(0, 3));
    // A at 0 (timeout 500); B at 1 with service 4.
    assert!(sim.step(1, 4, 500));
    // B arrives at 1 and takes the second core.
    assert!(sim.step(1000, 1, 500));
    assert_eq!(sim.waiting_count(), 0);
    // A departs at 3, B at 5.
    assert!(sim.step(1000, 1, 500));
    assert_eq!(sim.request_info(0).unwrap().state, ReqState::Completed);
    assert!(sim.step(1000, 1, 500));
    let b = sim.request_info(1).unwrap();
    assert_eq!(b.state, ReqState::Completed);
    assert_eq!(b.finished_at, Some(5));
    assert_eq!(sim.core_info(0).unwrap().total_busy_time, 3);
    assert_eq!(sim.core_info(1).unwrap().total_busy_time, 4);
}

#[test]
fn rejected_schedules_change_nothing() {
    let mut sim = Sim::new(1, 4).unwrap();
    assert!(!sim.schedule_arrival(0, 0)); // zero service rejected
    assert_eq!(sim.pending_events(), 0);
    assert!(sim.schedule_arrival(3, 2));
    assert!(sim.step(1000, 1, 50));
    assert_eq!(sim.now(), 3);
    assert!(!sim.schedule_arrival(2, 5)); // in the past now
    assert_eq!(sim.num_requests(), 1);
}

#[test]
fn driven_run_terminates_and_reports() {
    let sim = run_sim(2, 3, 10, 200).unwrap();
    // Every drawn duration lies in 1..=10, so the first arrival is due
    // no earlier than 1; the clock only advances by consuming events.
    assert!(sim.now() >= 1);
    assert!(sim.num_requests() >= 1);
    for c in 0..sim.num_cores() {
        // Busy time on each core fits within elapsed simulated time.
        assert!(sim.core_info(c).unwrap().total_busy_time <= sim.now());
    }
}

#[test]
fn drawn_durations_stay_in_bounds() {
    for _ in 0..50 {
        let d = rrsim::rng::draw_duration(7);
        assert!(1 <= d && d <= 7);
    }
    assert_eq!(rrsim::rng::draw_duration(1), 1);
}
