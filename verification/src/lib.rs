//! A discrete-event simulation kernel for a multi-core request-processing
//! server under round-robin scheduling with a fixed time quantum and
//! per-request timeouts.
//!
//! The kernel is built from a time-ordered event queue with a timeout-last
//! tie-break, a request/core lifecycle state machine, and a dispatcher that
//! turns one event into zero or more follow-up events. Timers are never
//! cancelled: a stale event is recognised at fire time and ignored.
use vstd::prelude::*;

verus! {

} // verus!

pub mod event;
pub mod rng;
pub mod sim;
pub mod model;
pub mod queue;
pub mod state;
