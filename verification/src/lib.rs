//! A verified client-side prediction and server-reconciliation core for a
//! fixed-tick networked simulation.
//!
//! The library models the authoritative server loop, the per-entity movement
//! rules, the acknowledgment ledger, the client input buffer, the predicted
//! state history and the rollback/replay pass over plain data.  All kinematic
//! quantities are milli-scaled fixed-point integers, so every step is
//! bit-for-bit reproducible — the property the rollback engine depends on.

use vstd::prelude::*;

pub mod ack;
pub mod client;
pub mod fixed;
pub mod history;
pub mod movement;
pub mod server;

verus! {

/// The discrete time unit of the fixed-step simulation.  Ticks are global per
/// session and increase by exactly one per authoritative step.
pub type Tick = u32;

} // verus!
