//! Orchestration core for a fixed-size pool of execution slots that run an
//! external subprocess per work token and report results to a remote
//! coordinator.
//!
//! The library holds the verified logic: the slot-pool scheduler, the
//! subprocess supervision state machine, the coordinator protocol rules, and
//! the cooperative shutdown/drain decisions. All I/O (HTTP, filesystem,
//! process handling) is performed by the surrounding application, which feeds
//! plain values into these functions and acts on what they return.

pub mod decimal;
pub mod outcome;
pub mod pool;
pub mod protocol;
pub mod serverproperties;
pub mod supervisor;
