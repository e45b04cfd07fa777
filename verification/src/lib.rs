//! Watches source-control repositories for commit and release events and, when
//! a configured interest matches an incoming event, launches one short-lived,
//! time-bounded container per matched container template.
//!
//! The verified core is the interest matcher (a pure function from an event and
//! a configuration to an ordered list of matches), the per-run staging-file
//! naming used to hand each container its triggering event's payload, and the
//! state machine that supervises one container run from creation through
//! timeout enforcement to cleanup. The unverified shell around the library
//! performs the actual file writes and container-engine calls and feeds their
//! results back into the state machine.

pub mod config;
pub mod event;
pub mod matcher;
pub mod staging;
pub mod supervisor;
