//! The incoming events the system reacts to. Events are produced by an
//! external listener; the core treats each one as an immutable value with a
//! repository identity, a kind, and an opaque raw payload.

use vstd::prelude::*;

verus! {

/// What happened in the repository.
pub enum EventKind {
    /// A commit was pushed to the named branch.
    Commit { branch: String },
    /// A release was published.
    Release,
}

/// One incoming event from the source-control provider.
pub struct Event {
    /// The user or organization that owns the repository the event is about.
    pub owner: String,
    /// The name of the repository the event is about.
    pub name: String,
    /// What happened.
    pub kind: EventKind,
    /// The raw payload as received from the provider, treated as opaque bytes.
    pub payload: Vec<u8>,
}

} // verus!
