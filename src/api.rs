use crate::pow::PowSolution;
use vstd::prelude::*;

verus! {

/// A heartbeat as the person's client submits it.
#[derive(Debug, Clone, PartialEq)]
pub struct HeartbeatRequest {
    /// Clear the note shown on the front page.
    pub remove_current_note: bool,
    /// A new note; an empty one keeps the current note.
    pub updated_note: String,
    /// Message shown beside the heartbeat; may be empty.
    pub message: String,
    pub password: String,
    pub pow: PowSolution,
}

/// What the admission of a heartbeat came to.
#[derive(Debug, Clone, Copy, PartialEq, Eq, Structural)]
pub enum HeartbeatOutcome {
    /// The address is blocked for `retry_after` more seconds; nothing was checked.
    RateLimited { retry_after: u64 },
    /// The proof of work was wrong or stale; the client may retry at once.
    InvalidPow,
    /// The password was wrong; the address is now blocked for `retry_after` seconds.
    Unauthorized { retry_after: u64 },
    /// The heartbeat was recorded.
    Accepted,
}

/// The public status, as served to API clients.
#[derive(Debug, Clone, PartialEq)]
pub struct StatusApiResponse {
    /// The published name of the liveness state.
    pub status: String,
    /// Unix time of the last accepted heartbeat, in seconds.
    pub last_heartbeat: u64,
    /// The active note, empty when there is none.
    pub active_note: String,
}

} // verus!
