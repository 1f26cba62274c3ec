//! What can be set while the supervisor runs.

use vstd::prelude::*;

verus! {

/// The timeouts of a session, in seconds, and whether the live list of
/// ground stations is used.
#[derive(Debug, Clone, Copy, PartialEq, Eq, Structural)]
pub struct Settings {
    pub use_airframes_live_gs: bool,
    pub stale_timeout_seconds: u32,
    pub session_break_seconds: u32,
    pub session_timeout_seconds: u32,
}

} // verus!
