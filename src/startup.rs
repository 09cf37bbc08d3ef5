//! Waiting for a new server's listener: how many connection attempts to make
//! and when to stop.
use vstd::prelude::*;

verus! {

/// How many connection attempts a starting server makes before it returns
/// regardless.
pub const STARTUP_ATTEMPTS: u32 = 40;

/// What to do after a connection attempt.
#[derive(Debug, PartialEq, Eq, Structural, Clone, Copy)]
pub enum StartupStep {
    /// The listener accepts connections: return.
    Ready,
    /// Sleep, then try again.
    Retry,
    /// Sleep, then return without a connection.
    GiveUp,
}

/// The step after attempt number `attempt` (counting from 0) has or has not
/// connected.
pub open spec fn startup_step_spec(attempt: u32, connected: bool) -> StartupStep {
    if connected {
        StartupStep::Ready
    } else if attempt + 1 < STARTUP_ATTEMPTS {
        StartupStep::Retry
    } else {
        StartupStep::GiveUp
    }
}

pub fn startup_step(attempt: u32, connected: bool) -> (r: StartupStep)
    ensures
        r == startup_step_spec(attempt, connected),
{
    if connected {
        StartupStep::Ready
    } else if attempt < STARTUP_ATTEMPTS - 1 {
        StartupStep::Retry
    } else {
        StartupStep::GiveUp
    }
}

} // verus!
