//! How long the server waits, and which steps took too long.
use vstd::prelude::*;

verus! {

/// How many milliseconds a look for new connections waits.
pub const ACCEPT_WAIT_MILLIS: u64 = 1;

/// How many seconds a handshake may take.
pub const HANDSHAKE_WAIT_SECONDS: u64 = 10;

/// A step that takes longer than this many milliseconds is slow.
pub const SLOW_STEP_MILLIS: u128 = 10;

/// A handshake that takes longer than this many milliseconds is slow.
pub const SLOW_HANDSHAKE_MILLIS: u128 = 100;

/// Setting up a connection for longer than this many milliseconds is slow.
pub const SLOW_SETUP_MILLIS: u128 = 50;

/// A broadcast that takes longer than this many milliseconds is slow.
pub const SLOW_BROADCAST_MILLIS: u128 = 100;

/// Something whose time is taken.
#[derive(Debug, Clone, Copy, PartialEq, Eq, Structural)]
pub enum TimedStep {
    Accept,
    Handshake,
    Split,
    Register,
    Spawn,
    Setup,
    MessageProcessing,
    Scan,
    Broadcast,
}

impl TimedStep {
    /// How many milliseconds the step may take without being slow.
    pub open spec fn limit(self) -> u128 {
        match self {
            TimedStep::Handshake => 100,
            TimedStep::Setup => 50,
            TimedStep::Broadcast => 100,
            _ => 10,
        }
    }

    /// Whether a step that took `millis` milliseconds was slow.
    pub fn is_slow(&self, millis: u128) -> (slow: bool)
        ensures
            slow == (millis > self.limit()),
    {
        let limit: u128 = match self {
            TimedStep::Handshake => SLOW_HANDSHAKE_MILLIS,
            TimedStep::Setup => SLOW_SETUP_MILLIS,
            TimedStep::Broadcast => SLOW_BROADCAST_MILLIS,
            _ => SLOW_STEP_MILLIS,
        };
        millis > limit
    }
}

} // verus!
