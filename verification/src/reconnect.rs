use vstd::prelude::*;

verus! {

/// How many times a lost connection is tried again before giving up.
pub const RECONNECT_ATTEMPTS: u32 = 3;

/// How long to wait before each try, in milliseconds.
pub const RECONNECT_DELAY_MS: u64 = 5000;

/// What to do next while a lost connection is being restored.
#[derive(Debug, Clone, Copy, PartialEq, Eq, Structural)]
pub enum ReconnectStep {
    /// Wait `RECONNECT_DELAY_MS`, try to reconnect, and record the outcome.
    Attempt,
    /// The connection is back.
    Reconnected,
    /// Every try failed.
    GiveUp,
}

/// What to do after `attempts` tries, the last of which succeeded when
/// `connected`.
pub open spec fn next_step(attempts: nat, connected: bool) -> ReconnectStep {
    if connected {
        ReconnectStep::Reconnected
    } else if attempts < RECONNECT_ATTEMPTS {
        ReconnectStep::Attempt
    } else {
        ReconnectStep::GiveUp
    }
}

/// The progress of restoring a lost connection: how many tries were made
/// and whether the last one succeeded.
#[derive(Debug)]
pub struct Reconnection {
    attempts: u32,
    connected: bool,
}

impl Reconnection {
    /// The number of tries made so far.
    pub closed spec fn spec_attempts(&self) -> nat {
        self.attempts as nat
    }

    /// Whether the last try succeeded.
    pub closed spec fn spec_connected(&self) -> bool {
        self.connected
    }

    /// No try made yet, and not connected.
    pub fn new() -> (r: Self)
        ensures
            r.spec_attempts() == 0,
            !r.spec_connected(),
    {
        Reconnection { attempts: 0, connected: false }
    }

    /// What to do next: stop once a try has succeeded, try again while fewer
    /// than `RECONNECT_ATTEMPTS` tries were made, and give up otherwise.
    pub fn step(&self) -> (s: ReconnectStep)
        ensures
            s == next_step(self.spec_attempts(), self.spec_connected()),
    {
        if self.connected {
            ReconnectStep::Reconnected
        } else if self.attempts < RECONNECT_ATTEMPTS {
            ReconnectStep::Attempt
        } else {
            ReconnectStep::GiveUp
        }
    }

    /// Records the outcome of a try that `step` asked for.
    pub fn record(&mut self, succeeded: bool)
        requires
            !old(self).spec_connected(),
            old(self).spec_attempts() < RECONNECT_ATTEMPTS,
        ensures
            final(self).spec_attempts() == old(self).spec_attempts() + 1,
            final(self).spec_connected() == succeeded,
    {
        self.attempts = self.attempts + 1;
        self.connected = succeeded;
    }
}

/// A run of tries driven by `step` and `record` makes at most
/// `RECONNECT_ATTEMPTS` tries: `step` asks for a try only while fewer were
/// made and none succeeded, so each `record` is allowed and adds one; it
/// reports success as soon as a try succeeds, and gives up exactly when
/// `RECONNECT_ATTEMPTS` tries have all failed.
pub proof fn lemma_reconnect_bounded(attempts: nat, connected: bool)
    requires
        attempts <= RECONNECT_ATTEMPTS,
    ensures
        next_step(attempts, connected) == ReconnectStep::Attempt ==> !connected && attempts
            < RECONNECT_ATTEMPTS,
        connected ==> next_step(attempts, connected) == ReconnectStep::Reconnected,
        next_step(attempts, connected) == ReconnectStep::GiveUp <==> !connected && attempts
            == RECONNECT_ATTEMPTS,
{
}

} // verus!
