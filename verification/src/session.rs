use vstd::prelude::*;

verus! {

/// Seconds slept between failed construction attempts: a fixed backoff, with
/// no growth and no jitter.
pub const RETRY_BACKOFF_SECONDS: u64 = 5;

/// Read timeout on the console socket, in seconds: generous, to tolerate
/// slow server replies.
pub const READ_TIMEOUT_SECONDS: u64 = 13;

/// Write timeout on the console socket, in seconds: looser still, while
/// failing eventually on stalled writes.
pub const WRITE_TIMEOUT_SECONDS: u64 = 37;

/// Connection-lifecycle states of a collector under construction. The loop
/// starts at `Disconnected` and runs until it first reaches `Authenticated`.
#[derive(Clone, Copy, PartialEq, Eq, Debug, Structural)]
pub enum SessionState {
    Disconnected,
    Connected,
    Authenticated,
}

/// The observed outcome of the attempt a state calls for: connecting while
/// disconnected, authenticating once connected. A rejected secret is a
/// normal negative outcome, distinct from a transport error during the
/// handshake.
#[derive(Clone, Copy, PartialEq, Eq, Debug, Structural)]
pub enum SessionEvent {
    ConnectSucceeded,
    ConnectFailed,
    AuthSucceeded,
    AuthRejected,
    AuthErrored,
}

/// What the construction loop does after a transition: go on to the
/// authentication handshake, sleep the fixed backoff and reconnect from
/// scratch, or stop with a usable session.
#[derive(Clone, Copy, PartialEq, Eq, Debug, Structural)]
pub enum SessionAction {
    Authenticate,
    BackOffAndReconnect,
    Complete,
}

/// The transition table of the construction state machine: a successful
/// connect moves on to authentication, a successful authentication completes
/// construction, and every other outcome returns to `Disconnected` behind a
/// backoff sleep.
pub open spec fn spec_step(state: SessionState, event: SessionEvent) -> (SessionState,
    SessionAction) {
    match (state, event) {
        (SessionState::Disconnected, SessionEvent::ConnectSucceeded) => (
            SessionState::Connected,
            SessionAction::Authenticate,
        ),
        (SessionState::Connected, SessionEvent::AuthSucceeded) => (
            SessionState::Authenticated,
            SessionAction::Complete,
        ),
        _ => (SessionState::Disconnected, SessionAction::BackOffAndReconnect),
    }
}

/// Advances the construction state machine by one observed outcome.
pub fn step(state: SessionState, event: SessionEvent) -> (r: (SessionState, SessionAction))
    ensures
        r == spec_step(state, event),
{
    match (state, event) {
        (SessionState::Disconnected, SessionEvent::ConnectSucceeded) => (
            SessionState::Connected,
            SessionAction::Authenticate,
        ),
        (SessionState::Connected, SessionEvent::AuthSucceeded) => (
            SessionState::Authenticated,
            SessionAction::Complete,
        ),
        _ => (SessionState::Disconnected, SessionAction::BackOffAndReconnect),
    }
}

/// Law: construction completes only through an authentication success on a
/// live connection, and exactly then does the machine signal completion; in
/// particular a run that never observes `AuthSucceeded` never terminates,
/// however often it connects.
pub proof fn lemma_completion_only_on_auth_success(state: SessionState, event: SessionEvent)
    ensures
        (spec_step(state, event).0 == SessionState::Authenticated) <==> (state
            == SessionState::Connected && event == SessionEvent::AuthSucceeded),
        (spec_step(state, event).1 == SessionAction::Complete) <==> (state
            == SessionState::Connected && event == SessionEvent::AuthSucceeded),
{
}

/// Law: every failed attempt — a connect failure, a rejected secret, or a
/// transport error during the handshake — returns the machine to
/// `Disconnected` behind one backoff sleep, so the next cycle repeats the
/// full connect-then-authenticate sequence rather than retrying
/// authentication alone.
pub proof fn lemma_failure_restarts_full_cycle(state: SessionState, event: SessionEvent)
    requires
        event == SessionEvent::ConnectFailed || event == SessionEvent::AuthRejected || event
            == SessionEvent::AuthErrored,
    ensures
        spec_step(state, event) == (SessionState::Disconnected, SessionAction::BackOffAndReconnect),
{
}

} // verus!
