use game_metrics::session::RETRY_BACKOFF_SECONDS;
use game_metrics::SessionAction;
use game_metrics::SessionEvent;
use game_metrics::SessionState;
use game_metrics::step;

#[test]
fn backoff_is_fixed_at_five_seconds() {
    assert_eq!(RETRY_BACKOFF_SECONDS, 5);
}

#[test]
fn connect_failures_then_success_take_two_backoffs() {
    // A transport whose connect fails twice, then succeeds; authentication
    // succeeds on the first attempt after the connect.
    let connect_outcomes = [false, false, true];
    let mut next_connect: usize = 0;
    let mut state = SessionState::Disconnected;
    let mut sleeps: usize = 0;
    loop {
        let event = match state {
            SessionState::Disconnected => {
                let ok = connect_outcomes[next_connect];
                next_connect += 1;
                if ok {
                    SessionEvent::ConnectSucceeded
                } else {
                    SessionEvent::ConnectFailed
                }
            }
            SessionState::Connected => SessionEvent::AuthSucceeded,
            SessionState::Authenticated => break,
        };
        let (next, action) = step(state, event);
        if action == SessionAction::BackOffAndReconnect {
            sleeps += 1;
        }
        state = next;
        if action == SessionAction::Complete {
            break;
        }
    }
    assert_eq!(sleeps, 2);
    assert_eq!(state, SessionState::Authenticated);
    assert_eq!(next_connect, 3);
}

#[test]
fn rejected_auth_restarts_the_full_cycle() {
    // A transport whose connect always succeeds; authentication is rejected
    // twice before it succeeds. Each rejection must restart at connect.
    let auth_outcomes = [false, false, true];
    let mut next_auth: usize = 0;
    let mut connects: usize = 0;
    let mut state = SessionState::Disconnected;
    let mut sleeps: usize = 0;
    loop {
        let event = match state {
            SessionState::Disconnected => {
                connects += 1;
                SessionEvent::ConnectSucceeded
            }
            SessionState::Connected => {
                let ok = auth_outcomes[next_auth];
                next_auth += 1;
                if ok {
                    SessionEvent::AuthSucceeded
                } else {
                    SessionEvent::AuthRejected
                }
            }
            SessionState::Authenticated => break,
        };
        let (next, action) = step(state, event);
        if action == SessionAction::BackOffAndReconnect {
            // A rejected secret sends the machine back to connecting from
            // scratch, not back to another authentication attempt.
            assert_eq!(next, SessionState::Disconnected);
            sleeps += 1;
        }
        state = next;
        if action == SessionAction::Complete {
            break;
        }
    }
    assert_eq!(state, SessionState::Authenticated);
    assert_eq!(sleeps, 2);
    assert_eq!(connects, 3);
    assert_eq!(next_auth, 3);
}

#[test]
fn transport_error_during_auth_reconnects() {
    let (next, action) = step(SessionState::Connected, SessionEvent::AuthErrored);
    assert_eq!(next, SessionState::Disconnected);
    assert_eq!(action, SessionAction::BackOffAndReconnect);
}

#[test]
fn successful_connect_proceeds_to_auth() {
    let (next, action) = step(SessionState::Disconnected, SessionEvent::ConnectSucceeded);
    assert_eq!(next, SessionState::Connected);
    assert_eq!(action, SessionAction::Authenticate);
}
