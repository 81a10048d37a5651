use market_feed::errors::{ClientError, ConnectError, FailureCause, IoError};
use market_feed::reconnect::{BackoffPolicy, ReconnectSupervisor, SupervisorAction};
use market_feed::state::ConnectionState;

fn failed_connect() -> ConnectionState {
    ConnectionState::Failed(FailureCause::Connect(ConnectError::Network))
}

#[test]
fn bounds_the_wrong_way_round_are_refused() {
    assert!(BackoffPolicy::new(5, 4, 3).is_none());
    assert!(BackoffPolicy::new(4, 4, 3).is_some());
    assert!(BackoffPolicy::new(0, 0, 0).is_some());
    let p = BackoffPolicy::new(1, 4, 3).unwrap();
    assert_eq!((p.min_delay(), p.max_delay(), p.max_attempts()), (1, 4, 3));
}

#[test]
fn delays_double_up_to_the_cap() {
    let p = BackoffPolicy::new(1, 4, 3).unwrap();
    assert_eq!([p.delay(0), p.delay(1), p.delay(2), p.delay(3), p.delay(40)], [1, 2, 4, 4, 4]);
    let p = BackoffPolicy::new(3, 20, 10).unwrap();
    assert_eq!([p.delay(0), p.delay(1), p.delay(2), p.delay(3), p.delay(4)], [3, 6, 12, 20, 20]);
    let p = BackoffPolicy::new(100, 100, 1).unwrap();
    assert_eq!([p.delay(0), p.delay(1), p.delay(u32::MAX)], [100, 100, 100]);
}

#[test]
fn delays_at_the_ends_of_the_range() {
    let p = BackoffPolicy::new(0, 10, 1).unwrap();
    assert_eq!([p.delay(0), p.delay(1), p.delay(u32::MAX)], [0, 0, 0]);
    let p = BackoffPolicy::new(1, u64::MAX, 1).unwrap();
    assert_eq!(p.delay(63), 1u64 << 63);
    assert_eq!(p.delay(64), u64::MAX);
    assert_eq!(p.delay(u32::MAX), u64::MAX);
    let p = BackoffPolicy::new(u64::MAX, u64::MAX, 1).unwrap();
    assert_eq!(p.delay(0), u64::MAX);
    assert_eq!(p.delay(1), u64::MAX);
}

#[test]
fn three_failures_three_retries_then_unrecoverable() {
    let policy = BackoffPolicy::new(1, 4, 3).unwrap();
    let mut supervisor = ReconnectSupervisor::new(policy);
    let mut waits = Vec::new();
    let mut connects = 0;
    let mut state = ConnectionState::Failed(FailureCause::Io(IoError::Closed));
    let error = loop {
        match supervisor.observe(state) {
            SupervisorAction::RetryAfter(delay) => {
                waits.push(delay);
                // The caller waits, connects again, and the connect fails.
                assert!(state.apply(market_feed::state::StateEvent::ConnectStarted));
                connects += 1;
                assert!(state.apply(market_feed::state::StateEvent::HandshakeFailed(
                    ConnectError::Network
                )));
            }
            SupervisorAction::GiveUp(e) => break e,
            SupervisorAction::Idle => panic!("a failure must be answered"),
        }
    };
    assert_eq!(connects, 3);
    assert_eq!(waits, vec![1, 2, 4]);
    assert_eq!(
        error,
        ClientError::Unrecoverable {
            cause: FailureCause::Connect(ConnectError::Network),
            attempts: 3
        }
    );
    // It stays given up.
    assert_eq!(supervisor.observe(state), SupervisorAction::GiveUp(error));
    assert_eq!(supervisor.attempts(), 3);
}

#[test]
fn no_retries_allowed_gives_up_at_once() {
    let mut s = ReconnectSupervisor::new(BackoffPolicy::new(1, 4, 0).unwrap());
    assert_eq!(
        s.observe(ConnectionState::Failed(FailureCause::Io(IoError::Transient))),
        SupervisorAction::GiveUp(ClientError::Unrecoverable {
            cause: FailureCause::Io(IoError::Transient),
            attempts: 0
        })
    );
}

#[test]
fn only_failures_are_acted_on() {
    let mut s = ReconnectSupervisor::new(BackoffPolicy::new(1, 4, 3).unwrap());
    assert_eq!(s.observe(ConnectionState::Disconnected), SupervisorAction::Idle);
    assert_eq!(s.observe(ConnectionState::Connecting), SupervisorAction::Idle);
    assert_eq!(s.observe(ConnectionState::Live), SupervisorAction::Idle);
    assert_eq!(s.attempts(), 0);
    assert_eq!(s.policy(), BackoffPolicy::new(1, 4, 3).unwrap());
}

#[test]
fn a_live_connection_clears_the_count() {
    let mut s = ReconnectSupervisor::new(BackoffPolicy::new(1, 4, 3).unwrap());
    assert_eq!(s.observe(failed_connect()), SupervisorAction::RetryAfter(1));
    assert_eq!(s.observe(failed_connect()), SupervisorAction::RetryAfter(2));
    assert_eq!(s.attempts(), 2);
    assert_eq!(s.observe(ConnectionState::Connecting), SupervisorAction::Idle);
    assert_eq!(s.attempts(), 2);
    assert_eq!(s.observe(ConnectionState::Live), SupervisorAction::Idle);
    assert_eq!(s.attempts(), 0);
    assert_eq!(s.observe(failed_connect()), SupervisorAction::RetryAfter(1));
}

#[test]
fn the_last_cause_is_the_one_reported() {
    let mut s = ReconnectSupervisor::new(BackoffPolicy::new(2, 2, 1).unwrap());
    assert_eq!(
        s.observe(ConnectionState::Failed(FailureCause::Io(IoError::Closed))),
        SupervisorAction::RetryAfter(2)
    );
    assert_eq!(
        s.observe(ConnectionState::Failed(FailureCause::Connect(ConnectError::Handshake))),
        SupervisorAction::GiveUp(ClientError::Unrecoverable {
            cause: FailureCause::Connect(ConnectError::Handshake),
            attempts: 1
        })
    );
}
