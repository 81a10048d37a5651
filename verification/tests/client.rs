use market_feed::client::{Client, ConnectStep};
use market_feed::errors::{ConfigError, ConnectError, FailureCause, IoError};
use market_feed::handshake::SessionConfig;
use market_feed::receive::{FrameDecoder, ReceiveAction};
use market_feed::state::ConnectionState;
use market_feed::transport::{DialOutcome, RawRead, ReadFault};

const URL: &str =
    "https://ttblaze.iifl.com/?token=s3cr%2Bt&userID=U1&publishFormat=JSON&broadcastMode=Full";

fn client() -> Client {
    Client::new(
        "ttblaze.iifl.com".to_string(),
        "s3cr+t".to_string(),
        "U1".to_string(),
        "JSON".to_string(),
        "Full".to_string(),
    )
    .ok()
    .unwrap()
}

fn live_client() -> Client {
    let mut c = client();
    c.begin_connect().unwrap();
    assert_eq!(c.finish_connect(DialOutcome::Connected), ConnectStep::Live);
    c
}

fn decoder() -> FrameDecoder {
    FrameDecoder::OutOfBand("data".to_string())
}

#[test]
fn a_new_client_is_disconnected() {
    let c = client();
    assert_eq!(c.state(), ConnectionState::Disconnected);
    assert!(c.session().is_none());
    assert_eq!(c.config().token(), "s3cr+t");
    assert_eq!(c.build_url(), URL);
}

#[test]
fn a_client_needs_every_field() {
    let s = |t: &str| t.to_string();
    assert_eq!(
        Client::new(s("h"), s("t"), s(""), s("f"), s("m")).err(),
        Some(ConfigError::EmptyUserId)
    );
    assert_eq!(
        Client::new(s(""), s(""), s(""), s(""), s("")).err(),
        Some(ConfigError::EmptyServerAddress)
    );
}

#[test]
fn a_client_from_a_configuration() {
    let config = SessionConfig::new(
        "h".to_string(),
        "t".to_string(),
        "u".to_string(),
        "f".to_string(),
        "m".to_string(),
    )
    .unwrap();
    let c = Client::from_config(config);
    assert_eq!(c.state(), ConnectionState::Disconnected);
    assert_eq!(c.build_url(), "https://h/?token=t&userID=u&publishFormat=f&broadcastMode=m");
}

#[test]
fn connecting_goes_through_the_connecting_state() {
    let mut c = client();
    assert_eq!(c.finish_connect(DialOutcome::Connected), ConnectStep::NotConnecting);
    assert_eq!(c.state(), ConnectionState::Disconnected);
    assert_eq!(c.begin_connect().as_deref(), Some(URL));
    assert_eq!(c.state(), ConnectionState::Connecting);
    assert!(c.session().is_none());
    assert_eq!(c.begin_connect(), None);
    assert_eq!(c.finish_connect(DialOutcome::Connected), ConnectStep::Live);
    assert_eq!(c.state(), ConnectionState::Live);
    let session = c.session().unwrap();
    assert!(session.is_open());
    assert_eq!(session.url(), URL);
    assert_eq!(c.begin_connect(), None);
    assert_eq!(c.finish_connect(DialOutcome::Rejected), ConnectStep::NotConnecting);
    assert_eq!(c.state(), ConnectionState::Live);
}

#[test]
fn a_failed_connect_can_be_retried() {
    let mut c = client();
    c.begin_connect().unwrap();
    assert_eq!(
        c.finish_connect(DialOutcome::Unreachable),
        ConnectStep::Failed(ConnectError::Network)
    );
    assert_eq!(c.state(), ConnectionState::Failed(FailureCause::Connect(ConnectError::Network)));
    assert!(c.session().is_none());
    assert_eq!(c.begin_connect().as_deref(), Some(URL));
    assert_eq!(
        c.finish_connect(DialOutcome::Rejected),
        ConnectStep::Failed(ConnectError::Handshake)
    );
    assert_eq!(c.state(), ConnectionState::Failed(FailureCause::Connect(ConnectError::Handshake)));
    c.begin_connect().unwrap();
    assert_eq!(c.finish_connect(DialOutcome::Connected), ConnectStep::Live);
}

#[test]
fn a_scripted_session_dispatches_a_then_b_and_fails_closed() {
    let mut c = live_client();
    let script = vec![
        RawRead::Data(b"A".to_vec()),
        RawRead::Data(Vec::new()),
        RawRead::Data(b"B".to_vec()),
        RawRead::Fault(ReadFault::UnexpectedEof),
    ];
    let mut handled: Vec<(String, Vec<u8>)> = Vec::new();
    for raw in script {
        match c.receive(raw, &decoder()) {
            ReceiveAction::Dispatch(f) => handled.push((f.event_type, f.payload)),
            ReceiveAction::Idle => {}
            ReceiveAction::Exit => break,
        }
    }
    assert_eq!(
        handled,
        vec![("data".to_string(), b"A".to_vec()), ("data".to_string(), b"B".to_vec())]
    );
    assert_eq!(c.state(), ConnectionState::Failed(FailureCause::Io(IoError::Closed)));
    assert!(c.session().is_none());
}

#[test]
fn a_recoverable_read_error_still_ends_the_loop() {
    let mut c = live_client();
    assert_eq!(c.receive(RawRead::Fault(ReadFault::Interrupted), &decoder()), ReceiveAction::Exit);
    assert_eq!(c.state(), ConnectionState::Failed(FailureCause::Io(IoError::Transient)));
    assert_eq!(c.receive(RawRead::Data(b"x".to_vec()), &decoder()), ReceiveAction::Exit);
}

#[test]
fn a_timeout_is_a_read_of_nothing() {
    let mut c = live_client();
    assert_eq!(c.receive(RawRead::Fault(ReadFault::TimedOut), &decoder()), ReceiveAction::Idle);
    assert_eq!(c.receive(RawRead::Fault(ReadFault::WouldBlock), &decoder()), ReceiveAction::Idle);
    assert_eq!(c.state(), ConnectionState::Live);
}

#[test]
fn a_reset_fails_the_connection_as_closed() {
    let mut c = live_client();
    assert_eq!(c.receive(RawRead::Fault(ReadFault::ConnectionReset), &decoder()), ReceiveAction::Exit);
    assert_eq!(c.state(), ConnectionState::Failed(FailureCause::Io(IoError::Closed)));
}

#[test]
fn stop_is_taken_once_and_ends_dispatching() {
    let mut c = live_client();
    assert!(c.stop());
    assert_eq!(c.state(), ConnectionState::Disconnected);
    assert!(c.session().is_none());
    assert!(!c.stop());
    assert!(!c.stop());
    assert_eq!(c.state(), ConnectionState::Disconnected);
    assert_eq!(c.receive(RawRead::Data(b"late".to_vec()), &decoder()), ReceiveAction::Exit);
    assert_eq!(c.state(), ConnectionState::Disconnected);
}

#[test]
fn stop_on_a_connection_that_is_not_live_changes_nothing() {
    let mut c = client();
    assert!(!c.stop());
    assert_eq!(c.state(), ConnectionState::Disconnected);
    c.begin_connect().unwrap();
    assert!(!c.stop());
    assert_eq!(c.state(), ConnectionState::Connecting);
    c.finish_connect(DialOutcome::Rejected);
    assert!(!c.stop());
    assert_eq!(c.state(), ConnectionState::Failed(FailureCause::Connect(ConnectError::Handshake)));
}

#[test]
fn a_stopped_client_can_connect_again() {
    let mut c = live_client();
    assert!(c.stop());
    assert_eq!(c.begin_connect().as_deref(), Some(URL));
    assert_eq!(c.finish_connect(DialOutcome::Connected), ConnectStep::Live);
    assert_eq!(
        c.receive(RawRead::Data(b"again".to_vec()), &decoder()),
        ReceiveAction::Dispatch(market_feed::receive::EventFrame {
            event_type: "data".to_string(),
            payload: b"again".to_vec()
        })
    );
}
