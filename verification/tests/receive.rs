use market_feed::errors::{FailureCause, IoError};
use market_feed::receive::{receive_all, receive_step, EventFrame, FrameDecoder, ReceiveAction};
use market_feed::state::ConnectionState;

fn out_of_band() -> FrameDecoder {
    FrameDecoder::OutOfBand("tick".to_string())
}

fn frame(event_type: &str, payload: &[u8]) -> EventFrame {
    EventFrame { event_type: event_type.to_string(), payload: payload.to_vec() }
}

#[test]
fn reads_a_empty_b_then_closed_dispatch_a_then_b() {
    let reads = vec![
        Ok(b"A".to_vec()),
        Ok(Vec::new()),
        Ok(b"B".to_vec()),
        Err(IoError::Closed),
    ];
    let (state, frames) = receive_all(ConnectionState::Live, &reads, &out_of_band());
    assert_eq!(frames.len(), 2);
    assert_eq!(frames[0].payload, b"A".to_vec());
    assert_eq!(frames[1].payload, b"B".to_vec());
    assert_eq!(frames, vec![frame("tick", b"A"), frame("tick", b"B")]);
    assert_eq!(state, ConnectionState::Failed(FailureCause::Io(IoError::Closed)));
}

#[test]
fn the_same_run_step_by_step() {
    let decoder = out_of_band();
    let mut state = ConnectionState::Live;
    let mut dispatched: Vec<Vec<u8>> = Vec::new();
    let reads = vec![
        Ok(b"A".to_vec()),
        Ok(Vec::new()),
        Ok(b"B".to_vec()),
        Err(IoError::Closed),
        Ok(b"C".to_vec()),
    ];
    let mut turns = 0;
    for read in reads {
        let (next, action) = receive_step(state, read, &decoder);
        state = next;
        turns += 1;
        match action {
            ReceiveAction::Dispatch(f) => dispatched.push(f.payload),
            ReceiveAction::Idle => {}
            ReceiveAction::Exit => break,
        }
    }
    assert_eq!(turns, 4);
    assert_eq!(dispatched, vec![b"A".to_vec(), b"B".to_vec()]);
    assert_eq!(state, ConnectionState::Failed(FailureCause::Io(IoError::Closed)));
}

#[test]
fn nothing_after_the_first_error_is_dispatched() {
    let reads = vec![Err(IoError::Transient), Ok(b"late".to_vec())];
    let (state, frames) = receive_all(ConnectionState::Live, &reads, &out_of_band());
    assert!(frames.is_empty());
    assert_eq!(state, ConnectionState::Failed(FailureCause::Io(IoError::Transient)));
}

#[test]
fn a_run_without_error_stays_live() {
    let reads = vec![Ok(b"1".to_vec()), Ok(b"2".to_vec()), Ok(Vec::new()), Ok(b"3".to_vec())];
    let (state, frames) = receive_all(ConnectionState::Live, &reads, &out_of_band());
    assert_eq!(state, ConnectionState::Live);
    assert_eq!(frames, vec![frame("tick", b"1"), frame("tick", b"2"), frame("tick", b"3")]);
    let (state, frames) = receive_all(ConnectionState::Live, &Vec::new(), &out_of_band());
    assert_eq!(state, ConnectionState::Live);
    assert!(frames.is_empty());
}

#[test]
fn a_connection_that_is_not_live_dispatches_nothing() {
    let others = [
        ConnectionState::Disconnected,
        ConnectionState::Connecting,
        ConnectionState::Failed(FailureCause::Io(IoError::Closed)),
    ];
    for state in others {
        let reads = vec![Ok(b"A".to_vec()), Err(IoError::Closed)];
        let (after, frames) = receive_all(state, &reads, &out_of_band());
        assert_eq!(after, state);
        assert!(frames.is_empty());
        let (after, action) = receive_step(state, Ok(b"A".to_vec()), &out_of_band());
        assert_eq!(after, state);
        assert_eq!(action, ReceiveAction::Exit);
        let (after, action) = receive_step(state, Err(IoError::Transient), &out_of_band());
        assert_eq!(after, state);
        assert_eq!(action, ReceiveAction::Exit);
    }
}

#[test]
fn single_steps_on_a_live_connection() {
    let d = out_of_band();
    assert_eq!(
        receive_step(ConnectionState::Live, Ok(b"x".to_vec()), &d),
        (ConnectionState::Live, ReceiveAction::Dispatch(frame("tick", b"x")))
    );
    assert_eq!(
        receive_step(ConnectionState::Live, Ok(Vec::new()), &d),
        (ConnectionState::Live, ReceiveAction::Idle)
    );
    assert_eq!(
        receive_step(ConnectionState::Live, Err(IoError::Transient), &d),
        (ConnectionState::Failed(FailureCause::Io(IoError::Transient)), ReceiveAction::Exit)
    );
}

#[test]
fn out_of_band_keeps_the_bytes_as_they_are() {
    let d = FrameDecoder::OutOfBand("1501-json-full".to_string());
    assert_eq!(d.decode(b"a|b".to_vec()), frame("1501-json-full", b"a|b"));
    assert_eq!(d.decode(vec![0xFF, 0x00]), frame("1501-json-full", &[0xFF, 0x00]));
}

#[test]
fn leading_tag_is_cut_at_the_first_separator() {
    let d = FrameDecoder::LeadingTag(b'|');
    assert_eq!(d.decode(b"quote|{\"p\":1}".to_vec()), frame("quote", b"{\"p\":1}"));
    assert_eq!(d.decode(b"a|b|c".to_vec()), frame("a", b"b|c"));
    assert_eq!(d.decode(b"|rest".to_vec()), frame("", b"rest"));
    assert_eq!(d.decode(b"tag|".to_vec()), frame("tag", b""));
    assert_eq!(d.decode("é|x".as_bytes().to_vec()), frame("é", b"x"));
}

#[test]
fn leading_tag_without_a_readable_tag_keeps_all_bytes() {
    let d = FrameDecoder::LeadingTag(b'|');
    assert_eq!(d.decode(b"no separator".to_vec()), frame("", b"no separator"));
    assert_eq!(d.decode(vec![0xFF, b'|', b'x']), frame("", &[0xFF, b'|', b'x']));
    assert_eq!(d.decode(Vec::new()), frame("", b""));
}

#[test]
fn leading_tag_in_a_run() {
    let d = FrameDecoder::LeadingTag(b':');
    let reads = vec![Ok(b"t:1".to_vec()), Ok(b"q:2".to_vec()), Err(IoError::Closed)];
    let (state, frames) = receive_all(ConnectionState::Live, &reads, &d);
    assert_eq!(frames, vec![frame("t", b"1"), frame("q", b"2")]);
    assert_eq!(state, ConnectionState::Failed(FailureCause::Io(IoError::Closed)));
}
