//! The connection state machine.
//!
//! A connection is in exactly one of four states. It moves only along the
//! six transitions of [`next_state`]; every other pair of state and event
//! is refused and leaves the state as it was.

use vstd::prelude::*;
use crate::errors::{ConnectError, FailureCause, IoError};

verus! {

/// Where the connection stands.
#[derive(Clone, Copy, Debug, PartialEq, Eq, Structural)]
pub enum ConnectionState {
    /// No session, and none is being opened.
    Disconnected,
    /// A connect attempt is under way.
    Connecting,
    /// The handshake succeeded and the receive loop may read.
    Live,
    /// The last connect attempt or the last read failed, for the given cause.
    Failed(FailureCause),
}

/// What can happen to a connection.
#[derive(Clone, Copy, Debug, PartialEq, Eq, Structural)]
pub enum StateEvent {
    /// A connect attempt starts: the first one, or a retry after a failure.
    ConnectStarted,
    /// The gateway accepted the handshake.
    HandshakeSucceeded,
    /// The connect attempt failed.
    HandshakeFailed(ConnectError),
    /// The receive loop saw a read error.
    ReadFailed(IoError),
    /// The owner asked for the session to stop.
    StopRequested,
}

/// The transition relation: the state that `event` leads to from `state`,
/// or `None` where the machine has no such transition.
pub open spec fn next_state(state: ConnectionState, event: StateEvent) -> Option<ConnectionState> {
    match (state, event) {
        (ConnectionState::Disconnected, StateEvent::ConnectStarted) => Some(
            ConnectionState::Connecting,
        ),
        (ConnectionState::Failed(_), StateEvent::ConnectStarted) => Some(
            ConnectionState::Connecting,
        ),
        (ConnectionState::Connecting, StateEvent::HandshakeSucceeded) => Some(
            ConnectionState::Live,
        ),
        (ConnectionState::Connecting, StateEvent::HandshakeFailed(e)) => Some(
            ConnectionState::Failed(FailureCause::Connect(e)),
        ),
        (ConnectionState::Live, StateEvent::ReadFailed(e)) => Some(
            ConnectionState::Failed(FailureCause::Io(e)),
        ),
        (ConnectionState::Live, StateEvent::StopRequested) => Some(ConnectionState::Disconnected),
        _ => None,
    }
}

/// The state after `event`, where a refused event changes nothing.
pub open spec fn step(state: ConnectionState, event: StateEvent) -> ConnectionState {
    match next_state(state, event) {
        Some(next) => next,
        None => state,
    }
}

/// The state reached from `start` after the events of `events`, in order.
pub open spec fn run(start: ConnectionState, events: Seq<StateEvent>) -> ConnectionState
    decreases events.len(),
{
    if events.len() == 0 {
        start
    } else {
        step(run(start, events.drop_last()), events.last())
    }
}

impl ConnectionState {
    /// The state a new client starts in.
    pub fn new() -> (state: ConnectionState)
        ensures
            state == ConnectionState::Disconnected,
    {
        ConnectionState::Disconnected
    }

    /// Whether the receive loop may read.
    pub fn is_live(&self) -> (live: bool)
        ensures
            live == (*self == ConnectionState::Live),
    {
        match self {
            ConnectionState::Live => true,
            _ => false,
        }
    }

    /// The cause attached to a failed state, and `None` in every other state.
    pub fn cause(&self) -> (cause: Option<FailureCause>)
        ensures
            cause == match *self {
                ConnectionState::Failed(c) => Some(c),
                _ => None,
            },
    {
        match self {
            ConnectionState::Failed(c) => Some(*c),
            _ => None,
        }
    }

    /// Looks up the transition for `event` without taking it.
    pub fn transition(&self, event: StateEvent) -> (next: Option<ConnectionState>)
        ensures
            next == next_state(*self, event),
    {
        match (*self, event) {
            (ConnectionState::Disconnected, StateEvent::ConnectStarted) => Some(
                ConnectionState::Connecting,
            ),
            (ConnectionState::Failed(_), StateEvent::ConnectStarted) => Some(
                ConnectionState::Connecting,
            ),
            (ConnectionState::Connecting, StateEvent::HandshakeSucceeded) => Some(
                ConnectionState::Live,
            ),
            (ConnectionState::Connecting, StateEvent::HandshakeFailed(e)) => Some(
                ConnectionState::Failed(FailureCause::Connect(e)),
            ),
            (ConnectionState::Live, StateEvent::ReadFailed(e)) => Some(
                ConnectionState::Failed(FailureCause::Io(e)),
            ),
            (ConnectionState::Live, StateEvent::StopRequested) => Some(
                ConnectionState::Disconnected,
            ),
            _ => None,
        }
    }

    /// Takes the transition for `event` if the machine has one. Returns
    /// whether the state changed; a refused event leaves it untouched.
    pub fn apply(&mut self, event: StateEvent) -> (taken: bool)
        ensures
            taken == next_state(*old(self), event).is_some(),
            *final(self) == step(*old(self), event),
    {
        match self.transition(event) {
            Some(next) => {
                *self = next;
                true
            },
            None => false,
        }
    }
}

/// The live state is entered from the connecting state and from no other.
pub proof fn law_live_only_from_connecting(state: ConnectionState, event: StateEvent)
    requires
        next_state(state, event) == Some(ConnectionState::Live),
    ensures
        state == ConnectionState::Connecting,
        event == StateEvent::HandshakeSucceeded,
{
}

/// A failed state always carries the error of the event that caused it:
/// the connect error of a failed handshake, or the read error seen while
/// live.
pub proof fn law_failed_carries_cause(
    state: ConnectionState,
    event: StateEvent,
    cause: FailureCause,
)
    requires
        next_state(state, event) == Some(ConnectionState::Failed(cause)),
    ensures
        match event {
            StateEvent::HandshakeFailed(e) => state == ConnectionState::Connecting && cause
                == FailureCause::Connect(e),
            StateEvent::ReadFailed(e) => state == ConnectionState::Live && cause
                == FailureCause::Io(e),
            _ => false,
        },
{
}

/// On every path of the machine, a connection that is disconnected after
/// `i` events and live after `j > i` events was connecting at some point
/// strictly between the two.
pub proof fn law_connecting_between(
    start: ConnectionState,
    events: Seq<StateEvent>,
    i: int,
    j: int,
)
    requires
        0 <= i < j <= events.len(),
        run(start, events.take(i)) == ConnectionState::Disconnected,
        run(start, events.take(j)) == ConnectionState::Live,
    ensures
        exists|k: int|
            i < k < j && #[trigger] run(start, events.take(k)) == ConnectionState::Connecting,
    decreases j - i,
{
    let before = run(start, events.take(j - 1));
    assert(events.take(j).drop_last() == events.take(j - 1));
    assert(events.take(j).last() == events[j - 1]);
    assert(step(before, events[j - 1]) == ConnectionState::Live);
    if before == ConnectionState::Connecting {
        assert(i < j - 1);
    } else {
        // A refused event kept the state, so the connection was live already.
        assert(before == ConnectionState::Live);
        assert(i < j - 1);
        law_connecting_between(start, events, i, j - 1);
    }
}

/// A stop request is taken at most once in a row: whatever the state, a
/// stop request that follows another finds no transition, so of any
/// number of stop requests on a live connection exactly the first moves it
/// to the disconnected state.
pub proof fn law_stop_taken_once(state: ConnectionState)
    ensures
        next_state(state, StateEvent::StopRequested).is_some() <==> state == ConnectionState::Live,
        state == ConnectionState::Live ==> step(state, StateEvent::StopRequested)
            == ConnectionState::Disconnected,
        next_state(step(state, StateEvent::StopRequested), StateEvent::StopRequested) is None,
{
}

} // verus!
