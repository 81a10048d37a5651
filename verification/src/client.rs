//! The feed client: one configuration, one connection state, and the
//! session that is open while the connection is live.
//!
//! The client owns the decisions of a connection's life and nothing that
//! blocks. Its caller dials, reads and dispatches, and tells the client
//! what came of it:
//!
//! 1. [`Client::begin_connect`] marks the connection as connecting and
//!    hands out the URL to dial;
//! 2. [`Client::finish_connect`] takes the outcome of dialling and makes
//!    the connection live or failed;
//! 3. [`Client::receive`] takes the outcome of each socket read and says
//!    whether to dispatch a frame, read again, or stop reading;
//! 4. [`Client::stop`] ends a live connection on request.

use vstd::prelude::*;
use crate::errors::{ConfigError, ConnectError, FailureCause};
use crate::handshake::{build_handshake_url, handshake_url, ConfigView, SessionConfig};
use crate::receive::{receive_step, spec_receive_step, FrameDecoder, ReceiveAction};
use crate::state::{next_state, step, ConnectionState, StateEvent};
use crate::transport::{
    connect_result, read_result, DialOutcome, RawRead, SessionView, TransportSession,
};

verus! {

/// What a client is, as plain values. The session is left out: there is
/// one exactly while the state is live, open, and with the URL of the
/// configuration.
pub struct ClientView {
    pub config: ConfigView,
    pub state: ConnectionState,
}

/// How a connect attempt ended.
#[derive(Clone, Copy, Debug, PartialEq, Eq, Structural)]
pub enum ConnectStep {
    /// The connection is live and the receive loop may start.
    Live,
    /// The attempt failed and the connection is in its failed state.
    Failed(ConnectError),
    /// No attempt was under way, and nothing changed.
    NotConnecting,
}

/// The event that the outcome of dialling amounts to.
pub open spec fn dial_event(dial: DialOutcome) -> StateEvent {
    match connect_result(dial) {
        Ok(_) => StateEvent::HandshakeSucceeded,
        Err(e) => StateEvent::HandshakeFailed(e),
    }
}

/// What a connect attempt in `state` reports for `dial`.
pub open spec fn connect_step(state: ConnectionState, dial: DialOutcome) -> ConnectStep {
    if state != ConnectionState::Connecting {
        ConnectStep::NotConnecting
    } else {
        match connect_result(dial) {
            Ok(_) => ConnectStep::Live,
            Err(e) => ConnectStep::Failed(e),
        }
    }
}

/// The connection as the client holds it: its state, and with the live
/// state the session that is open.
enum Link {
    Disconnected,
    Connecting,
    Live(TransportSession),
    Failed(FailureCause),
}

impl Link {
    spec fn state(self) -> ConnectionState {
        match self {
            Link::Disconnected => ConnectionState::Disconnected,
            Link::Connecting => ConnectionState::Connecting,
            Link::Live(_) => ConnectionState::Live,
            Link::Failed(cause) => ConnectionState::Failed(cause),
        }
    }
}

/// A market-data feed client.
pub struct Client {
    config: SessionConfig,
    link: Link,
}

impl View for Client {
    type V = ClientView;

    closed spec fn view(&self) -> ClientView {
        ClientView { config: self.config@, state: self.link.state() }
    }
}

impl Client {
    #[verifier::type_invariant]
    spec fn well_formed(self) -> bool {
        self.link matches Link::Live(s) ==> s@ == (SessionView {
            url: handshake_url(self.config@),
            open: true,
        })
    }

    /// Makes a disconnected client from the five fields of its
    /// configuration, or names the first of them that is empty.
    pub fn new(
        server_addr: String,
        token: String,
        user_id: String,
        publish_format: String,
        broadcast_mode: String,
    ) -> (r: Result<Client, ConfigError>)
        ensures
            match r {
                Ok(client) => {
                    &&& client@.config == (ConfigView {
                        server_addr: server_addr@,
                        token: token@,
                        user_id: user_id@,
                        publish_format: publish_format@,
                        broadcast_mode: broadcast_mode@,
                    })
                    &&& client@.config.valid()
                    &&& client@.state == ConnectionState::Disconnected
                },
                Err(e) => (ConfigView {
                    server_addr: server_addr@,
                    token: token@,
                    user_id: user_id@,
                    publish_format: publish_format@,
                    broadcast_mode: broadcast_mode@,
                }).first_empty() == Some(e),
            },
    {
        match SessionConfig::new(server_addr, token, user_id, publish_format, broadcast_mode) {
            Ok(config) => Ok(Client::from_config(config)),
            Err(e) => Err(e),
        }
    }

    /// Makes a disconnected client for `config`.
    pub fn from_config(config: SessionConfig) -> (client: Client)
        ensures
            client@ == (ClientView { config: config@, state: ConnectionState::Disconnected }),
    {
        Client { config, link: Link::Disconnected }
    }

    pub fn config(&self) -> (config: &SessionConfig)
        ensures
            config@ == self@.config,
    {
        &self.config
    }

    pub fn state(&self) -> (state: ConnectionState)
        ensures
            state == self@.state,
    {
        match &self.link {
            Link::Disconnected => ConnectionState::Disconnected,
            Link::Connecting => ConnectionState::Connecting,
            Link::Live(_) => ConnectionState::Live,
            Link::Failed(cause) => ConnectionState::Failed(*cause),
        }
    }

    /// The open session, which exists exactly while the connection is live.
    pub fn session(&self) -> (session: Option<&TransportSession>)
        ensures
            session is Some <==> self@.state == ConnectionState::Live,
            session matches Some(s) ==> s@ == (SessionView {
                url: handshake_url(self@.config),
                open: true,
            }),
    {
        proof {
            use_type_invariant(self);
        }
        match &self.link {
            Link::Live(session) => Some(session),
            _ => None,
        }
    }

    /// The handshake URL of this client's configuration.
    pub fn build_url(&self) -> (url: String)
        ensures
            url@ == handshake_url(self@.config),
    {
        build_handshake_url(&self.config)
    }

    /// Starts a connect attempt: the first one, or a retry after a failure.
    /// Returns the URL to dial, or `None`, with nothing changed, if the
    /// connection is connecting or live already.
    pub fn begin_connect(&mut self) -> (url: Option<String>)
        ensures
            final(self)@.config == old(self)@.config,
            final(self)@.state == step(old(self)@.state, StateEvent::ConnectStarted),
            url is Some <==> next_state(old(self)@.state, StateEvent::ConnectStarted) is Some,
            url matches Some(u) ==> u@ == handshake_url(old(self)@.config),
    {
        proof {
            use_type_invariant(&*self);
        }
        match self.state().transition(StateEvent::ConnectStarted) {
            Some(_) => {
                self.link = Link::Connecting;
                Some(build_handshake_url(&self.config))
            },
            None => None,
        }
    }

    /// Ends the connect attempt under way with the outcome of dialling.
    pub fn finish_connect(&mut self, dial: DialOutcome) -> (r: ConnectStep)
        ensures
            final(self)@.config == old(self)@.config,
            final(self)@.state == step(old(self)@.state, dial_event(dial)),
            r == connect_step(old(self)@.state, dial),
    {
        proof {
            use_type_invariant(&*self);
        }
        match &self.link {
            Link::Connecting => {},
            _ => {
                return ConnectStep::NotConnecting;
            },
        }
        match TransportSession::connect(&self.config, dial) {
            Ok(session) => {
                self.link = Link::Live(session);
                ConnectStep::Live
            },
            Err(e) => {
                self.link = Link::Failed(FailureCause::Connect(e));
                ConnectStep::Failed(e)
            },
        }
    }

    /// Takes the outcome of one socket read and decides the next turn of
    /// the receive loop. A read error fails the connection and releases
    /// the session; on a connection that is not live nothing changes and
    /// the loop is told to exit.
    pub fn receive(&mut self, raw: RawRead, decoder: &FrameDecoder) -> (action: ReceiveAction)
        ensures
            final(self)@.config == old(self)@.config,
            (final(self)@.state, action@) == spec_receive_step(
                old(self)@.state,
                read_result(old(self)@.state == ConnectionState::Live, raw),
                *decoder,
            ),
    {
        proof {
            use_type_invariant(&*self);
        }
        let read = match &self.link {
            Link::Live(session) => session.read_frame(raw),
            _ => {
                return ReceiveAction::Exit;
            },
        };
        let (next, action) = receive_step(ConnectionState::Live, read, decoder);
        match next {
            ConnectionState::Failed(cause) => {
                self.link = Link::Failed(cause);
            },
            _ => {},
        }
        action
    }

    /// Ends a live connection and releases its session. Returns whether
    /// this call did so: on a connection that is not live it changes
    /// nothing.
    pub fn stop(&mut self) -> (stopped: bool)
        ensures
            final(self)@.config == old(self)@.config,
            final(self)@.state == step(old(self)@.state, StateEvent::StopRequested),
            stopped == (old(self)@.state == ConnectionState::Live),
    {
        proof {
            use_type_invariant(&*self);
        }
        match self.state().transition(StateEvent::StopRequested) {
            Some(_) => {
                self.link = Link::Disconnected;
                true
            },
            None => false,
        }
    }
}

} // verus!
