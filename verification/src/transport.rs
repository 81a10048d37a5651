//! The transport session: one open connection to the gateway.
//!
//! The socket itself belongs to the caller. The session records what the
//! client knows about it: the URL it was opened with and whether its
//! handle is still held. The caller dials and reads, then reports the
//! plain outcome here, where it is turned into the session's result.

use vstd::prelude::*;
use crate::errors::{ConnectError, IoError};
use crate::handshake::{build_handshake_url, handshake_url, SessionConfig};

verus! {

/// What dialling the gateway came to.
#[derive(Clone, Copy, Debug, PartialEq, Eq, Structural)]
pub enum DialOutcome {
    /// The connection stands and the gateway accepted the handshake.
    Connected,
    /// The address could not be resolved or reached.
    Unreachable,
    /// The gateway answered and refused the upgrade or the credentials.
    Rejected,
}

/// Why a read on the socket returned no bytes.
#[derive(Clone, Copy, Debug, PartialEq, Eq, Structural)]
pub enum ReadFault {
    /// Nothing has arrived yet on a socket that does not block.
    WouldBlock,
    /// Nothing arrived within the read timeout.
    TimedOut,
    /// The read was interrupted before it got anything.
    Interrupted,
    /// The stream ended.
    UnexpectedEof,
    /// The peer reset the connection.
    ConnectionReset,
    /// The connection was aborted.
    ConnectionAborted,
    /// The peer has closed its end.
    BrokenPipe,
    /// The socket is not connected.
    NotConnected,
    /// Any other failure.
    Other,
}

/// What one read on the socket came to.
#[derive(Clone, Debug, PartialEq, Eq)]
pub enum RawRead {
    /// The read returned these bytes; there may be none.
    Data(Vec<u8>),
    /// The read returned an error.
    Fault(ReadFault),
}

/// What a session is, as plain values.
pub struct SessionView {
    /// The URL the session was opened with.
    pub url: Seq<char>,
    /// Whether the handle is still held.
    pub open: bool,
}

/// One connection to the gateway, from a successful handshake until its
/// handle is released.
#[derive(Debug)]
pub struct TransportSession {
    url: String,
    open: bool,
}

impl View for TransportSession {
    type V = SessionView;

    closed spec fn view(&self) -> SessionView {
        SessionView { url: self.url@, open: self.open }
    }
}

/// The result of a connect attempt, given what dialling came to.
pub open spec fn connect_result(dial: DialOutcome) -> Result<(), ConnectError> {
    match dial {
        DialOutcome::Connected => Ok(()),
        DialOutcome::Unreachable => Err(ConnectError::Network),
        DialOutcome::Rejected => Err(ConnectError::Handshake),
    }
}

/// The read error that a fault amounts to, or `None` for a fault that is
/// no error: when nothing arrived in time, the read counts as one that
/// brought no bytes. The end of the stream and every loss of the
/// connection close the session; anything else is transient.
pub open spec fn fault_error(fault: ReadFault) -> Option<IoError> {
    match fault {
        ReadFault::WouldBlock => None,
        ReadFault::TimedOut => None,
        ReadFault::Interrupted => Some(IoError::Transient),
        ReadFault::UnexpectedEof => Some(IoError::Closed),
        ReadFault::ConnectionReset => Some(IoError::Closed),
        ReadFault::ConnectionAborted => Some(IoError::Closed),
        ReadFault::BrokenPipe => Some(IoError::Closed),
        ReadFault::NotConnected => Some(IoError::Closed),
        ReadFault::Other => Some(IoError::Transient),
    }
}

/// The result of a read on a session, given whether the session is open
/// and what the socket returned. A closed session reads as closed whatever
/// the socket says.
pub open spec fn read_result(open: bool, raw: RawRead) -> Result<Seq<u8>, IoError> {
    if !open {
        Err(IoError::Closed)
    } else {
        match raw {
            RawRead::Data(bytes) => Ok(bytes@),
            RawRead::Fault(fault) => match fault_error(fault) {
                Some(e) => Err(e),
                None => Ok(Seq::empty()),
            },
        }
    }
}

/// Closing a session: the session afterwards, and whether this call
/// released the handle.
pub open spec fn spec_close(s: SessionView) -> (SessionView, bool) {
    (SessionView { url: s.url, open: false }, s.open)
}

/// Computes [`fault_error`].
pub fn classify_fault(fault: ReadFault) -> (error: Option<IoError>)
    ensures
        error == fault_error(fault),
{
    match fault {
        ReadFault::WouldBlock | ReadFault::TimedOut => None,
        ReadFault::Interrupted | ReadFault::Other => Some(IoError::Transient),
        ReadFault::UnexpectedEof
        | ReadFault::ConnectionReset
        | ReadFault::ConnectionAborted
        | ReadFault::BrokenPipe
        | ReadFault::NotConnected => Some(IoError::Closed),
    }
}

impl TransportSession {
    /// Opens a session for `config`, given what dialling its handshake URL
    /// came to.
    pub fn connect(config: &SessionConfig, dial: DialOutcome) -> (r: Result<
        TransportSession,
        ConnectError,
    >)
        ensures
            match r {
                Ok(session) => connect_result(dial) == Ok::<(), ConnectError>(()) && session@ == (
                SessionView { url: handshake_url(config@), open: true }),
                Err(e) => connect_result(dial) == Err::<(), ConnectError>(e),
            },
    {
        match dial {
            DialOutcome::Connected => Ok(
                TransportSession { url: build_handshake_url(config), open: true },
            ),
            DialOutcome::Unreachable => Err(ConnectError::Network),
            DialOutcome::Rejected => Err(ConnectError::Handshake),
        }
    }

    /// The URL the session was opened with.
    pub fn url(&self) -> (url: &str)
        ensures
            url@ == self@.url,
    {
        self.url.as_str()
    }

    /// Whether the handle is still held.
    pub fn is_open(&self) -> (open: bool)
        ensures
            open == self@.open,
    {
        self.open
    }

    /// Turns the outcome of one socket read into the next chunk of bytes
    /// or the error that ends reading.
    pub fn read_frame(&self, raw: RawRead) -> (r: Result<Vec<u8>, IoError>)
        ensures
            match r {
                Ok(bytes) => read_result(self@.open, raw) == Ok::<Seq<u8>, IoError>(bytes@),
                Err(e) => read_result(self@.open, raw) == Err::<Seq<u8>, IoError>(e),
            },
    {
        if !self.open {
            return Err(IoError::Closed);
        }
        match raw {
            RawRead::Data(bytes) => Ok(bytes),
            RawRead::Fault(fault) => match classify_fault(fault) {
                Some(e) => Err(e),
                None => Ok(Vec::new()),
            },
        }
    }

    /// Gives up the handle. Returns whether this call released it, which
    /// tells the caller whether there is a socket to shut down. Closing a
    /// closed session does nothing and is no error.
    pub fn close(&mut self) -> (released: bool)
        ensures
            (final(self)@, released) == spec_close(old(self)@),
    {
        let released = self.open;
        self.open = false;
        released
    }
}

/// Closing is idempotent: a second close finds nothing to release and
/// leaves the session as the first close left it.
pub proof fn law_close_idempotent(s: SessionView)
    ensures
        spec_close(spec_close(s).0) == (spec_close(s).0, false),
{
}

/// No read on a closed session yields bytes.
pub proof fn law_closed_session_reads_closed(s: SessionView, raw: RawRead)
    ensures
        read_result(spec_close(s).0.open, raw) == Err::<Seq<u8>, IoError>(IoError::Closed),
{
}

} // verus!
