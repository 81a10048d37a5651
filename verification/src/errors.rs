//! Error taxonomy of the feed client.

use vstd::prelude::*;

verus! {

/// Why a connect attempt did not produce a live session.
#[derive(Clone, Copy, Debug, PartialEq, Eq, Structural)]
pub enum ConnectError {
    /// The gateway address could not be reached.
    Network,
    /// The gateway was reached but rejected the upgrade or the credentials.
    Handshake,
}

/// Why a read on an open session did not produce bytes.
#[derive(Clone, Copy, Debug, PartialEq, Eq, Structural)]
pub enum IoError {
    /// A read error after which the connection may still be usable.
    Transient,
    /// End of stream, a reset, or a read on a session that was closed.
    Closed,
}

/// What put the connection into its failed state.
#[derive(Clone, Copy, Debug, PartialEq, Eq, Structural)]
pub enum FailureCause {
    /// A connect attempt failed.
    Connect(ConnectError),
    /// A read on the live session failed.
    Io(IoError),
}

/// The one error the client does not recover from.
#[derive(Clone, Copy, Debug, PartialEq, Eq, Structural)]
pub enum ClientError {
    /// Every permitted reconnect attempt was used up. `cause` is the failure
    /// observed last, `attempts` the number of reconnects that were tried.
    Unrecoverable { cause: FailureCause, attempts: u32 },
}

/// A session configuration field that was left empty.
#[derive(Clone, Copy, Debug, PartialEq, Eq, Structural)]
pub enum ConfigError {
    EmptyServerAddress,
    EmptyToken,
    EmptyUserId,
    EmptyPublishFormat,
    EmptyBroadcastMode,
}

} // verus!
