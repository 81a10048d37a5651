//! Session scaffolding for a real-time market-data feed client.
//!
//! The crate holds the decisions of the client: how the handshake URL is
//! built from the session configuration, how the connection state moves,
//! what the receive loop does with each read, and when the reconnect
//! supervisor retries or gives up. Sockets, timers and threads stay with
//! the caller, which performs each action and reports back what happened.
//!
//! Beside the client stands the stamping of historical tick rows, which
//! the loader of tick files builds its documents from.

pub mod client;
pub mod encoding;
pub mod errors;
pub mod handshake;
pub mod query;
pub mod receive;
pub mod reconnect;
pub mod records;
pub mod state;
pub mod text;
pub mod transport;
