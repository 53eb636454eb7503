//! Messages exchanged on a control connection.
//!
//! Connection identifiers are UUIDs carried as their 128-bit value.
use vstd::prelude::*;

verus! {

/// A message sent from the client to the server over the control connection.
#[derive(Debug, Clone, Copy, PartialEq, Eq)]
pub enum ClientMessage {
    /// First message of a control session: asks the server to open a forwarding port.
    Open,
    /// First message of a proxy connection: claims the forwarded connection with this id.
    Accept(u128),
}

/// A message sent from the server to the client over the control connection.
#[derive(Debug, Clone, PartialEq, Eq)]
pub enum ServerMessage {
    /// Answer to `Open`: the port that now forwards to the client.
    Opened(u16),
    /// Sent periodically to check that the client is still reachable.
    Heartbeat,
    /// Sent right after `Open` when the client has to wait for a free port.
    Waiting,
    /// Asks the client to claim the forwarded connection with this id.
    Connection(u128),
    /// An error on the server side that ends the session.
    Error(String),
}

} // verus!
