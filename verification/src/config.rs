//! Fixed parameters of the protocol and of the two programs.
use vstd::prelude::*;

verus! {

/// Port on which the server accepts control connections.
pub const CONTROL_SERVER_PORT: u16 = 7835;

/// Seconds the server waits for the first message of a new control connection.
pub const FIRST_MESSAGE_TIMEOUT_SECS: u64 = 3;

/// Seconds the server waits for a free forwarding port before giving up.
pub const POOL_WAIT_TIMEOUT_SECS: u64 = 30;

/// Seconds between two heartbeats on a control channel.
pub const HEARTBEAT_INTERVAL_SECS: u64 = 5;

/// Seconds an accepted but unclaimed forwarded connection is kept.
pub const PENDING_CONN_TTL_SECS: u64 = 10;

/// Server startup fails when fewer ports than this could be bound.
pub const MIN_POOL_SIZE: usize = 1;

/// Seconds the client waits for a TCP connection to be established.
pub const CONNECT_TIMEOUT_SECS: u64 = 3;

/// Seconds the client waits for the server to assign a port.
pub const OPEN_TIMEOUT_SECS: u64 = 35;

/// The client waits longer for a port than the server waits for a free slot,
/// so the server always answers (with a port or an error) before the client
/// gives up on the handshake.
pub proof fn lemma_client_outwaits_server_pool()
    ensures
        OPEN_TIMEOUT_SECS > POOL_WAIT_TIMEOUT_SECS,
{
}

} // verus!
