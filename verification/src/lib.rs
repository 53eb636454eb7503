//! Verified core of the xposeit TCP port-forwarding service: the wire framing,
//! the protocol messages, the listener pool, the table of pending forwarded
//! connections, the choice of forwarding ports, and the decisions that drive
//! the client and server sessions; also the routing rules of the HTTP tunnel.
pub mod client;
pub mod config;
pub mod frame;
pub mod http_tunnel;
pub mod messages;
pub mod pending;
pub mod pool;
pub mod ports;
pub mod server;
pub mod text;
