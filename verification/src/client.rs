//! Decisions of the client: its configuration, how it reads the server's
//! answers during the opening handshake and on the live control channel,
//! and how a proxy connection leaves the framed protocol.
use crate::frame::FrameParts;
use crate::messages::ServerMessage;
use crate::text::{uuid_hyphenated, uuid_text};
use vstd::prelude::*;
use vstd::string::StringExecFns;

verus! {

/// What the client exposes, and where the server is.
pub struct XposeCli {
    local_host: String,
    local_port: u16,
    server: String,
    server_port: u16,
}

impl XposeCli {
    /// The local host to expose.
    pub closed spec fn spec_local_host(&self) -> Seq<char> {
        self.local_host@
    }

    /// The local port to expose.
    pub closed spec fn spec_local_port(&self) -> u16 {
        self.local_port
    }

    /// Address of the remote server.
    pub closed spec fn spec_server(&self) -> Seq<char> {
        self.server@
    }

    /// Control port on the remote server.
    pub closed spec fn spec_server_port(&self) -> u16 {
        self.server_port
    }

    /// A client that exposes `local_host:local_port` through the server at
    /// `server:server_port`.
    pub fn new(local_host: &str, local_port: u16, server: &str, server_port: u16) -> (cli: Self)
        ensures
            cli.spec_local_host() == local_host@,
            cli.spec_local_port() == local_port,
            cli.spec_server() == server@,
            cli.spec_server_port() == server_port,
    {
        XposeCli {
            local_host: String::from_str(local_host),
            local_port,
            server: String::from_str(server),
            server_port,
        }
    }

    /// The local host to expose.
    pub fn local_host(&self) -> (h: &str)
        ensures
            h@ == self.spec_local_host(),
    {
        self.local_host.as_str()
    }

    /// The local port to expose.
    pub fn local_port(&self) -> (p: u16)
        ensures
            p == self.spec_local_port(),
    {
        self.local_port
    }

    /// Address of the remote server.
    pub fn server(&self) -> (s: &str)
        ensures
            s@ == self.spec_server(),
    {
        self.server.as_str()
    }

    /// Control port on the remote server.
    pub fn server_port(&self) -> (p: u16)
        ensures
            p == self.spec_server_port(),
    {
        self.server_port
    }
}

/// Why the client ends a session with an error.
#[derive(Debug, Clone, PartialEq, Eq)]
pub enum ClientError {
    /// The server reported this error.
    ServerReported(String),
    /// A heartbeat arrived before the server assigned a port.
    HeartbeatDuringHandshake,
    /// A forwarding request arrived before the server assigned a port.
    ConnectionDuringHandshake(u128),
    /// The server closed the control connection before assigning a port.
    ClosedBeforeOpened,
    /// A second port assignment arrived on a live session.
    OpenedOnLiveSession,
    /// A waiting notice arrived on a live session.
    WaitingOnLiveSession,
}

/// The message of a client error.
pub open spec fn client_error_text(e: ClientError) -> Seq<char> {
    match e {
        ClientError::ServerReported(msg) => "server error: "@ + msg@,
        ClientError::HeartbeatDuringHandshake => "protocol error: unexpected message during handshake: Heartbeat"@,
        ClientError::ConnectionDuringHandshake(id) => "protocol error: unexpected message during handshake: Connection("@
            + uuid_hyphenated(id) + ")"@,
        ClientError::ClosedBeforeOpened => "server closed connection before assigning a port"@,
        ClientError::OpenedOnLiveSession => "protocol error: unexpected Opened on live session"@,
        ClientError::WaitingOnLiveSession => "protocol error: unexpected Waiting on live session"@,
    }
}

impl ClientError {
    /// The error's message.
    pub fn message(&self) -> (s: String)
        ensures
            s@ == client_error_text(*self),
    {
        match self {
            ClientError::ServerReported(msg) => String::from_str("server error: ").concat(
                msg.as_str(),
            ),
            ClientError::HeartbeatDuringHandshake => String::from_str(
                "protocol error: unexpected message during handshake: Heartbeat",
            ),
            ClientError::ConnectionDuringHandshake(id) => String::from_str(
                "protocol error: unexpected message during handshake: Connection(",
            ).concat(uuid_text(*id).as_str()).concat(")"),
            ClientError::ClosedBeforeOpened => String::from_str(
                "server closed connection before assigning a port",
            ),
            ClientError::OpenedOnLiveSession => String::from_str(
                "protocol error: unexpected Opened on live session",
            ),
            ClientError::WaitingOnLiveSession => String::from_str(
                "protocol error: unexpected Waiting on live session",
            ),
        }
    }
}

/// Where the opening handshake stands after a message from the server.
#[derive(Debug, Clone, Copy, PartialEq, Eq)]
pub enum HandshakeStep {
    /// The server is at capacity; keep waiting for a port.
    KeepWaiting,
    /// The server assigned this port; the session is open.
    Opened(u16),
}

/// Reads one answer of the server to `Open` (`None`: the server closed the
/// connection). Only a waiting notice keeps the handshake going; a port
/// assignment ends it successfully; anything else ends it with an error.
pub fn handshake_step(msg: Option<ServerMessage>) -> (r: Result<HandshakeStep, ClientError>)
    ensures
        msg == Some(ServerMessage::Waiting) ==> r == Ok::<HandshakeStep, ClientError>(
            HandshakeStep::KeepWaiting,
        ),
        msg matches Some(ServerMessage::Opened(port)) ==> r == Ok::<HandshakeStep, ClientError>(
            HandshakeStep::Opened(port),
        ),
        msg matches Some(ServerMessage::Error(text)) ==> r == Err::<HandshakeStep, ClientError>(
            ClientError::ServerReported(text),
        ),
        msg == Some(ServerMessage::Heartbeat) ==> r == Err::<HandshakeStep, ClientError>(
            ClientError::HeartbeatDuringHandshake,
        ),
        msg matches Some(ServerMessage::Connection(id)) ==> r == Err::<HandshakeStep, ClientError>(
            ClientError::ConnectionDuringHandshake(id),
        ),
        msg is None ==> r == Err::<HandshakeStep, ClientError>(ClientError::ClosedBeforeOpened),
{
    match msg {
        Some(ServerMessage::Waiting) => Ok(HandshakeStep::KeepWaiting),
        Some(ServerMessage::Opened(port)) => Ok(HandshakeStep::Opened(port)),
        Some(ServerMessage::Error(text)) => Err(ClientError::ServerReported(text)),
        Some(ServerMessage::Heartbeat) => Err(ClientError::HeartbeatDuringHandshake),
        Some(ServerMessage::Connection(id)) => Err(ClientError::ConnectionDuringHandshake(id)),
        None => Err(ClientError::ClosedBeforeOpened),
    }
}

/// What the client does after a message on the live control channel.
#[derive(Debug, Clone, Copy, PartialEq, Eq)]
pub enum ControlAction {
    /// Nothing to do; keep listening.
    KeepListening,
    /// Open a proxy connection that claims the forwarded connection with this id.
    Proxy(u128),
    /// The server closed the control channel: the session ends without error.
    Finish,
}

/// Reads one message on the live control channel (`None`: the server closed
/// it). Heartbeats are ignored, forwarding requests start a proxy, a
/// reported error ends the session, and the handshake's messages are
/// protocol errors here.
pub fn control_step(msg: Option<ServerMessage>) -> (r: Result<ControlAction, ClientError>)
    ensures
        msg == Some(ServerMessage::Heartbeat) ==> r == Ok::<ControlAction, ClientError>(
            ControlAction::KeepListening,
        ),
        msg matches Some(ServerMessage::Connection(id)) ==> r == Ok::<ControlAction, ClientError>(
            ControlAction::Proxy(id),
        ),
        msg matches Some(ServerMessage::Error(text)) ==> r == Err::<ControlAction, ClientError>(
            ClientError::ServerReported(text),
        ),
        msg matches Some(ServerMessage::Opened(_)) ==> r == Err::<ControlAction, ClientError>(
            ClientError::OpenedOnLiveSession,
        ),
        msg == Some(ServerMessage::Waiting) ==> r == Err::<ControlAction, ClientError>(
            ClientError::WaitingOnLiveSession,
        ),
        msg is None ==> r == Ok::<ControlAction, ClientError>(ControlAction::Finish),
{
    match msg {
        Some(ServerMessage::Heartbeat) => Ok(ControlAction::KeepListening),
        Some(ServerMessage::Connection(id)) => Ok(ControlAction::Proxy(id)),
        Some(ServerMessage::Error(text)) => Err(ClientError::ServerReported(text)),
        Some(ServerMessage::Opened(_)) => Err(ClientError::OpenedOnLiveSession),
        Some(ServerMessage::Waiting) => Err(ClientError::WaitingOnLiveSession),
        None => Ok(ControlAction::Finish),
    }
}

/// Switches a proxy connection from framing to raw copying on the client
/// side: the bytes the server already sent past the `Accept` exchange must
/// reach the local service first. The framed output has been flushed by
/// then (debug builds check this); anything left in it is dropped.
pub fn client_handoff(parts: FrameParts) -> (pending: Vec<u8>)
    ensures
        pending@ == parts.read_buf@,
{
    parts.read_buf
}

} // verus!
