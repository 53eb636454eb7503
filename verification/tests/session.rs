use xposeit::client::{
    client_handoff, control_step, handshake_step, ClientError, ControlAction, HandshakeStep,
    XposeCli,
};
use xposeit::frame::{Delimited, FrameParts};
use xposeit::messages::{ClientMessage, ServerMessage};
use xposeit::pending::TunnelStreams;
use xposeit::server::{
    acquisition_reply, claim_connection, first_message_action, opening_notice, proxy_handoff,
    session_step, FirstAction, ServerError, SessionAction, SessionEvent,
};

const ID: u128 = 0x67e5504410b1426f9247bb680e5fe0c8;

#[test]
fn first_message_dispatch() {
    assert_eq!(first_message_action(Some(ClientMessage::Open)), Ok(FirstAction::OpenSession));
    assert_eq!(first_message_action(Some(ClientMessage::Accept(ID))), Ok(FirstAction::Proxy(ID)));
    assert_eq!(first_message_action(None), Err(ServerError::ClosedBeforeFirstMessage));
}

#[test]
fn open_replies() {
    assert_eq!(opening_notice(), ServerMessage::Waiting);
    assert_eq!(acquisition_reply(Ok(9001)), ServerMessage::Opened(9001));
    assert_eq!(
        acquisition_reply(Err(ServerError::PoolWaitTimedOut)),
        ServerMessage::Error("timed out waiting for a free port — server is at capacity".to_string())
    );
}

#[test]
fn server_error_messages() {
    assert_eq!(
        ServerError::ClosedBeforeFirstMessage.message(),
        "connection closed before first message"
    );
    assert_eq!(
        ServerError::UnexpectedClientMessage(ClientMessage::Open).message(),
        "protocol error: unexpected Open on control channel"
    );
    assert_eq!(
        ServerError::UnexpectedClientMessage(ClientMessage::Accept(ID)).message(),
        "protocol error: unexpected Accept(67e55044-10b1-426f-9247-bb680e5fe0c8) on control channel"
    );
    assert_eq!(
        ServerError::NoPendingConnection(ID).message(),
        "no pending connection for id 67e55044-10b1-426f-9247-bb680e5fe0c8"
    );
    assert_eq!(
        ServerError::UnflushedWriteBuffer(12).message(),
        "non-empty write buffer (12 bytes) on proxy start — aborting to avoid data loss"
    );
}

#[test]
fn session_heartbeat_and_client_messages() {
    let mut pending = TunnelStreams::new();
    assert_eq!(
        session_step(&mut pending, SessionEvent::HeartbeatDue),
        SessionAction::Send(ServerMessage::Heartbeat)
    );
    assert_eq!(
        session_step(&mut pending, SessionEvent::SendFailed(ServerMessage::Heartbeat)),
        SessionAction::Close
    );
    assert_eq!(
        session_step(&mut pending, SessionEvent::SendFailed(ServerMessage::Connection(ID))),
        SessionAction::Abort
    );
    assert_eq!(
        session_step(&mut pending, SessionEvent::ClientSent(Some(ClientMessage::Open))),
        SessionAction::Fail(ServerError::UnexpectedClientMessage(ClientMessage::Open))
    );
    assert_eq!(session_step(&mut pending, SessionEvent::ClientSent(None)), SessionAction::Close);
}

#[test]
fn unknown_id_is_not_claimable() {
    let mut pending = TunnelStreams::new();
    match claim_connection(&mut pending, ID) {
        Err(e) => assert_eq!(e, ServerError::NoPendingConnection(ID)),
        Ok(_) => panic!("claimed an unknown id"),
    }
    assert!(pending.remove(ID).is_none());
}

#[test]
fn proxy_handoff_forwards_buffered_input() {
    let parts = FrameParts { read_buf: b"GET /".to_vec(), write_buf: Vec::new() };
    assert_eq!(proxy_handoff(parts), Ok(b"GET /".to_vec()));
    let parts = FrameParts { read_buf: Vec::new(), write_buf: b"abc".to_vec() };
    assert_eq!(proxy_handoff(parts), Err(ServerError::UnflushedWriteBuffer(3)));
    let fresh = Delimited::new().into_parts();
    assert_eq!(proxy_handoff(fresh), Ok(Vec::new()));
}

#[test]
fn client_handshake_steps() {
    assert_eq!(handshake_step(Some(ServerMessage::Waiting)), Ok(HandshakeStep::KeepWaiting));
    assert_eq!(handshake_step(Some(ServerMessage::Opened(9001))), Ok(HandshakeStep::Opened(9001)));
    assert_eq!(
        handshake_step(Some(ServerMessage::Error("full".to_string()))),
        Err(ClientError::ServerReported("full".to_string()))
    );
    assert_eq!(handshake_step(Some(ServerMessage::Heartbeat)), Err(ClientError::HeartbeatDuringHandshake));
    assert_eq!(
        handshake_step(Some(ServerMessage::Connection(ID))),
        Err(ClientError::ConnectionDuringHandshake(ID))
    );
    assert_eq!(handshake_step(None), Err(ClientError::ClosedBeforeOpened));
}

#[test]
fn client_control_steps() {
    assert_eq!(control_step(Some(ServerMessage::Heartbeat)), Ok(ControlAction::KeepListening));
    assert_eq!(control_step(Some(ServerMessage::Connection(ID))), Ok(ControlAction::Proxy(ID)));
    assert_eq!(
        control_step(Some(ServerMessage::Error("boom".to_string()))),
        Err(ClientError::ServerReported("boom".to_string()))
    );
    assert_eq!(control_step(Some(ServerMessage::Opened(1))), Err(ClientError::OpenedOnLiveSession));
    assert_eq!(control_step(Some(ServerMessage::Waiting)), Err(ClientError::WaitingOnLiveSession));
    assert_eq!(control_step(None), Ok(ControlAction::Finish));
}

#[test]
fn client_error_messages() {
    assert_eq!(ClientError::ServerReported("x".to_string()).message(), "server error: x");
    assert_eq!(
        ClientError::HeartbeatDuringHandshake.message(),
        "protocol error: unexpected message during handshake: Heartbeat"
    );
    assert_eq!(
        ClientError::ConnectionDuringHandshake(ID).message(),
        "protocol error: unexpected message during handshake: Connection(67e55044-10b1-426f-9247-bb680e5fe0c8)"
    );
    assert_eq!(
        ClientError::ClosedBeforeOpened.message(),
        "server closed connection before assigning a port"
    );
    assert_eq!(
        ClientError::OpenedOnLiveSession.message(),
        "protocol error: unexpected Opened on live session"
    );
    assert_eq!(
        ClientError::WaitingOnLiveSession.message(),
        "protocol error: unexpected Waiting on live session"
    );
}

#[test]
fn client_handoff_keeps_server_bytes() {
    let parts = FrameParts { read_buf: b"HTTP/1.1".to_vec(), write_buf: Vec::new() };
    assert_eq!(client_handoff(parts), b"HTTP/1.1".to_vec());
}

#[test]
fn cli_configuration() {
    let cli = XposeCli::new("localhost", 8000, "example.org", 7835);
    assert_eq!(cli.local_host(), "localhost");
    assert_eq!(cli.local_port(), 8000);
    assert_eq!(cli.server(), "example.org");
    assert_eq!(cli.server_port(), 7835);
}

#[test]
fn handshake_scenario_waiting_then_port() {
    // The server opens every session with a waiting notice, then assigns a port.
    assert_eq!(first_message_action(Some(ClientMessage::Open)), Ok(FirstAction::OpenSession));
    assert_eq!(handshake_step(Some(opening_notice())), Ok(HandshakeStep::KeepWaiting));
    assert_eq!(
        handshake_step(Some(acquisition_reply(Ok(9001)))),
        Ok(HandshakeStep::Opened(9001))
    );
}

#[test]
fn handshake_scenario_server_at_capacity() {
    assert_eq!(handshake_step(Some(opening_notice())), Ok(HandshakeStep::KeepWaiting));
    let outcome = handshake_step(Some(acquisition_reply(Err(ServerError::PoolWaitTimedOut))));
    match outcome {
        Err(e) => assert_eq!(
            e.message(),
            "server error: timed out waiting for a free port — server is at capacity"
        ),
        Ok(step) => panic!("unexpected {:?}", step),
    }
}

#[test]
fn live_session_scenario() {
    let mut pending = TunnelStreams::new();
    let heartbeat = session_step(&mut pending, SessionEvent::HeartbeatDue);
    match heartbeat {
        SessionAction::Send(m) => assert_eq!(control_step(Some(m)), Ok(ControlAction::KeepListening)),
        other => panic!("unexpected {:?}", other),
    }
    assert_eq!(control_step(None), Ok(ControlAction::Finish));
}

