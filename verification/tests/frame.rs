use xposeit::frame::{Delimited, FrameError, FrameEvent, FRAME_DELIMITER, MAX_FRAME_LEN};
use xposeit::messages::{ClientMessage, ServerMessage};

/// Reads a message the way the serde form of `ClientMessage` writes it.
fn client_message(v: &serde_json::Value) -> Option<ClientMessage> {
    match v.as_str() {
        Some("Open") => Some(ClientMessage::Open),
        _ => None,
    }
}

/// Reads a message the way the serde form of `ServerMessage` writes it.
fn server_message(v: &serde_json::Value) -> Option<ServerMessage> {
    match v.as_str() {
        Some("Heartbeat") => return Some(ServerMessage::Heartbeat),
        Some("Waiting") => return Some(ServerMessage::Waiting),
        _ => {}
    }
    let port = v.get("Opened")?.as_u64()?;
    Some(ServerMessage::Opened(u16::try_from(port).ok()?))
}

fn deliver(from: &mut Delimited, to: &mut Delimited) {
    let bytes = from.take_outgoing();
    to.receive(&bytes);
}

#[test]
fn test_send_and_recv() {
    let mut client = Delimited::new();
    let mut server = Delimited::new();

    client.send("\"Open\"");
    deliver(&mut client, &mut server);
    assert_eq!(server.next_frame(), FrameEvent::Frame(b"\"Open\"".to_vec()));
    assert_eq!(server.next_frame(), FrameEvent::NeedBytes);

    server.send("{\"Opened\":8080}");
    deliver(&mut server, &mut client);
    assert_eq!(client.next_frame(), FrameEvent::Frame(b"{\"Opened\":8080}".to_vec()));
}

#[test]
fn test_into_parts() {
    let delimited = Delimited::new();
    let parts = delimited.into_parts();
    assert!(parts.read_buf.is_empty());
    assert!(parts.write_buf.is_empty());

    let other = Delimited::new();
    let parts = other.into_parts();
    assert!(parts.read_buf.is_empty());
    assert!(parts.write_buf.is_empty());
}

#[test]
fn test_serialization_and_deserialization() {
    let mut client = Delimited::new();
    let mut server = Delimited::new();

    // A message whose text is itself a JSON document travels as a JSON string.
    let inner = "\"Open\"";
    let outer = serde_json::to_string(inner).unwrap();
    client.send(&outer);
    deliver(&mut client, &mut server);
    match server.next_frame() {
        FrameEvent::Frame(bytes) => {
            let text: String = serde_json::from_slice(&bytes).unwrap();
            assert_eq!(text, inner);
            let value: serde_json::Value = serde_json::from_str(&text).unwrap();
            assert_eq!(client_message(&value), Some(ClientMessage::Open));
        }
        other => panic!("unexpected {:?}", other),
    }

    let reply = serde_json::to_string("{\"Opened\":8080}").unwrap();
    server.send(&reply);
    deliver(&mut server, &mut client);
    match client.next_frame() {
        FrameEvent::Frame(bytes) => {
            let text: String = serde_json::from_slice(&bytes).unwrap();
            assert_eq!(text, "{\"Opened\":8080}");
            let value: serde_json::Value = serde_json::from_str(&text).unwrap();
            assert_eq!(server_message(&value), Some(ServerMessage::Opened(8080)));
        }
        other => panic!("unexpected {:?}", other),
    }
}

#[test]
fn encoded_frame_ends_with_delimiter() {
    let mut d = Delimited::new();
    d.send("\"Heartbeat\"");
    let out = d.take_outgoing();
    let mut expected = b"\"Heartbeat\"".to_vec();
    expected.push(FRAME_DELIMITER);
    assert_eq!(out, expected);
    assert!(d.take_outgoing().is_empty());
}

#[test]
fn frames_arrive_in_order_across_reads() {
    let mut rx = Delimited::new();
    rx.receive(b"\"Heart");
    assert_eq!(rx.next_frame(), FrameEvent::NeedBytes);
    rx.receive(b"beat\"\0\"Waiting\"\0{\"Op");
    assert_eq!(rx.next_frame(), FrameEvent::Frame(b"\"Heartbeat\"".to_vec()));
    assert_eq!(rx.next_frame(), FrameEvent::Frame(b"\"Waiting\"".to_vec()));
    assert_eq!(rx.next_frame(), FrameEvent::NeedBytes);
    let parts = rx.into_parts();
    assert_eq!(parts.read_buf, b"{\"Op".to_vec());
}

#[test]
fn chunk_of_exactly_the_limit_is_accepted() {
    let mut rx = Delimited::new();
    let mut data = vec![b'a'; MAX_FRAME_LEN];
    data.push(0);
    rx.receive(&data);
    assert_eq!(rx.next_frame(), FrameEvent::Frame(vec![b'a'; MAX_FRAME_LEN]));
}

#[test]
fn overlong_chunk_is_refused_and_ends_the_stream() {
    let mut rx = Delimited::new();
    let mut data = vec![b'a'; MAX_FRAME_LEN + 1];
    data.push(0);
    rx.receive(&data);
    assert_eq!(rx.next_frame(), FrameEvent::Failed(FrameError::MaxLengthExceeded));
    assert_eq!(rx.next_frame(), FrameEvent::Closed);
    assert_eq!(rx.next_frame(), FrameEvent::NeedBytes);
}

#[test]
fn reading_resumes_after_an_overlong_chunk() {
    let mut rx = Delimited::new();
    rx.receive(&vec![b'a'; MAX_FRAME_LEN + 1]);
    assert_eq!(rx.next_frame(), FrameEvent::Failed(FrameError::MaxLengthExceeded));
    assert_eq!(rx.next_frame(), FrameEvent::Closed);
    assert_eq!(rx.next_frame(), FrameEvent::NeedBytes);
    rx.receive(b"aaaa");
    assert_eq!(rx.next_frame(), FrameEvent::NeedBytes);
    rx.receive(b"aa\0\"Open\"\0");
    assert_eq!(rx.next_frame(), FrameEvent::Frame(b"\"Open\"".to_vec()));
    assert_eq!(rx.next_frame(), FrameEvent::NeedBytes);
    rx.receive(b"");
    assert_eq!(rx.next_frame(), FrameEvent::Closed);
}

#[test]
fn many_frames_arrive_in_order_then_the_stream_ends() {
    let mut tx = Delimited::new();
    let mut rx = Delimited::new();
    let texts = ["\"Waiting\"", "{\"Opened\":9001}", "\"Heartbeat\"", "\"Heartbeat\""];
    for t in texts.iter() {
        tx.send(t);
    }
    deliver(&mut tx, &mut rx);
    rx.receive(b"");
    for t in texts.iter() {
        assert_eq!(rx.next_frame(), FrameEvent::Frame(t.as_bytes().to_vec()));
    }
    assert_eq!(rx.next_frame(), FrameEvent::Closed);
}

#[test]
fn long_input_without_delimiter_is_refused() {
    let mut rx = Delimited::new();
    rx.receive(&vec![b'x'; MAX_FRAME_LEN]);
    assert_eq!(rx.next_frame(), FrameEvent::NeedBytes);
    rx.receive(b"y");
    assert_eq!(rx.next_frame(), FrameEvent::Failed(FrameError::MaxLengthExceeded));
}

#[test]
fn leftover_bytes_form_a_last_frame_at_eof() {
    let mut rx = Delimited::new();
    rx.receive(b"\"Open\"\0\"Wait");
    assert_eq!(rx.next_frame(), FrameEvent::Frame(b"\"Open\"".to_vec()));
    assert_eq!(rx.next_frame(), FrameEvent::NeedBytes);
    rx.receive(b"");
    assert_eq!(rx.next_frame(), FrameEvent::Frame(b"\"Wait".to_vec()));
    assert_eq!(rx.next_frame(), FrameEvent::Closed);
}

#[test]
fn empty_stream_closes() {
    let mut rx = Delimited::new();
    rx.receive(b"");
    assert_eq!(rx.next_frame(), FrameEvent::Closed);
}

#[test]
fn empty_chunk_is_a_frame() {
    let mut rx = Delimited::new();
    rx.receive(b"\0");
    assert_eq!(rx.next_frame(), FrameEvent::Frame(Vec::new()));
}

#[test]
fn unflushed_output_shows_in_parts() {
    let mut d = Delimited::new();
    d.send("\"Open\"");
    let parts = d.into_parts();
    assert_eq!(parts.write_buf, b"\"Open\"\0".to_vec());
}
