//! Decisions of the server: what a new control connection is for, how an
//! open session answers each event, and how a claimed forwarded connection
//! is handed over to raw copying.
use crate::frame::FrameParts;
use crate::messages::{ClientMessage, ServerMessage};
use crate::pending::TunnelStreams;
use crate::text::{uuid_hyphenated, uuid_text, decimal, decimal_text};
use tokio::net::TcpStream;
use uuid::Uuid;
use vstd::prelude::*;
use vstd::string::StringExecFns;

verus! {

/// Calls `Uuid::new_v4` and returns the id as its 128-bit value
/// (`Uuid::as_u128`). Claimed, from its source: the value is random except
/// for the version field (bits 76 to 79), which holds 4, and the variant
/// field (bits 62 and 63), which holds the RFC 4122 variant `10`.
#[verifier::external_body]
fn new_connection_id() -> (id: u128)
    ensures
        (id >> 76u128) & 0xfu128 == 4u128,
        (id >> 62u128) & 0x3u128 == 2u128,
{
    Uuid::new_v4().as_u128()
}

/// Why a server-side handler ends with an error.
#[derive(Debug, Clone, Copy, PartialEq, Eq)]
pub enum ServerError {
    /// The peer closed the connection before sending its first message.
    ClosedBeforeFirstMessage,
    /// No forwarding port became free in time.
    PoolWaitTimedOut,
    /// A permit was taken but no listener was left in the pool.
    PoolOutOfSync,
    /// The client sent a message on a control channel after `Open`.
    UnexpectedClientMessage(ClientMessage),
    /// A proxy connection claimed an id that is not (or no longer) pending.
    NoPendingConnection(u128),
    /// The framed connection still held this many unwritten bytes when it was
    /// switched to raw copying.
    UnflushedWriteBuffer(usize),
}

/// The text form of a client message, as its `Debug` form shows it.
pub open spec fn client_message_text(m: ClientMessage) -> Seq<char> {
    match m {
        ClientMessage::Open => "Open"@,
        ClientMessage::Accept(id) => "Accept("@ + uuid_hyphenated(id) + ")"@,
    }
}

/// The message of a server error.
pub open spec fn error_text(e: ServerError) -> Seq<char> {
    match e {
        ServerError::ClosedBeforeFirstMessage => "connection closed before first message"@,
        ServerError::PoolWaitTimedOut => "timed out waiting for a free port — server is at capacity"@,
        ServerError::PoolOutOfSync => "semaphore/pool out of sync — this is a bug"@,
        ServerError::UnexpectedClientMessage(m) => "protocol error: unexpected "@
            + client_message_text(m) + " on control channel"@,
        ServerError::NoPendingConnection(id) => "no pending connection for id "@ + uuid_hyphenated(
            id,
        ),
        ServerError::UnflushedWriteBuffer(n) => "non-empty write buffer ("@ + decimal(n as nat)
            + " bytes) on proxy start — aborting to avoid data loss"@,
    }
}

/// The text form of a client message.
pub fn client_message_string(m: ClientMessage) -> (s: String)
    ensures
        s@ == client_message_text(m),
{
    match m {
        ClientMessage::Open => String::from_str("Open"),
        ClientMessage::Accept(id) => String::from_str("Accept(").concat(uuid_text(id).as_str()).concat(
            ")",
        ),
    }
}

impl ServerError {
    /// The error's message.
    pub fn message(&self) -> (s: String)
        ensures
            s@ == error_text(*self),
    {
        match self {
            ServerError::ClosedBeforeFirstMessage => String::from_str(
                "connection closed before first message",
            ),
            ServerError::PoolWaitTimedOut => String::from_str(
                "timed out waiting for a free port — server is at capacity",
            ),
            ServerError::PoolOutOfSync => String::from_str(
                "semaphore/pool out of sync — this is a bug",
            ),
            ServerError::UnexpectedClientMessage(m) => String::from_str(
                "protocol error: unexpected ",
            ).concat(client_message_string(*m).as_str()).concat(" on control channel"),
            ServerError::NoPendingConnection(id) => String::from_str(
                "no pending connection for id ",
            ).concat(uuid_text(*id).as_str()),
            ServerError::UnflushedWriteBuffer(n) => String::from_str(
                "non-empty write buffer (",
            ).concat(decimal_text(*n).as_str()).concat(
                " bytes) on proxy start — aborting to avoid data loss",
            ),
        }
    }
}

/// What a new control connection is used for, decided by its first message.
#[derive(Debug, Clone, Copy, PartialEq, Eq)]
pub enum FirstAction {
    /// Open a forwarding session.
    OpenSession,
    /// Splice this connection to the pending forwarded connection with this id.
    Proxy(u128),
}

/// Dispatches a new control connection on its first message (`None`: the
/// peer closed the connection first).
pub fn first_message_action(msg: Option<ClientMessage>) -> (r: Result<FirstAction, ServerError>)
    ensures
        msg == Some(ClientMessage::Open) ==> r == Ok::<FirstAction, ServerError>(
            FirstAction::OpenSession,
        ),
        msg matches Some(ClientMessage::Accept(id)) ==> r == Ok::<FirstAction, ServerError>(
            FirstAction::Proxy(id),
        ),
        msg is None ==> r == Err::<FirstAction, ServerError>(
            ServerError::ClosedBeforeFirstMessage,
        ),
{
    match msg {
        Some(ClientMessage::Open) => Ok(FirstAction::OpenSession),
        Some(ClientMessage::Accept(id)) => Ok(FirstAction::Proxy(id)),
        None => Err(ServerError::ClosedBeforeFirstMessage),
    }
}

/// The message that opens every session: the client is told at once that it
/// may have to wait for a free port.
pub fn opening_notice() -> (m: ServerMessage)
    ensures
        m == ServerMessage::Waiting,
{
    ServerMessage::Waiting
}

/// The answer to `Open` once the wait for a port is over: the forwarding port
/// that was checked out, or the reason none was.
pub fn acquisition_reply(outcome: Result<u16, ServerError>) -> (m: ServerMessage)
    ensures
        outcome matches Ok(port) ==> m == ServerMessage::Opened(port),
        outcome matches Err(e) ==> (m matches ServerMessage::Error(t) && t@ == error_text(e)),
{
    match outcome {
        Ok(port) => ServerMessage::Opened(port),
        Err(e) => ServerMessage::Error(e.message()),
    }
}

/// Something that happened to an open session.
pub enum SessionEvent {
    /// The heartbeat interval has elapsed.
    HeartbeatDue,
    /// A connection arrived on the session's forwarding port.
    ConnectionAccepted(TcpStream),
    /// The client sent a message on the control channel (`None`: it closed
    /// the channel).
    ClientSent(Option<ClientMessage>),
    /// Writing this message to the client failed.
    SendFailed(ServerMessage),
}

/// What an open session does next.
#[derive(Debug, Clone, PartialEq, Eq)]
pub enum SessionAction {
    /// Write this message to the client and keep serving.
    Send(ServerMessage),
    /// End the session without error.
    Close,
    /// End the session with this protocol error.
    Fail(ServerError),
    /// End the session with the I/O error that made the write fail.
    Abort,
}

/// Answers one event of an open session. An accepted connection is stored
/// under a fresh id among the pending connections and announced to the
/// client; a failed heartbeat or a closed control channel ends the session
/// quietly; any message from the client is a protocol violation.
pub fn session_step(pending: &mut TunnelStreams, ev: SessionEvent) -> (a: SessionAction)
    ensures
        ev is HeartbeatDue ==> a == SessionAction::Send(ServerMessage::Heartbeat) && final(pending).streams() == old(pending).streams(),
        ev matches SessionEvent::ConnectionAccepted(s) ==> exists|id: u128|
            {
                &&& a == SessionAction::Send(ServerMessage::Connection(id))
                &&& !old(pending).ids().contains(id)
                &&& final(pending).streams() == old(pending).streams().insert(id, s)
                &&& (id >> 76u128) & 0xfu128 == 4u128
                &&& (id >> 62u128) & 0x3u128 == 2u128
            },
        ev matches SessionEvent::ClientSent(Some(m)) ==> a == SessionAction::Fail(
            ServerError::UnexpectedClientMessage(m),
        ) && final(pending).streams() == old(pending).streams(),
        ev matches SessionEvent::ClientSent(None) ==> a == SessionAction::Close && final(pending).streams() == old(pending).streams(),
        ev matches SessionEvent::SendFailed(m) ==> a == (if m == ServerMessage::Heartbeat {
            SessionAction::Close
        } else {
            SessionAction::Abort
        }) && final(pending).streams() == old(pending).streams(),
{
    match ev {
        SessionEvent::HeartbeatDue => SessionAction::Send(ServerMessage::Heartbeat),
        SessionEvent::ConnectionAccepted(stream) => {
            let id = register_connection(pending, stream);
            SessionAction::Send(ServerMessage::Connection(id))
        },
        SessionEvent::ClientSent(Some(m)) => SessionAction::Fail(
            ServerError::UnexpectedClientMessage(m),
        ),
        SessionEvent::ClientSent(None) => SessionAction::Close,
        SessionEvent::SendFailed(m) => match m {
            ServerMessage::Heartbeat => SessionAction::Close,
            _ => SessionAction::Abort,
        },
    }
}

/// The bits of a connection id that the fallback search below overwrites:
/// bits 0 to 61 and 64 to 66. The version (76 to 79) and variant (62, 63)
/// fields are kept.
pub open spec fn candidate_keep_mask() -> u128 {
    0xffff_ffff_ffff_fff8_c000_0000_0000_0000u128
}

/// The `k`-th replacement for a drawn id `r` that is already pending: `r`
/// with bits 0 to 61 set to the low bits of `k` and bits 64 to 66 to its
/// next three bits.
pub open spec fn id_candidate(r: u128, k: u128) -> u128 {
    (r & candidate_keep_mask()) | (k & 0x3fff_ffff_ffff_ffffu128) | ((k >> 62u128) << 64u128)
}

/// Replacement ids keep the version and variant fields of the drawn id, and
/// different `k` (below 2^65) give different ids.
proof fn lemma_id_candidate(r: u128, j: u128, k: u128)
    requires
        j < 0x2_0000_0000_0000_0000u128,
        k < 0x2_0000_0000_0000_0000u128,
    ensures
        (id_candidate(r, k) >> 76u128) & 0xfu128 == (r >> 76u128) & 0xfu128,
        (id_candidate(r, k) >> 62u128) & 0x3u128 == (r >> 62u128) & 0x3u128,
        j != k ==> id_candidate(r, j) != id_candidate(r, k),
{
    assert(((r & 0xffff_ffff_ffff_fff8_c000_0000_0000_0000u128) | (k & 0x3fff_ffff_ffff_ffffu128)
        | ((k >> 62u128) << 64u128)) >> 76u128 & 0xfu128 == (r >> 76u128) & 0xfu128)
        by (bit_vector)
        requires
            k < 0x2_0000_0000_0000_0000u128,
    ;
    assert(((r & 0xffff_ffff_ffff_fff8_c000_0000_0000_0000u128) | (k & 0x3fff_ffff_ffff_ffffu128)
        | ((k >> 62u128) << 64u128)) >> 62u128 & 0x3u128 == (r >> 62u128) & 0x3u128)
        by (bit_vector)
        requires
            k < 0x2_0000_0000_0000_0000u128,
    ;
    assert(j != k ==> ((r & 0xffff_ffff_ffff_fff8_c000_0000_0000_0000u128) | (j
        & 0x3fff_ffff_ffff_ffffu128) | ((j >> 62u128) << 64u128)) != ((r
        & 0xffff_ffff_ffff_fff8_c000_0000_0000_0000u128) | (k & 0x3fff_ffff_ffff_ffffu128) | ((k
        >> 62u128) << 64u128))) by (bit_vector)
        requires
            j < 0x2_0000_0000_0000_0000u128,
            k < 0x2_0000_0000_0000_0000u128,
    ;
}

/// Stores a forwarded connection among the pending ones under a fresh
/// random id, and returns the id. The id is one that no pending connection
/// holds: should the random draw hit a pending id, ids differing from it
/// only in random bits are tried in turn until a free one is found.
pub fn register_connection(pending: &mut TunnelStreams, stream: TcpStream) -> (id: u128)
    ensures
        !old(pending).ids().contains(id),
        final(pending).streams() == old(pending).streams().insert(id, stream),
        (id >> 76u128) & 0xfu128 == 4u128,
        (id >> 62u128) & 0x3u128 == 2u128,
{
    let r = new_connection_id();
    if !pending.holds(r) {
        pending.insert(r, stream);
        return r;
    }
    let ghost ids = pending.ids();
    let ghost mut tried: Set<u128> = Set::empty();
    let mut k: u128 = 0;
    while k <= 0x1_0000_0000_0000_0000u128
        invariant
            pending.streams() == old(pending).streams(),
            ids == old(pending).ids(),
            ids.finite(),
            ids.len() <= usize::MAX,
            (r >> 76u128) & 0xfu128 == 4u128,
            (r >> 62u128) & 0x3u128 == 2u128,
            k <= 0x1_0000_0000_0000_0001u128,
            tried.finite(),
            tried.len() == k,
            tried.subset_of(ids),
            forall|x: u128| tried.contains(x) ==> exists|j: u128| j < k && x == id_candidate(r, j),
        decreases 0x1_0000_0000_0000_0001u128 - k,
    {
        let c = (r & 0xffff_ffff_ffff_fff8_c000_0000_0000_0000u128) | (k
            & 0x3fff_ffff_ffff_ffffu128) | ((k >> 62u128) << 64u128);
        assert(c == id_candidate(r, k));
        proof {
            lemma_id_candidate(r, 0, k);
        }
        if !pending.holds(c) {
            pending.insert(c, stream);
            return c;
        }
        proof {
            if tried.contains(c) {
                let j = choose|j: u128| j < k && c == id_candidate(r, j);
                lemma_id_candidate(r, j, k);
            }
            tried = tried.insert(c);
        }
        k = k + 1;
    }
    proof {
        vstd::set_lib::lemma_len_subset(tried, ids);
        assert(false);
    }
    r
}

/// Takes the pending forwarded connection that a proxy connection claims.
pub fn claim_connection(pending: &mut TunnelStreams, id: u128) -> (r: Result<TcpStream, ServerError>)
    ensures
        r is Ok <==> old(pending).ids().contains(id),
        r matches Ok(s) ==> s == old(pending).streams()[id],
        r is Err ==> r == Err::<TcpStream, ServerError>(ServerError::NoPendingConnection(id)),
        final(pending).streams() == old(pending).streams().remove(id),
{
    match pending.remove(id) {
        Some((_, stream)) => Ok(stream),
        None => Err(ServerError::NoPendingConnection(id)),
    }
}

/// Switches a claimed proxy connection from framing to raw copying: the
/// bytes already received past the last frame must reach the forwarded
/// connection first, and unwritten framed output would be lost, so it is an
/// error.
pub fn proxy_handoff(parts: FrameParts) -> (r: Result<Vec<u8>, ServerError>)
    ensures
        parts.write_buf@.len() > 0 ==> r == Err::<Vec<u8>, ServerError>(
            ServerError::UnflushedWriteBuffer(parts.write_buf@.len() as usize),
        ),
        parts.write_buf@.len() == 0 ==> (r matches Ok(bytes) && bytes@ == parts.read_buf@),
{
    if parts.write_buf.len() > 0 {
        Err(ServerError::UnflushedWriteBuffer(parts.write_buf.len()))
    } else {
        Ok(parts.read_buf)
    }
}

/// What a session registers, a proxy claims: once `register_connection` has
/// stored stream `s` under `id` (its table becoming `streams.insert(id, s)`),
/// `claim_connection` with `id` returns `s`, a second claim with `id` fails,
/// and the streams pending under every other id are untouched throughout.
pub proof fn lemma_claim_returns_registered_stream(
    streams: Map<u128, TcpStream>,
    id: u128,
    s: TcpStream,
    other: u128,
)
    requires
        other != id,
    ensures
        streams.insert(id, s).contains_key(id),
        streams.insert(id, s)[id] == s,
        !streams.insert(id, s).remove(id).contains_key(id),
        streams.insert(id, s).remove(id).contains_key(other) == streams.contains_key(other),
        streams.contains_key(other) ==> streams.insert(id, s).remove(id)[other] == streams[other],
{
}

/// Two connections accepted one after the other on a session (two
/// `ConnectionAccepted` events, each announced under an id that its
/// `session_step` ensures was not pending) get different ids; both stay
/// pending, each stream under its own id, beside every connection pending
/// before, which keeps its stream; the table grows by exactly two.
pub proof fn lemma_accepted_connections_get_distinct_ids(
    before: Map<u128, TcpStream>,
    id1: u128,
    s1: TcpStream,
    id2: u128,
    s2: TcpStream,
)
    requires
        before.dom().finite(),
        !before.contains_key(id1),
        !before.insert(id1, s1).contains_key(id2),
    ensures
        id1 != id2,
        before.insert(id1, s1).insert(id2, s2)[id1] == s1,
        before.insert(id1, s1).insert(id2, s2)[id2] == s2,
        forall|x: u128|
            #![trigger before.contains_key(x)]
            before.contains_key(x) ==> before.insert(id1, s1).insert(id2, s2).contains_key(x)
                && before.insert(id1, s1).insert(id2, s2)[x] == before[x],
        before.insert(id1, s1).insert(id2, s2).dom().len() == before.dom().len() + 2,
{
    assert(before.insert(id1, s1).dom() == before.dom().insert(id1));
    assert(before.insert(id1, s1).insert(id2, s2).dom() == before.dom().insert(id1).insert(id2));
}

} // verus!
