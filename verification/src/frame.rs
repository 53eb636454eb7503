//! Null-delimited framing of the control channel.
//!
//! Every message travels as one chunk of text followed by a single zero byte.
//! Splitting the received bytes into chunks, and writing a chunk with its
//! terminator, is done by `tokio_util`'s `AnyDelimiterCodec`, configured with
//! the zero byte as its only delimiter and a chunk limit of 256 bytes. The
//! socket itself stays outside: its owner hands the bytes it read to
//! [`Delimited::receive`] and writes out what [`Delimited::take_outgoing`]
//! returns.
use bytes::BytesMut;
use tokio_util::codec::{AnyDelimiterCodec, AnyDelimiterCodecError, Decoder, Encoder};
use vstd::prelude::*;
use vstd::string::StringSliceAdditionalSpecFns;

verus! {

/// The byte that ends every chunk.
pub const FRAME_DELIMITER: u8 = 0;

/// The longest chunk, in bytes, that a receiver accepts.
pub const MAX_FRAME_LEN: usize = 256;

#[verifier::external_type_specification]
#[verifier::external_body]
pub struct ExAnyDelimiterCodecError(AnyDelimiterCodecError);

/// The delimiter set that the codec searches for.
pub open spec fn frame_delimiters() -> Seq<u8> {
    seq![FRAME_DELIMITER]
}

/// How far into `buf` a codec with chunk limit `max` looks for a delimiter:
/// one byte past the limit, or the whole buffer if it is shorter.
pub open spec fn search_window(buf: Seq<u8>, max: usize) -> int {
    if max + 1 < buf.len() {
        max + 1
    } else {
        buf.len() as int
    }
}

/// `i` is the position of the first delimiter in `buf[..limit]`.
pub open spec fn is_first_delimiter(seek: Seq<u8>, buf: Seq<u8>, limit: int, i: int) -> bool {
    &&& 0 <= i < limit
    &&& i < buf.len()
    &&& seek.contains(buf[i])
    &&& forall|j: int| 0 <= j < i ==> !seek.contains(#[trigger] buf[j])
}

/// What one decoding step makes of a buffer.
pub enum DecodeOutcome {
    /// A complete chunk, and what remains of the buffer after its delimiter.
    Chunk(Seq<u8>, Seq<u8>),
    /// No delimiter yet, and the buffer is still within the limit.
    Incomplete,
    /// No delimiter within the limit: the chunk is too long.
    TooLong,
}

/// One decoding step of an `AnyDelimiterCodec` built with delimiter set `seek`
/// and chunk limit `max`, on the buffered bytes `buf`.
pub open spec fn decode_spec(seek: Seq<u8>, max: usize, buf: Seq<u8>) -> DecodeOutcome {
    let window = search_window(buf, max);
    if exists|i: int| is_first_delimiter(seek, buf, window, i) {
        let i = choose|i: int| is_first_delimiter(seek, buf, window, i);
        DecodeOutcome::Chunk(buf.take(i), buf.skip(i + 1))
    } else if buf.len() > max {
        DecodeOutcome::TooLong
    } else {
        DecodeOutcome::Incomplete
    }
}

/// One decoding step once the peer has closed its side: bytes left over
/// without a delimiter form a last chunk.
pub open spec fn decode_eof_spec(seek: Seq<u8>, max: usize, buf: Seq<u8>) -> DecodeOutcome {
    match decode_spec(seek, max, buf) {
        DecodeOutcome::Incomplete => if buf.len() == 0 {
            DecodeOutcome::Incomplete
        } else {
            DecodeOutcome::Chunk(buf, Seq::empty())
        },
        other => other,
    }
}

/// The result `r` of a decoding call and the buffer `after` it leaves
/// agree with `outcome`, the buffer having held `before`.
pub open spec fn decoded_as<E>(
    outcome: DecodeOutcome,
    before: Seq<u8>,
    r: Result<Option<Vec<u8>>, E>,
    after: Seq<u8>,
) -> bool {
    match outcome {
        DecodeOutcome::Chunk(chunk, rest) => {
            &&& r matches Ok(Some(v)) && v@ == chunk
            &&& after == rest
        },
        DecodeOutcome::Incomplete => {
            &&& r matches Ok(None)
            &&& after == before
        },
        DecodeOutcome::TooLong => {
            &&& r is Err
            &&& after == before
        },
    }
}

/// Calls `Decoder::decode` of `AnyDelimiterCodec::new_with_max_length(seek,
/// writer, max)`, a codec in its initial state, on the bytes of `buf`.
/// Claimed, from the codec's source: it looks for the first delimiter among
/// the first `max + 1` bytes; when there is one it returns the bytes before it
/// and removes them and the delimiter from the buffer; when there is none it
/// fails if the buffer is longer than `max` and otherwise returns nothing;
/// in both of these cases the buffer is left as it was.
#[verifier::external_body]
fn codec_decode(seek: Vec<u8>, writer: Vec<u8>, max: usize, buf: &mut Vec<u8>) -> (r: Result<
    Option<Vec<u8>>,
    AnyDelimiterCodecError,
>)
    ensures
        decoded_as(decode_spec(seek@, max, old(buf)@), old(buf)@, r, final(buf)@),
{
    let mut codec = AnyDelimiterCodec::new_with_max_length(seek, writer, max);
    let mut bytes = BytesMut::from(&buf[..]);
    let r = codec.decode(&mut bytes);
    *buf = bytes.to_vec();
    r.map(|o| o.map(|chunk| chunk.to_vec()))
}

/// Calls `Decoder::decode_eof` of `AnyDelimiterCodec::new_with_max_length(seek,
/// writer, max)`, a codec in its initial state, on the bytes of `buf`.
/// Claimed, from the codec's source: it decodes as `decode` does, and where
/// that finds no delimiter within the limit it returns what is left in the
/// buffer, if anything, as a last chunk and empties the buffer.
#[verifier::external_body]
fn codec_decode_eof(seek: Vec<u8>, writer: Vec<u8>, max: usize, buf: &mut Vec<u8>) -> (r: Result<
    Option<Vec<u8>>,
    AnyDelimiterCodecError,
>)
    ensures
        decoded_as(decode_eof_spec(seek@, max, old(buf)@), old(buf)@, r, final(buf)@),
{
    let mut codec = AnyDelimiterCodec::new_with_max_length(seek, writer, max);
    let mut bytes = BytesMut::from(&buf[..]);
    let r = codec.decode_eof(&mut bytes);
    *buf = bytes.to_vec();
    r.map(|o| o.map(|chunk| chunk.to_vec()))
}

/// Calls `Encoder::encode` of `AnyDelimiterCodec::new_with_max_length(seek,
/// writer, max)` with `chunk`, appending to the bytes of `buf`.
/// Claimed, from the codec's source: it always succeeds, and appends the
/// UTF-8 bytes of `chunk` followed by the bytes of `writer`.
#[verifier::external_body]
fn codec_encode(seek: Vec<u8>, writer: Vec<u8>, max: usize, chunk: &str, buf: &mut Vec<u8>) -> (r:
    Result<(), AnyDelimiterCodecError>)
    requires
        old(buf)@.len() + chunk.spec_bytes().len() + writer@.len() <= isize::MAX,
    ensures
        r is Ok,
        final(buf)@ == old(buf)@ + chunk.spec_bytes() + writer@,
{
    let mut codec = AnyDelimiterCodec::new_with_max_length(seek, writer, max);
    let mut bytes = BytesMut::from(&buf[..]);
    let r = codec.encode(chunk, &mut bytes);
    *buf = bytes.to_vec();
    r
}

/// The delimiter set as the codec takes it.
fn delimiter_bytes() -> (v: Vec<u8>)
    ensures
        v@ == frame_delimiters(),
{
    let mut v: Vec<u8> = Vec::new();
    v.push(FRAME_DELIMITER);
    assert(v@ == frame_delimiters());
    v
}

/// Why no frame could be read.
#[derive(Debug, Clone, Copy, PartialEq, Eq)]
pub enum FrameError {
    /// The peer sent more than [`MAX_FRAME_LEN`] bytes without a delimiter.
    MaxLengthExceeded,
}

/// What reading the buffered input gave.
#[derive(Debug, Clone, PartialEq, Eq)]
pub enum FrameEvent {
    /// A complete chunk, without its delimiter.
    Frame(Vec<u8>),
    /// More bytes must be read from the peer before a chunk is complete.
    NeedBytes,
    /// The stream has ended: the peer closed it, or (once, right after a
    /// failure) the failed stream is reported as over.
    Closed,
    /// The input is malformed. The next call reports the end of the stream;
    /// reading may then go on, past the rest of the over-long chunk.
    Failed(FrameError),
}

/// The buffers of a framed connection, handed over when the connection
/// leaves the framed protocol to carry raw bytes.
pub struct FrameParts {
    /// Bytes received but not yet decoded.
    pub read_buf: Vec<u8>,
    /// Bytes encoded but not yet written out.
    pub write_buf: Vec<u8>,
}

/// A null-delimited connection: received bytes waiting to be decoded, and
/// encoded bytes waiting to be written.
pub struct Delimited {
    read_buf: Vec<u8>,
    write_buf: Vec<u8>,
    eof: bool,
    errored: bool,
    paused: bool,
    discarding: bool,
}

/// What is left of `buf` once the rest of an over-long chunk, up to and
/// including the next delimiter, is skipped; `None` when `buf` holds no
/// delimiter. This is a codec decoding step with no length limit.
pub open spec fn skip_to_next_frame(buf: Seq<u8>) -> Option<Seq<u8>> {
    match decode_spec(frame_delimiters(), usize::MAX, buf) {
        DecodeOutcome::Chunk(_, rest) => Some(rest),
        _ => None,
    }
}

/// The input that normal decoding starts from: all of it, or, while the rest
/// of an over-long chunk is being skipped, what follows that rest.
pub open spec fn decodable_input(discarding: bool, input: Seq<u8>) -> Option<Seq<u8>> {
    if discarding {
        skip_to_next_frame(input)
    } else {
        Some(input)
    }
}

impl Delimited {
    /// Bytes received and not yet decoded.
    pub closed spec fn pending_input(&self) -> Seq<u8> {
        self.read_buf@
    }

    /// Bytes encoded and not yet handed out for writing.
    pub closed spec fn pending_output(&self) -> Seq<u8> {
        self.write_buf@
    }

    /// The peer has closed its side.
    pub closed spec fn at_eof(&self) -> bool {
        self.eof
    }

    /// Decoding has just failed; the next call reports the end of the stream.
    pub closed spec fn has_failed(&self) -> bool {
        self.errored
    }

    /// The end of a failed stream has been reported; nothing is decoded
    /// before the next read.
    pub closed spec fn is_paused(&self) -> bool {
        self.paused
    }

    /// The rest of an over-long chunk is being skipped.
    pub closed spec fn is_discarding(&self) -> bool {
        self.discarding
    }

    /// A fresh connection with nothing buffered.
    pub fn new() -> (d: Self)
        ensures
            d.pending_input() == Seq::<u8>::empty(),
            d.pending_output() == Seq::<u8>::empty(),
            !d.at_eof(),
            !d.has_failed(),
            !d.is_paused(),
            !d.is_discarding(),
    {
        Delimited {
            read_buf: Vec::new(),
            write_buf: Vec::new(),
            eof: false,
            errored: false,
            paused: false,
            discarding: false,
        }
    }

    /// Takes in the bytes of one read from the peer; an empty read means that
    /// the peer has closed its side.
    pub fn receive(&mut self, data: &[u8])
        ensures
            data@.len() == 0 ==> final(self).pending_input() == old(self).pending_input()
                && final(self).at_eof(),
            data@.len() > 0 ==> final(self).pending_input() == old(self).pending_input() + data@
                && !final(self).at_eof(),
            final(self).pending_output() == old(self).pending_output(),
            final(self).has_failed() == old(self).has_failed(),
            final(self).is_discarding() == old(self).is_discarding(),
            !final(self).is_paused(),
    {
        self.paused = false;
        if data.len() == 0 {
            self.eof = true;
        } else {
            let mut i: usize = 0;
            while i < data.len()
                invariant
                    0 <= i <= data@.len(),
                    self.read_buf@ == old(self).read_buf@ + data@.take(i as int),
                    self.write_buf == old(self).write_buf,
                    self.errored == old(self).errored,
                    self.discarding == old(self).discarding,
                    !self.paused,
                decreases data@.len() - i,
            {
                self.read_buf.push(data[i]);
                i = i + 1;
                assert(self.read_buf@ == old(self).read_buf@ + data@.take(i as int));
            }
            assert(data@.take(data@.len() as int) == data@);
            self.eof = false;
        }
    }

    /// Decodes the next chunk from the buffered input.
    pub fn next_frame(&mut self) -> (ev: FrameEvent)
        ensures
            final(self).pending_output() == old(self).pending_output(),
            final(self).at_eof() == old(self).at_eof(),
            old(self).has_failed() ==> {
                &&& ev == FrameEvent::Closed
                &&& final(self).pending_input() == old(self).pending_input()
                &&& !final(self).has_failed()
                &&& final(self).is_paused()
                &&& final(self).is_discarding()
            },
            !old(self).has_failed() && old(self).is_paused() ==> {
                &&& ev == FrameEvent::NeedBytes
                &&& final(self).pending_input() == old(self).pending_input()
                &&& !final(self).has_failed()
                &&& final(self).is_paused()
                &&& final(self).is_discarding() == old(self).is_discarding()
            },
            !old(self).has_failed() && !old(self).is_paused() && decodable_input(
                old(self).is_discarding(),
                old(self).pending_input(),
            ) is None ==> {
                &&& ev == (if old(self).at_eof() {
                    FrameEvent::Closed
                } else {
                    FrameEvent::NeedBytes
                })
                &&& final(self).pending_input() == Seq::<u8>::empty()
                &&& !final(self).has_failed()
                &&& !final(self).is_paused()
                &&& final(self).is_discarding()
            },
            !old(self).has_failed() && !old(self).is_paused() ==> (decodable_input(
                old(self).is_discarding(),
                old(self).pending_input(),
            ) matches Some(input) ==> {
                &&& frame_step(
                    if old(self).at_eof() {
                        decode_eof_spec(frame_delimiters(), MAX_FRAME_LEN, input)
                    } else {
                        decode_spec(frame_delimiters(), MAX_FRAME_LEN, input)
                    },
                    old(self).at_eof(),
                    input,
                    ev,
                    final(self).pending_input(),
                    final(self).has_failed(),
                )
                &&& !final(self).is_paused()
                &&& !final(self).is_discarding()
            }),
    {
        if self.errored {
            self.errored = false;
            self.paused = true;
            self.discarding = true;
            return FrameEvent::Closed;
        }
        if self.paused {
            return FrameEvent::NeedBytes;
        }
        if self.discarding {
            let skipped = codec_decode(
                delimiter_bytes(),
                delimiter_bytes(),
                usize::MAX,
                &mut self.read_buf,
            );
            match skipped {
                Ok(Some(_)) => {
                    self.discarding = false;
                },
                _ => {
                    self.read_buf.clear();
                    return if self.eof {
                        FrameEvent::Closed
                    } else {
                        FrameEvent::NeedBytes
                    };
                },
            }
        }
        let seek = delimiter_bytes();
        let writer = delimiter_bytes();
        let r = if self.eof {
            codec_decode_eof(seek, writer, MAX_FRAME_LEN, &mut self.read_buf)
        } else {
            codec_decode(seek, writer, MAX_FRAME_LEN, &mut self.read_buf)
        };
        match r {
            Ok(Some(chunk)) => FrameEvent::Frame(chunk),
            Ok(None) => if self.eof {
                FrameEvent::Closed
            } else {
                FrameEvent::NeedBytes
            },
            Err(_) => {
                self.errored = true;
                FrameEvent::Failed(FrameError::MaxLengthExceeded)
            },
        }
    }

    /// Encodes `text` as one chunk and queues it for writing.
    pub fn send(&mut self, text: &str)
        requires
            old(self).pending_output().len() + text.spec_bytes().len() + 1 <= isize::MAX,
        ensures
            final(self).pending_output() == old(self).pending_output() + text.spec_bytes()
                + frame_delimiters(),
            final(self).pending_input() == old(self).pending_input(),
            final(self).at_eof() == old(self).at_eof(),
            final(self).has_failed() == old(self).has_failed(),
            final(self).is_paused() == old(self).is_paused(),
            final(self).is_discarding() == old(self).is_discarding(),
    {
        let r = codec_encode(
            delimiter_bytes(),
            delimiter_bytes(),
            MAX_FRAME_LEN,
            text,
            &mut self.write_buf,
        );
        assert(r is Ok);
    }

    /// Hands out the queued output for writing and clears the queue.
    pub fn take_outgoing(&mut self) -> (out: Vec<u8>)
        ensures
            out@ == old(self).pending_output(),
            final(self).pending_output() == Seq::<u8>::empty(),
            final(self).pending_input() == old(self).pending_input(),
            final(self).at_eof() == old(self).at_eof(),
            final(self).has_failed() == old(self).has_failed(),
            final(self).is_paused() == old(self).is_paused(),
            final(self).is_discarding() == old(self).is_discarding(),
    {
        let mut out: Vec<u8> = Vec::new();
        out.append(&mut self.write_buf);
        out
    }

    /// Consumes the connection, returning its buffers.
    pub fn into_parts(self) -> (parts: FrameParts)
        ensures
            parts.read_buf@ == self.pending_input(),
            parts.write_buf@ == self.pending_output(),
    {
        FrameParts { read_buf: self.read_buf, write_buf: self.write_buf }
    }
}

/// The event `ev`, the remaining input `after` and the failure flag `failed`
/// are what `outcome` makes of the buffered input `before`; at the end of
/// the stream an empty buffer closes it instead of waiting for more bytes.
pub open spec fn frame_step(
    outcome: DecodeOutcome,
    eof: bool,
    before: Seq<u8>,
    ev: FrameEvent,
    after: Seq<u8>,
    failed: bool,
) -> bool {
    match outcome {
        DecodeOutcome::Chunk(chunk, rest) => {
            &&& ev matches FrameEvent::Frame(v) && v@ == chunk
            &&& after == rest
            &&& !failed
        },
        DecodeOutcome::Incomplete => {
            &&& ev == (if eof {
                FrameEvent::Closed
            } else {
                FrameEvent::NeedBytes
            })
            &&& after == before
            &&& !failed
        },
        DecodeOutcome::TooLong => {
            &&& ev == FrameEvent::Failed(FrameError::MaxLengthExceeded)
            &&& after == before
            &&& failed
        },
    }
}

/// There is at most one first delimiter.
proof fn lemma_first_delimiter_unique(seek: Seq<u8>, buf: Seq<u8>, limit: int, i: int, j: int)
    requires
        is_first_delimiter(seek, buf, limit, i),
        is_first_delimiter(seek, buf, limit, j),
    ensures
        i == j,
{
    if i < j {
        assert(!seek.contains(buf[i]));
    } else if j < i {
        assert(!seek.contains(buf[j]));
    }
}

/// A chunk whose bytes hold no delimiter and fit within the limit, followed by
/// the delimiter, decodes to itself and leaves whatever came after it.
proof fn lemma_decode_terminated(payload: Seq<u8>, rest: Seq<u8>)
    requires
        !payload.contains(FRAME_DELIMITER),
        payload.len() <= MAX_FRAME_LEN,
    ensures
        decode_spec(frame_delimiters(), MAX_FRAME_LEN, payload + frame_delimiters() + rest)
            == DecodeOutcome::Chunk(payload, rest),
{
    let seek = frame_delimiters();
    let buf = payload + seek + rest;
    let n = payload.len() as int;
    let window = search_window(buf, MAX_FRAME_LEN);
    assert(buf[n] == FRAME_DELIMITER);
    assert(seek.contains(buf[n])) by {
        assert(seek[0] == buf[n]);
    }
    assert forall|j: int| 0 <= j < n implies !seek.contains(#[trigger] buf[j]) by {
        assert(buf[j] == payload[j]);
        if seek.contains(buf[j]) {
            let k = choose|k: int| 0 <= k < seek.len() && seek[k] == buf[j];
            assert(payload[j] == FRAME_DELIMITER);
            assert(payload.contains(FRAME_DELIMITER));
        }
    }
    assert(is_first_delimiter(seek, buf, window, n));
    let i = choose|i: int| is_first_delimiter(seek, buf, window, i);
    lemma_first_delimiter_unique(seek, buf, window, i, n);
    assert(buf.take(n) == payload);
    assert(buf.skip(n + 1) == rest);
}

/// What [`Delimited::send`] writes, the peer's [`Delimited::next_frame`] reads
/// back: a text whose bytes hold no zero byte and are at most
/// [`MAX_FRAME_LEN`] long, once encoded and followed by any further bytes,
/// decodes to exactly the text's bytes and leaves the further bytes, both
/// while the stream is open and after the peer has closed it.
pub proof fn lemma_sent_text_is_received(text: &str, rest: Seq<u8>)
    requires
        !text.spec_bytes().contains(FRAME_DELIMITER),
        text.spec_bytes().len() <= MAX_FRAME_LEN,
    ensures
        decode_spec(frame_delimiters(), MAX_FRAME_LEN, text.spec_bytes() + frame_delimiters() + rest)
            == DecodeOutcome::Chunk(text.spec_bytes(), rest),
        decode_eof_spec(
            frame_delimiters(),
            MAX_FRAME_LEN,
            text.spec_bytes() + frame_delimiters() + rest,
        ) == DecodeOutcome::Chunk(text.spec_bytes(), rest),
{
    lemma_decode_terminated(text.spec_bytes(), rest);
}

/// Two chunks written one after the other are read back in the order they
/// were written, each whole.
pub proof fn lemma_frames_keep_their_order(first: Seq<u8>, second: Seq<u8>, rest: Seq<u8>)
    requires
        !first.contains(FRAME_DELIMITER),
        !second.contains(FRAME_DELIMITER),
        first.len() <= MAX_FRAME_LEN,
        second.len() <= MAX_FRAME_LEN,
    ensures
        decode_spec(
            frame_delimiters(),
            MAX_FRAME_LEN,
            first + frame_delimiters() + second + frame_delimiters() + rest,
        ) == DecodeOutcome::Chunk(first, second + frame_delimiters() + rest),
        decode_spec(frame_delimiters(), MAX_FRAME_LEN, second + frame_delimiters() + rest)
            == DecodeOutcome::Chunk(second, rest),
{
    let tail = second + frame_delimiters() + rest;
    lemma_decode_terminated(first, tail);
    assert(first + frame_delimiters() + second + frame_delimiters() + rest == first
        + frame_delimiters() + tail);
    lemma_decode_terminated(second, rest);
}

/// A chunk is refused when more than [`MAX_FRAME_LEN`] bytes arrive without a
/// delimiter among them, though the sender writes chunks of any length.
pub proof fn lemma_overlong_chunk_is_refused(buf: Seq<u8>)
    requires
        buf.len() > MAX_FRAME_LEN,
        !buf.take(MAX_FRAME_LEN + 1).contains(FRAME_DELIMITER),
    ensures
        decode_spec(frame_delimiters(), MAX_FRAME_LEN, buf) == DecodeOutcome::TooLong,
        decode_eof_spec(frame_delimiters(), MAX_FRAME_LEN, buf) == DecodeOutcome::TooLong,
{
    let seek = frame_delimiters();
    let window = search_window(buf, MAX_FRAME_LEN);
    assert(window == MAX_FRAME_LEN + 1);
    if exists|i: int| is_first_delimiter(seek, buf, window, i) {
        let i = choose|i: int| is_first_delimiter(seek, buf, window, i);
        assert(seek.contains(buf[i]));
        let k = choose|k: int| 0 <= k < seek.len() && seek[k] == buf[i];
        assert(buf.take(MAX_FRAME_LEN + 1)[i] == FRAME_DELIMITER);
        assert(false);
    }
}

/// Bytes still buffered without a delimiter when the peer closes the stream
/// form a last chunk, provided they fit within the limit.
pub proof fn lemma_unterminated_tail_is_delivered_at_eof(tail: Seq<u8>)
    requires
        0 < tail.len() <= MAX_FRAME_LEN,
        !tail.contains(FRAME_DELIMITER),
    ensures
        decode_spec(frame_delimiters(), MAX_FRAME_LEN, tail) == DecodeOutcome::Incomplete,
        decode_eof_spec(frame_delimiters(), MAX_FRAME_LEN, tail) == DecodeOutcome::Chunk(
            tail,
            Seq::empty(),
        ),
{
    let seek = frame_delimiters();
    let window = search_window(tail, MAX_FRAME_LEN);
    if exists|i: int| is_first_delimiter(seek, tail, window, i) {
        let i = choose|i: int| is_first_delimiter(seek, tail, window, i);
        assert(seek.contains(tail[i]));
        let k = choose|k: int| 0 <= k < seek.len() && seek[k] == tail[i];
        assert(tail.contains(FRAME_DELIMITER));
    }
}

/// A chunk `send` can carry to a receiver: no zero byte, within the limit.
pub open spec fn sendable(payload: Seq<u8>) -> bool {
    !payload.contains(FRAME_DELIMITER) && payload.len() <= MAX_FRAME_LEN
}

/// The bytes that sending the chunks `ps` one after the other writes.
pub open spec fn encode_frames(ps: Seq<Seq<u8>>) -> Seq<u8>
    decreases ps.len(),
{
    if ps.len() == 0 {
        Seq::empty()
    } else {
        ps[0] + frame_delimiters() + encode_frames(ps.drop_first())
    }
}

/// The first `n` chunks that repeated decoding steps take from `buf`, and what
/// is left; `None` if a step does not yield a chunk.
pub open spec fn decode_frames(buf: Seq<u8>, n: nat) -> Option<(Seq<Seq<u8>>, Seq<u8>)>
    decreases n,
{
    if n == 0 {
        Some((Seq::empty(), buf))
    } else {
        match decode_spec(frame_delimiters(), MAX_FRAME_LEN, buf) {
            DecodeOutcome::Chunk(c, rest) => match decode_frames(rest, (n - 1) as nat) {
                Some((cs, r)) => Some((seq![c] + cs, r)),
                None => None,
            },
            _ => None,
        }
    }
}

/// Any number of chunks sent one after the other are read back whole and in
/// the order sent, leaving whatever followed them; once they are all read
/// and the peer has closed, the stream ends.
pub proof fn lemma_all_frames_received_in_order(ps: Seq<Seq<u8>>, rest: Seq<u8>)
    requires
        forall|i: int| 0 <= i < ps.len() ==> sendable(#[trigger] ps[i]),
    ensures
        decode_frames(encode_frames(ps) + rest, ps.len()) == Some((ps, rest)),
        decode_eof_spec(frame_delimiters(), MAX_FRAME_LEN, Seq::<u8>::empty())
            == DecodeOutcome::Incomplete,
    decreases ps.len(),
{
    if ps.len() > 0 {
        let tail = encode_frames(ps.drop_first()) + rest;
        assert(sendable(ps[0]));
        lemma_decode_terminated(ps[0], tail);
        assert(encode_frames(ps) + rest == ps[0] + frame_delimiters() + tail);
        assert forall|i: int| 0 <= i < ps.drop_first().len() implies sendable(
            #[trigger] ps.drop_first()[i],
        ) by {
            assert(ps.drop_first()[i] == ps[i + 1]);
        }
        lemma_all_frames_received_in_order(ps.drop_first(), rest);
        assert(seq![ps[0]] + ps.drop_first() == ps);
    }
    let e = Seq::<u8>::empty();
    assert(!(exists|i: int|
        is_first_delimiter(frame_delimiters(), e, search_window(e, MAX_FRAME_LEN), i)));
}

} // verus!
