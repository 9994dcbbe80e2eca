//! The tunnel's binary framing: `[type: u8][stream_id: u32 big-endian][payload...]`.
use vstd::prelude::*;
use vstd::slice::{slice_subrange, slice_to_vec};
use vstd::string::{StrSliceExecFns, StringSliceAdditionalSpecFns};
use crate::text::{decimal, decimal_string};

verus! {

/// Current protocol version.
pub const PROTOCOL_VERSION: u32 = 1;

/// Name every peer announces in its HELLO.
pub const PROTOCOL_NAME: &'static str = "httptunnel";

/// Maximum frame size (64KB, within WebRTC data channel limits).
pub const MAX_FRAME_SIZE: usize = 64 * 1024;

/// Largest body chunk carried by one frame (room is left for the header).
pub const MAX_BODY_CHUNK: usize = MAX_FRAME_SIZE - 128;

/// Message type tags.
#[derive(Debug, Clone, Copy, PartialEq, Eq, Structural)]
pub enum MessageType {
    Hello,
    Agree,
    Ping,
    Pong,
    ReqHeaders,
    ReqBody,
    ReqEnd,
    ResHeaders,
    ResBody,
    ResEnd,
    Error,
}

/// The byte that tags a message type on the wire.
pub open spec fn tag_of(t: MessageType) -> u8 {
    match t {
        MessageType::Hello => 1,
        MessageType::Agree => 2,
        MessageType::Ping => 3,
        MessageType::Pong => 4,
        MessageType::ReqHeaders => 10,
        MessageType::ReqBody => 11,
        MessageType::ReqEnd => 12,
        MessageType::ResHeaders => 20,
        MessageType::ResBody => 21,
        MessageType::ResEnd => 22,
        MessageType::Error => 99,
    }
}

/// The message type a tag byte stands for, if any.
pub open spec fn type_of_tag(v: u8) -> Option<MessageType> {
    if v == 1 {
        Some(MessageType::Hello)
    } else if v == 2 {
        Some(MessageType::Agree)
    } else if v == 3 {
        Some(MessageType::Ping)
    } else if v == 4 {
        Some(MessageType::Pong)
    } else if v == 10 {
        Some(MessageType::ReqHeaders)
    } else if v == 11 {
        Some(MessageType::ReqBody)
    } else if v == 12 {
        Some(MessageType::ReqEnd)
    } else if v == 20 {
        Some(MessageType::ResHeaders)
    } else if v == 21 {
        Some(MessageType::ResBody)
    } else if v == 22 {
        Some(MessageType::ResEnd)
    } else if v == 99 {
        Some(MessageType::Error)
    } else {
        None
    }
}

impl MessageType {
    /// The message type tagged by `v`, or `None` for an unknown tag.
    pub fn from_u8(v: u8) -> (r: Option<Self>)
        ensures
            r == type_of_tag(v),
    {
        match v {
            1 => Some(MessageType::Hello),
            2 => Some(MessageType::Agree),
            3 => Some(MessageType::Ping),
            4 => Some(MessageType::Pong),
            10 => Some(MessageType::ReqHeaders),
            11 => Some(MessageType::ReqBody),
            12 => Some(MessageType::ReqEnd),
            20 => Some(MessageType::ResHeaders),
            21 => Some(MessageType::ResBody),
            22 => Some(MessageType::ResEnd),
            99 => Some(MessageType::Error),
            _ => None,
        }
    }

    /// The tag byte of this message type.
    pub fn to_u8(self) -> (v: u8)
        ensures
            v == tag_of(self),
    {
        match self {
            MessageType::Hello => 1,
            MessageType::Agree => 2,
            MessageType::Ping => 3,
            MessageType::Pong => 4,
            MessageType::ReqHeaders => 10,
            MessageType::ReqBody => 11,
            MessageType::ReqEnd => 12,
            MessageType::ResHeaders => 20,
            MessageType::ResBody => 21,
            MessageType::ResEnd => 22,
            MessageType::Error => 99,
        }
    }
}

/// Decoding a tag gives back the type that was encoded.
pub proof fn lemma_tag_roundtrip(t: MessageType)
    ensures
        type_of_tag(tag_of(t)) == Some(t),
{
}

/// A tag that decodes to a type is that type's tag: no two tags share a type.
pub proof fn lemma_tag_unique(v: u8)
    ensures
        type_of_tag(v) matches Some(t) ==> tag_of(t) == v,
{
}


/// The wire tags the protocol fixes: Hello 1, Agree 2, Ping 3, Pong 4,
/// ReqHeaders 10, ReqBody 11, ReqEnd 12, ResHeaders 20, ResBody 21, ResEnd 22,
/// Error 99; every other byte tags no message type.
pub proof fn lemma_wire_tags(v: u8)
    ensures
        tag_of(MessageType::Hello) == 1 && type_of_tag(1) == Some(MessageType::Hello),
        tag_of(MessageType::Agree) == 2 && type_of_tag(2) == Some(MessageType::Agree),
        tag_of(MessageType::Ping) == 3 && type_of_tag(3) == Some(MessageType::Ping),
        tag_of(MessageType::Pong) == 4 && type_of_tag(4) == Some(MessageType::Pong),
        tag_of(MessageType::ReqHeaders) == 10 && type_of_tag(10) == Some(MessageType::ReqHeaders),
        tag_of(MessageType::ReqBody) == 11 && type_of_tag(11) == Some(MessageType::ReqBody),
        tag_of(MessageType::ReqEnd) == 12 && type_of_tag(12) == Some(MessageType::ReqEnd),
        tag_of(MessageType::ResHeaders) == 20 && type_of_tag(20) == Some(MessageType::ResHeaders),
        tag_of(MessageType::ResBody) == 21 && type_of_tag(21) == Some(MessageType::ResBody),
        tag_of(MessageType::ResEnd) == 22 && type_of_tag(22) == Some(MessageType::ResEnd),
        tag_of(MessageType::Error) == 99 && type_of_tag(99) == Some(MessageType::Error),
        !(v == 1 || v == 2 || v == 3 || v == 4 || v == 10 || v == 11 || v == 12 || v == 20 || v
            == 21 || v == 22 || v == 99) ==> type_of_tag(v) is None,
{
}

/// On the wire, a frame starting with byte 21 is a response-body frame and one
/// starting with byte 22 ends the response, whatever stream and payload
/// follow; encoding such frames writes those bytes first.
pub proof fn lemma_response_frames_on_wire(id: u32, payload: Seq<u8>)
    ensures
        decode_frame(seq![21u8] + be_bytes(id) + payload) == Ok::<_, DecodeError>(
            (MessageType::ResBody, id, payload),
        ),
        decode_frame(seq![22u8] + be_bytes(id) + payload) == Ok::<_, DecodeError>(
            (MessageType::ResEnd, id, payload),
        ),
        encode_frame((MessageType::ResBody, id, payload))[0] == 21,
        encode_frame((MessageType::ResEnd, id, payload))[0] == 22,
{
    lemma_wire_tags(0);
    lemma_decode_encode((MessageType::ResBody, id, payload));
    lemma_decode_encode((MessageType::ResEnd, id, payload));
}

/// The four big-endian bytes of `x`, most significant first.
pub open spec fn be_bytes(x: u32) -> Seq<u8> {
    seq![(x >> 24u32) as u8, (x >> 16u32) as u8, (x >> 8u32) as u8, x as u8]
}

/// The `u32` whose big-endian bytes are `b0 b1 b2 b3`.
pub open spec fn be_u32(b0: u8, b1: u8, b2: u8, b3: u8) -> u32 {
    ((b0 as u32) << 24u32) | ((b1 as u32) << 16u32) | ((b2 as u32) << 8u32) | (b3 as u32)
}

/// Reading back the big-endian bytes of `x` gives `x`.
pub proof fn lemma_be_roundtrip(x: u32)
    ensures
        be_u32(be_bytes(x)[0], be_bytes(x)[1], be_bytes(x)[2], be_bytes(x)[3]) == x,
{
    assert((((x >> 24u32) as u8 as u32) << 24u32) | (((x >> 16u32) as u8 as u32) << 16u32) | (((
    x >> 8u32) as u8 as u32) << 8u32) | (x as u8 as u32) == x) by (bit_vector);
}

/// Writing out the big-endian bytes of a value read from four bytes gives those bytes.
pub proof fn lemma_be_bytes_of_value(b0: u8, b1: u8, b2: u8, b3: u8)
    ensures
        be_bytes(be_u32(b0, b1, b2, b3)) == seq![b0, b1, b2, b3],
{
    let x = be_u32(b0, b1, b2, b3);
    assert((((((b0 as u32) << 24u32) | ((b1 as u32) << 16u32) | ((b2 as u32) << 8u32) | (
    b3 as u32)) >> 24u32) as u8) == b0) by (bit_vector);
    assert((((((b0 as u32) << 24u32) | ((b1 as u32) << 16u32) | ((b2 as u32) << 8u32) | (
    b3 as u32)) >> 16u32) as u8) == b1) by (bit_vector);
    assert((((((b0 as u32) << 24u32) | ((b1 as u32) << 16u32) | ((b2 as u32) << 8u32) | (
    b3 as u32)) >> 8u32) as u8) == b2) by (bit_vector);
    assert(((((b0 as u32) << 24u32) | ((b1 as u32) << 16u32) | ((b2 as u32) << 8u32) | (
    b3 as u32)) as u8) == b3) by (bit_vector);
    assert(be_bytes(x) =~= seq![b0, b1, b2, b3]);
}

/// The bytes of a frame: its type's tag, its stream id in big-endian, its payload.
pub open spec fn encode_frame(frame: (MessageType, u32, Seq<u8>)) -> Seq<u8> {
    seq![tag_of(frame.0)] + be_bytes(frame.1) + frame.2
}

/// Why a byte string is not a frame.
#[derive(Debug, Clone, Copy, PartialEq, Eq, Structural)]
pub enum DecodeError {
    /// Fewer than the five header bytes; `len` is how many there were.
    TooShort { len: usize },
    /// The first byte is not the tag of any message type.
    UnknownType { tag: u8 },
}

/// What decoding `s` yields: an error for fewer than five bytes or an unknown
/// tag, otherwise the type, the big-endian stream id and the remaining bytes.
pub open spec fn decode_frame(s: Seq<u8>) -> Result<(MessageType, u32, Seq<u8>), DecodeError> {
    if s.len() < 5 {
        Err(DecodeError::TooShort { len: s.len() as usize })
    } else {
        match type_of_tag(s[0]) {
            None => Err(DecodeError::UnknownType { tag: s[0] }),
            Some(t) => Ok((t, be_u32(s[1], s[2], s[3], s[4]), s.skip(5))),
        }
    }
}

/// The text of a too-short error for `len` bytes.
pub open spec fn too_short_text(len: nat) -> Seq<char> {
    "message too short: "@ + decimal(len) + " bytes"@
}

/// The text of an unknown-type error for tag `tag`.
pub open spec fn unknown_type_text(tag: u8) -> Seq<char> {
    "unknown message type: "@ + decimal(tag as nat)
}

impl DecodeError {
    /// A human-readable description of the error.
    pub fn message(&self) -> (s: String)
        ensures
            s@ == match *self {
                DecodeError::TooShort { len } => too_short_text(len as nat),
                DecodeError::UnknownType { tag } => unknown_type_text(tag),
            },
    {
        match *self {
            DecodeError::TooShort { len } => {
                let mut s = String::from_str("message too short: ");
                let n = decimal_string(len as u64);
                s.append(n.as_str());
                s.append(" bytes");
                s
            },
            DecodeError::UnknownType { tag } => {
                let mut s = String::from_str("unknown message type: ");
                let n = decimal_string(tag as u64);
                s.append(n.as_str());
                s
            },
        }
    }
}

/// A framed tunnel message.
#[derive(Debug, Clone)]
pub struct TunnelMessage {
    pub msg_type: MessageType,
    pub stream_id: u32,
    pub payload: Vec<u8>,
}

impl View for TunnelMessage {
    type V = (MessageType, u32, Seq<u8>);

    open spec fn view(&self) -> (MessageType, u32, Seq<u8>) {
        (self.msg_type, self.stream_id, self.payload@)
    }
}

impl TunnelMessage {
    /// Encode as `[1 byte type][4 byte stream_id][payload...]`.
    pub fn encode(&self) -> (out: Vec<u8>)
        ensures
            out@ == encode_frame(self@),
    {
        let mut buf: Vec<u8> = Vec::new();
        buf.push(self.msg_type.to_u8());
        buf.push((self.stream_id >> 24u32) as u8);
        buf.push((self.stream_id >> 16u32) as u8);
        buf.push((self.stream_id >> 8u32) as u8);
        buf.push(self.stream_id as u8);
        let ghost head = buf@;
        assert(head =~= seq![tag_of(self.msg_type)] + be_bytes(self.stream_id));
        let n = self.payload.len();
        for i in 0..n
            invariant
                n == self.payload@.len(),
                buf@ =~= head + self.payload@.take(i as int),
        {
            buf.push(self.payload[i]);
            assert(self.payload@.take(i + 1) =~= self.payload@.take(i as int).push(
                self.payload@[i as int],
            ));
        }
        assert(self.payload@.take(n as int) =~= self.payload@);
        buf
    }

    /// Decode a frame from raw bytes.
    pub fn decode(data: Vec<u8>) -> (r: Result<TunnelMessage, DecodeError>)
        ensures
            match r {
                Ok(m) => decode_frame(data@) == Ok::<_, DecodeError>(m@),
                Err(e) => decode_frame(data@) == Err::<(MessageType, u32, Seq<u8>), _>(e),
            },
    {
        let mut data = data;
        if data.len() < 5 {
            return Err(DecodeError::TooShort { len: data.len() });
        }
        let type_byte = data[0];
        let msg_type = match MessageType::from_u8(type_byte) {
            Some(t) => t,
            None => {
                return Err(DecodeError::UnknownType { tag: type_byte });
            },
        };
        let stream_id = ((data[1] as u32) << 24u32) | ((data[2] as u32) << 16u32) | ((
        data[3] as u32) << 8u32) | (data[4] as u32);
        let ghost whole = data@;
        let payload = data.split_off(5);
        assert(payload@ =~= whole.skip(5));
        Ok(TunnelMessage { msg_type, stream_id, payload })
    }
}

/// Each header name occurs at most once in the list, as in the name-to-value
/// map the headers are collected from.
pub open spec fn names_distinct(h: Seq<(String, String)>) -> bool {
    forall|i: int, j: int| 0 <= i < j < h.len() ==> #[trigger] h[i].0@ != #[trigger] h[j].0@
}

/// HTTP request metadata sent over the tunnel; its header list is expected
/// to satisfy `names_distinct`.
#[derive(Debug, Clone)]
pub struct RequestHeaders {
    pub stream_id: u32,
    pub method: String,
    pub path: String,
    pub headers: Vec<(String, String)>,
}

/// HTTP response metadata sent over the tunnel; its header list is expected
/// to satisfy `names_distinct`.
#[derive(Debug, Clone)]
pub struct ResponseHeaders {
    pub stream_id: u32,
    pub status: u16,
    pub headers: Vec<(String, String)>,
}

impl TunnelMessage {
    /// HELLO frame on stream 0; `payload` is the JSON encoding of a `Hello`.
    pub fn hello(payload: Vec<u8>) -> (m: TunnelMessage)
        ensures
            m@ == (MessageType::Hello, 0u32, payload@),
    {
        TunnelMessage { msg_type: MessageType::Hello, stream_id: 0, payload }
    }

    /// AGREE frame on stream 0; `payload` is the JSON encoding of an `Agree`.
    pub fn agree(payload: Vec<u8>) -> (m: TunnelMessage)
        ensures
            m@ == (MessageType::Agree, 0u32, payload@),
    {
        TunnelMessage { msg_type: MessageType::Agree, stream_id: 0, payload }
    }

    /// Request-headers frame on the headers' stream; `payload` is the JSON
    /// encoding of `headers`.
    pub fn req_headers(headers: &RequestHeaders, payload: Vec<u8>) -> (m: TunnelMessage)
        ensures
            m@ == (MessageType::ReqHeaders, headers.stream_id, payload@),
    {
        TunnelMessage { msg_type: MessageType::ReqHeaders, stream_id: headers.stream_id, payload }
    }

    /// Request-body frame carrying `data`.
    pub fn req_body(stream_id: u32, data: Vec<u8>) -> (m: TunnelMessage)
        ensures
            m@ == (MessageType::ReqBody, stream_id, data@),
    {
        TunnelMessage { msg_type: MessageType::ReqBody, stream_id, payload: data }
    }

    /// Request-end frame with an empty payload.
    pub fn req_end(stream_id: u32) -> (m: TunnelMessage)
        ensures
            m@ == (MessageType::ReqEnd, stream_id, Seq::<u8>::empty()),
    {
        TunnelMessage { msg_type: MessageType::ReqEnd, stream_id, payload: Vec::new() }
    }

    /// Response-headers frame on the headers' stream; `payload` is the JSON
    /// encoding of `headers`.
    pub fn res_headers(headers: &ResponseHeaders, payload: Vec<u8>) -> (m: TunnelMessage)
        ensures
            m@ == (MessageType::ResHeaders, headers.stream_id, payload@),
    {
        TunnelMessage { msg_type: MessageType::ResHeaders, stream_id: headers.stream_id, payload }
    }

    /// Response-body frame carrying `data`.
    pub fn res_body(stream_id: u32, data: Vec<u8>) -> (m: TunnelMessage)
        ensures
            m@ == (MessageType::ResBody, stream_id, data@),
    {
        TunnelMessage { msg_type: MessageType::ResBody, stream_id, payload: data }
    }

    /// Response-end frame with an empty payload.
    pub fn res_end(stream_id: u32) -> (m: TunnelMessage)
        ensures
            m@ == (MessageType::ResEnd, stream_id, Seq::<u8>::empty()),
    {
        TunnelMessage { msg_type: MessageType::ResEnd, stream_id, payload: Vec::new() }
    }

    /// Error frame whose payload is the UTF-8 encoding of `msg`.
    pub fn error(stream_id: u32, msg: &str) -> (m: TunnelMessage)
        ensures
            m@ == (MessageType::Error, stream_id, msg.spec_bytes()),
    {
        TunnelMessage { msg_type: MessageType::Error, stream_id, payload: msg.as_bytes_vec() }
    }

    /// Keepalive ping on stream 0 with an empty payload.
    pub fn ping() -> (m: TunnelMessage)
        ensures
            m@ == (MessageType::Ping, 0u32, Seq::<u8>::empty()),
    {
        TunnelMessage { msg_type: MessageType::Ping, stream_id: 0, payload: Vec::new() }
    }

    /// Keepalive answer on stream 0 with an empty payload.
    pub fn pong() -> (m: TunnelMessage)
        ensures
            m@ == (MessageType::Pong, 0u32, Seq::<u8>::empty()),
    {
        TunnelMessage { msg_type: MessageType::Pong, stream_id: 0, payload: Vec::new() }
    }
}

/// A body cut into frame-sized pieces: full `MAX_BODY_CHUNK` pieces in order,
/// then whatever is left; an empty body gives no pieces.
pub open spec fn chunks_of(b: Seq<u8>) -> Seq<Seq<u8>>
    decreases b.len(),
{
    if b.len() == 0 {
        Seq::empty()
    } else if b.len() <= MAX_BODY_CHUNK {
        seq![b]
    } else {
        seq![b.take(MAX_BODY_CHUNK as int)] + chunks_of(b.skip(MAX_BODY_CHUNK as int))
    }
}

/// The pieces joined back together, in order.
pub open spec fn joined(chunks: Seq<Seq<u8>>) -> Seq<u8>
    decreases chunks.len(),
{
    if chunks.len() == 0 {
        Seq::empty()
    } else {
        chunks[0] + joined(chunks.drop_first())
    }
}

/// The byte contents of each piece.
pub open spec fn piece_views(pieces: Seq<Vec<u8>>) -> Seq<Seq<u8>> {
    pieces.map_values(|c: Vec<u8>| c@)
}

/// Cut `body` into pieces no longer than `MAX_BODY_CHUNK`, as the request and
/// response bodies are cut into body frames.
pub fn body_chunks(body: &[u8]) -> (chunks: Vec<Vec<u8>>)
    ensures
        piece_views(chunks@) == chunks_of(body@),
{
    let n = body.len();
    let mut chunks: Vec<Vec<u8>> = Vec::new();
    let mut offset: usize = 0;
    assert(body@.skip(0) =~= body@);
    assert(piece_views(chunks@) + chunks_of(body@) =~= chunks_of(body@));
    while offset < n
        invariant
            n == body@.len(),
            offset <= n,
            piece_views(chunks@) + chunks_of(body@.skip(offset as int)) == chunks_of(body@),
        decreases n - offset,
    {
        let end = if n - offset > MAX_BODY_CHUNK {
            offset + MAX_BODY_CHUNK
        } else {
            n
        };
        let piece = slice_to_vec(slice_subrange(body, offset, end));
        let ghost rest = body@.skip(offset as int);
        let ghost old_chunks = piece_views(chunks@);
        chunks.push(piece);
        assert(piece_views(chunks@) =~= old_chunks.push(piece@));
        if end < n {
            assert(rest.take(MAX_BODY_CHUNK as int) =~= piece@);
            assert(rest.skip(MAX_BODY_CHUNK as int) =~= body@.skip(end as int));
        } else {
            assert(rest =~= piece@);
            assert(body@.skip(end as int) =~= Seq::<u8>::empty());
        }
        assert(old_chunks.push(piece@) + chunks_of(body@.skip(end as int)) =~= old_chunks + chunks_of(rest));
        offset = end;
    }
    assert(body@.skip(n as int) =~= Seq::<u8>::empty());
    assert(piece_views(chunks@) =~= chunks_of(body@));
    chunks
}

/// The frames of each message, in order.
pub open spec fn frame_views(msgs: Seq<TunnelMessage>) -> Seq<(MessageType, u32, Seq<u8>)> {
    msgs.map_values(|m: TunnelMessage| m@)
}

/// The body frames of type `t` on stream `id` that carry `body`: one per
/// piece of `chunks_of(body)`, in order.
pub open spec fn body_frames(t: MessageType, id: u32, body: Seq<u8>) -> Seq<
    (MessageType, u32, Seq<u8>),
> {
    chunks_of(body).map_values(|c: Seq<u8>| (t, id, c))
}

/// Body frames of type `t` carrying `body` on stream `stream_id`.
fn frames_for_body(t: MessageType, stream_id: u32, body: &[u8]) -> (frames: Vec<TunnelMessage>)
    ensures
        frame_views(frames@) == body_frames(t, stream_id, body@),
{
    let chunks = body_chunks(body);
    let ghost pieces = piece_views(chunks@);
    let mut frames: Vec<TunnelMessage> = Vec::new();
    let n = chunks.len();
    let mut chunks = chunks;
    let mut i: usize = 0;
    while i < n
        invariant
            n == pieces.len(),
            i <= n,
            pieces == chunks_of(body@),
            chunks@.len() == n - i,
            forall|j: int| 0 <= j < n - i ==> #[trigger] chunks@[j]@ == pieces[j + i],
            frame_views(frames@) == body_frames(t, stream_id, body@).take(i as int),
        decreases n - i,
    {
        let c = chunks.remove(0);
        let ghost before = frames@;
        frames.push(TunnelMessage { msg_type: t, stream_id, payload: c });
        assert(frame_views(frames@) =~= frame_views(before).push((t, stream_id, pieces[i as int])));
        assert(body_frames(t, stream_id, body@).take(i + 1) =~= body_frames(
            t,
            stream_id,
            body@,
        ).take(i as int).push((t, stream_id, pieces[i as int])));
        assert forall|j: int| 0 <= j < n - (i + 1) implies #[trigger] chunks@[j]@ == pieces[j + i
            + 1] by {}
        i = i + 1;
    }
    assert(body_frames(t, stream_id, body@).take(n as int) =~= body_frames(t, stream_id, body@));
    frames
}

/// The request-body frames that carry `body` on stream `stream_id`.
pub fn request_body_frames(stream_id: u32, body: &[u8]) -> (frames: Vec<TunnelMessage>)
    ensures
        frame_views(frames@) == body_frames(MessageType::ReqBody, stream_id, body@),
{
    frames_for_body(MessageType::ReqBody, stream_id, body)
}

/// The response-body frames that carry `body` on stream `stream_id`.
pub fn response_body_frames(stream_id: u32, body: &[u8]) -> (frames: Vec<TunnelMessage>)
    ensures
        frame_views(frames@) == body_frames(MessageType::ResBody, stream_id, body@),
{
    frames_for_body(MessageType::ResBody, stream_id, body)
}

/// The frames of one request, in sending order: its headers frame carrying
/// `headers_json`, its body frames, its end frame.
pub open spec fn request_frame_seq(id: u32, headers_json: Seq<u8>, body: Seq<u8>) -> Seq<
    (MessageType, u32, Seq<u8>),
> {
    seq![(MessageType::ReqHeaders, id, headers_json)] + body_frames(MessageType::ReqBody, id, body)
        + seq![(MessageType::ReqEnd, id, Seq::<u8>::empty())]
}

/// All frames of a request on the headers' stream, in the order they are
/// sent: headers (`headers_json` is the JSON encoding of `headers`), body
/// pieces, end.
pub fn request_frames(headers: &RequestHeaders, headers_json: Vec<u8>, body: &[u8]) -> (frames: Vec<
    TunnelMessage,
>)
    ensures
        frame_views(frames@) == request_frame_seq(headers.stream_id, headers_json@, body@),
{
    let id = headers.stream_id;
    let mut frames: Vec<TunnelMessage> = Vec::new();
    frames.push(TunnelMessage::req_headers(headers, headers_json));
    let mut pieces = request_body_frames(id, body);
    let ghost first = frame_views(frames@);
    let ghost middle = frame_views(pieces@);
    frames.append(&mut pieces);
    assert(frame_views(frames@) =~= first + middle);
    let ghost both = frame_views(frames@);
    frames.push(TunnelMessage::req_end(id));
    assert(frame_views(frames@) =~= both.push((MessageType::ReqEnd, id, Seq::<u8>::empty())));
    assert(frame_views(frames@) =~= request_frame_seq(id, headers_json@, body@));
    frames
}

/// Joining the pieces of a body gives the body back.
pub proof fn lemma_chunks_join(b: Seq<u8>)
    ensures
        joined(chunks_of(b)) == b,
    decreases b.len(),
{
    if b.len() == 0 {
    } else if b.len() <= MAX_BODY_CHUNK {
        let c = chunks_of(b);
        assert(c == seq![b]);
        assert(c.drop_first() =~= Seq::<Seq<u8>>::empty());
        assert(joined(c.drop_first()) == Seq::<u8>::empty());
        assert(b + Seq::<u8>::empty() =~= b);
    } else {
        let rest = b.skip(MAX_BODY_CHUNK as int);
        lemma_chunks_join(rest);
        let c = chunks_of(b);
        assert(c == seq![b.take(MAX_BODY_CHUNK as int)] + chunks_of(rest));
        assert(c.drop_first() =~= chunks_of(rest));
        assert(c[0] == b.take(MAX_BODY_CHUNK as int));
        assert(b.take(MAX_BODY_CHUNK as int) + rest =~= b);
    }
}

/// Every piece is non-empty and fits in one body frame; every piece but the
/// last is full.
pub proof fn lemma_chunks_bounded(b: Seq<u8>)
    ensures
        forall|i: int|
            0 <= i < chunks_of(b).len() ==> 0 < #[trigger] chunks_of(b)[i].len() <= MAX_BODY_CHUNK,
        forall|i: int|
            0 <= i < chunks_of(b).len() - 1 ==> #[trigger] chunks_of(b)[i].len() == MAX_BODY_CHUNK,
    decreases b.len(),
{
    if b.len() > MAX_BODY_CHUNK {
        let rest = b.skip(MAX_BODY_CHUNK as int);
        lemma_chunks_bounded(rest);
        let c = chunks_of(b);
        assert forall|i: int| 0 < i < c.len() implies c[i] == chunks_of(rest)[i - 1] by {}
    }
}

/// Decoding an encoded frame gives back that frame.
pub proof fn lemma_decode_encode(frame: (MessageType, u32, Seq<u8>))
    ensures
        decode_frame(encode_frame(frame)) == Ok::<_, DecodeError>(frame),
{
    let s = encode_frame(frame);
    let b = be_bytes(frame.1);
    lemma_be_roundtrip(frame.1);
    assert(s[0] == tag_of(frame.0));
    assert(s[1] == b[0] && s[2] == b[1] && s[3] == b[2] && s[4] == b[3]);
    assert(s.skip(5) =~= frame.2);
    lemma_tag_roundtrip(frame.0);
}

/// A byte string that decodes to a frame is exactly that frame's encoding.
pub proof fn lemma_encode_decode(s: Seq<u8>)
    ensures
        decode_frame(s) matches Ok(frame) ==> encode_frame(frame) == s,
{
    if let Ok(frame) = decode_frame(s) {
        lemma_tag_unique(s[0]);
        lemma_be_bytes_of_value(s[1], s[2], s[3], s[4]);
        assert(encode_frame(frame) =~= s);
    }
}

/// An encoded frame is five bytes longer than its payload.
pub proof fn lemma_encoded_len(frame: (MessageType, u32, Seq<u8>))
    ensures
        encode_frame(frame).len() == frame.2.len() + 5,
{
}

} // verus!
