//! Proxy side: where incoming frames go, how a request waits for its response
//! headers and body, and what a refused request is answered.
use std::collections::HashMap;
use vstd::prelude::*;
use vstd::utf8::{decode_utf8, valid_utf8};
use crate::protocol::{request_frame_seq, MessageType, ResponseHeaders, TunnelMessage};

verus! {

broadcast use vstd::std_specs::hash::group_hash_axioms;

/// What `String::from_utf8_lossy` yields for these bytes.
pub uninterp spec fn lossy_text(bytes: Seq<u8>) -> Seq<char>;

/// Text of `bytes` through std's `String::from_utf8_lossy`: invalid
/// sequences become U+FFFD; valid UTF-8 is decoded unchanged.
#[verifier::external_body]
fn utf8_lossy(bytes: &[u8]) -> (s: String)
    ensures
        s@ == lossy_text(bytes@),
        valid_utf8(bytes@) ==> s@ == decode_utf8(bytes@),
{
    String::from_utf8_lossy(bytes).to_string()
}

/// Whether `hyper::StatusCode::from_u16` accepts `status`.
#[verifier::external_body]
fn status_code_accepted(status: u16) -> (ok: bool)
    ensures
        ok == (100 <= status && status <= 999),
{
    hyper::StatusCode::from_u16(status).is_ok()
}

/// Events handed to the HTTP handler that waits on one stream.
#[derive(Debug)]
pub enum StreamEvent {
    /// Response headers (sent once, first).
    Headers(ResponseHeaders),
    /// A piece of response body.
    Body(Vec<u8>),
    /// The stream failed.
    Error(String),
    /// End of response.
    End,
}

/// Where the proxy's reader sends one incoming frame.
#[derive(Debug)]
pub enum ProxyRoute {
    /// Parse this JSON payload as `ResponseHeaders` and hand them, as a
    /// `StreamEvent::Headers`, to the stream they name, which stays open.
    ParseResponseHeaders(Vec<u8>),
    /// Hand `event` to the handler of `stream_id`; when `close` holds, the
    /// stream is taken out of the pending table first.
    Deliver { stream_id: u32, event: StreamEvent, close: bool },
    /// Answer a keepalive ping with a pong.
    SendPong,
    /// Nothing to do.
    Ignore,
}

/// Route one decoded frame on the proxy side.
pub fn route_response(msg: TunnelMessage) -> (r: ProxyRoute)
    ensures
        match msg.msg_type {
            MessageType::ResHeaders => r matches ProxyRoute::ParseResponseHeaders(p) && p@
                == msg.payload@,
            MessageType::ResBody => r matches ProxyRoute::Deliver {
                stream_id,
                event: StreamEvent::Body(data),
                close,
            } && stream_id == msg.stream_id && data@ == msg.payload@ && !close,
            MessageType::ResEnd => r matches ProxyRoute::Deliver {
                stream_id,
                event: StreamEvent::End,
                close,
            } && stream_id == msg.stream_id && close,
            MessageType::Error => r matches ProxyRoute::Deliver {
                stream_id,
                event: StreamEvent::Error(text),
                close,
            } && stream_id == msg.stream_id && text@ == lossy_text(msg.payload@) && close,
            MessageType::Ping => r is SendPong,
            _ => r is Ignore,
        },
{
    let id = msg.stream_id;
    match msg.msg_type {
        MessageType::ResHeaders => ProxyRoute::ParseResponseHeaders(msg.payload),
        MessageType::ResBody => ProxyRoute::Deliver {
            stream_id: id,
            event: StreamEvent::Body(msg.payload),
            close: false,
        },
        MessageType::ResEnd => ProxyRoute::Deliver {
            stream_id: id,
            event: StreamEvent::End,
            close: true,
        },
        MessageType::Error => {
            let text = utf8_lossy(msg.payload.as_slice());
            ProxyRoute::Deliver { stream_id: id, event: StreamEvent::Error(text), close: true }
        },
        MessageType::Ping => ProxyRoute::SendPong,
        _ => ProxyRoute::Ignore,
    }
}

/// The proxy's streams: the counter that hands out stream ids and, for each
/// stream waiting for its response, the sender that reaches its HTTP handler.
pub struct ProxySession<S> {
    next_id: u32,
    pending: HashMap<u32, S>,
}

/// The id handed out `j` allocations after the counter stood at `n`: the
/// counter counts up by one and wraps around after `u32::MAX`.
pub open spec fn id_after(n: u32, j: nat) -> u32 {
    ((n + j) % 0x1_0000_0000) as u32
}

impl<S> ProxySession<S> {
    /// The id the next request gets.
    pub closed spec fn next(&self) -> u32 {
        self.next_id
    }

    /// The streams waiting for their response, by id.
    pub closed spec fn streams(&self) -> Map<u32, S> {
        self.pending@
    }

    /// Ids start at 1; no stream waits.
    pub fn new() -> (s: Self)
        ensures
            s.next() == 1,
            s.streams() == Map::<u32, S>::empty(),
    {
        ProxySession { next_id: 1, pending: HashMap::new() }
    }

    /// Hand out the next stream id; the counter moves on by one, wrapping
    /// around after `u32::MAX`.
    pub fn allocate_stream_id(&mut self) -> (id: u32)
        ensures
            id == old(self).next(),
            final(self).next() == id_after(old(self).next(), 1),
            final(self).streams() == old(self).streams(),
    {
        let id = self.next_id;
        self.next_id = self.next_id.wrapping_add(1);
        proof {
            assert(self.next_id == id_after(id, 1)) by (nonlinear_arith)
                requires
                    self.next_id == (if id == 0xffff_ffffu32 { 0u32 } else { (id + 1) as u32 }),
            ;
        }
        id
    }

    /// Let the handler behind `sender` wait on stream `id`; a sender already
    /// waiting on that id is replaced.
    pub fn register(&mut self, id: u32, sender: S)
        ensures
            final(self).streams() == old(self).streams().insert(id, sender),
            final(self).next() == old(self).next(),
    {
        self.pending.insert(id, sender);
    }

    /// Stop waiting on stream `id`, handing back its sender if it had one.
    pub fn forget(&mut self, id: u32) -> (r: Option<S>)
        ensures
            final(self).streams() == old(self).streams().remove(id),
            final(self).next() == old(self).next(),
            match r {
                Some(s) => old(self).streams().contains_key(id) && s == old(self).streams()[id],
                None => !old(self).streams().contains_key(id),
            },
    {
        self.pending.remove(&id)
    }

    /// The sender waiting on stream `id`, if any.
    pub fn sender(&self, id: u32) -> (r: Option<&S>)
        ensures
            match r {
                Some(s) => self.streams().contains_key(id) && *s == self.streams()[id],
                None => !self.streams().contains_key(id),
            },
    {
        self.pending.get(&id)
    }
}

/// Ids handed out by fewer than `2^32` consecutive allocations are pairwise
/// distinct: no two requests in such a run share a stream.
pub proof fn lemma_allocated_ids_distinct(n: u32, j1: nat, j2: nat)
    requires
        j1 < j2 < 0x1_0000_0000,
    ensures
        id_after(n, j1) != id_after(n, j2),
{
    assert(((n + j1) % 0x1_0000_0000) != ((n + j2) % 0x1_0000_0000)) by (nonlinear_arith)
        requires
            j1 < j2 < 0x1_0000_0000,
            0 <= n < 0x1_0000_0000,
    ;
}

/// Allocating twice moves the counter on by two.
pub proof fn lemma_id_after_step(n: u32, j: nat)
    ensures
        id_after(id_after(n, j), 1) == id_after(n, j + 1),
{
    assert(((((n + j) % 0x1_0000_0000) + 1) % 0x1_0000_0000) == ((n + j + 1) % 0x1_0000_0000))
        by (nonlinear_arith);
}

/// A frame reaches only its own stream: handing over to or forgetting one
/// stream leaves every other stream's sender where it was.
pub proof fn lemma_streams_independent<S>(m: Map<u32, S>, a: u32, b: u32, s: S)
    requires
        a != b,
    ensures
        m.insert(b, s).contains_key(a) == m.contains_key(a),
        m.insert(b, s)[a] == m[a],
        m.remove(b).contains_key(a) == m.contains_key(a),
        m.remove(b)[a] == m[a],
{
}

/// Every frame in `frames` is on stream `id`.
pub open spec fn all_on_stream(frames: Seq<(MessageType, u32, Seq<u8>)>, id: u32) -> bool {
    forall|k: int| 0 <= k < frames.len() ==> #[trigger] frames[k].1 == id
}

/// Requests that share one proxy session are multiplexed by stream id. Two
/// requests that took their ids `j1` and `j2` allocations after the counter
/// stood at `n`, with fewer than `2^32` allocations in all, run on distinct
/// streams; every frame either sends carries its own id; with both waiting,
/// each id reaches its own sender; and when one stream closes, the other
/// still reaches its sender.
pub proof fn lemma_requests_multiplexed<S>(
    n: u32,
    j1: nat,
    j2: nat,
    waiting: Map<u32, S>,
    s1: S,
    s2: S,
    headers1: Seq<u8>,
    body1: Seq<u8>,
    headers2: Seq<u8>,
    body2: Seq<u8>,
)
    requires
        j1 < j2 < 0x1_0000_0000,
    ensures
        id_after(n, j1) != id_after(n, j2),
        all_on_stream(request_frame_seq(id_after(n, j1), headers1, body1), id_after(n, j1)),
        all_on_stream(request_frame_seq(id_after(n, j2), headers2, body2), id_after(n, j2)),
        waiting.insert(id_after(n, j1), s1).insert(id_after(n, j2), s2)[id_after(n, j1)] == s1,
        waiting.insert(id_after(n, j1), s1).insert(id_after(n, j2), s2)[id_after(n, j2)] == s2,
        waiting.insert(id_after(n, j1), s1).insert(id_after(n, j2), s2).remove(
            id_after(n, j2),
        )[id_after(n, j1)] == s1,
        waiting.insert(id_after(n, j1), s1).insert(id_after(n, j2), s2).remove(
            id_after(n, j1),
        )[id_after(n, j2)] == s2,
{
    lemma_allocated_ids_distinct(n, j1, j2);
    lemma_request_frames_on_stream(id_after(n, j1), headers1, body1);
    lemma_request_frames_on_stream(id_after(n, j2), headers2, body2);
}

/// Every frame of a request is on the request's stream.
pub proof fn lemma_request_frames_on_stream(id: u32, headers_json: Seq<u8>, body: Seq<u8>)
    ensures
        all_on_stream(request_frame_seq(id, headers_json, body), id),
{
    let frames = request_frame_seq(id, headers_json, body);
    assert forall|k: int| 0 <= k < frames.len() implies #[trigger] frames[k].1 == id by {
        let head = seq![(MessageType::ReqHeaders, id, headers_json)];
        let middle = crate::protocol::body_frames(MessageType::ReqBody, id, body);
        let tail = seq![(MessageType::ReqEnd, id, Seq::<u8>::empty())];
        assert(frames == head + middle + tail);
        if k == 0 {
        } else if k < 1 + middle.len() {
            assert(frames[k] == middle[k - 1]);
        } else {
            assert(frames[k] == tail[k - 1 - middle.len()]);
        }
    }
}

/// One step of waiting for a stream's response headers.
#[derive(Debug)]
pub enum HeaderWait {
    /// The headers arrived.
    Ready(ResponseHeaders),
    /// The stream ended or failed first; the text says why.
    Failed(String),
    /// Keep waiting (a body piece came before the headers and is dropped).
    Continue,
}

/// Decide what the next stream event (`None`: the channel closed) means
/// while the response headers have not arrived.
pub fn await_headers_step(event: Option<StreamEvent>) -> (w: HeaderWait)
    ensures
        match event {
            Some(StreamEvent::Headers(h)) => w matches HeaderWait::Ready(g) && g == h,
            Some(StreamEvent::Error(e)) => w matches HeaderWait::Failed(t) && t@ == e@,
            Some(StreamEvent::End) => w matches HeaderWait::Failed(t) && t@
                == "response ended before headers"@,
            Some(StreamEvent::Body(_)) => w is Continue,
            None => w matches HeaderWait::Failed(t) && t@
                == "stream channel closed before headers"@,
        },
{
    match event {
        Some(StreamEvent::Headers(h)) => HeaderWait::Ready(h),
        Some(StreamEvent::Error(e)) => HeaderWait::Failed(e),
        Some(StreamEvent::End) => HeaderWait::Failed(
            String::from_str("response ended before headers"),
        ),
        Some(StreamEvent::Body(_)) => HeaderWait::Continue,
        None => HeaderWait::Failed(String::from_str("stream channel closed before headers")),
    }
}

/// One step of streaming a response body to the HTTP client.
#[derive(Debug)]
pub enum BodyForward {
    /// Pass this piece on.
    Chunk(Vec<u8>),
    /// The body is complete (or broke off): close it.
    Finish,
    /// Ignore this event (duplicate headers).
    Skip,
}

/// Decide what the next stream event (`None`: the channel closed) means once
/// the headers are out.
pub fn forward_body_step(event: Option<StreamEvent>) -> (f: BodyForward)
    ensures
        match event {
            Some(StreamEvent::Body(d)) => f matches BodyForward::Chunk(c) && c@ == d@,
            Some(StreamEvent::Headers(_)) => f is Skip,
            _ => f is Finish,
        },
{
    match event {
        Some(StreamEvent::Body(d)) => BodyForward::Chunk(d),
        Some(StreamEvent::Headers(_)) => BodyForward::Skip,
        _ => BodyForward::Finish,
    }
}

/// The status the proxy answers with for a tunnelled response status: the
/// status itself when it is a valid HTTP status code (100 to 999), 502
/// otherwise.
pub fn response_status(status: u16) -> (s: u16)
    ensures
        s == if 100 <= status && status <= 999 {
            status
        } else {
            502
        },
{
    if status_code_accepted(status) {
        status
    } else {
        502
    }
}

/// Why the proxy answers a request itself instead of with the tunnelled
/// response.
#[derive(Debug)]
pub enum Refusal {
    /// The handshake has not completed.
    NotReady,
    /// The client's request body could not be read.
    BodyUnreadable,
    /// The request headers could not be sent through the tunnel.
    SendFailed,
    /// The stream failed before its headers arrived; the text says why.
    TunnelError(String),
    /// No response headers within the waiting time.
    Timeout,
}

/// A plain response the proxy writes itself.
#[derive(Debug)]
pub struct PlainResponse {
    pub status: u16,
    /// Whether a `content-type: text/plain` header goes with it.
    pub text_plain: bool,
    pub body: String,
}

/// Status, `text/plain` marker and body text the proxy answers a refusal with.
pub open spec fn refusal_answer(r: Refusal) -> (u16, bool, Seq<char>) {
    match r {
        Refusal::NotReady => (503, true, "Tunnel not ready"@),
        Refusal::BodyUnreadable => (400, false, "Failed to read body"@),
        Refusal::SendFailed => (502, false, "Tunnel send failed"@),
        Refusal::TunnelError(e) => (502, true, "Tunnel error: "@ + e@),
        Refusal::Timeout => (504, false, "Tunnel response timeout"@),
    }
}

/// A refused request is always answered with a client or server error
/// status, never with a success.
pub proof fn lemma_refusals_are_errors(r: Refusal)
    ensures
        400 <= refusal_answer(r).0 < 600,
{
}

/// The response for a refused request.
pub fn refusal_response(r: Refusal) -> (p: PlainResponse)
    ensures
        (p.status, p.text_plain, p.body@) == refusal_answer(r),
{
    match r {
        Refusal::NotReady => PlainResponse {
            status: 503,
            text_plain: true,
            body: String::from_str("Tunnel not ready"),
        },
        Refusal::BodyUnreadable => PlainResponse {
            status: 400,
            text_plain: false,
            body: String::from_str("Failed to read body"),
        },
        Refusal::SendFailed => PlainResponse {
            status: 502,
            text_plain: false,
            body: String::from_str("Tunnel send failed"),
        },
        Refusal::TunnelError(e) => {
            let mut body = String::from_str("Tunnel error: ");
            body.append(e.as_str());
            PlainResponse { status: 502, text_plain: true, body }
        },
        Refusal::Timeout => PlainResponse {
            status: 504,
            text_plain: false,
            body: String::from_str("Tunnel response timeout"),
        },
    }
}

} // verus!
