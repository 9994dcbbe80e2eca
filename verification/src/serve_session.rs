//! Serving side: the table of requests whose bodies are still arriving, and
//! what each incoming frame asks the serving loop to do.
use std::collections::HashMap;
use vstd::prelude::*;
use crate::protocol::{body_frames, chunks_of, request_frame_seq, joined, lemma_chunks_join, MessageType, RequestHeaders, TunnelMessage};

verus! {

broadcast use vstd::std_specs::hash::group_hash_axioms;

/// A request whose headers have arrived and whose body is being collected.
#[derive(Debug)]
pub struct PendingRequest {
    pub headers: RequestHeaders,
    pub body: Vec<u8>,
}

/// The requests in flight on the serving side, keyed by stream id.
pub struct ServeSession {
    pending: HashMap<u32, PendingRequest>,
}

/// What the serving loop does with one incoming frame.
#[derive(Debug)]
pub enum ServeAction {
    /// Parse this JSON payload as `RequestHeaders` and pass them to
    /// `ServeSession::begin_request`.
    ParseRequestHeaders(Vec<u8>),
    /// A body piece was added to a pending request.
    BodyBuffered,
    /// The request is complete: forward it upstream.
    Dispatch(PendingRequest),
    /// Answer a keepalive ping with a pong.
    SendPong,
    /// Nothing to do.
    Ignore,
}

/// Pending requests as a map from stream id to headers and body so far.
pub type ServeView = Map<u32, (RequestHeaders, Seq<u8>)>;

impl View for ServeSession {
    type V = ServeView;

    closed spec fn view(&self) -> ServeView {
        self.pending@.map_values(|p: PendingRequest| (p.headers, p.body@))
    }
}

/// How one frame changes the pending table: a body piece is appended to its
/// stream's body if that stream is pending, an end removes the stream, all
/// other frames leave the table as it is.
pub open spec fn serve_step(s: ServeView, m: (MessageType, u32, Seq<u8>)) -> ServeView {
    match m.0 {
        MessageType::ReqBody => if s.contains_key(m.1) {
            s.insert(m.1, (s[m.1].0, s[m.1].1 + m.2))
        } else {
            s
        },
        MessageType::ReqEnd => s.remove(m.1),
        _ => s,
    }
}

/// The table after a run of frames, one `serve_step` after another.
pub open spec fn serve_steps(s: ServeView, msgs: Seq<(MessageType, u32, Seq<u8>)>) -> ServeView
    decreases msgs.len(),
{
    if msgs.len() == 0 {
        s
    } else {
        serve_steps(serve_step(s, msgs[0]), msgs.drop_first())
    }
}

/// The body pieces a run of frames carries for stream `id`, joined in order.
pub open spec fn stream_body(msgs: Seq<(MessageType, u32, Seq<u8>)>, id: u32) -> Seq<u8>
    decreases msgs.len(),
{
    if msgs.len() == 0 {
        Seq::empty()
    } else {
        let rest = stream_body(msgs.drop_first(), id);
        if msgs[0].0 == MessageType::ReqBody && msgs[0].1 == id {
            msgs[0].2 + rest
        } else {
            rest
        }
    }
}

impl ServeSession {
    /// No request pending.
    pub fn new() -> (s: Self)
        ensures
            s@ == Map::<u32, (RequestHeaders, Seq<u8>)>::empty(),
    {
        let s = ServeSession { pending: HashMap::new() };
        assert(s@ =~= Map::<u32, (RequestHeaders, Seq<u8>)>::empty());
        s
    }

    /// Start collecting the body of the request these headers announce; a
    /// request already pending on that stream is replaced.
    pub fn begin_request(&mut self, headers: RequestHeaders)
        ensures
            final(self)@ == old(self)@.insert(headers.stream_id, (headers, Seq::<u8>::empty())),
    {
        let id = headers.stream_id;
        let p = PendingRequest { headers, body: Vec::new() };
        self.pending.insert(id, p);
        assert(self@ =~= old(self)@.insert(id, (p.headers, Seq::<u8>::empty())));
    }

    /// Handle one decoded frame: collect body pieces, hand over a request at
    /// its end, ask for request headers to be parsed, answer pings.
    pub fn on_message(&mut self, msg: TunnelMessage) -> (a: ServeAction)
        ensures
            final(self)@ == serve_step(old(self)@, msg@),
            match msg.msg_type {
                MessageType::ReqHeaders => a matches ServeAction::ParseRequestHeaders(p) && p@
                    == msg.payload@,
                MessageType::ReqBody => if old(self)@.contains_key(msg.stream_id) {
                    a is BodyBuffered
                } else {
                    a is Ignore
                },
                MessageType::ReqEnd => if old(self)@.contains_key(msg.stream_id) {
                    a matches ServeAction::Dispatch(p) && (p.headers, p.body@) == old(
                        self,
                    )@[msg.stream_id]
                } else {
                    a is Ignore
                },
                MessageType::Ping => a is SendPong,
                _ => a is Ignore,
            },
    {
        let id = msg.stream_id;
        match msg.msg_type {
            MessageType::ReqHeaders => ServeAction::ParseRequestHeaders(msg.payload),
            MessageType::ReqBody => {
                match self.pending.remove(&id) {
                    Some(p) => {
                        let mut p = p;
                        let ghost before = p.body@;
                        let mut data = msg.payload;
                        p.body.append(&mut data);
                        let ghost q = p;
                        self.pending.insert(id, p);
                        assert(self@ =~= old(self)@.insert(id, (q.headers, before + msg.payload@)));
                        ServeAction::BodyBuffered
                    },
                    None => ServeAction::Ignore,
                }
            },
            MessageType::ReqEnd => {
                match self.pending.remove(&id) {
                    Some(p) => {
                        assert(self@ =~= old(self)@.remove(id));
                        ServeAction::Dispatch(p)
                    },
                    None => {
                        assert(self@ =~= old(self)@.remove(id));
                        ServeAction::Ignore
                    },
                }
            },
            MessageType::Ping => ServeAction::SendPong,
            _ => ServeAction::Ignore,
        }
    }
}

/// Bodies of interleaved streams do not mix: across any run of frames without
/// an end for a pending stream, that stream keeps its headers and its body
/// grows by exactly its own body pieces, in arrival order.
pub proof fn lemma_body_is_own_pieces_in_order(
    s: ServeView,
    msgs: Seq<(MessageType, u32, Seq<u8>)>,
    id: u32,
)
    requires
        s.contains_key(id),
        forall|i: int| 0 <= i < msgs.len() ==> !(#[trigger] msgs[i].0 == MessageType::ReqEnd && msgs[i].1 == id),
    ensures
        serve_steps(s, msgs).contains_key(id),
        serve_steps(s, msgs)[id] == (s[id].0, s[id].1 + stream_body(msgs, id)),
    decreases msgs.len(),
{
    if msgs.len() == 0 {
        assert(s[id].1 + Seq::<u8>::empty() =~= s[id].1);
    } else {
        let s1 = serve_step(s, msgs[0]);
        let rest = msgs.drop_first();
        assert(!(msgs[0].0 == MessageType::ReqEnd && msgs[0].1 == id));
        assert forall|i: int| 0 <= i < rest.len() implies !(#[trigger] rest[i].0 == MessageType::ReqEnd
            && rest[i].1 == id) by {
            assert(rest[i] == msgs[i + 1]);
        }
        assert(s1.contains_key(id));
        lemma_body_is_own_pieces_in_order(s1, rest, id);
        if msgs[0].0 == MessageType::ReqBody && msgs[0].1 == id {
            assert(s1[id] == (s[id].0, s[id].1 + msgs[0].2));
            assert(s[id].1 + msgs[0].2 + stream_body(rest, id) =~= s[id].1 + (msgs[0].2
                + stream_body(rest, id)));
        } else {
            assert(s1[id] == s[id]);
        }
    }
}

/// The body pieces carried by request-body frames of one stream, joined.
proof fn lemma_stream_body_of_pieces(cs: Seq<Seq<u8>>, id: u32)
    ensures
        stream_body(cs.map_values(|c: Seq<u8>| (MessageType::ReqBody, id, c)), id) == joined(cs),
    decreases cs.len(),
{
    let f = |c: Seq<u8>| (MessageType::ReqBody, id, c);
    if cs.len() > 0 {
        lemma_stream_body_of_pieces(cs.drop_first(), id);
        assert(cs.map_values(f).drop_first() =~= cs.drop_first().map_values(f));
    }
}

/// A request body sent as request-body frames reaches the serving side whole:
/// once its headers are in, its body frames leave exactly that body in the
/// table, and its end frame then hands over the headers and that body and
/// removes the stream.
pub proof fn lemma_request_body_arrives_whole(s: ServeView, h: RequestHeaders, body: Seq<u8>)
    ensures
        ({
            let id = h.stream_id;
            let start = s.insert(id, (h, Seq::<u8>::empty()));
            let after = serve_steps(start, body_frames(MessageType::ReqBody, id, body));
            &&& after.contains_key(id)
            &&& after[id] == (h, body)
            &&& serve_step(after, (MessageType::ReqEnd, id, Seq::<u8>::empty())) == after.remove(id)
        }),
{
    let id = h.stream_id;
    let start = s.insert(id, (h, Seq::<u8>::empty()));
    let frames = body_frames(MessageType::ReqBody, id, body);
    assert forall|i: int| 0 <= i < frames.len() implies !(#[trigger] frames[i].0 == MessageType::ReqEnd
        && frames[i].1 == id) by {}
    lemma_body_is_own_pieces_in_order(start, frames, id);
    lemma_stream_body_of_pieces(chunks_of(body), id);
    lemma_chunks_join(body);
    assert(Seq::<u8>::empty() + body =~= body);
}

/// The frames of a request, as the proxy sends them, deliver it whole on the
/// serving side: its headers frame leaves the table as it is (the headers are
/// then taken in with `begin_request`), its body frames leave exactly its
/// body, and its end frame is the last frame and hands it over.
pub proof fn lemma_request_frames_deliver(
    s: ServeView,
    h: RequestHeaders,
    headers_json: Seq<u8>,
    body: Seq<u8>,
)
    ensures
        ({
            let id = h.stream_id;
            let frames = request_frame_seq(id, headers_json, body);
            let start = s.insert(id, (h, Seq::<u8>::empty()));
            let middle = frames.subrange(1, frames.len() - 1);
            let after = serve_steps(start, middle);
            &&& frames[0] == (MessageType::ReqHeaders, id, headers_json)
            &&& serve_step(s, frames[0]) == s
            &&& after.contains_key(id)
            &&& after[id] == (h, body)
            &&& frames.last() == (MessageType::ReqEnd, id, Seq::<u8>::empty())
            &&& serve_step(after, frames.last()) == after.remove(id)
        }),
{
    let id = h.stream_id;
    let frames = request_frame_seq(id, headers_json, body);
    let middle = frames.subrange(1, frames.len() - 1);
    assert(middle =~= body_frames(MessageType::ReqBody, id, body));
    lemma_request_body_arrives_whole(s, h, body);
}

/// A request's end takes it out of the table: after its end frame the stream
/// is no longer pending, and no other stream is touched.
pub proof fn lemma_end_forgets_only_its_stream(s: ServeView, id: u32, payload: Seq<u8>)
    ensures
        serve_step(s, (MessageType::ReqEnd, id, payload)) == s.remove(id),
        !serve_step(s, (MessageType::ReqEnd, id, payload)).contains_key(id),
{
}

} // verus!
