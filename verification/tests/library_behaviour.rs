use tunnel::config::{ice_servers, Command, TurnConfig, STUN_URL};
use tunnel::handshake::{open_handshake_frame, Agree, HandshakeError, Hello};
use tunnel::negotiation::{
    IncomingSignal, JoinStep, Negotiation, NegotiationStep, Role, RoleSelection, SignalFailure,
};
use tunnel::protocol::{
    body_chunks, request_body_frames, request_frames, response_body_frames, DecodeError, MessageType,
    RequestHeaders, TunnelMessage, MAX_BODY_CHUNK,
};
use tunnel::proxy_flow::{
    await_headers_step, forward_body_step, refusal_response, response_status, route_response,
    BodyForward, HeaderWait, ProxyRoute, ProxySession, Refusal, StreamEvent,
};
use tunnel::retry::{backoff_secs, RetryDecision, RetryState, MAX_RETRIES};
use tunnel::serve_session::{ServeAction, ServeSession};
use tunnel::upstream::{
    bad_gateway_frames, bad_gateway_headers, bad_gateway_text, forwarded_headers, forwards_request_header_name,
    forwards_response_header_name, upstream_error_text,
};

fn pair(k: &str, v: &str) -> (String, String) {
    (k.to_string(), v.to_string())
}

#[test]
fn encode_writes_tag_then_big_endian_stream_id() {
    let m = TunnelMessage::req_body(0x0102_0304, vec![9, 8]);
    assert_eq!(m.encode(), vec![11, 1, 2, 3, 4, 9, 8]);
    assert_eq!(TunnelMessage::ping().encode(), vec![3, 0, 0, 0, 0]);
    assert_eq!(TunnelMessage::pong().encode(), vec![4, 0, 0, 0, 0]);
}

#[test]
fn decode_then_encode_gives_the_bytes_back() {
    let bytes = vec![99, 0xff, 0, 0x10, 1, b'x', b'y'];
    let m = TunnelMessage::decode(bytes.clone()).unwrap();
    assert_eq!(m.msg_type, MessageType::Error);
    assert_eq!(m.stream_id, 0xff00_1001);
    assert_eq!(m.encode(), bytes);
}

#[test]
fn message_type_tags_roundtrip() {
    let mut known = 0;
    for v in 0..=255u8 {
        if let Some(t) = MessageType::from_u8(v) {
            assert_eq!(t.to_u8(), v);
            known += 1;
        }
    }
    assert_eq!(known, 11);
    assert_eq!(MessageType::from_u8(12), Some(MessageType::ReqEnd));
    assert_eq!(MessageType::from_u8(5), None);
}

#[test]
fn decode_error_texts() {
    let e = TunnelMessage::decode(vec![1, 0, 0]).unwrap_err();
    assert_eq!(e, DecodeError::TooShort { len: 3 });
    assert_eq!(e.message(), "message too short: 3 bytes");
    let e = TunnelMessage::decode(vec![255, 0, 0, 0, 0]).unwrap_err();
    assert_eq!(e, DecodeError::UnknownType { tag: 255 });
    assert_eq!(e.message(), "unknown message type: 255");
}

#[test]
fn negotiation_error_texts() {
    let hello = Hello {
        proto: "httptunnel".to_string(),
        min_version: 5,
        max_version: 10,
        features: vec![],
    };
    assert_eq!(
        Agree::from_hello(&hello).unwrap_err(),
        "no compatible version: peer=[5,10], ours=[1,1]"
    );
    let hello = Hello {
        proto: "wrongproto".to_string(),
        min_version: 1,
        max_version: 1,
        features: vec![],
    };
    assert_eq!(Agree::from_hello(&hello).unwrap_err(), "unknown protocol: wrongproto");
}

#[test]
fn own_hello_is_accepted() {
    let agree = Agree::from_hello(&Hello::new()).unwrap();
    assert_eq!(agree.version, 1);
    assert_eq!(agree.features, vec!["sse"]);
}

#[test]
fn version_zero_range_is_refused_and_features_keep_order() {
    let hello = Hello {
        proto: "httptunnel".to_string(),
        min_version: 0,
        max_version: 0,
        features: vec![],
    };
    assert!(Agree::from_hello(&hello).is_err());
    let hello = Hello {
        proto: "httptunnel".to_string(),
        min_version: 0,
        max_version: 7,
        features: vec!["x".to_string(), "sse".to_string(), "sse".to_string()],
    };
    let a = Agree::from_hello(&hello).unwrap();
    assert_eq!(a.version, 1);
    assert_eq!(a.features, vec!["sse", "sse"]);
}

#[test]
fn handshake_frame_checks_type() {
    let hello = TunnelMessage::hello(b"{}".to_vec()).encode();
    assert_eq!(open_handshake_frame(hello.clone(), MessageType::Hello).unwrap(), b"{}".to_vec());
    assert_eq!(
        open_handshake_frame(hello, MessageType::Agree).unwrap_err(),
        HandshakeError::Unexpected { expected: MessageType::Agree, got: MessageType::Hello }
    );
    assert_eq!(
        open_handshake_frame(vec![2], MessageType::Agree).unwrap_err(),
        HandshakeError::Decode(DecodeError::TooShort { len: 1 })
    );
}

#[test]
fn body_chunks_join_back_and_fit() {
    let body: Vec<u8> = (0..(2 * MAX_BODY_CHUNK + 10)).map(|i| (i % 251) as u8).collect();
    let chunks = body_chunks(&body);
    assert_eq!(chunks.len(), 3);
    assert_eq!(chunks[0].len(), MAX_BODY_CHUNK);
    assert_eq!(chunks[1].len(), MAX_BODY_CHUNK);
    assert_eq!(chunks[2].len(), 10);
    assert_eq!(chunks.concat(), body);
    assert!(body_chunks(&[]).is_empty());
    assert_eq!(body_chunks(&[1, 2, 3]), vec![vec![1, 2, 3]]);
    let exact = vec![7u8; MAX_BODY_CHUNK];
    assert_eq!(body_chunks(&exact).len(), 1);
}

fn req(id: u32, path: &str) -> RequestHeaders {
    RequestHeaders {
        stream_id: id,
        method: "POST".to_string(),
        path: path.to_string(),
        headers: vec![],
    }
}

#[test]
fn serve_session_keeps_interleaved_bodies_apart() {
    let mut s = ServeSession::new();
    match s.on_message(TunnelMessage::decode(TunnelMessage::req_headers(&req(1, "/a"), b"{}".to_vec()).encode()).unwrap()) {
        ServeAction::ParseRequestHeaders(p) => assert_eq!(p, b"{}".to_vec()),
        other => panic!("unexpected {:?}", other),
    }
    s.begin_request(req(1, "/a"));
    s.begin_request(req(2, "/b"));
    assert!(matches!(s.on_message(TunnelMessage::req_body(1, b"he".to_vec())), ServeAction::BodyBuffered));
    assert!(matches!(s.on_message(TunnelMessage::req_body(2, b"XY".to_vec())), ServeAction::BodyBuffered));
    assert!(matches!(s.on_message(TunnelMessage::req_body(1, b"llo".to_vec())), ServeAction::BodyBuffered));
    assert!(matches!(s.on_message(TunnelMessage::req_body(3, b"zz".to_vec())), ServeAction::Ignore));
    match s.on_message(TunnelMessage::req_end(1)) {
        ServeAction::Dispatch(p) => {
            assert_eq!(p.headers.path, "/a");
            assert_eq!(p.body, b"hello".to_vec());
        }
        other => panic!("unexpected {:?}", other),
    }
    assert!(matches!(s.on_message(TunnelMessage::req_end(1)), ServeAction::Ignore));
    match s.on_message(TunnelMessage::req_end(2)) {
        ServeAction::Dispatch(p) => assert_eq!(p.body, b"XY".to_vec()),
        other => panic!("unexpected {:?}", other),
    }
    assert!(matches!(s.on_message(TunnelMessage::ping()), ServeAction::SendPong));
    assert!(matches!(s.on_message(TunnelMessage::pong()), ServeAction::Ignore));
    assert!(matches!(s.on_message(TunnelMessage::res_end(4)), ServeAction::Ignore));
}

#[test]
fn proxy_routes_frames() {
    match route_response(TunnelMessage::res_body(9, vec![1, 2])) {
        ProxyRoute::Deliver { stream_id: 9, event: StreamEvent::Body(d), close: false } => {
            assert_eq!(d, vec![1, 2])
        }
        other => panic!("unexpected {:?}", other),
    }
    assert!(matches!(
        route_response(TunnelMessage::res_end(9)),
        ProxyRoute::Deliver { stream_id: 9, event: StreamEvent::End, close: true }
    ));
    match route_response(TunnelMessage::error(5, "upstream timeout")) {
        ProxyRoute::Deliver { stream_id: 5, event: StreamEvent::Error(t), close: true } => {
            assert_eq!(t, "upstream timeout")
        }
        other => panic!("unexpected {:?}", other),
    }
    match route_response(TunnelMessage { msg_type: MessageType::Error, stream_id: 1, payload: vec![b'a', 0xff] }) {
        ProxyRoute::Deliver { event: StreamEvent::Error(t), .. } => assert_eq!(t, "a\u{FFFD}"),
        other => panic!("unexpected {:?}", other),
    }
    assert!(matches!(route_response(TunnelMessage::ping()), ProxyRoute::SendPong));
    assert!(matches!(route_response(TunnelMessage::req_end(1)), ProxyRoute::Ignore));
    assert!(matches!(
        route_response(TunnelMessage::res_headers(&bad_gateway_headers(3), b"{}".to_vec())),
        ProxyRoute::ParseResponseHeaders(_)
    ));
}

#[test]
fn proxy_waits_for_headers_then_streams_body() {
    assert!(matches!(await_headers_step(Some(StreamEvent::Body(vec![1]))), HeaderWait::Continue));
    match await_headers_step(Some(StreamEvent::End)) {
        HeaderWait::Failed(t) => assert_eq!(t, "response ended before headers"),
        other => panic!("unexpected {:?}", other),
    }
    match await_headers_step(None) {
        HeaderWait::Failed(t) => assert_eq!(t, "stream channel closed before headers"),
        other => panic!("unexpected {:?}", other),
    }
    match await_headers_step(Some(StreamEvent::Error("boom".to_string()))) {
        HeaderWait::Failed(t) => assert_eq!(t, "boom"),
        other => panic!("unexpected {:?}", other),
    }
    match await_headers_step(Some(StreamEvent::Headers(bad_gateway_headers(4)))) {
        HeaderWait::Ready(h) => assert_eq!(h.status, 502),
        other => panic!("unexpected {:?}", other),
    }
    match forward_body_step(Some(StreamEvent::Body(vec![5]))) {
        BodyForward::Chunk(c) => assert_eq!(c, vec![5]),
        other => panic!("unexpected {:?}", other),
    }
    assert!(matches!(forward_body_step(Some(StreamEvent::End)), BodyForward::Finish));
    assert!(matches!(forward_body_step(Some(StreamEvent::Error("e".to_string()))), BodyForward::Finish));
    assert!(matches!(forward_body_step(None), BodyForward::Finish));
    assert!(matches!(forward_body_step(Some(StreamEvent::Headers(bad_gateway_headers(1)))), BodyForward::Skip));
}

#[test]
fn refused_requests_answers() {
    let r = refusal_response(Refusal::NotReady);
    assert_eq!((r.status, r.text_plain, r.body.as_str()), (503, true, "Tunnel not ready"));
    let r = refusal_response(Refusal::BodyUnreadable);
    assert_eq!((r.status, r.text_plain, r.body.as_str()), (400, false, "Failed to read body"));
    let r = refusal_response(Refusal::SendFailed);
    assert_eq!((r.status, r.text_plain, r.body.as_str()), (502, false, "Tunnel send failed"));
    let r = refusal_response(Refusal::TunnelError("x".to_string()));
    assert_eq!((r.status, r.text_plain, r.body.as_str()), (502, true, "Tunnel error: x"));
    let r = refusal_response(Refusal::Timeout);
    assert_eq!((r.status, r.text_plain, r.body.as_str()), (504, false, "Tunnel response timeout"));
}

#[test]
fn response_status_falls_back_to_bad_gateway() {
    assert_eq!(response_status(200), 200);
    assert_eq!(response_status(100), 100);
    assert_eq!(response_status(999), 999);
    assert_eq!(response_status(99), 502);
    assert_eq!(response_status(1000), 502);
    assert_eq!(response_status(0), 502);
}

#[test]
fn hop_by_hop_headers_are_dropped() {
    assert!(!forwards_request_header_name("Host"));
    assert!(!forwards_request_header_name("CONNECTION"));
    assert!(!forwards_request_header_name("Transfer-Encoding"));
    assert!(forwards_request_header_name("Content-Type"));
    assert!(forwards_response_header_name("Host"));
    assert!(!forwards_response_header_name("Connection"));
    let h = vec![pair("Host", "a"), pair("X-A", "1"), pair("connection", "close"), pair("b", "2")];
    assert_eq!(forwarded_headers(&h, true), vec![pair("X-A", "1"), pair("b", "2")]);
    assert_eq!(forwarded_headers(&h, false), vec![pair("Host", "a"), pair("X-A", "1"), pair("b", "2")]);
}

#[test]
fn bad_gateway_headers_and_texts() {
    let h = bad_gateway_headers(7);
    assert_eq!(h.stream_id, 7);
    assert_eq!(h.status, 502);
    assert_eq!(h.headers, vec![pair("content-type", "text/plain")]);
    assert_eq!(bad_gateway_text("refused"), "Bad Gateway: refused");
    assert_eq!(upstream_error_text("reset"), "upstream error: reset");
}

fn joined(peers: &[&str]) -> Option<IncomingSignal> {
    Some(IncomingSignal::Joined {
        peer_id: "me".to_string(),
        peers: peers.iter().map(|p| p.to_string()).collect(),
    })
}

#[test]
fn first_peer_offers_second_answers() {
    let mut first = RoleSelection::new();
    assert!(matches!(first.on_signal(joined(&[])), JoinStep::Wait));
    assert!(matches!(
        first.on_signal(Some(IncomingSignal::PeerJoined { peer_id: "b".to_string() })),
        JoinStep::Decided(Role::Offerer)
    ));
    let mut second = RoleSelection::new();
    assert!(matches!(second.on_signal(joined(&["a"])), JoinStep::Decided(Role::Answerer)));
    let mut third = RoleSelection::new();
    assert!(matches!(third.on_signal(None), JoinStep::Fail(SignalFailure::Lost)));
    match third.on_signal(Some(IncomingSignal::Error { message: "full".to_string() })) {
        JoinStep::Fail(f) => assert_eq!(f.message(), "signaling error: full"),
        other => panic!("unexpected {:?}", other),
    }
}

#[test]
fn waiting_peer_ignores_other_signals() {
    let mut s = RoleSelection::new();
    assert!(matches!(s.on_signal(joined(&[])), JoinStep::Wait));
    assert!(matches!(
        s.on_signal(Some(IncomingSignal::Candidate { peer_id: "x".to_string(), candidate: "{}".to_string() })),
        JoinStep::Wait
    ));
    assert!(matches!(s.on_signal(joined(&["z"])), JoinStep::Wait));
    assert!(matches!(
        s.on_signal(Some(IncomingSignal::PeerJoined { peer_id: "b".to_string() })),
        JoinStep::Decided(Role::Offerer)
    ));
    let mut t = RoleSelection::new();
    assert!(matches!(
        t.on_signal(Some(IncomingSignal::PeerJoined { peer_id: "b".to_string() })),
        JoinStep::Wait
    ));
    assert!(matches!(t.on_signal(joined(&["a"])), JoinStep::Decided(Role::Answerer)));
}

#[test]
fn candidates_are_held_until_remote_description() {
    let mut n: Negotiation<u32> = Negotiation::new(Role::Offerer);
    assert_eq!(n.on_candidate(1), None);
    assert_eq!(n.on_candidate(2), None);
    match n.on_signal(Some(IncomingSignal::Answer { peer_id: "p".to_string(), sdp: "v=0".to_string() })) {
        NegotiationStep::RemoteDescription(d) => assert_eq!(d, "v=0"),
        other => panic!("unexpected {:?}", other),
    }
    assert_eq!(n.remote_described(), vec![1, 2]);
    assert_eq!(n.on_candidate(3), Some(3));
    assert!(matches!(
        n.on_signal(Some(IncomingSignal::Offer { peer_id: "p".to_string(), sdp: "x".to_string() })),
        NegotiationStep::Ignore
    ));
    match n.on_signal(Some(IncomingSignal::Candidate { peer_id: "p".to_string(), candidate: "{}".to_string() })) {
        NegotiationStep::ParseCandidate(c) => assert_eq!(c, "{}"),
        other => panic!("unexpected {:?}", other),
    }
    match n.on_signal(Some(IncomingSignal::PeerLeft { peer_id: "p".to_string() })) {
        NegotiationStep::Fail(f) => assert_eq!(f.message(), "peer left before connection established"),
        other => panic!("unexpected {:?}", other),
    }
    let a: Negotiation<u32> = Negotiation::new(Role::Answerer);
    assert!(matches!(
        a.on_signal(Some(IncomingSignal::Offer { peer_id: "p".to_string(), sdp: "o".to_string() })),
        NegotiationStep::RemoteDescription(_)
    ));
    match a.on_signal(None) {
        NegotiationStep::Fail(f) => assert_eq!(f.message(), "signaling connection lost"),
        other => panic!("unexpected {:?}", other),
    }
}

#[test]
fn backoff_schedule() {
    let waits: Vec<u64> = (1..=12).map(backoff_secs).collect();
    assert_eq!(waits, vec![2, 4, 8, 16, 32, 60, 60, 60, 60, 60, 60, 60]);
    assert_eq!(backoff_secs(u32::MAX), 60);
}

#[test]
fn retry_gives_up_after_the_limit() {
    let mut r = RetryState::new(2);
    assert_eq!(r.on_outcome(false), RetryDecision::RetryAfter(2));
    assert_eq!(r.on_outcome(false), RetryDecision::RetryAfter(4));
    assert_eq!(r.on_outcome(false), RetryDecision::GiveUp);
    assert_eq!(r.attempt(), 3);
    let mut forever = RetryState::new(MAX_RETRIES);
    assert_eq!(forever.on_outcome(true), RetryDecision::Finished);
    assert_eq!(forever.on_outcome(false), RetryDecision::RetryAfter(2));
}

#[test]
fn ice_servers_stun_then_turn() {
    let plain = ice_servers(&TurnConfig::default());
    assert_eq!(plain.len(), 1);
    assert_eq!(plain[0].urls, vec![STUN_URL.to_string()]);
    let turn = TurnConfig {
        url: Some("turn:t.example.com:3478".to_string()),
        username: Some("u".to_string()),
        password: None,
    };
    let s = ice_servers(&turn);
    assert_eq!(s.len(), 2);
    assert_eq!(s[1].urls, vec!["turn:t.example.com:3478".to_string()]);
    assert_eq!(s[1].username, "u");
    assert_eq!(s[1].credential, "");
}

#[test]
fn command_turn_config() {
    let c = Command::Proxy {
        signal: "ws://s".to_string(),
        room: "r".to_string(),
        listen: "127.0.0.1:8000".to_string(),
        turn: Some("turn:x".to_string()),
        turn_user: None,
        turn_pass: Some("p".to_string()),
    };
    let t = c.turn_config();
    assert_eq!(t.url.as_deref(), Some("turn:x"));
    assert_eq!(t.username, None);
    assert_eq!(t.password.as_deref(), Some("p"));
}

#[test]
fn request_body_sent_as_frames_arrives_whole() {
    let body: Vec<u8> = (0..(MAX_BODY_CHUNK * 2 + 77)).map(|i| (i % 13) as u8).collect();
    let frames = request_body_frames(21, &body);
    assert_eq!(frames.len(), 3);
    assert!(frames.iter().all(|f| f.msg_type == MessageType::ReqBody && f.stream_id == 21));
    let mut s = ServeSession::new();
    s.begin_request(req(21, "/big"));
    for f in frames {
        let wire = f.encode();
        let back = TunnelMessage::decode(wire).unwrap();
        assert!(matches!(s.on_message(back), ServeAction::BodyBuffered));
    }
    match s.on_message(TunnelMessage::req_end(21)) {
        ServeAction::Dispatch(p) => assert_eq!(p.body, body),
        other => panic!("unexpected {:?}", other),
    }
    let res = response_body_frames(8, b"abc");
    assert_eq!(res.len(), 1);
    assert_eq!(res[0].msg_type, MessageType::ResBody);
    assert_eq!(res[0].payload, b"abc".to_vec());
    assert!(response_body_frames(8, b"").is_empty());
}

#[test]
fn proxy_session_counts_ids_and_keeps_streams_apart() {
    let mut p: ProxySession<&str> = ProxySession::new();
    assert_eq!(p.allocate_stream_id(), 1);
    assert_eq!(p.allocate_stream_id(), 2);
    p.register(1, "one");
    p.register(2, "two");
    assert_eq!(p.sender(1), Some(&"one"));
    assert_eq!(p.sender(2), Some(&"two"));
    assert_eq!(p.forget(2), Some("two"));
    assert_eq!(p.sender(2), None);
    assert_eq!(p.sender(1), Some(&"one"));
    assert_eq!(p.forget(2), None);
    assert_eq!(p.sender(3), None);
}

#[test]
fn proxy_session_ids_count_up() {
    let mut p: ProxySession<u8> = ProxySession::new();
    let mut last = 0;
    for _ in 0..5 {
        last = p.allocate_stream_id();
    }
    assert_eq!(last, 5);
}

#[test]
fn request_frames_are_headers_body_end() {
    let h = req(6, "/x");
    let body: Vec<u8> = vec![3u8; MAX_BODY_CHUNK + 1];
    let frames = request_frames(&h, b"{}".to_vec(), &body);
    assert_eq!(frames.len(), 4);
    assert_eq!(frames[0].msg_type, MessageType::ReqHeaders);
    assert_eq!(frames[0].payload, b"{}".to_vec());
    assert_eq!(frames[1].msg_type, MessageType::ReqBody);
    assert_eq!(frames[1].payload.len(), MAX_BODY_CHUNK);
    assert_eq!(frames[2].payload.len(), 1);
    assert_eq!(frames[3].msg_type, MessageType::ReqEnd);
    assert!(frames.iter().all(|f| f.stream_id == 6));
    let empty = request_frames(&h, b"{}".to_vec(), &[]);
    assert_eq!(empty.len(), 2);
    assert_eq!(empty[1].msg_type, MessageType::ReqEnd);
}

#[test]
fn bad_gateway_answer_frames() {
    let h = bad_gateway_headers(11);
    let frames = bad_gateway_frames(&h, b"{}".to_vec(), "connection refused");
    assert_eq!(frames.len(), 3);
    assert_eq!(frames[0].msg_type, MessageType::ResHeaders);
    assert_eq!(frames[1].msg_type, MessageType::ResBody);
    assert_eq!(frames[1].payload, b"Bad Gateway: connection refused".to_vec());
    assert_eq!(frames[2].msg_type, MessageType::ResEnd);
    assert!(frames.iter().all(|f| f.stream_id == 11));
}

#[test]
fn two_requests_are_multiplexed_by_stream_id() {
    let mut p: ProxySession<&str> = ProxySession::new();
    let a = p.allocate_stream_id();
    let b = p.allocate_stream_id();
    assert_ne!(a, b);
    p.register(a, "first");
    p.register(b, "second");

    let body_a: Vec<u8> = vec![1u8; MAX_BODY_CHUNK + 5];
    let frames_a = request_frames(&req(a, "/a"), b"{}".to_vec(), &body_a);
    let frames_b = request_frames(&req(b, "/b"), b"{}".to_vec(), b"xy");
    assert!(frames_a.iter().all(|f| f.stream_id == a));
    assert!(frames_b.iter().all(|f| f.stream_id == b));

    // A response frame for `b` reaches b's handler only, and closing `b`
    // leaves `a` waiting.
    match route_response(TunnelMessage::res_end(b)) {
        ProxyRoute::Deliver { stream_id, event: StreamEvent::End, close: true } => {
            assert_eq!(stream_id, b);
            assert_eq!(p.sender(stream_id), Some(&"second"));
            assert_eq!(p.forget(stream_id), Some("second"));
        }
        other => panic!("unexpected route {:?}", other),
    }
    match route_response(TunnelMessage::res_body(a, b"ok".to_vec())) {
        ProxyRoute::Deliver { stream_id, event: StreamEvent::Body(data), close: false } => {
            assert_eq!(stream_id, a);
            assert_eq!(data, b"ok".to_vec());
            assert_eq!(p.sender(stream_id), Some(&"first"));
        }
        other => panic!("unexpected route {:?}", other),
    }
}
