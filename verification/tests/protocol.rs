use serde_json::Value;
use tunnel::handshake::{Agree, Hello};
use tunnel::protocol::{
    MessageType, RequestHeaders, ResponseHeaders, TunnelMessage, MAX_BODY_CHUNK, PROTOCOL_NAME,
    PROTOCOL_VERSION,
};

fn strings(v: &[String]) -> Value {
    Value::Array(v.iter().map(|s| Value::String(s.clone())).collect())
}

fn header_object(h: &[(String, String)]) -> Value {
    let mut m = serde_json::Map::new();
    for (k, v) in h {
        m.insert(k.clone(), Value::String(v.clone()));
    }
    Value::Object(m)
}

fn hello_json(h: &Hello) -> Vec<u8> {
    let mut m = serde_json::Map::new();
    m.insert("proto".to_string(), Value::String(h.proto.clone()));
    m.insert("min_version".to_string(), Value::from(h.min_version));
    m.insert("max_version".to_string(), Value::from(h.max_version));
    m.insert("features".to_string(), strings(&h.features));
    serde_json::to_vec(&Value::Object(m)).unwrap()
}

fn agree_json(a: &Agree) -> Vec<u8> {
    let mut m = serde_json::Map::new();
    m.insert("version".to_string(), Value::from(a.version));
    m.insert("features".to_string(), strings(&a.features));
    serde_json::to_vec(&Value::Object(m)).unwrap()
}

fn req_headers_json(h: &RequestHeaders) -> Vec<u8> {
    let mut m = serde_json::Map::new();
    m.insert("stream_id".to_string(), Value::from(h.stream_id));
    m.insert("method".to_string(), Value::String(h.method.clone()));
    m.insert("path".to_string(), Value::String(h.path.clone()));
    m.insert("headers".to_string(), header_object(&h.headers));
    serde_json::to_vec(&Value::Object(m)).unwrap()
}

fn res_headers_json(h: &ResponseHeaders) -> Vec<u8> {
    let mut m = serde_json::Map::new();
    m.insert("stream_id".to_string(), Value::from(h.stream_id));
    m.insert("status".to_string(), Value::from(h.status));
    m.insert("headers".to_string(), header_object(&h.headers));
    serde_json::to_vec(&Value::Object(m)).unwrap()
}

fn parse(payload: &[u8]) -> Value {
    serde_json::from_slice(payload).unwrap()
}

// --- Encode/Decode roundtrip tests ---

#[test]
fn test_roundtrip_hello() {
    let hello = Hello::new();
    let msg = TunnelMessage::hello(hello_json(&hello));
    let encoded = msg.encode();
    let decoded = TunnelMessage::decode(encoded).unwrap();
    assert_eq!(decoded.msg_type, MessageType::Hello);
    assert_eq!(decoded.stream_id, 0);
    let parsed = parse(&decoded.payload);
    assert_eq!(parsed["proto"], PROTOCOL_NAME);
    assert_eq!(parsed["min_version"], 1);
    assert_eq!(parsed["max_version"], PROTOCOL_VERSION);
}

#[test]
fn test_roundtrip_agree() {
    let agree = Agree {
        version: 1,
        features: vec!["sse".to_string()],
    };
    let msg = TunnelMessage::agree(agree_json(&agree));
    let encoded = msg.encode();
    let decoded = TunnelMessage::decode(encoded).unwrap();
    assert_eq!(decoded.msg_type, MessageType::Agree);
    let parsed = parse(&decoded.payload);
    assert_eq!(parsed["version"], 1);
    assert_eq!(parsed["features"], Value::Array(vec![Value::from("sse")]));
}

#[test]
fn test_roundtrip_req_headers() {
    let headers = RequestHeaders {
        stream_id: 42,
        method: "POST".to_string(),
        path: "/v1/chat/completions".to_string(),
        headers: vec![("content-type".to_string(), "application/json".to_string())],
    };
    let msg = TunnelMessage::req_headers(&headers, req_headers_json(&headers));
    let encoded = msg.encode();
    let decoded = TunnelMessage::decode(encoded).unwrap();
    assert_eq!(decoded.msg_type, MessageType::ReqHeaders);
    assert_eq!(decoded.stream_id, 42);
    let parsed = parse(&decoded.payload);
    assert_eq!(parsed["method"], "POST");
    assert_eq!(parsed["path"], "/v1/chat/completions");
}

#[test]
fn test_roundtrip_req_body() {
    let body = b"hello world".to_vec();
    let msg = TunnelMessage::req_body(7, body.clone());
    let encoded = msg.encode();
    let decoded = TunnelMessage::decode(encoded).unwrap();
    assert_eq!(decoded.msg_type, MessageType::ReqBody);
    assert_eq!(decoded.stream_id, 7);
    assert_eq!(decoded.payload, body);
}

#[test]
fn test_roundtrip_req_end() {
    let msg = TunnelMessage::req_end(7);
    let encoded = msg.encode();
    let decoded = TunnelMessage::decode(encoded).unwrap();
    assert_eq!(decoded.msg_type, MessageType::ReqEnd);
    assert_eq!(decoded.stream_id, 7);
    assert!(decoded.payload.is_empty());
}

#[test]
fn test_roundtrip_res_headers() {
    let headers = ResponseHeaders {
        stream_id: 99,
        status: 200,
        headers: vec![("content-type".to_string(), "text/event-stream".to_string())],
    };
    let msg = TunnelMessage::res_headers(&headers, res_headers_json(&headers));
    let encoded = msg.encode();
    let decoded = TunnelMessage::decode(encoded).unwrap();
    assert_eq!(decoded.msg_type, MessageType::ResHeaders);
    assert_eq!(decoded.stream_id, 99);
    let parsed = parse(&decoded.payload);
    assert_eq!(parsed["status"], 200);
}

#[test]
fn test_roundtrip_res_body() {
    let data = b"data: {\"token\": \"hello\"}\n\n".to_vec();
    let msg = TunnelMessage::res_body(99, data.clone());
    let encoded = msg.encode();
    let decoded = TunnelMessage::decode(encoded).unwrap();
    assert_eq!(decoded.msg_type, MessageType::ResBody);
    assert_eq!(decoded.stream_id, 99);
    assert_eq!(decoded.payload, data);
}

#[test]
fn test_roundtrip_res_end() {
    let msg = TunnelMessage::res_end(99);
    let encoded = msg.encode();
    let decoded = TunnelMessage::decode(encoded).unwrap();
    assert_eq!(decoded.msg_type, MessageType::ResEnd);
    assert_eq!(decoded.stream_id, 99);
    assert!(decoded.payload.is_empty());
}

#[test]
fn test_roundtrip_error() {
    let msg = TunnelMessage::error(5, "upstream timeout");
    let encoded = msg.encode();
    let decoded = TunnelMessage::decode(encoded).unwrap();
    assert_eq!(decoded.msg_type, MessageType::Error);
    assert_eq!(decoded.stream_id, 5);
    assert_eq!(&decoded.payload[..], b"upstream timeout");
}

// --- Negative: corrupt/truncated messages ---

#[test]
fn test_decode_empty() {
    let result = TunnelMessage::decode(Vec::new());
    assert!(result.is_err());
    assert!(result.unwrap_err().message().contains("too short"));
}

#[test]
fn test_decode_too_short() {
    let result = TunnelMessage::decode(vec![1, 0, 0]);
    assert!(result.is_err());
    assert!(result.unwrap_err().message().contains("too short"));
}

#[test]
fn test_decode_unknown_type() {
    let result = TunnelMessage::decode(vec![255, 0, 0, 0, 0]);
    assert!(result.is_err());
    assert!(result.unwrap_err().message().contains("unknown message type"));
}

#[test]
fn test_decode_exactly_header_no_payload() {
    // 5 bytes: type=ReqEnd(12), stream_id=0 — valid, empty payload
    let result = TunnelMessage::decode(vec![12, 0, 0, 0, 0]);
    assert!(result.is_ok());
    let msg = result.unwrap();
    assert_eq!(msg.msg_type, MessageType::ReqEnd);
    assert_eq!(msg.stream_id, 0);
    assert!(msg.payload.is_empty());
}

// --- Boundary: edge cases ---

#[test]
fn test_zero_stream_id() {
    let msg = TunnelMessage::req_end(0);
    let encoded = msg.encode();
    let decoded = TunnelMessage::decode(encoded).unwrap();
    assert_eq!(decoded.stream_id, 0);
}

#[test]
fn test_max_stream_id() {
    let msg = TunnelMessage::req_end(u32::MAX);
    let encoded = msg.encode();
    let decoded = TunnelMessage::decode(encoded).unwrap();
    assert_eq!(decoded.stream_id, u32::MAX);
}

#[test]
fn test_large_payload() {
    let data = vec![0xABu8; MAX_BODY_CHUNK];
    let msg = TunnelMessage::res_body(1, data.clone());
    let encoded = msg.encode();
    assert_eq!(encoded.len(), 5 + MAX_BODY_CHUNK);
    let decoded = TunnelMessage::decode(encoded).unwrap();
    assert_eq!(decoded.payload.len(), MAX_BODY_CHUNK);
    assert_eq!(decoded.payload, data);
}

#[test]
fn test_empty_payload_body() {
    let msg = TunnelMessage::res_body(1, Vec::new());
    let encoded = msg.encode();
    let decoded = TunnelMessage::decode(encoded).unwrap();
    assert_eq!(decoded.msg_type, MessageType::ResBody);
    assert!(decoded.payload.is_empty());
}

// --- Version negotiation tests ---

#[test]
fn test_version_negotiation_exact_match() {
    let hello = Hello {
        proto: PROTOCOL_NAME.to_string(),
        min_version: 1,
        max_version: 1,
        features: vec!["sse".to_string()],
    };
    let agree = Agree::from_hello(&hello).unwrap();
    assert_eq!(agree.version, 1);
}

#[test]
fn test_version_negotiation_range_overlap() {
    // Peer supports 1-3, we support 1 (PROTOCOL_VERSION=1)
    // Overlap is [1,1], pick highest = 1
    let hello = Hello {
        proto: PROTOCOL_NAME.to_string(),
        min_version: 1,
        max_version: 3,
        features: vec!["sse".to_string()],
    };
    let agree = Agree::from_hello(&hello).unwrap();
    assert_eq!(agree.version, 1);
}

#[test]
fn test_version_negotiation_no_overlap() {
    // Peer supports 5-10, we support 1
    let hello = Hello {
        proto: PROTOCOL_NAME.to_string(),
        min_version: 5,
        max_version: 10,
        features: vec![],
    };
    let result = Agree::from_hello(&hello);
    assert!(result.is_err());
    assert!(result.unwrap_err().contains("no compatible version"));
}

#[test]
fn test_version_negotiation_wrong_protocol() {
    let hello = Hello {
        proto: "wrongproto".to_string(),
        min_version: 1,
        max_version: 1,
        features: vec![],
    };
    let result = Agree::from_hello(&hello);
    assert!(result.is_err());
    assert!(result.unwrap_err().contains("unknown protocol"));
}

#[test]
fn test_feature_intersection() {
    let hello = Hello {
        proto: PROTOCOL_NAME.to_string(),
        min_version: 1,
        max_version: 1,
        features: vec!["sse".to_string(), "gzip".to_string(), "unknown".to_string()],
    };
    let agree = Agree::from_hello(&hello).unwrap();
    // We only support "sse", so only that should be agreed
    assert_eq!(agree.features, vec!["sse"]);
}

#[test]
fn test_feature_no_overlap() {
    let hello = Hello {
        proto: PROTOCOL_NAME.to_string(),
        min_version: 1,
        max_version: 1,
        features: vec!["gzip".to_string(), "brotli".to_string()],
    };
    let agree = Agree::from_hello(&hello).unwrap();
    assert!(agree.features.is_empty());
}

#[test]
fn test_hello_default_values() {
    let hello = Hello::new();
    assert_eq!(hello.proto, PROTOCOL_NAME);
    assert_eq!(hello.min_version, 1);
    assert_eq!(hello.max_version, PROTOCOL_VERSION);
    assert!(hello.features.contains(&"sse".to_string()));
}
