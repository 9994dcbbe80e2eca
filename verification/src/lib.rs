//! Wire protocol, handshake negotiation and the decision logic of a
//! peer-to-peer HTTP tunnel that runs over a WebRTC data channel.
pub mod text;
pub mod protocol;
pub mod handshake;
pub mod upstream;
pub mod serve_session;
pub mod proxy_flow;
pub mod negotiation;
pub mod config;
pub mod retry;
