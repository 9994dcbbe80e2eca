//! Command-line configuration and the ICE servers a peer connection uses.
use vstd::prelude::*;

verus! {

/// The parsed command line.
#[derive(Debug, Clone)]
pub struct Cli {
    pub command: Command,
}

/// The two modes of the tunnel.
#[derive(Debug, Clone)]
pub enum Command {
    /// Serve an upstream HTTP service through the tunnel.
    Serve {
        /// WebSocket URL of the signalling server.
        signal: String,
        /// Room name to join.
        room: String,
        /// Upstream HTTP URL to forward requests to.
        upstream: String,
        /// Path prefix to advertise (e.g. `/v1`).
        advertise: String,
        /// TURN server URL.
        turn: Option<String>,
        /// TURN server username.
        turn_user: Option<String>,
        /// TURN server password.
        turn_pass: Option<String>,
    },
    /// Create a local HTTP proxy that tunnels to a remote provider.
    Proxy {
        /// WebSocket URL of the signalling server.
        signal: String,
        /// Room name to join.
        room: String,
        /// Local address to listen on.
        listen: String,
        /// TURN server URL.
        turn: Option<String>,
        /// TURN server username.
        turn_user: Option<String>,
        /// TURN server password.
        turn_pass: Option<String>,
    },
}

/// TURN server configuration extracted from the command line.
#[derive(Debug, Clone)]
pub struct TurnConfig {
    pub url: Option<String>,
    pub username: Option<String>,
    pub password: Option<String>,
}

/// The characters of an optional string.
pub open spec fn opt_view(o: Option<String>) -> Option<Seq<char>> {
    match o {
        Some(s) => Some(s@),
        None => None,
    }
}

/// A copy of an optional string.
fn copy_opt(o: &Option<String>) -> (r: Option<String>)
    ensures
        opt_view(r) == opt_view(*o),
{
    match o {
        Some(s) => Some(s.clone()),
        None => None,
    }
}

impl Default for TurnConfig {
    fn default() -> (t: Self)
        ensures
            t.url is None,
            t.username is None,
            t.password is None,
    {
        TurnConfig { url: None, username: None, password: None }
    }
}

impl Command {
    /// The TURN settings given with either mode.
    pub fn turn_config(&self) -> (t: TurnConfig)
        ensures
            match *self {
                Command::Serve { turn, turn_user, turn_pass, .. } => opt_view(t.url) == opt_view(
                    turn,
                ) && opt_view(t.username) == opt_view(turn_user) && opt_view(t.password)
                    == opt_view(turn_pass),
                Command::Proxy { turn, turn_user, turn_pass, .. } => opt_view(t.url) == opt_view(
                    turn,
                ) && opt_view(t.username) == opt_view(turn_user) && opt_view(t.password)
                    == opt_view(turn_pass),
            },
    {
        match self {
            Command::Serve { turn, turn_user, turn_pass, .. } => TurnConfig {
                url: copy_opt(turn),
                username: copy_opt(turn_user),
                password: copy_opt(turn_pass),
            },
            Command::Proxy { turn, turn_user, turn_pass, .. } => TurnConfig {
                url: copy_opt(turn),
                username: copy_opt(turn_user),
                password: copy_opt(turn_pass),
            },
        }
    }
}

/// One ICE server entry of the peer connection's configuration.
#[derive(Debug, Clone)]
pub struct IceServer {
    pub urls: Vec<String>,
    pub username: String,
    pub credential: String,
}

/// The public STUN server every peer connection uses.
pub const STUN_URL: &'static str = "stun:stun.l.google.com:19302";

/// The characters of an optional string, or no characters.
pub open spec fn or_empty(o: Option<String>) -> Seq<char> {
    match o {
        Some(s) => s@,
        None => Seq::empty(),
    }
}

/// A copy of an optional string, or the empty string.
fn unwrap_or_empty(o: &Option<String>) -> (s: String)
    ensures
        s@ == or_empty(*o),
{
    match o {
        Some(s) => s.clone(),
        None => String::new(),
    }
}

/// The ICE servers: the public STUN server, then the TURN server with its
/// username and password (empty when not given) if a TURN URL is configured.
pub fn ice_servers(turn: &TurnConfig) -> (servers: Vec<IceServer>)
    ensures
        servers@.len() == if turn.url is Some {
            2int
        } else {
            1int
        },
        servers@[0].urls@.len() == 1,
        servers@[0].urls@[0]@ == STUN_URL@,
        servers@[0].username@ == Seq::<char>::empty(),
        servers@[0].credential@ == Seq::<char>::empty(),
        turn.url matches Some(u) ==> {
            &&& servers@[1].urls@.len() == 1
            &&& servers@[1].urls@[0]@ == u@
            &&& servers@[1].username@ == or_empty(turn.username)
            &&& servers@[1].credential@ == or_empty(turn.password)
        },
{
    let mut servers: Vec<IceServer> = Vec::new();
    servers.push(
        IceServer {
            urls: vec![String::from_str(STUN_URL)],
            username: String::new(),
            credential: String::new(),
        },
    );
    if let Some(url) = &turn.url {
        servers.push(
            IceServer {
                urls: vec![url.clone()],
                username: unwrap_or_empty(&turn.username),
                credential: unwrap_or_empty(&turn.password),
            },
        );
    }
    servers
}

} // verus!
