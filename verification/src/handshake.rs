//! HELLO / AGREE version and feature negotiation.
use vstd::prelude::*;
use crate::protocol::{decode_frame, DecodeError, MessageType, TunnelMessage, PROTOCOL_NAME, PROTOCOL_VERSION};
use crate::text::{decimal, decimal_string};

verus! {

broadcast use vstd::seq_lib::group_seq_properties;

/// HELLO: the protocol name, the version range and the features a peer offers.
#[derive(Debug, Clone)]
pub struct Hello {
    pub proto: String,
    pub min_version: u32,
    pub max_version: u32,
    pub features: Vec<String>,
}

/// AGREE: the version and features both peers will use.
#[derive(Debug, Clone)]
pub struct Agree {
    pub version: u32,
    pub features: Vec<String>,
}

/// The characters of each string, in order.
pub open spec fn string_views(v: Seq<String>) -> Seq<Seq<char>> {
    v.map_values(|s: String| s@)
}

/// Lowest protocol version this side speaks.
pub open spec fn our_min_version() -> u32 {
    1
}

/// The only feature this side supports is server-sent events.
pub open spec fn is_supported_feature(f: Seq<char>) -> bool {
    f == "sse"@
}

/// The highest version inside both `[min, max]` and our range, if the two
/// ranges meet.
pub open spec fn agreed_version(min: u32, max: u32) -> Option<u32> {
    let lo = if min > our_min_version() { min } else { our_min_version() };
    let hi = if max < PROTOCOL_VERSION { max } else { PROTOCOL_VERSION };
    if lo > hi { None } else { Some(hi) }
}

/// `is_supported_feature` as a predicate value.
pub open spec fn supported() -> spec_fn(Seq<char>) -> bool {
    |f: Seq<char>| is_supported_feature(f)
}

/// The peer's features that this side supports, in the peer's order.
pub open spec fn agreed_features(peer: Seq<Seq<char>>) -> Seq<Seq<char>> {
    peer.filter(supported())
}

/// Error text for a HELLO that names another protocol.
pub open spec fn unknown_protocol_text(proto: Seq<char>) -> Seq<char> {
    "unknown protocol: "@ + proto
}

/// Error text for version ranges that do not meet.
pub open spec fn no_version_text(min: u32, max: u32) -> Seq<char> {
    "no compatible version: peer=["@ + decimal(min as nat) + ","@ + decimal(max as nat)
        + "], ours=["@ + decimal(our_min_version() as nat) + ","@ + decimal(
        PROTOCOL_VERSION as nat,
    ) + "]"@
}

/// The outcome of negotiating against a HELLO with these fields: the agreed
/// version and features, or the error text.
pub open spec fn negotiate(proto: Seq<char>, min: u32, max: u32, features: Seq<Seq<char>>) -> Result<
    (u32, Seq<Seq<char>>),
    Seq<char>,
> {
    if proto != "httptunnel"@ {
        Err(unknown_protocol_text(proto))
    } else {
        match agreed_version(min, max) {
            None => Err(no_version_text(min, max)),
            Some(v) => Ok((v, agreed_features(features))),
        }
    }
}

impl Hello {
    /// The HELLO this side sends: our protocol name, versions 1 to
    /// `PROTOCOL_VERSION`, and the "sse" feature.
    pub fn new() -> (h: Self)
        ensures
            h.proto@ == "httptunnel"@,
            h.min_version == our_min_version(),
            h.max_version == PROTOCOL_VERSION,
            string_views(h.features@) == seq!["sse"@],
    {
        let h = Hello {
            proto: String::from_str(PROTOCOL_NAME),
            min_version: 1,
            max_version: PROTOCOL_VERSION,
            features: vec![String::from_str("sse")],
        };
        assert(string_views(h.features@) =~= seq!["sse"@]);
        h
    }
}

/// Whether `s` is among `v`, compared by characters.
fn contains_string(v: &Vec<String>, s: &String) -> (r: bool)
    ensures
        r == string_views(v@).contains(s@),
{
    let n = v.len();
    for i in 0..n
        invariant
            n == v@.len(),
            forall|j: int| 0 <= j < i ==> v@[j]@ != s@,
    {
        if v[i] == *s {
            assert(string_views(v@)[i as int] == s@);
            return true;
        }
    }
    assert forall|j: int| 0 <= j < string_views(v@).len() implies string_views(v@)[j] != s@ by {}
    false
}

impl Agree {
    /// Negotiate version and features from a HELLO message; picks the
    /// highest version both sides support and the offered features this side
    /// supports.
    pub fn from_hello(hello: &Hello) -> (r: Result<Self, String>)
        ensures
            match r {
                Ok(a) => negotiate(
                    hello.proto@,
                    hello.min_version,
                    hello.max_version,
                    string_views(hello.features@),
                ) == Ok::<_, Seq<char>>((a.version, string_views(a.features@))),
                Err(e) => negotiate(
                    hello.proto@,
                    hello.min_version,
                    hello.max_version,
                    string_views(hello.features@),
                ) == Err::<(u32, Seq<Seq<char>>), _>(e@),
            },
    {
        let name = String::from_str(PROTOCOL_NAME);
        if hello.proto != name {
            let mut e = String::from_str("unknown protocol: ");
            e.append(hello.proto.as_str());
            return Err(e);
        }
        let our_min: u32 = 1;
        let our_max: u32 = PROTOCOL_VERSION;
        let overlap_min = if hello.min_version > our_min {
            hello.min_version
        } else {
            our_min
        };
        let overlap_max = if hello.max_version < our_max {
            hello.max_version
        } else {
            our_max
        };
        if overlap_min > overlap_max {
            let mut e = String::from_str("no compatible version: peer=[");
            e.append(decimal_string(hello.min_version as u64).as_str());
            e.append(",");
            e.append(decimal_string(hello.max_version as u64).as_str());
            e.append("], ours=[");
            e.append(decimal_string(our_min as u64).as_str());
            e.append(",");
            e.append(decimal_string(our_max as u64).as_str());
            e.append("]");
            return Err(e);
        }
        let agreed_version = overlap_max;
        let our_features: Vec<String> = vec![String::from_str("sse")];
        assert(string_views(our_features@) =~= seq!["sse"@]);
        let ghost pred = supported();
        let ghost peer = string_views(hello.features@);
        let n = hello.features.len();
        let mut agreed: Vec<String> = Vec::new();
        assert(peer.take(0) =~= Seq::<Seq<char>>::empty());
        proof {
            reveal_with_fuel(Seq::filter, 1);
        }
        assert(string_views(agreed@) =~= peer.take(0).filter(pred));
        for i in 0..n
            invariant
                n == hello.features@.len(),
                peer == string_views(hello.features@),
                pred == supported(),
                string_views(our_features@) == seq!["sse"@],
                string_views(agreed@) == peer.take(i as int).filter(pred),
        {
            let f = &hello.features[i];
            let keep = contains_string(&our_features, f);
            assert(peer.take(i + 1) =~= peer.take(i as int).push(peer[i as int]));
            proof {
                peer.take(i as int).lemma_filter_push(peer[i as int], pred);
            }
            assert(f@ == peer[i as int]);
            assert(seq!["sse"@].contains(f@) <==> f@ == "sse"@) by {
                if f@ == "sse"@ {
                    assert(seq!["sse"@][0] == f@);
                }
            }
            assert(keep == pred(peer[i as int]));
            if keep {
                let ghost before = agreed@;
                agreed.push(f.clone());
                assert(string_views(agreed@) =~= string_views(before).push(peer[i as int]));
            }
        }
        assert(peer.take(n as int) =~= peer);
        Ok(Agree { version: agreed_version, features: agreed })
    }
}

/// Whether version `w` lies in the peer's range `[min, max]` and in ours.
pub open spec fn in_both_ranges(min: u32, max: u32, w: u32) -> bool {
    min <= w <= max && our_min_version() <= w <= PROTOCOL_VERSION
}

/// The agreed version lies in both the peer's range and ours and is the
/// highest such version; no version is agreed exactly when the ranges do not
/// meet.
pub proof fn lemma_agreed_version_highest_common(min: u32, max: u32)
    ensures
        agreed_version(min, max) matches Some(v) ==> {
            &&& in_both_ranges(min, max, v)
            &&& forall|w: u32| #[trigger] in_both_ranges(min, max, w) ==> w <= v
        },
        agreed_version(min, max) is None <==> !exists|w: u32| #[trigger] in_both_ranges(min, max, w),
{
    if agreed_version(min, max) is Some {
        let v = agreed_version(min, max)->0;
        assert(in_both_ranges(min, max, v));
    }
}

/// Every agreed feature was offered by the peer and is supported here, and
/// every offered feature that is supported here is agreed.
pub proof fn lemma_agreed_features_common(peer: Seq<Seq<char>>)
    ensures
        forall|f: Seq<char>|
            #[trigger] agreed_features(peer).contains(f) <==> peer.contains(f)
                && is_supported_feature(f),
{
    assert forall|f: Seq<char>|
        #[trigger] agreed_features(peer).contains(f) <==> peer.contains(f)
            && is_supported_feature(f) by {
        if agreed_features(peer).contains(f) {
            peer.lemma_filter_contains_rev(supported(), f);
            let i = choose|i: int| 0 <= i < agreed_features(peer).len() && agreed_features(peer)[i] == f;
            peer.lemma_filter_pred(supported(), i);
        }
        if peer.contains(f) && is_supported_feature(f) {
            let i = choose|i: int| 0 <= i < peer.len() && peer[i] == f;
            peer.lemma_filter_contains(supported(), i);
        }
    }
}

/// A HELLO as this side sends it (`Hello::new`) is accepted by this side with
/// version `PROTOCOL_VERSION` and the feature list `["sse"]`.
pub proof fn lemma_own_hello_accepted()
    ensures
        negotiate("httptunnel"@, our_min_version(), PROTOCOL_VERSION, seq!["sse"@]) == Ok::<
            _,
            Seq<char>,
        >((PROTOCOL_VERSION, seq!["sse"@])),
{
    let s: Seq<Seq<char>> = seq!["sse"@];
    assert(s =~= Seq::<Seq<char>>::empty().push("sse"@));
    Seq::<Seq<char>>::empty().lemma_filter_push("sse"@, supported());
    reveal_with_fuel(Seq::filter, 1);
    assert(Seq::<Seq<char>>::empty().filter(supported()) =~= Seq::<Seq<char>>::empty());
    assert(agreed_features(s) =~= s);
}

/// Why an opening handshake frame was refused.
#[derive(Debug, Clone, Copy, PartialEq, Eq, Structural)]
pub enum HandshakeError {
    /// The bytes are not a frame.
    Decode(DecodeError),
    /// A frame of another type arrived than the one the handshake expects.
    Unexpected { expected: MessageType, got: MessageType },
}

/// What opening a handshake frame of type `expected` from `data` yields: its
/// payload, or why it is refused.
pub open spec fn open_handshake(data: Seq<u8>, expected: MessageType) -> Result<Seq<u8>, HandshakeError> {
    match decode_frame(data) {
        Err(e) => Err(HandshakeError::Decode(e)),
        Ok(frame) => if frame.0 == expected {
            Ok(frame.2)
        } else {
            Err(HandshakeError::Unexpected { expected, got: frame.0 })
        },
    }
}

/// Decode the first frame of the handshake and check that it has the expected
/// type (HELLO on the serving side, AGREE on the proxy side); yields the
/// JSON payload to parse.
pub fn open_handshake_frame(data: Vec<u8>, expected: MessageType) -> (r: Result<Vec<u8>, HandshakeError>)
    ensures
        match r {
            Ok(p) => open_handshake(data@, expected) == Ok::<_, HandshakeError>(p@),
            Err(e) => open_handshake(data@, expected) == Err::<Seq<u8>, _>(e),
        },
{
    match TunnelMessage::decode(data) {
        Err(e) => Err(HandshakeError::Decode(e)),
        Ok(m) => if m.msg_type == expected {
            Ok(m.payload)
        } else {
            Err(HandshakeError::Unexpected { expected, got: m.msg_type })
        },
    }
}

} // verus!
