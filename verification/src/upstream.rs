//! Serving side: where a tunnelled request is forwarded and what goes with it.
use vstd::prelude::*;
use vstd::string::StrSliceExecFns;
use crate::protocol::{frame_views, names_distinct, MessageType, ResponseHeaders, TunnelMessage};
use crate::text::{lowercase, to_lowercase};
use vstd::utf8::encode_utf8;

verus! {

/// `s` without its trailing `'/'` characters.
pub open spec fn trim_end_slashes(s: Seq<char>) -> Seq<char>
    decreases s.len(),
{
    if s.len() > 0 && s.last() == '/' {
        trim_end_slashes(s.drop_last())
    } else {
        s
    }
}

/// The rest of `path` after `prefix`, if `path` starts with `prefix`.
pub open spec fn strip_prefix(path: Seq<char>, prefix: Seq<char>) -> Option<Seq<char>> {
    if prefix.len() <= path.len() && path.take(prefix.len() as int) == prefix {
        Some(path.skip(prefix.len() as int))
    } else {
        None
    }
}

/// The upstream URL for a request path: the base without trailing slashes,
/// followed by the path with the advertised prefix (without trailing
/// slashes) taken off; a path equal to the prefix becomes `/`, and a path
/// outside the prefix, or an empty or `/` prefix, leaves the path as it is.
pub open spec fn upstream_url(base: Seq<char>, prefix: Seq<char>, path: Seq<char>) -> Seq<char> {
    let b = trim_end_slashes(base);
    let p = trim_end_slashes(prefix);
    if p == "/"@ || p.len() == 0 {
        b + path
    } else {
        match strip_prefix(path, p) {
            Some(rest) => b + (if rest.len() == 0 { "/"@ } else { rest }),
            None => b + path,
        }
    }
}

/// Trimming the trailing slashes of a prefix of `s` ending in a slash is
/// trimming one character shorter.
proof fn lemma_trim_step(s: Seq<char>, k: int)
    requires
        0 < k <= s.len(),
        s[k - 1] == '/',
    ensures
        trim_end_slashes(s.take(k)) == trim_end_slashes(s.take(k - 1)),
{
    assert(s.take(k).drop_last() =~= s.take(k - 1));
}

/// Number of characters of `s` left once trailing slashes are trimmed.
fn trimmed_len(s: &str) -> (k: usize)
    ensures
        k <= s@.len(),
        s@.take(k as int) == trim_end_slashes(s@),
{
    let n = s.unicode_len();
    let mut k = n;
    assert(s@.take(n as int) =~= s@);
    while k > 0 && s.get_char(k - 1) == '/'
        invariant
            n == s@.len(),
            k <= n,
            trim_end_slashes(s@.take(k as int)) == trim_end_slashes(s@),
        decreases k,
    {
        proof {
            lemma_trim_step(s@, k as int);
        }
        k = k - 1;
    }
    proof {
        let t = s@.take(k as int);
        if k > 0 {
            assert(t.last() == s@[k - 1]);
        }
    }
    k
}

/// Whether the first `m` characters of `p` begin `s`.
fn starts_with_chars(s: &str, p: &str, m: usize) -> (r: bool)
    requires
        m <= p@.len(),
    ensures
        r == (m <= s@.len() && s@.take(m as int) == p@.take(m as int)),
{
    let n = s.unicode_len();
    if m > n {
        return false;
    }
    let mut i: usize = 0;
    while i < m
        invariant
            n == s@.len(),
            m <= n,
            m <= p@.len(),
            i <= m,
            forall|j: int| 0 <= j < i ==> s@[j] == p@[j],
        decreases m - i,
    {
        if s.get_char(i) != p.get_char(i) {
            assert(s@.take(m as int)[i as int] != p@.take(m as int)[i as int]);
            return false;
        }
        i = i + 1;
    }
    assert(s@.take(m as int) =~= p@.take(m as int));
    true
}

/// Build the upstream URL by stripping the advertise prefix from the request
/// path: with upstream `http://localhost:3001`, prefix `/v1` and path
/// `/v1/models` it is `http://localhost:3001/models`; with prefix `/` the path
/// passes through unchanged.
pub fn build_upstream_url(upstream_base: &str, advertise_prefix: &str, request_path: &str) -> (url:
    String)
    ensures
        url@ == upstream_url(upstream_base@, advertise_prefix@, request_path@),
{
    let bk = trimmed_len(upstream_base);
    let pk = trimmed_len(advertise_prefix);
    let mut url = String::from_str(upstream_base.substring_char(0, bk));
    let ghost b = trim_end_slashes(upstream_base@);
    let ghost p = trim_end_slashes(advertise_prefix@);
    let ghost path = request_path@;
    assert(url@ == b);
    let prefix_is_root = pk == 1 && advertise_prefix.get_char(0) == '/';
    proof {
        reveal_strlit("/");
        if p == "/"@ {
            assert(p[0] == '/');
        }
        if pk == 1 && advertise_prefix@[0] == '/' {
            assert(p =~= "/"@);
        }
    }
    if prefix_is_root || pk == 0 {
        url.append(request_path);
        return url;
    }
    let n = request_path.unicode_len();
    let matches = starts_with_chars(request_path, advertise_prefix, pk);
    assert(advertise_prefix@.take(pk as int) == p);
    if matches {
        if n == pk {
            url.append("/");
            assert(path.skip(pk as int).len() == 0);
        } else {
            url.append(request_path.substring_char(pk, n));
            assert(path.subrange(pk as int, n as int) =~= path.skip(pk as int));
        }
    } else {
        url.append(request_path);
    }
    url
}

/// A path under a non-empty advertised prefix (given without trailing
/// slashes) loses that prefix: `prefix + rest` goes to the base followed by
/// `rest`.
pub proof fn lemma_strips_advertised_prefix(base: Seq<char>, prefix: Seq<char>, rest: Seq<char>)
    requires
        prefix.len() > 0,
        trim_end_slashes(prefix) == prefix,
        rest.len() > 0,
    ensures
        upstream_url(base, prefix, prefix + rest) == trim_end_slashes(base) + rest,
{
    reveal_strlit("/");
    if prefix == "/"@ {
        assert(prefix.last() == '/');
        assert(trim_end_slashes(prefix) == trim_end_slashes(prefix.drop_last()));
        assert(trim_end_slashes(prefix.drop_last()).len() == 0);
    }
    assert(prefix != "/"@);
    let path = prefix + rest;
    assert(path.take(prefix.len() as int) =~= prefix);
    assert(path.skip(prefix.len() as int) =~= rest);
    assert(strip_prefix(path, prefix) == Some(rest));
}

/// Trimming leaves no trailing slash.
proof fn lemma_trimmed_has_no_trailing_slash(s: Seq<char>)
    ensures
        trim_end_slashes(s).len() > 0 ==> trim_end_slashes(s).last() != '/',
    decreases s.len(),
{
    if s.len() > 0 && s.last() == '/' {
        lemma_trimmed_has_no_trailing_slash(s.drop_last());
    }
}

/// A request for exactly the advertised prefix (taken without its trailing
/// slashes, and not empty) goes to the root of the upstream: the base without
/// trailing slashes, then `/`.
pub proof fn lemma_path_equal_to_prefix_goes_to_root(base: Seq<char>, prefix: Seq<char>)
    requires
        trim_end_slashes(prefix).len() > 0,
    ensures
        upstream_url(base, prefix, trim_end_slashes(prefix)) == trim_end_slashes(base) + "/"@,
{
    reveal_strlit("/");
    let p = trim_end_slashes(prefix);
    lemma_trimmed_has_no_trailing_slash(prefix);
    if p == "/"@ {
        assert(p.last() == '/');
    }
    assert(p.take(p.len() as int) =~= p);
    assert(p.skip(p.len() as int) =~= Seq::<char>::empty());
    assert(strip_prefix(p, p) == Some(Seq::<char>::empty()));
}

/// A path outside the advertised prefix, or any path under an empty or `/`
/// prefix, is forwarded unchanged after the base.
pub proof fn lemma_passes_other_paths(base: Seq<char>, prefix: Seq<char>, path: Seq<char>)
    requires
        strip_prefix(path, trim_end_slashes(prefix)) is None || trim_end_slashes(prefix).len() == 0,
    ensures
        upstream_url(base, prefix, path) == trim_end_slashes(base) + path,
{
}

/// Whether a request header with this (lowercased) name is forwarded
/// upstream: all but `host`, `connection` and `transfer-encoding`.
pub open spec fn forwards_request_header(lower_name: Seq<char>) -> bool {
    lower_name != "host"@ && lower_name != "connection"@ && lower_name != "transfer-encoding"@
}

/// Whether a response header with this (lowercased) name is passed on to the
/// HTTP client: all but `transfer-encoding` and `connection`.
pub open spec fn forwards_response_header(lower_name: Seq<char>) -> bool {
    lower_name != "transfer-encoding"@ && lower_name != "connection"@
}

/// The request headers that are not forwarded upstream are exactly those
/// whose lowercased name is `host`, `connection` or `transfer-encoding`; every
/// other header, `authorization` among them, reaches the upstream.
pub proof fn lemma_request_hop_by_hop_headers()
    ensures
        Set::new(|n: Seq<char>| !forwards_request_header(n)) == set![
            "host"@,
            "connection"@,
            "transfer-encoding"@,
        ],
        forwards_request_header("authorization"@),
        forwards_request_header("content-type"@),
{
    reveal_strlit("host");
    reveal_strlit("connection");
    reveal_strlit("transfer-encoding");
    reveal_strlit("authorization");
    reveal_strlit("content-type");
    assert(Set::new(|n: Seq<char>| !forwards_request_header(n)) =~= set![
        "host"@,
        "connection"@,
        "transfer-encoding"@,
    ]);
    assert("authorization"@ != "host"@ && "authorization"@ != "connection"@ && "authorization"@
        != "transfer-encoding"@) by {
        assert("authorization"@.len() != "host"@.len());
        assert("authorization"@.len() != "connection"@.len());
        assert("authorization"@.len() != "transfer-encoding"@.len());
    }
    assert("content-type"@ != "host"@ && "content-type"@ != "connection"@ && "content-type"@
        != "transfer-encoding"@) by {
        assert("content-type"@.len() != "host"@.len());
        assert("content-type"@[3] != "connection"@[3]);
        assert("content-type"@.len() != "transfer-encoding"@.len());
    }
}

/// The response headers that are not passed on to the HTTP client are
/// exactly those whose lowercased name is `transfer-encoding` or
/// `connection`; every other header reaches the client. Each of them is also
/// held back from requests.
pub proof fn lemma_response_hop_by_hop_headers(name: Seq<char>)
    ensures
        Set::new(|n: Seq<char>| !forwards_response_header(n)) == set![
            "transfer-encoding"@,
            "connection"@,
        ],
        !forwards_response_header("transfer-encoding"@),
        !forwards_response_header("connection"@),
        !forwards_response_header(name) ==> !forwards_request_header(name),
{
    assert(Set::new(|n: Seq<char>| !forwards_response_header(n)) =~= set![
        "transfer-encoding"@,
        "connection"@,
    ]);
}

/// Forwarding request headers keeps exactly those whose lowercased name is
/// not `host`, `connection` or `transfer-encoding`, in their order; passing
/// response headers on keeps exactly those whose lowercased name is not
/// `transfer-encoding` or `connection`.
pub proof fn lemma_forwarded_headers_drop_only_hop_by_hop(h: Seq<(Seq<char>, Seq<char>)>)
    ensures
        kept_headers(h, request_rule()) == h.filter(
            |p: (Seq<char>, Seq<char>)|
                !set!["host"@, "connection"@, "transfer-encoding"@].contains(lowercase(p.0)),
        ),
        kept_headers(h, response_rule()) == h.filter(
            |p: (Seq<char>, Seq<char>)|
                !set!["transfer-encoding"@, "connection"@].contains(lowercase(p.0)),
        ),
{
    let req_keep = |p: (Seq<char>, Seq<char>)| request_rule()(lowercase(p.0));
    let req_set = |p: (Seq<char>, Seq<char>)|
        !set!["host"@, "connection"@, "transfer-encoding"@].contains(lowercase(p.0));
    let res_keep = |p: (Seq<char>, Seq<char>)| response_rule()(lowercase(p.0));
    let res_set = |p: (Seq<char>, Seq<char>)|
        !set!["transfer-encoding"@, "connection"@].contains(lowercase(p.0));
    assert(req_keep =~= req_set);
    assert(res_keep =~= res_set);
}

/// Name and value characters of each header.
pub open spec fn header_views(h: Seq<(String, String)>) -> Seq<(Seq<char>, Seq<char>)> {
    h.map_values(|p: (String, String)| (p.0@, p.1@))
}

/// The headers of `h` whose lowercased name `keep` admits, in order.
pub open spec fn kept_headers(
    h: Seq<(Seq<char>, Seq<char>)>,
    keep: spec_fn(Seq<char>) -> bool,
) -> Seq<(Seq<char>, Seq<char>)> {
    h.filter(|p: (Seq<char>, Seq<char>)| keep(lowercase(p.0)))
}

/// `forwards_request_header` as a predicate value.
pub open spec fn request_rule() -> spec_fn(Seq<char>) -> bool {
    |n: Seq<char>| forwards_request_header(n)
}

/// `forwards_response_header` as a predicate value.
pub open spec fn response_rule() -> spec_fn(Seq<char>) -> bool {
    |n: Seq<char>| forwards_response_header(n)
}

/// Whether `name`, lowercased, is one of the given names.
fn lower_is_one_of(name: &str, a: &str, b: &str, c: &str) -> (r: bool)
    ensures
        r == (lowercase(name@) == a@ || lowercase(name@) == b@ || lowercase(name@) == c@),
{
    let lower = to_lowercase(name);
    lower == String::from_str(a) || lower == String::from_str(b) || lower == String::from_str(c)
}

/// No forwarded header fails its rule: hop-by-hop request headers never
/// reach the upstream, and hop-by-hop response headers never reach the
/// client; every header kept was among the given ones.
pub proof fn lemma_kept_headers_pass_rule(
    h: Seq<(Seq<char>, Seq<char>)>,
    keep: spec_fn(Seq<char>) -> bool,
)
    ensures
        forall|i: int|
            0 <= i < kept_headers(h, keep).len() ==> keep(lowercase(#[trigger] kept_headers(h, keep)[i].0))
                && h.contains(kept_headers(h, keep)[i]),
{
    let pred = |p: (Seq<char>, Seq<char>)| keep(lowercase(p.0));
    assert forall|i: int| 0 <= i < kept_headers(h, keep).len() implies keep(lowercase(
        #[trigger] kept_headers(h, keep)[i].0,
    )) && h.contains(kept_headers(h, keep)[i]) by {
        h.lemma_filter_pred(pred, i);
        assert(h.filter(pred).contains(h.filter(pred)[i]));
        h.lemma_filter_contains_rev(pred, h.filter(pred)[i]);
    }
}

/// Whether a request header named `name` is forwarded upstream.
pub fn forwards_request_header_name(name: &str) -> (keep: bool)
    ensures
        keep == forwards_request_header(lowercase(name@)),
{
    !lower_is_one_of(name, "host", "connection", "transfer-encoding")
}

/// Whether a response header named `name` is passed on to the HTTP client.
pub fn forwards_response_header_name(name: &str) -> (keep: bool)
    ensures
        keep == forwards_response_header(lowercase(name@)),
{
    let lower = to_lowercase(name);
    !(lower == String::from_str("transfer-encoding") || lower == String::from_str("connection"))
}

/// The headers of `headers` that pass the rule for requests (`for_request`)
/// or for responses, in their order.
pub fn forwarded_headers(headers: &Vec<(String, String)>, for_request: bool) -> (out: Vec<
    (String, String),
>)
    ensures
        header_views(out@) == kept_headers(
            header_views(headers@),
            if for_request {
                request_rule()
            } else {
                response_rule()
            },
        ),
        names_distinct(headers@) ==> names_distinct(out@),
{
    let ghost rule = if for_request {
        request_rule()
    } else {
        response_rule()
    };
    let ghost pred = |p: (Seq<char>, Seq<char>)| rule(lowercase(p.0));
    let ghost all = header_views(headers@);
    let mut out: Vec<(String, String)> = Vec::new();
    let ghost mut origin: Seq<int> = Seq::empty();
    let n = headers.len();
    proof {
        reveal_with_fuel(Seq::filter, 1);
    }
    assert(header_views(out@) =~= all.take(0).filter(pred));
    let mut i: usize = 0;
    while i < n
        invariant
            n == headers@.len(),
            i <= n,
            all == header_views(headers@),
            rule == (if for_request {
                request_rule()
            } else {
                response_rule()
            }),
            pred == (|p: (Seq<char>, Seq<char>)| rule(lowercase(p.0))),
            header_views(out@) == all.take(i as int).filter(pred),
            origin.len() == out@.len(),
            forall|k: int|
                0 <= k < out@.len() ==> 0 <= #[trigger] origin[k] < i && out@[k].0@
                    == headers@[origin[k]].0@,
            names_distinct(headers@) ==> names_distinct(out@),
        decreases n - i,
    {
        let name = headers[i].0.as_str();
        let keep = if for_request {
            forwards_request_header_name(name)
        } else {
            forwards_response_header_name(name)
        };
        assert(all.take(i + 1) =~= all.take(i as int).push(all[i as int]));
        proof {
            all.take(i as int).lemma_filter_push(all[i as int], pred);
        }
        assert(keep == pred(all[i as int]));
        if keep {
            let ghost before = out@;
            let ghost before_origin = origin;
            let pair = (headers[i].0.clone(), headers[i].1.clone());
            out.push(pair);
            proof {
                origin = origin.push(i as int);
            }
            assert(header_views(out@) =~= header_views(before).push(all[i as int]));
            assert(out@[out@.len() - 1].0@ == headers@[i as int].0@);
            assert forall|k: int| 0 <= k < out@.len() implies 0 <= #[trigger] origin[k] < i + 1
                && out@[k].0@ == headers@[origin[k]].0@ by {
                if k < out@.len() - 1 {
                    assert(out@[k] == before[k] && origin[k] == before_origin[k]);
                }
            }
            proof {
                if names_distinct(headers@) {
                    assert forall|a: int, b: int| 0 <= a < b < out@.len() implies #[trigger] out@[
                        a].0@ != #[trigger] out@[b].0@ by {
                        assert(out@[a] == before[a] && origin[a] == before_origin[a]);
                        if b == out@.len() - 1 {
                            assert(headers@[origin[a]].0@ != headers@[i as int].0@);
                        } else {
                            assert(out@[b] == before[b]);
                        }
                    }
                }
            }
        }
        i = i + 1;
    }
    assert(all.take(n as int) =~= all);
    out
}

/// Response headers announcing a 502 with a plain-text body, sent when the
/// upstream request fails.
pub fn bad_gateway_headers(stream_id: u32) -> (h: ResponseHeaders)
    ensures
        h.stream_id == stream_id,
        h.status == 502,
        header_views(h.headers@) == seq![("content-type"@, "text/plain"@)],
        names_distinct(h.headers@),
{
    let h = ResponseHeaders {
        stream_id,
        status: 502,
        headers: vec![(String::from_str("content-type"), String::from_str("text/plain"))],
    };
    assert(header_views(h.headers@) =~= seq![("content-type"@, "text/plain"@)]);
    h
}

/// The body text of that 502: `Bad Gateway: ` and the upstream error.
pub fn bad_gateway_text(detail: &str) -> (t: String)
    ensures
        t@ == "Bad Gateway: "@ + detail@,
{
    let mut t = String::from_str("Bad Gateway: ");
    t.append(detail);
    t
}

/// The whole answer when the upstream request fails, in sending order: the
/// 502 headers frame (`headers_json` is the JSON encoding of `headers`), a
/// body frame with `Bad Gateway: ` and the upstream error, the end frame.
pub fn bad_gateway_frames(headers: &ResponseHeaders, headers_json: Vec<u8>, detail: &str) -> (frames:
    Vec<TunnelMessage>)
    ensures
        frame_views(frames@) == seq![
            (MessageType::ResHeaders, headers.stream_id, headers_json@),
            (MessageType::ResBody, headers.stream_id, encode_utf8("Bad Gateway: "@ + detail@)),
            (MessageType::ResEnd, headers.stream_id, Seq::<u8>::empty()),
        ],
{
    let id = headers.stream_id;
    let text = bad_gateway_text(detail);
    let mut frames: Vec<TunnelMessage> = Vec::new();
    frames.push(TunnelMessage::res_headers(headers, headers_json));
    frames.push(TunnelMessage::res_body(id, text.as_str().as_bytes_vec()));
    frames.push(TunnelMessage::res_end(id));
    frames
}

/// The error-frame text when the upstream body breaks off mid-stream.
pub fn upstream_error_text(detail: &str) -> (t: String)
    ensures
        t@ == "upstream error: "@ + detail@,
{
    let mut t = String::from_str("upstream error: ");
    t.append(detail);
    t
}

} // verus!
