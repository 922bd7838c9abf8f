use vstd::prelude::*;

use crate::config::Upstream;
use crate::message::{
    first_header_value, get_header, headers_equal, BufferedResponse, Header, ReqHead, Version,
};
use crate::strutil::{ci_eq_seq, str_ci_eq};

verus! {

/// How often a failed dial or readiness check is retried before the
/// forwarder gives up with a gateway error.
pub const RETRY_COUNT: usize = 1;

/// The address a client connected from.
pub struct Peer {
    /// The address as text, `ip:port`.
    pub text: String,
    /// Whether the address is IPv6; those are quoted in `Forwarded`.
    pub is_v6: bool,
}

/// The peer as it appears in the `Forwarded` header.
pub open spec fn spec_quoted_peer(peer: &Peer) -> Seq<char> {
    if peer.is_v6 {
        "\""@ + peer.text@ + "\""@
    } else {
        peer.text@
    }
}

/// The value of the injected `Forwarded` header: the peer, then the original
/// host if there was one, then the scheme if the target carried one.
pub open spec fn spec_forwarded_value(peer: &Peer, host: Seq<char>, proto: Seq<char>) -> Seq<
    char,
> {
    "for="@ + spec_quoted_peer(peer) + ";"@ + (if host.len() > 0 {
        "host="@ + host + ";"@
    } else {
        Seq::empty()
    }) + (if proto.len() > 0 {
        "proto="@ + proto
    } else {
        Seq::empty()
    })
}

/// The request's own `Host` value, or empty if it sent none.
pub open spec fn spec_host_of(headers: Seq<Header>) -> Seq<char> {
    match first_header_value(headers, "host"@) {
        Some(v) => v,
        None => Seq::empty(),
    }
}

/// A `host` header, compared ignoring case.
pub open spec fn spec_is_host(h: Header) -> bool {
    ci_eq_seq(h.name@, "host"@)
}

/// The headers with every `host` entry removed.
pub open spec fn spec_strip_host(headers: Seq<Header>) -> Seq<Header> {
    headers.filter(|h: Header| !spec_is_host(h))
}

/// A hop-by-hop header name that is not forwarded; `connection` and
/// `upgrade` are kept while a protocol upgrade is underway so the handshake
/// survives.
pub open spec fn spec_is_hop(name: Seq<char>, upgrading: bool) -> bool {
    ||| ci_eq_seq(name, "keep-alive"@)
    ||| ci_eq_seq(name, "proxy-authenticate"@)
    ||| ci_eq_seq(name, "proxy-authorization"@)
    ||| ci_eq_seq(name, "te"@)
    ||| ci_eq_seq(name, "trailer"@)
    ||| ci_eq_seq(name, "transfer-encoding"@)
    ||| (!upgrading && (ci_eq_seq(name, "connection"@) || ci_eq_seq(name, "upgrade"@)))
}

proof fn lemma_header_filter_push(t: Seq<Header>, c: Header, pred: spec_fn(Header) -> bool)
    ensures
        t.push(c).filter(pred) == (if pred(c) {
            t.filter(pred).push(c)
        } else {
            t.filter(pred)
        }),
{
    reveal(Seq::filter);
    assert(t.push(c).drop_last() =~= t);
    assert(t.push(c).last() == c);
}

/// Builds the `Forwarded` header value.
fn forwarded_value(peer: &Peer, host: &str, proto: &str) -> (r: String)
    ensures
        r@ == spec_forwarded_value(peer, host@, proto@),
{
    let mut out = String::from_str("for=");
    if peer.is_v6 {
        out.append("\"");
        out.append(peer.text.as_str());
        out.append("\"");
    } else {
        out.append(peer.text.as_str());
    }
    out.append(";");
    if host.unicode_len() > 0 {
        out.append("host=");
        out.append(host);
        out.append(";");
    } else {
        proof {
            assert(out@ + Seq::<char>::empty() =~= out@);
        }
    }
    if proto.unicode_len() > 0 {
        out.append("proto=");
        out.append(proto);
    } else {
        proof {
            assert(out@ + Seq::<char>::empty() =~= out@);
        }
    }
    out
}

/// Injects the proxy headers: appends `Forwarded` (peer, original host,
/// scheme) and `X-Forwarded-For` (peer), and replaces the request's `Host`
/// with the upstream's authority; every `host` entry is removed and the new
/// one stands at the end. Nothing else about the request changes.
pub fn add_proxy_headers(req: &mut ReqHead, upstream: &Upstream, peer: &Peer)
    ensures
        final(req).method == old(req).method,
        final(req).uri == old(req).uri,
        final(req).path == old(req).path,
        final(req).scheme == old(req).scheme,
        final(req).version == old(req).version,
        ({
            let stripped = spec_strip_host(old(req).headers@);
            let n = stripped.len() as int;
            &&& final(req).headers@.len() == n + 3
            &&& headers_equal(final(req).headers@.subrange(0, n), stripped)
            &&& final(req).headers@[n].name@ == "forwarded"@
            &&& final(req).headers@[n].value@ == spec_forwarded_value(
                peer,
                spec_host_of(old(req).headers@),
                old(req).scheme@,
            )
            &&& final(req).headers@[n + 1].name@ == "x-forwarded-for"@
            &&& final(req).headers@[n + 1].value@ == peer.text@
            &&& final(req).headers@[n + 2].name@ == "host"@
            &&& final(req).headers@[n + 2].value@ == upstream.addr@
        }),
{
    let host: String = match get_header(&req.headers, "host") {
        Some(v) => v.clone(),
        None => String::new(),
    };
    let fwd_value = forwarded_value(peer, host.as_str(), req.scheme.as_str());

    let ghost orig = req.headers@;
    let mut kept: Vec<Header> = Vec::new();
    let mut i: usize = 0;
    while i < req.headers.len()
        invariant
            req.headers@ == orig,
            i <= orig.len(),
            headers_equal(kept@, orig.subrange(0, i as int).filter(|h: Header| !spec_is_host(h))),
        decreases orig.len() - i,
    {
        let ghost prefix = orig.subrange(0, i as int);
        let h = &req.headers[i];
        if !str_ci_eq(h.name.as_str(), "host") {
            kept.push(h.clone());
        }
        proof {
            assert(orig.subrange(0, i + 1) =~= prefix.push(orig[i as int]));
            lemma_header_filter_push(prefix, orig[i as int], |h: Header| !spec_is_host(h));
        }
        i += 1;
    }
    proof {
        assert(orig.subrange(0, orig.len() as int) =~= orig);
    }
    kept.push(Header { name: String::from_str("forwarded"), value: fwd_value });
    kept.push(Header { name: String::from_str("x-forwarded-for"), value: peer.text.clone() });
    kept.push(Header { name: String::from_str("host"), value: upstream.addr.clone() });
    req.headers = kept;
    proof {
        let stripped = spec_strip_host(old(req).headers@);
        let n = stripped.len() as int;
        assert(headers_equal(req.headers@.subrange(0, n), stripped));
    }
}

/// Strips hop-by-hop headers: `Keep-Alive`, `Proxy-Authenticate`,
/// `Proxy-Authorization`, `TE`, `Trailer` and `Transfer-Encoding` always,
/// and `Connection` and `Upgrade` too unless a protocol upgrade is underway.
/// Nothing else about the request changes.
pub fn remove_hop_headers(req: &mut ReqHead, upgrading: bool)
    ensures
        final(req).method == old(req).method,
        final(req).uri == old(req).uri,
        final(req).path == old(req).path,
        final(req).scheme == old(req).scheme,
        final(req).version == old(req).version,
        headers_equal(
            final(req).headers@,
            old(req).headers@.filter(|h: Header| !spec_is_hop(h.name@, upgrading)),
        ),
{
    let ghost orig = req.headers@;
    let mut kept: Vec<Header> = Vec::new();
    let mut i: usize = 0;
    while i < req.headers.len()
        invariant
            req.headers@ == orig,
            i <= orig.len(),
            headers_equal(
                kept@,
                orig.subrange(0, i as int).filter(|h: Header| !spec_is_hop(h.name@, upgrading)),
            ),
        decreases orig.len() - i,
    {
        let ghost prefix = orig.subrange(0, i as int);
        let h = &req.headers[i];
        let name = h.name.as_str();
        let hop = str_ci_eq(name, "keep-alive") || str_ci_eq(name, "proxy-authenticate")
            || str_ci_eq(name, "proxy-authorization") || str_ci_eq(name, "te") || str_ci_eq(
            name,
            "trailer",
        ) || str_ci_eq(name, "transfer-encoding") || (!upgrading && (str_ci_eq(name, "connection")
            || str_ci_eq(name, "upgrade")));
        if !hop {
            kept.push(h.clone());
        }
        proof {
            assert(orig.subrange(0, i + 1) =~= prefix.push(orig[i as int]));
            lemma_header_filter_push(
                prefix,
                orig[i as int],
                |h: Header| !spec_is_hop(h.name@, upgrading),
            );
        }
        i += 1;
    }
    proof {
        assert(orig.subrange(0, orig.len() as int) =~= orig);
    }
    req.headers = kept;
}

/// The `502 Bad Gateway` answer for a persistent upstream failure.
pub fn bad_gateway() -> (r: BufferedResponse)
    ensures
        r.status == 502,
        r.version == Version::Http11,
        r.headers@.len() == 0,
        r.body@.len() == 0,
{
    BufferedResponse { status: 502, version: Version::Http11, headers: Vec::new(), body: Vec::new() }
}

/// Whether the forwarder has used up its retries: it retries a failed dial
/// or readiness check once, then gives up.
pub fn retry_exhausted(tries: usize) -> (r: bool)
    ensures
        r == (tries > RETRY_COUNT),
{
    tries > RETRY_COUNT
}

/// Whether the request asks for a protocol upgrade.
pub fn is_upgrade_request(req: &ReqHead) -> (r: bool)
    ensures
        r == (first_header_value(req.headers@, "upgrade"@) is Some),
{
    match get_header(&req.headers, "upgrade") {
        Some(_) => true,
        None => false,
    }
}

/// Whether the two sides are spliced after the upstream answered: only an
/// upgrade request answered with `101 Switching Protocols`.
pub fn should_splice(upgrading: bool, status: u16) -> (r: bool)
    ensures
        r == (upgrading && status == 101),
{
    upgrading && status == 101
}

} // verus!
