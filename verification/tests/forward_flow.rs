use motorx::config::Upstream;
use motorx::conn_pool::{ConnPool, LeaseStep};
use motorx::forward::{
    add_proxy_headers, bad_gateway, is_upgrade_request, remove_hop_headers, retry_exhausted,
    should_splice, Peer,
};
use motorx::message::{get_header, Header, Method, ReqHead, Version};

fn header(name: &str, value: &str) -> Header {
    Header { name: name.to_string(), value: value.to_string() }
}

fn get_request(path: &str, headers: Vec<Header>) -> ReqHead {
    ReqHead {
        method: Method::Get,
        uri: path.to_string(),
        path: path.to_string(),
        scheme: String::new(),
        version: Version::Http11,
        headers,
    }
}

fn upstream_a() -> Upstream {
    Upstream {
        addr: "backend.example:8080".to_string(),
        max_connections: 10,
        authentication: None,
        key: 0,
    }
}

#[test]
fn proxy_headers_injected() {
    let mut req = get_request("/foo", vec![header("host", "front.example"), header("accept", "*/*")]);
    let peer = Peer { text: "10.0.0.9:4242".to_string(), is_v6: false };
    add_proxy_headers(&mut req, &upstream_a(), &peer);

    let fwd = get_header(&req.headers, "forwarded").expect("forwarded added");
    assert_eq!(fwd.as_str(), "for=10.0.0.9:4242;host=front.example;");
    let xff = get_header(&req.headers, "x-forwarded-for").expect("x-forwarded-for added");
    assert_eq!(xff.as_str(), "10.0.0.9:4242");
    let host = get_header(&req.headers, "host").expect("host set");
    assert_eq!(host.as_str(), "backend.example:8080");
    let accept = get_header(&req.headers, "accept").expect("other headers kept");
    assert_eq!(accept.as_str(), "*/*");
}

#[test]
fn proxy_headers_quote_ipv6_peer() {
    let mut req = get_request("/foo", vec![]);
    let peer = Peer { text: "[::1]:9000".to_string(), is_v6: true };
    add_proxy_headers(&mut req, &upstream_a(), &peer);
    let fwd = get_header(&req.headers, "forwarded").expect("forwarded added");
    assert_eq!(fwd.as_str(), "for=\"[::1]:9000\";");
}

#[test]
fn proxy_headers_include_scheme() {
    let mut req = get_request("/foo", vec![header("Host", "h")]);
    req.scheme = "https".to_string();
    let peer = Peer { text: "1.2.3.4:5".to_string(), is_v6: false };
    add_proxy_headers(&mut req, &upstream_a(), &peer);
    let fwd = get_header(&req.headers, "forwarded").expect("forwarded added");
    assert_eq!(fwd.as_str(), "for=1.2.3.4:5;host=h;proto=https");
}

#[test]
fn hop_headers_removed() {
    let mut req = get_request(
        "/",
        vec![
            header("Transfer-Encoding", "chunked"),
            header("TE", "trailers"),
            header("connection", "upgrade"),
            header("upgrade", "websocket"),
            header("accept", "*/*"),
        ],
    );
    remove_hop_headers(&mut req, false);
    assert!(get_header(&req.headers, "transfer-encoding").is_none());
    assert!(get_header(&req.headers, "te").is_none());
    assert!(get_header(&req.headers, "connection").is_none());
    assert!(get_header(&req.headers, "upgrade").is_none());
    assert!(get_header(&req.headers, "accept").is_some());
}

#[test]
fn upgrade_headers_survive_while_upgrading() {
    let mut req = get_request(
        "/",
        vec![
            header("connection", "upgrade"),
            header("upgrade", "websocket"),
            header("keep-alive", "30"),
        ],
    );
    remove_hop_headers(&mut req, true);
    assert!(get_header(&req.headers, "connection").is_some());
    assert!(get_header(&req.headers, "upgrade").is_some());
    assert!(get_header(&req.headers, "keep-alive").is_none());
}

#[test]
fn gateway_error_after_one_retry() {
    assert!(!retry_exhausted(0));
    assert!(!retry_exhausted(1));
    assert!(retry_exhausted(2));
    let resp = bad_gateway();
    assert_eq!(resp.status, 502);
    assert!(resp.body.is_empty());
}

#[test]
fn splice_only_upgraded_101() {
    let upgrade_req = get_request("/", vec![header("Upgrade", "foo")]);
    assert!(is_upgrade_request(&upgrade_req));
    let plain_req = get_request("/", vec![]);
    assert!(!is_upgrade_request(&plain_req));

    assert!(should_splice(true, 101));
    assert!(!should_splice(true, 200));
    assert!(!should_splice(false, 101));
}

#[test]
fn first_header_occurrence_wins() {
    let headers = vec![
        header("X-Tag", "first"),
        header("x-tag", "second"),
    ];
    let v = get_header(&headers, "x-tag").expect("header present");
    assert_eq!(v.as_str(), "first");
    assert!(get_header(&headers, "x-other").is_none());
}

#[test]
fn pool_counts_stay_bounded() {
    let mut pool = ConnPool::new("backend.example:8080".to_string(), 2);

    // Two fresh connections are dialed and leased.
    assert!(matches!(pool.lease_round(false, true), LeaseStep::Use));
    assert!(matches!(pool.lease_round(false, true), LeaseStep::Use));
    assert_eq!(pool.leased, 2);
    assert!(pool.leased + pool.idle + pool.closing <= pool.max_connections);

    // One is parked, one dies in the leaseholder's hands.
    pool.release_idle();
    pool.discard();
    assert_eq!((pool.idle, pool.leased, pool.closing), (1, 0, 1));
    assert!(pool.leased + pool.idle + pool.closing <= pool.max_connections);

    // The dead connection's driver gives its slot back; the parked one is
    // found dead on reuse and replaced by a fresh dial.
    pool.driver_done();
    assert!(matches!(pool.lease_round(true, false), LeaseStep::Retry));
    assert!(matches!(pool.lease_round(false, true), LeaseStep::Use));
    assert_eq!((pool.idle, pool.leased, pool.closing), (0, 1, 1));
    assert!(pool.leased + pool.idle + pool.closing <= pool.max_connections);
}
