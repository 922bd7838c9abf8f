use motorx::authentication::{Authentication, AuthenticationSource};
use motorx::config::{
    default_server_max_connections, default_upstream_max_connections, resolve_keys, sort_rules,
    Config, NamedUpstream, Upstream,
};
use motorx::error::{error, Error};
use motorx::handler::{auth_passes, build_auth_request, is_connect, method_not_allowed, not_found, select_rule};
use motorx::match_type::MatchType;
use motorx::message::{Header, Method, ReqHead, Version};
use motorx::rule::{default_cache_max_age, default_cache_methods, Rule};

fn plain_rule(path: MatchType, upstream: &str) -> Rule {
    Rule {
        path,
        remove_match: false,
        match_headers: None,
        upstream: upstream.to_string(),
        cache: None,
        upstream_key: 0,
        cache_key: 0,
    }
}

fn named_upstream(name: &str, auth: Option<Authentication>) -> NamedUpstream {
    NamedUpstream {
        name: name.to_string(),
        upstream: Upstream {
            addr: format!("{name}.example:80"),
            max_connections: 10,
            authentication: auth,
            key: 0,
        },
    }
}

fn simple_request(method: Method, path: &str) -> ReqHead {
    ReqHead {
        method,
        uri: path.to_string(),
        path: path.to_string(),
        scheme: String::new(),
        version: Version::Http11,
        headers: Vec::new(),
    }
}

#[test]
fn method_names() {
    assert_eq!(Method::from_name("GET"), Some(Method::Get));
    assert_eq!(Method::from_name("PATCH"), Some(Method::Patch));
    assert_eq!(Method::from_name("get"), None);
    assert_eq!(Method::from_name("BREW"), None);
}

#[test]
fn defaults() {
    assert_eq!(default_upstream_max_connections(), 10);
    assert_eq!(default_server_max_connections(), 100);
    assert_eq!(default_cache_max_age(), 10_000);
    assert_eq!(default_cache_methods(), vec![Method::Get]);
    let cfg = Config::default();
    assert_eq!(cfg.addr, "0.0.0.0:80");
    assert!(cfg.tls.is_none());
    assert!(cfg.rules.is_empty());
    assert!(cfg.upstreams.is_empty());
    assert_eq!(cfg.max_connections, 100);
}

#[test]
fn resolve_keys_assigns_indices() {
    let cfg = Config {
        rules: vec![plain_rule(MatchType::Start("/".to_string()), "two")],
        upstreams: vec![
            named_upstream(
                "one",
                Some(Authentication {
                    exclude: Vec::new(),
                    source: AuthenticationSource::Upstream {
                        name: "two".to_string(),
                        path: "/auth".to_string(),
                        key: 0,
                    },
                }),
            ),
            named_upstream("two", None),
        ],
        ..Default::default()
    };
    let resolved = resolve_keys(cfg).expect("config resolves");
    assert_eq!(resolved.rules[0].upstream_key, 1);
    assert_eq!(resolved.upstreams[0].upstream.key, 0);
    assert_eq!(resolved.upstreams[1].upstream.key, 1);
    match &resolved.upstreams[0].upstream.authentication {
        Some(auth) => match &auth.source {
            AuthenticationSource::Upstream { key, .. } => assert_eq!(*key, 1),
            _ => panic!("source should still name an upstream"),
        },
        None => panic!("authentication should be kept"),
    }
}

#[test]
fn resolve_keys_rejects_unknown_name() {
    let cfg = Config {
        rules: vec![plain_rule(MatchType::Start("/".to_string()), "ghost")],
        upstreams: vec![named_upstream("one", None)],
        ..Default::default()
    };
    match resolve_keys(cfg) {
        Err(Error::Config(_)) => {},
        _ => panic!("an unknown upstream name should be refused"),
    }
}

#[test]
fn sorted_rules_priority_order() {
    let rules = vec![
        plain_rule(MatchType::from_str("regex(^/x$)").unwrap(), "a"),
        plain_rule(MatchType::Contains("frag".to_string()), "a"),
        plain_rule(MatchType::Start("/a".to_string()), "a"),
        plain_rule(MatchType::Start("/a/longer".to_string()), "a"),
    ];
    let sorted = sort_rules(rules);
    assert!(matches!(sorted[0].path, MatchType::Start(_)));
    assert!(matches!(sorted[1].path, MatchType::Start(_)));
    assert!(matches!(sorted[2].path, MatchType::Contains(_)));
    assert!(matches!(sorted[3].path, MatchType::Regex(_)));
    // Within the Start tag the longer prefix comes first.
    assert!(sorted[0].path.length() >= sorted[1].path.length());
    assert!(sorted[0].path == MatchType::Start("/a/longer".to_string()));
}

#[test]
fn first_matching_rule_wins() {
    let rules = vec![
        plain_rule(MatchType::Start("/api".to_string()), "a"),
        plain_rule(MatchType::Start("/".to_string()), "b"),
    ];
    let req = simple_request(Method::Get, "/api/users");
    assert_eq!(select_rule(&rules, &req), Some(0));
    let req2 = simple_request(Method::Get, "/other");
    assert_eq!(select_rule(&rules, &req2), Some(1));
    let no_match = vec![plain_rule(MatchType::Start("/api".to_string()), "a")];
    assert_eq!(select_rule(&no_match, &simple_request(Method::Get, "/nope")), None);
}

#[test]
fn simple_proxy_scenario() {
    // One catch-all rule forwarding everything to one upstream.
    let rules = vec![plain_rule(MatchType::Start("/".to_string()), "a")];
    let req = simple_request(Method::Get, "/foo");
    let idx = select_rule(&rules, &req).expect("the catch-all rule matches");
    assert_eq!(idx, 0);
    // The path is forwarded unchanged, with the proxy headers injected.
    let mut model = req;
    assert_eq!(rules[idx].rewrite_path(&model.path), "/foo");
    let upstream = Upstream {
        addr: "a.example:80".to_string(),
        max_connections: 10,
        authentication: None,
        key: 0,
    };
    let peer = motorx::forward::Peer { text: "9.9.9.9:1234".to_string(), is_v6: false };
    motorx::forward::add_proxy_headers(&mut model, &upstream, &peer);
    let host = motorx::message::get_header(&model.headers, "host").unwrap();
    assert_eq!(host.as_str(), "a.example:80");
    let xff = motorx::message::get_header(&model.headers, "x-forwarded-for").unwrap();
    assert_eq!(xff.as_str(), "9.9.9.9:1234");
}

#[test]
fn error_responses() {
    let nf = not_found();
    assert_eq!(nf.status, 404);
    assert!(nf.body.is_empty());
    let mna = method_not_allowed();
    assert_eq!(mna.status, 405);
    assert!(is_connect(Method::Connect));
    assert!(!is_connect(Method::Get));
}

#[test]
fn auth_plan_same_path_source() {
    let upstream = Upstream {
        addr: "a.example:80".to_string(),
        max_connections: 10,
        authentication: Some(Authentication {
            exclude: Vec::new(),
            source: AuthenticationSource::Path("/auth".to_string()),
        }),
        key: 3,
    };
    let plan = upstream.auth_plan("/whatever").expect("auth required");
    assert_eq!(plan.upstream_key, 3);
    assert_eq!(plan.path, "/auth");
    // A rejecting authentication response is not a pass.
    assert!(!auth_passes(403));
    assert!(auth_passes(200));
    assert!(!auth_passes(302));
}

#[test]
fn auth_plan_honors_excludes() {
    let excluded = motorx::authentication::PathWithWildCard::from_pattern("/public/*").unwrap();
    let upstream = Upstream {
        addr: "a.example:80".to_string(),
        max_connections: 10,
        authentication: Some(Authentication {
            exclude: vec![excluded],
            source: AuthenticationSource::Path("/auth".to_string()),
        }),
        key: 0,
    };
    assert!(upstream.auth_plan("/public/img.png").is_none());
    assert!(upstream.auth_plan("/private").is_some());
    let no_auth = Upstream {
        addr: "a.example:80".to_string(),
        max_connections: 10,
        authentication: None,
        key: 0,
    };
    assert!(no_auth.auth_plan("/anything").is_none());
}

#[test]
fn auth_request_is_stripped_copy() {
    let req = ReqHead {
        method: Method::Post,
        uri: "/orders/7".to_string(),
        path: "/orders/7".to_string(),
        scheme: String::new(),
        version: Version::H2,
        headers: vec![Header { name: "x-token".to_string(), value: "t".to_string() }],
    };
    let auth_req = build_auth_request(&req, "/auth");
    assert_eq!(auth_req.method, Method::Post);
    assert_eq!(auth_req.version, Version::H2);
    assert_eq!(auth_req.uri, "/auth");
    assert_eq!(auth_req.path, "/auth");
    assert_eq!(auth_req.headers.len(), 1);
    assert_eq!(auth_req.headers[0].name, "x-token");
    assert_eq!(auth_req.headers[0].value, "t");
}

#[test]
fn error_builder_keeps_message() {
    let e = error("failed to open cert file".to_string());
    assert!(matches!(e, Error::Io(_)));
    assert_eq!(e.message().as_str(), "failed to open cert file");
}
