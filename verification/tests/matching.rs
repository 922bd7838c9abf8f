use motorx::authentication::PathWithWildCard;
use motorx::match_type::MatchType;
use motorx::message::{Header, Method, ReqHead, Version};
use motorx::rule::{HeaderMatch, Rule};

fn req_with_headers(path: &str, headers: Vec<Header>) -> ReqHead {
    ReqHead {
        method: Method::Get,
        uri: path.to_string(),
        path: path.to_string(),
        scheme: String::new(),
        version: Version::Http11,
        headers,
    }
}

fn start_rule(prefix: &str, remove_match: bool) -> Rule {
    Rule {
        path: MatchType::Start(prefix.to_string()),
        remove_match,
        match_headers: None,
        upstream: "a".to_string(),
        cache: None,
        upstream_key: 0,
        cache_key: 0,
    }
}

#[test]
fn start_matches_prefix() {
    let m = MatchType::Start("/api".to_string());
    assert!(m.matches("/api/users").is_match());
    assert!(m.matches("/api").is_match());
    assert!(!m.matches("/v2/api").is_match());
}

#[test]
fn contains_matches_anywhere() {
    let m = MatchType::Contains("sec".to_string());
    assert!(m.matches("/a/secret").is_match());
    assert!(m.matches("sec").is_match());
    assert!(!m.matches("/a/open").is_match());
}

#[test]
fn regex_matches_pattern() {
    let m = match MatchType::from_str("regex(^/item/[0-9]+$)") {
        Ok(m) => m,
        Err(_) => panic!("pattern should compile"),
    };
    assert!(matches!(m, MatchType::Regex(_)));
    assert!(m.matches("/item/42").is_match());
    assert!(!m.matches("/item/abc").is_match());
    assert!(!m.matches("/item/42/x").is_match());
}

#[test]
fn from_str_forms() {
    let start = MatchType::from_str("/plain/path").unwrap();
    assert!(matches!(start, MatchType::Start(ref p) if p.as_str() == "/plain/path"));
    let contains = MatchType::from_str("contains(frag)").unwrap();
    assert!(matches!(contains, MatchType::Contains(ref p) if p.as_str() == "frag"));
    let invalid = MatchType::from_str("regex([)");
    assert!(invalid.is_err());
}

#[test]
fn match_type_equality() {
    assert!(MatchType::Start("/a".to_string()) == MatchType::Start("/a".to_string()));
    assert!(MatchType::Start("/a".to_string()) != MatchType::Contains("/a".to_string()));
    let r1 = MatchType::from_str("regex(^a$)").unwrap();
    let r2 = MatchType::from_str("regex(^a$)").unwrap();
    let r3 = MatchType::from_str("regex(^b$)").unwrap();
    assert!(r1 == r2);
    assert!(r1 != r3);
}

#[test]
fn priority_and_length_order() {
    let s = MatchType::Start("/longer".to_string());
    let c = MatchType::Contains("abc".to_string());
    let r = MatchType::from_str("regex(^x$)").unwrap();
    assert!(s.priority() < c.priority());
    assert!(c.priority() < r.priority());
    assert_eq!(s.length(), 7);
    assert_eq!(c.length(), 3);
    assert_eq!(r.length(), 3);
    assert!(s.le(&c));
    assert!(c.le(&r));
    let s_short = MatchType::Start("/a".to_string());
    assert!(s.le(&s_short));
    assert!(!s_short.le(&s));
}

#[test]
fn rule_matches_path_and_headers() {
    let rule = Rule {
        path: MatchType::Start("/".to_string()),
        remove_match: false,
        match_headers: Some(vec![HeaderMatch {
            name: "X-Kind".to_string(),
            pattern: MatchType::Start("json".to_string()),
        }]),
        upstream: "a".to_string(),
        cache: None,
        upstream_key: 0,
        cache_key: 0,
    };
    let matching = req_with_headers(
        "/x",
        vec![Header { name: "x-kind".to_string(), value: "json-v2".to_string() }],
    );
    assert!(rule.matches(&matching));

    let wrong_value = req_with_headers(
        "/x",
        vec![Header { name: "x-kind".to_string(), value: "xml".to_string() }],
    );
    assert!(!rule.matches(&wrong_value));

    let missing_header = req_with_headers("/x", vec![]);
    assert!(!rule.matches(&missing_header));
}

#[test]
fn rewrite_path_strips_prefix() {
    let rule = start_rule("/service", true);
    assert_eq!(rule.rewrite_path("/service/x"), "/x");
}

#[test]
fn rewrite_whole_prefix_becomes_root() {
    let rule = start_rule("/service", true);
    assert_eq!(rule.rewrite_path("/service"), "/");
}

#[test]
fn rewrite_without_remove_match_keeps_path() {
    let rule = start_rule("/service", false);
    assert_eq!(rule.rewrite_path("/service/x"), "/service/x");
    let contains_rule = Rule {
        path: MatchType::Contains("svc".to_string()),
        remove_match: true,
        match_headers: None,
        upstream: "a".to_string(),
        cache: None,
        upstream_key: 0,
        cache_key: 0,
    };
    assert_eq!(contains_rule.rewrite_path("/svc/x"), "/svc/x");
}

#[test]
fn empty_patterns_match_everything() {
    let contains = MatchType::from_str("contains()").unwrap();
    assert!(matches!(contains, MatchType::Contains(ref p) if p.is_empty()));
    assert!(contains.matches("/anything").is_match());
    assert!(contains.matches("").is_match());
    let start = MatchType::Start(String::new());
    assert!(start.matches("/anything").is_match());
    assert!(start.matches("").is_match());
}

#[test]
fn wildcard_paths() {
    let literal = PathWithWildCard::from_pattern("/health").unwrap();
    assert!(literal.matches("/health"));
    assert!(!literal.matches("/health/x"));

    let wild = PathWithWildCard::from_pattern("/user/*/avatar").unwrap();
    assert!(matches!(wild, PathWithWildCard::WithWildCard(_)));
    assert!(wild.matches("/user/alice/avatar"));
    assert!(!wild.matches("/user//avatar"));
    assert!(!wild.matches("/user/alice/settings"));
}
