use motorx::cache::{cache_lookup_decision, should_cache_status, Cache, CacheDecision};
use motorx::config::Config;
use motorx::match_type::MatchType;
use motorx::message::{BufferedResponse, Method, Version};
use motorx::rule::{CacheSettings, Rule};

fn cached_rule() -> Rule {
    Rule {
        path: MatchType::Start("/".to_string()),
        remove_match: false,
        match_headers: None,
        upstream: "a".to_string(),
        cache: Some(CacheSettings { methods: vec![Method::Get], max_age_ms: 10_000 }),
        upstream_key: 0,
        cache_key: 0,
    }
}

fn response(body: &[u8]) -> BufferedResponse {
    BufferedResponse {
        status: 200,
        version: Version::Http11,
        headers: Vec::new(),
        body: body.to_vec(),
    }
}

fn one_rule_cache() -> (Cache, Config) {
    let cfg = Config { rules: vec![cached_rule()], ..Default::default() };
    Cache::from_config(cfg)
}

#[test]
fn from_config_assigns_cache_keys() {
    let cfg = Config { rules: vec![cached_rule(), cached_rule()], ..Default::default() };
    let (cache, cfg) = Cache::from_config(cfg);
    assert_eq!(cfg.rules[0].cache_key, 0);
    assert_eq!(cfg.rules[1].cache_key, 1);
    assert!(cache.get_entry(0, "/x").is_none());
    assert!(cache.get_entry(1, "/x").is_none());
}

#[test]
fn fresh_entry_is_served() {
    let (mut cache, cfg) = one_rule_cache();
    cache.insert_populated_entry(0, "/x", response(b"hello"), 1_000);
    let entry = cache.get_entry(0, "/x").expect("entry stored");
    let decision = cache_lookup_decision(&cfg.rules[0].cache, Method::Get, Some(entry), false, 2_000);
    match decision {
        CacheDecision::Serve(resp) => assert_eq!(resp.body, b"hello".to_vec()),
        _ => panic!("a fresh entry should be served"),
    }
}

#[test]
fn stale_entry_without_producer_produces() {
    let (mut cache, cfg) = one_rule_cache();
    cache.insert_populated_entry(0, "/x", response(b"old"), 1_000);
    let entry = cache.get_entry(0, "/x").expect("entry stored");
    let decision =
        cache_lookup_decision(&cfg.rules[0].cache, Method::Get, Some(entry), false, 20_000);
    assert!(matches!(decision, CacheDecision::Produce));
}

#[test]
fn absent_entry_produces() {
    let (cache, cfg) = one_rule_cache();
    let entry = cache.get_entry(0, "/x");
    assert!(entry.is_none());
    let decision = cache_lookup_decision(&cfg.rules[0].cache, Method::Get, None, false, 0);
    assert!(matches!(decision, CacheDecision::Produce));
}

#[test]
fn uncacheable_method_bypasses_cache() {
    let (_, cfg) = one_rule_cache();
    let decision = cache_lookup_decision(&cfg.rules[0].cache, Method::Post, None, false, 0);
    assert!(matches!(decision, CacheDecision::Uncached));
    let no_policy = cache_lookup_decision(&None, Method::Get, None, false, 0);
    assert!(matches!(no_policy, CacheDecision::Uncached));
}

#[test]
fn inflight_coalesces_concurrent_lookups() {
    let (mut cache, cfg) = one_rule_cache();
    cache.insert_empty_entry(0, "/x");
    for _ in 0..50 {
        let entry = cache.get_entry(0, "/x").expect("inflight entry");
        let decision =
            cache_lookup_decision(&cfg.rules[0].cache, Method::Get, Some(entry), true, 0);
        assert!(matches!(decision, CacheDecision::AwaitInflight));
    }
}

#[test]
fn dead_inflight_elects_new_producer() {
    let (mut cache, cfg) = one_rule_cache();
    cache.insert_empty_entry(0, "/x");
    let entry = cache.get_entry(0, "/x").expect("inflight entry");
    let decision = cache_lookup_decision(&cfg.rules[0].cache, Method::Get, Some(entry), false, 0);
    assert!(matches!(decision, CacheDecision::Produce));
}

#[test]
fn second_identical_request_hits_cache() {
    let (mut cache, cfg) = one_rule_cache();
    // First request: nothing cached, the caller becomes the producer.
    let first = cache_lookup_decision(&cfg.rules[0].cache, Method::Get, None, false, 1_000);
    assert!(matches!(first, CacheDecision::Produce));
    cache.insert_empty_entry(0, "/x");
    cache.insert_populated_entry(0, "/x", response(b"payload"), 1_000);
    // Second request one second later: served from the cache, no new producer.
    let entry = cache.get_entry(0, "/x").expect("entry stored");
    let second = cache_lookup_decision(&cfg.rules[0].cache, Method::Get, Some(entry), false, 2_000);
    match second {
        CacheDecision::Serve(resp) => assert_eq!(resp.body, b"payload".to_vec()),
        _ => panic!("the second request should be served from the cache"),
    }
}

#[test]
fn extract_fresh_data_respects_max_age() {
    let (mut cache, _) = one_rule_cache();
    cache.insert_populated_entry(0, "/x", response(b"v"), 1_000);
    let entry = cache.get_entry(0, "/x").expect("entry stored");
    assert!(entry.extract_fresh_data(10_000, 11_000).is_some());
    assert!(entry.extract_fresh_data(10_000, 11_001).is_none());
}

#[test]
fn clear_inflight_keeps_stale_value() {
    let (mut cache, _) = one_rule_cache();
    cache.insert_populated_entry(0, "/x", response(b"v"), 1_000);
    cache.clear_inflight(0, "/x");
    let entry = cache.get_entry(0, "/x").expect("entry kept");
    assert!(!entry.inflight);
    assert_eq!(entry.cached_at, Some(1_000));
    assert!(entry.value.is_some());
}

#[test]
fn producer_outcome_recorded() {
    let (mut cache, _) = one_rule_cache();
    cache.insert_empty_entry(0, "/x");
    // A success is stored, timestamped and published.
    assert!(cache.record_refresh(0, "/x", Some(&response(b"ok")), 500));
    let stored = cache.get_entry(0, "/x").expect("entry stored");
    assert_eq!(stored.cached_at, Some(500));
    assert!(!stored.inflight);

    // An error response is not published: the inflight record is dropped and
    // nothing is stored.
    cache.insert_empty_entry(0, "/y");
    let err_resp = BufferedResponse {
        status: 500,
        version: Version::Http11,
        headers: Vec::new(),
        body: Vec::new(),
    };
    assert!(!cache.record_refresh(0, "/y", Some(&err_resp), 600));
    let failed = cache.get_entry(0, "/y").expect("entry kept");
    assert!(!failed.inflight);
    assert_eq!(failed.cached_at, None);

    // A transport failure publishes nothing either.
    cache.insert_empty_entry(0, "/z");
    assert!(!cache.record_refresh(0, "/z", None, 700));
    let dropped = cache.get_entry(0, "/z").expect("entry kept");
    assert!(!dropped.inflight);
}

#[test]
fn cache_policies_compare_by_fields() {
    let a = CacheSettings { methods: vec![Method::Get], max_age_ms: 10_000 };
    let b = CacheSettings { methods: vec![Method::Get], max_age_ms: 10_000 };
    let c = CacheSettings { methods: vec![Method::Get, Method::Head], max_age_ms: 10_000 };
    let d = CacheSettings { methods: vec![Method::Get], max_age_ms: 5_000 };
    assert!(a == b);
    assert!(a != c);
    assert!(a != d);
}

#[test]
fn cacheable_statuses() {
    assert!(should_cache_status(200));
    assert!(should_cache_status(204));
    assert!(should_cache_status(302));
    assert!(!should_cache_status(101));
    assert!(!should_cache_status(404));
    assert!(!should_cache_status(500));
}
