use vstd::prelude::*;

use crate::config::Config;
use crate::message::{methods_contain, responses_equal, BufferedResponse, Method};
use crate::rule::{CacheSettings, Rule};
use crate::strutil::str_eq;

verus! {

/// One cache slot for one URI.
pub struct CacheEntry {
    /// When the stored value was cached, in milliseconds; `None` while only a
    /// producer is registered.
    pub cached_at: Option<u64>,
    /// The stored response.
    pub value: Option<BufferedResponse>,
    /// Whether a producer's broadcast is registered in this entry.
    pub inflight: bool,
}

/// A slot together with the URI it caches.
pub struct UriEntry {
    pub uri: String,
    pub entry: CacheEntry,
}

/// The cache of one rule: its slots, keyed by URI.
pub struct RuleCache {
    pub entries: Vec<UriEntry>,
}

/// The whole response cache: one `RuleCache` per rule, indexed by the rule's
/// `cache_key`.
pub struct Cache {
    pub per_rule: Vec<RuleCache>,
}

/// A well-formed entry stores a value whenever it stores a cache time.
pub open spec fn entry_wf(e: &CacheEntry) -> bool {
    e.cached_at is Some ==> e.value is Some
}

/// Fresh at `now_ms`: cached no longer than the freshness window ago.
pub open spec fn entry_fresh(e: &CacheEntry, max_age_ms: u64, now_ms: u64) -> bool {
    e.cached_at matches Some(t) && t <= now_ms && now_ms - t <= max_age_ms
}

/// No two slots cache the same URI.
pub open spec fn uris_unique(s: Seq<UriEntry>) -> bool {
    forall|i: int, j: int| 0 <= i < j < s.len() ==> s[i].uri@ != s[j].uri@
}

/// Some slot caches this URI.
pub open spec fn spec_has_uri(s: Seq<UriEntry>, uri: Seq<char>) -> bool {
    exists|i: int| 0 <= i < s.len() && s[i].uri@ == uri
}

/// The slot cached for this URI, if any.
pub open spec fn spec_lookup(s: Seq<UriEntry>, uri: Seq<char>) -> Option<CacheEntry> {
    if spec_has_uri(s, uri) {
        Some(s[choose|i: int| 0 <= i < s.len() && s[i].uri@ == uri].entry)
    } else {
        None
    }
}

/// Every rule's slots have unique URIs and well-formed entries.
pub open spec fn cache_wf(c: &Cache) -> bool {
    &&& forall|r: int|
        0 <= r < c.per_rule@.len() ==> uris_unique((#[trigger] c.per_rule@[r]).entries@)
    &&& forall|r: int, i: int|
        0 <= r < c.per_rule@.len() && 0 <= i < c.per_rule@[r].entries@.len() ==> entry_wf(
            &(#[trigger] c.per_rule@[r].entries@[i]).entry,
        )
}

/// With unique URIs, a slot that carries the URI is the lookup result.
pub proof fn lemma_lookup_at_index(s: Seq<UriEntry>, uri: Seq<char>, i: int)
    requires
        uris_unique(s),
        0 <= i < s.len(),
        s[i].uri@ == uri,
    ensures
        spec_lookup(s, uri) == Some(s[i].entry),
{
    assert(spec_has_uri(s, uri));
    let k = choose|k: int| 0 <= k < s.len() && s[k].uri@ == uri;
    if k != i {
        if k < i {
            assert(s[k].uri@ != s[i].uri@);
        } else {
            assert(s[i].uri@ != s[k].uri@);
        }
    }
}

impl Cache {
    /// The cached slot for `uri` under the rule at `rule_key`, if present.
    pub fn get_entry(&self, rule_key: usize, uri: &str) -> (r: Option<&CacheEntry>)
        requires
            rule_key < self.per_rule@.len(),
            cache_wf(self),
        ensures
            match r {
                Some(e) => spec_lookup(self.per_rule@[rule_key as int].entries@, uri@) == Some(*e),
                None => spec_lookup(self.per_rule@[rule_key as int].entries@, uri@) is None,
            },
    {
        let entries = &self.per_rule[rule_key].entries;
        let mut i: usize = 0;
        while i < entries.len()
            invariant
                entries@ == self.per_rule@[rule_key as int].entries@,
                rule_key < self.per_rule@.len(),
                cache_wf(self),
                i <= entries@.len(),
                forall|j: int| 0 <= j < i ==> (#[trigger] entries@[j]).uri@ != uri@,
            decreases entries@.len() - i,
        {
            if str_eq(entries[i].uri.as_str(), uri) {
                proof {
                    lemma_lookup_at_index(entries@, uri@, i as int);
                }
                return Some(&entries[i].entry);
            }
            i += 1;
        }
        proof {
            assert(!spec_has_uri(entries@, uri@));
        }
        None
    }
}

/// Replaces the slot for `uri`, or adds one: afterwards `uri` maps to `entry`
/// and every other URI maps as before.
fn upsert_entry(entries: &mut Vec<UriEntry>, uri: &str, entry: CacheEntry)
    requires
        uris_unique(old(entries)@),
    ensures
        uris_unique(final(entries)@),
        spec_lookup(final(entries)@, uri@) == Some(entry),
        forall|u: Seq<char>|
            u != uri@ ==> spec_lookup(final(entries)@, u) == spec_lookup(old(entries)@, u),
        (entry_wf(&entry) && (forall|i: int|
            0 <= i < old(entries)@.len() ==> entry_wf(&(#[trigger] old(entries)@[i]).entry)))
            ==> (forall|i: int|
            0 <= i < final(entries)@.len() ==> entry_wf(&(#[trigger] final(entries)@[i]).entry)),
{
    let ghost orig = entries@;
    let mut i: usize = 0;
    let mut found = false;
    while i < entries.len() && !found
        invariant
            entries@ == orig,
            i <= orig.len(),
            found ==> i < orig.len() && orig[i as int].uri@ == uri@,
            !found ==> forall|j: int| 0 <= j < i ==> (#[trigger] orig[j]).uri@ != uri@,
        decreases orig.len() - i + (if found { 0int } else { 1int }),
    {
        if str_eq(entries[i].uri.as_str(), uri) {
            found = true;
        } else {
            i += 1;
        }
    }
    if found {
        let slot = entries.remove(i);
        let UriEntry { uri: stored_uri, .. } = slot;
        entries.insert(i, UriEntry { uri: stored_uri, entry });
        proof {
            assert(entries@ =~= orig.update(i as int, entries@[i as int]));
            lemma_upsert_update(orig, uri@, entries@, i as int);
        }
    } else {
        let owned = uri.to_owned();
        entries.push(UriEntry { uri: owned, entry });
        proof {
            lemma_upsert_push(orig, uri@, entries@);
        }
    }
}

/// `new` is `orig` with its cache key set to `k` and every other field
/// unchanged.
pub open spec fn spec_rule_cache_keyed(orig: &Rule, new: &Rule, k: int) -> bool {
    &&& new.path == orig.path
    &&& new.remove_match == orig.remove_match
    &&& new.match_headers == orig.match_headers
    &&& new.upstream == orig.upstream
    &&& new.cache == orig.cache
    &&& new.upstream_key == orig.upstream_key
    &&& new.cache_key == k
}

impl Cache {
    /// Builds one empty per-rule cache per rule and assigns each rule its
    /// dense cache key; everything else in the configuration is unchanged.
    pub fn from_config(cfg: Config) -> (r: (Cache, Config))
        ensures
            cache_wf(&r.0),
            r.0.per_rule@.len() == cfg.rules@.len(),
            forall|k: int|
                0 <= k < cfg.rules@.len() ==> (#[trigger] r.0.per_rule@[k]).entries@.len() == 0,
            r.1.addr == cfg.addr,
            r.1.tls == cfg.tls,
            r.1.upstreams == cfg.upstreams,
            r.1.max_connections == cfg.max_connections,
            r.1.rules@.len() == cfg.rules@.len(),
            forall|i: int|
                0 <= i < cfg.rules@.len() ==> spec_rule_cache_keyed(
                    &cfg.rules@[i],
                    &(#[trigger] r.1.rules@[i]),
                    i,
                ),
    {
        let Config { addr, tls, mut rules, upstreams, max_connections } = cfg;
        let ghost orig_rules = rules@;
        let mut new_rules: Vec<Rule> = Vec::new();
        let mut per_rule: Vec<RuleCache> = Vec::new();
        while rules.len() > 0
            invariant
                orig_rules == cfg.rules@,
                new_rules@.len() + rules@.len() == orig_rules.len(),
                rules@ =~= orig_rules.skip(new_rules@.len() as int),
                per_rule@.len() == new_rules@.len(),
                forall|k: int|
                    0 <= k < per_rule@.len() ==> (#[trigger] per_rule@[k]).entries@.len() == 0,
                forall|i: int|
                    0 <= i < new_rules@.len() ==> spec_rule_cache_keyed(
                        &orig_rules[i],
                        &(#[trigger] new_rules@[i]),
                        i,
                    ),
            decreases rules@.len(),
        {
            let ghost n = new_rules@.len() as int;
            let idx = new_rules.len();
            let rule = rules.remove(0);
            proof {
                assert(rule == orig_rules[n]);
                assert(rules@ =~= orig_rules.skip(n + 1));
            }
            let Rule { path, remove_match, match_headers, upstream, cache, upstream_key, .. } =
                rule;
            new_rules.push(
                Rule {
                    path,
                    remove_match,
                    match_headers,
                    upstream,
                    cache,
                    upstream_key,
                    cache_key: idx,
                },
            );
            per_rule.push(RuleCache { entries: Vec::new() });
        }
        (
            Cache { per_rule },
            Config { addr, tls, rules: new_rules, upstreams, max_connections },
        )
    }

    /// Registers a producer for `uri` under the rule at `rule_key`: the slot
    /// becomes empty with an inflight broadcast recorded. Other URIs and other
    /// rules are unchanged.
    pub fn insert_empty_entry(&mut self, rule_key: usize, uri: &str)
        requires
            rule_key < old(self).per_rule@.len(),
            cache_wf(&*old(self)),
        ensures
            cache_wf(&*final(self)),
            final(self).per_rule@.len() == old(self).per_rule@.len(),
            forall|r: int|
                0 <= r < old(self).per_rule@.len() && r != rule_key ==> final(self).per_rule@[r]
                    == old(self).per_rule@[r],
            spec_lookup(final(self).per_rule@[rule_key as int].entries@, uri@) == Some(
                (CacheEntry { cached_at: None, value: None, inflight: true }),
            ),
            forall|u: Seq<char>|
                u != uri@ ==> spec_lookup(final(self).per_rule@[rule_key as int].entries@, u)
                    == spec_lookup(old(self).per_rule@[rule_key as int].entries@, u),
    {
        let mut rc = self.per_rule.remove(rule_key);
        upsert_entry(&mut rc.entries, uri, CacheEntry { cached_at: None, value: None, inflight: true });
        self.per_rule.insert(rule_key, rc);
        proof {
            assert(self.per_rule@ =~= old(self).per_rule@.update(
                rule_key as int,
                self.per_rule@[rule_key as int],
            ));
        }
    }

    /// Stores the producer's successful response for `uri` under the rule at
    /// `rule_key`: the slot holds the response, cached now, with no inflight
    /// broadcast. Other URIs and other rules are unchanged.
    pub fn insert_populated_entry(
        &mut self,
        rule_key: usize,
        uri: &str,
        resp: BufferedResponse,
        now_ms: u64,
    )
        requires
            rule_key < old(self).per_rule@.len(),
            cache_wf(&*old(self)),
        ensures
            cache_wf(&*final(self)),
            final(self).per_rule@.len() == old(self).per_rule@.len(),
            forall|r: int|
                0 <= r < old(self).per_rule@.len() && r != rule_key ==> final(self).per_rule@[r]
                    == old(self).per_rule@[r],
            spec_lookup(final(self).per_rule@[rule_key as int].entries@, uri@) == Some(
                (CacheEntry { cached_at: Some(now_ms), value: Some(resp), inflight: false }),
            ),
            forall|u: Seq<char>|
                u != uri@ ==> spec_lookup(final(self).per_rule@[rule_key as int].entries@, u)
                    == spec_lookup(old(self).per_rule@[rule_key as int].entries@, u),
    {
        let mut rc = self.per_rule.remove(rule_key);
        upsert_entry(
            &mut rc.entries,
            uri,
            CacheEntry { cached_at: Some(now_ms), value: Some(resp), inflight: false },
        );
        self.per_rule.insert(rule_key, rc);
        proof {
            assert(self.per_rule@ =~= old(self).per_rule@.update(
                rule_key as int,
                self.per_rule@[rule_key as int],
            ));
        }
    }

    /// Drops the inflight record for `uri` under the rule at `rule_key`,
    /// leaving any stored value and cache time in place: the failed producer's
    /// broadcast is forgotten and a stale entry stays stale. Other URIs and
    /// other rules are unchanged.
    pub fn clear_inflight(&mut self, rule_key: usize, uri: &str)
        requires
            rule_key < old(self).per_rule@.len(),
            cache_wf(&*old(self)),
        ensures
            cache_wf(&*final(self)),
            final(self).per_rule@.len() == old(self).per_rule@.len(),
            forall|r: int|
                0 <= r < old(self).per_rule@.len() && r != rule_key ==> final(self).per_rule@[r]
                    == old(self).per_rule@[r],
            match spec_lookup(old(self).per_rule@[rule_key as int].entries@, uri@) {
                Some(e) => spec_lookup(final(self).per_rule@[rule_key as int].entries@, uri@)
                    == Some(
                    (CacheEntry { cached_at: e.cached_at, value: e.value, inflight: false }),
                ),
                None => spec_lookup(final(self).per_rule@[rule_key as int].entries@, uri@) is None,
            },
            forall|u: Seq<char>|
                u != uri@ ==> spec_lookup(final(self).per_rule@[rule_key as int].entries@, u)
                    == spec_lookup(old(self).per_rule@[rule_key as int].entries@, u),
    {
        let mut rc = self.per_rule.remove(rule_key);
        let ghost orig = rc.entries@;
        let mut i: usize = 0;
        let mut found = false;
        while i < rc.entries.len() && !found
            invariant
                rc.entries@ == orig,
                i <= orig.len(),
                found ==> i < orig.len() && orig[i as int].uri@ == uri@,
                !found ==> forall|j: int| 0 <= j < i ==> (#[trigger] orig[j]).uri@ != uri@,
            decreases orig.len() - i + (if found { 0int } else { 1int }),
        {
            if str_eq(rc.entries[i].uri.as_str(), uri) {
                found = true;
            } else {
                i += 1;
            }
        }
        if found {
            let slot = rc.entries.remove(i);
            let UriEntry { uri: stored_uri, entry } = slot;
            let CacheEntry { cached_at, value, .. } = entry;
            rc.entries.insert(i, UriEntry {
                uri: stored_uri,
                entry: CacheEntry { cached_at, value, inflight: false },
            });
            proof {
                lemma_lookup_at_index(orig, uri@, i as int);
                assert(rc.entries@ =~= orig.update(i as int, rc.entries@[i as int]));
                lemma_upsert_update(orig, uri@, rc.entries@, i as int);
            }
        } else {
            proof {
                assert(!spec_has_uri(orig, uri@));
            }
        }
        self.per_rule.insert(rule_key, rc);
        proof {
            assert(self.per_rule@ =~= old(self).per_rule@.update(
                rule_key as int,
                self.per_rule@[rule_key as int],
            ));
        }
    }
}

impl Cache {
    /// Records the producer's outcome for `uri` under the rule at `rule_key`
    /// and says whether the response is published to the waiters: a success
    /// response is stored, cached now, its inflight record dropped; an error
    /// response or a transport failure (`None`) only drops the inflight
    /// record, so a stale value stays stale and is not touched. Other URIs
    /// and other rules are unchanged.
    pub fn record_refresh(
        &mut self,
        rule_key: usize,
        uri: &str,
        outcome: Option<&BufferedResponse>,
        now_ms: u64,
    ) -> (published: bool)
        requires
            rule_key < old(self).per_rule@.len(),
            cache_wf(&*old(self)),
        ensures
            cache_wf(&*final(self)),
            final(self).per_rule@.len() == old(self).per_rule@.len(),
            forall|r: int|
                0 <= r < old(self).per_rule@.len() && r != rule_key ==> final(self).per_rule@[r]
                    == old(self).per_rule@[r],
            published == (outcome matches Some(resp) && spec_cacheable_status(resp.status)),
            published ==> ({
                &&& outcome matches Some(resp)
                &&& spec_lookup(final(self).per_rule@[rule_key as int].entries@, uri@) matches Some(
                    e,
                )
                &&& e.cached_at == Some(now_ms)
                &&& !e.inflight
                &&& e.value matches Some(v)
                &&& responses_equal(&v, resp)
            }),
            !published ==> match spec_lookup(old(self).per_rule@[rule_key as int].entries@, uri@) {
                Some(e) => spec_lookup(final(self).per_rule@[rule_key as int].entries@, uri@)
                    == Some(
                    (CacheEntry { cached_at: e.cached_at, value: e.value, inflight: false }),
                ),
                None => spec_lookup(final(self).per_rule@[rule_key as int].entries@, uri@) is None,
            },
            forall|u: Seq<char>|
                u != uri@ ==> spec_lookup(final(self).per_rule@[rule_key as int].entries@, u)
                    == spec_lookup(old(self).per_rule@[rule_key as int].entries@, u),
    {
        match outcome {
            Some(resp) => {
                if should_cache_status(resp.status) {
                    self.insert_populated_entry(rule_key, uri, resp.clone(), now_ms);
                    true
                } else {
                    self.clear_inflight(rule_key, uri);
                    false
                }
            },
            None => {
                self.clear_inflight(rule_key, uri);
                false
            },
        }
    }
}

impl CacheEntry {
    /// A copy of the stored response, exactly when the entry is fresh at
    /// `now_ms`: its cache time lies within the freshness window.
    pub fn extract_fresh_data(&self, max_age_ms: u64, now_ms: u64) -> (r: Option<BufferedResponse>)
        requires
            entry_wf(self),
        ensures
            r is Some <==> entry_fresh(self, max_age_ms, now_ms),
            r matches Some(v) ==> responses_equal(&v, &self.value->0),
    {
        match &self.cached_at {
            Some(t) => {
                if *t <= now_ms && now_ms - *t <= max_age_ms {
                    match &self.value {
                        Some(v) => Some(v.clone()),
                        None => {
                            proof {
                                assert(false);
                            }
                            None
                        },
                    }
                } else {
                    None
                }
            },
            None => None,
        }
    }
}

/// Whether this request participates in caching: the rule opts in and lists
/// the request's method.
pub open spec fn spec_cacheable(cache: &Option<CacheSettings>, m: Method) -> bool {
    cache matches Some(s) && s.methods@.contains(m)
}

/// What the handler does for a cacheable request after looking its URI up.
pub enum CacheDecision {
    /// Caching does not apply to this request; forward it plainly.
    Uncached,
    /// Serve this fresh cached response without contacting the upstream.
    Serve(BufferedResponse),
    /// Subscribe to the live producer's broadcast and await its message.
    AwaitInflight,
    /// Become the producer: register an inflight broadcast and refresh the
    /// entry.
    Produce,
}

/// The single-flight lookup protocol: an uncacheable request bypasses the
/// cache; a fresh entry is served; a stale or empty entry with a live
/// producer is awaited; otherwise the caller becomes the producer.
pub open spec fn spec_cache_decision(
    cacheable: bool,
    entry: Option<CacheEntry>,
    inflight_live: bool,
    max_age_ms: u64,
    now_ms: u64,
) -> CacheDecision {
    if !cacheable {
        CacheDecision::Uncached
    } else {
        match entry {
            None => CacheDecision::Produce,
            Some(e) => if entry_fresh(&e, max_age_ms, now_ms) {
                CacheDecision::Serve(e.value->0)
            } else if e.inflight && inflight_live {
                CacheDecision::AwaitInflight
            } else {
                CacheDecision::Produce
            },
        }
    }
}

/// Decisions equal up to the served response's contents.
pub open spec fn decisions_equal(a: &CacheDecision, b: &CacheDecision) -> bool {
    match (a, b) {
        (CacheDecision::Uncached, CacheDecision::Uncached) => true,
        (CacheDecision::Serve(x), CacheDecision::Serve(y)) => responses_equal(x, y),
        (CacheDecision::AwaitInflight, CacheDecision::AwaitInflight) => true,
        (CacheDecision::Produce, CacheDecision::Produce) => true,
        _ => false,
    }
}

/// Takes the single-flight decision for one request: `cache` is the rule's
/// policy, `entry` the looked-up slot, and `inflight_live` whether the
/// recorded producer broadcast can still be reached.
pub fn cache_lookup_decision(
    cache: &Option<CacheSettings>,
    method: Method,
    entry: Option<&CacheEntry>,
    inflight_live: bool,
    now_ms: u64,
) -> (d: CacheDecision)
    requires
        entry matches Some(e) ==> entry_wf(e),
    ensures
        ({
            let e = match entry {
                Some(e) => Some(*e),
                None => None,
            };
            let age = match cache {
                Some(s) => s.max_age_ms,
                None => 0,
            };
            decisions_equal(
                &d,
                &spec_cache_decision(spec_cacheable(cache, method), e, inflight_live, age, now_ms),
            )
        }),
{
    match cache {
        None => CacheDecision::Uncached,
        Some(settings) => {
            if !methods_contain(&settings.methods, method) {
                CacheDecision::Uncached
            } else {
                match entry {
                    None => CacheDecision::Produce,
                    Some(e) => {
                        match e.extract_fresh_data(settings.max_age_ms, now_ms) {
                            Some(v) => CacheDecision::Serve(v),
                            None => {
                                if e.inflight && inflight_live {
                                    CacheDecision::AwaitInflight
                                } else {
                                    CacheDecision::Produce
                                }
                            },
                        }
                    },
                }
            }
        },
    }
}

/// Statuses whose responses are published to waiters and stored: the success
/// family, anything below the client- and server-error ranges.
pub open spec fn spec_cacheable_status(status: u16) -> bool {
    200 <= status < 400
}

/// Whether the producer's response is stored and broadcast, or the waiters
/// are released empty-handed.
pub fn should_cache_status(status: u16) -> (r: bool)
    ensures
        r == spec_cacheable_status(status),
{
    200 <= status && status < 400
}

/// At most one producer per slot: a lookup that sees a live inflight
/// broadcast never elects a second producer.
pub proof fn lemma_no_second_producer(
    cacheable: bool,
    e: CacheEntry,
    max_age_ms: u64,
    now_ms: u64,
)
    requires
        e.inflight,
    ensures
        !(spec_cache_decision(cacheable, Some(e), true, max_age_ms, now_ms) is Produce),
{
}

/// Whatever is served from the cache is fresh: a `Serve` decision carries the
/// stored value, and the time since it was cached is at most the freshness
/// window.
pub proof fn lemma_serve_is_fresh(
    cacheable: bool,
    e: CacheEntry,
    inflight_live: bool,
    max_age_ms: u64,
    now_ms: u64,
)
    requires
        spec_cache_decision(cacheable, Some(e), inflight_live, max_age_ms, now_ms) is Serve,
    ensures
        entry_fresh(&e, max_age_ms, now_ms),
        e.cached_at matches Some(t) && now_ms - t <= max_age_ms,
        spec_cache_decision(cacheable, Some(e), inflight_live, max_age_ms, now_ms) matches
            CacheDecision::Serve(v) && v == e.value->0,
{
}

/// One upstream fetch for two sequential identical cacheable requests: once
/// the producer has stored its response, a second lookup for the same URI
/// within the freshness window serves that stored response and does not
/// produce again.
pub proof fn lemma_second_request_served(
    entries: Seq<UriEntry>,
    uri: Seq<char>,
    resp: BufferedResponse,
    t1: u64,
    t2: u64,
    max_age_ms: u64,
    inflight_live: bool,
)
    requires
        spec_lookup(entries, uri) == Some(
            (CacheEntry { cached_at: Some(t1), value: Some(resp), inflight: false }),
        ),
        t1 <= t2,
        t2 - t1 <= max_age_ms,
    ensures
        spec_cache_decision(true, spec_lookup(entries, uri), inflight_live, max_age_ms, t2)
            matches CacheDecision::Serve(v) && v == resp,
{
}

/// Properties of replacing the slot at a known index.
proof fn lemma_upsert_update(orig: Seq<UriEntry>, uri: Seq<char>, upd: Seq<UriEntry>, i: int)
    requires
        uris_unique(orig),
        0 <= i < orig.len(),
        orig[i].uri@ == uri,
        upd.len() == orig.len(),
        upd[i].uri@ == uri,
        forall|j: int| 0 <= j < orig.len() && j != i ==> upd[j] == orig[j],
    ensures
        uris_unique(upd),
        spec_lookup(upd, uri) == Some(upd[i].entry),
        forall|u: Seq<char>| u != uri ==> spec_lookup(upd, u) == spec_lookup(orig, u),
        forall|j: int|
            0 <= j < upd.len() && upd[j].uri@ != uri ==> spec_lookup(orig, upd[j].uri@) == Some(
                upd[j].entry,
            ),
{
    assert forall|a: int, b: int| 0 <= a < b < upd.len() implies upd[a].uri@ != upd[b].uri@ by {
        assert(orig[a].uri@ != orig[b].uri@);
        assert(upd[a].uri@ == orig[a].uri@);
        assert(upd[b].uri@ == orig[b].uri@);
    }
    lemma_lookup_at_index(upd, uri, i);
    assert forall|u: Seq<char>| u != uri implies spec_lookup(upd, u) == spec_lookup(orig, u) by {
        if spec_has_uri(orig, u) {
            let k = choose|k: int| 0 <= k < orig.len() && orig[k].uri@ == u;
            assert(upd[k].uri@ == u);
            lemma_lookup_at_index(orig, u, k);
            lemma_lookup_at_index(upd, u, k);
        } else {
            assert forall|k: int| 0 <= k < upd.len() implies (#[trigger] upd[k]).uri@ != u by {
                assert(orig[k].uri@ != u);
            }
        }
    }
    assert forall|j: int| 0 <= j < upd.len() && (#[trigger] upd[j]).uri@ != uri implies
        spec_lookup(orig, upd[j].uri@) == Some(upd[j].entry) by {
        assert(upd[j] == orig[j]);
        lemma_lookup_at_index(orig, upd[j].uri@, j);
    }
}

/// Properties of adding a slot for a URI no slot carries.
proof fn lemma_upsert_push(orig: Seq<UriEntry>, uri: Seq<char>, upd: Seq<UriEntry>)
    requires
        uris_unique(orig),
        !spec_has_uri(orig, uri),
        upd.len() == orig.len() + 1,
        upd[orig.len() as int].uri@ == uri,
        forall|j: int| 0 <= j < orig.len() ==> upd[j] == orig[j],
    ensures
        uris_unique(upd),
        spec_lookup(upd, uri) == Some(upd[orig.len() as int].entry),
        forall|u: Seq<char>| u != uri ==> spec_lookup(upd, u) == spec_lookup(orig, u),
        forall|j: int|
            0 <= j < upd.len() && upd[j].uri@ != uri ==> spec_lookup(orig, upd[j].uri@) == Some(
                upd[j].entry,
            ),
{
    let n = orig.len() as int;
    assert forall|a: int, b: int| 0 <= a < b < upd.len() implies upd[a].uri@ != upd[b].uri@ by {
        if b < n {
            assert(orig[a].uri@ != orig[b].uri@);
        } else {
            assert(orig[a].uri@ != uri);
        }
    }
    lemma_lookup_at_index(upd, uri, n);
    assert forall|u: Seq<char>| u != uri implies spec_lookup(upd, u) == spec_lookup(orig, u) by {
        if spec_has_uri(orig, u) {
            let k = choose|k: int| 0 <= k < orig.len() && orig[k].uri@ == u;
            assert(upd[k].uri@ == u);
            lemma_lookup_at_index(orig, u, k);
            lemma_lookup_at_index(upd, u, k);
        } else {
            assert forall|k: int| 0 <= k < upd.len() implies (#[trigger] upd[k]).uri@ != u by {
                if k < n {
                    assert(orig[k].uri@ != u);
                }
            }
        }
    }
    assert forall|j: int| 0 <= j < upd.len() && (#[trigger] upd[j]).uri@ != uri implies
        spec_lookup(orig, upd[j].uri@) == Some(upd[j].entry) by {
        assert(j < n);
        assert(upd[j] == orig[j]);
        lemma_lookup_at_index(orig, upd[j].uri@, j);
    }
}

} // verus!
