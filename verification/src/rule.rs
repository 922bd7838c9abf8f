use vstd::prelude::*;

use crate::match_type::{spec_matches, MatchType};
use crate::message::{first_header_value, get_header, Header, Method, ReqHead};
use crate::strutil::str_starts_with;

verus! {

/// A predicate that one request header must satisfy.
pub struct HeaderMatch {
    pub name: String,
    pub pattern: MatchType,
}

/// Per-rule caching: which methods are cached, and for how long.
pub struct CacheSettings {
    /// Methods whose responses are cached.
    pub methods: Vec<Method>,
    /// Freshness window in milliseconds.
    pub max_age_ms: u64,
}

/// One proxy rule: a path predicate, optional header predicates, the upstream
/// the request is forwarded to, and optional caching.
pub struct Rule {
    /// Predicate the request path must satisfy.
    pub path: MatchType,
    /// Strip the matched prefix from the path before forwarding.
    pub remove_match: bool,
    /// Predicates request headers must satisfy, if any.
    pub match_headers: Option<Vec<HeaderMatch>>,
    /// Name of the upstream; must name a key of the configured upstreams.
    pub upstream: String,
    /// Caching for this rule, if enabled.
    pub cache: Option<CacheSettings>,
    /// Dense index of the named upstream, assigned at startup.
    pub upstream_key: usize,
    /// Dense index of this rule's cache slot, assigned at startup.
    pub cache_key: usize,
}

/// Methods cached when the configuration does not list any.
pub fn default_cache_methods() -> (r: Vec<Method>)
    ensures
        r@ =~= seq![Method::Get],
{
    let mut methods: Vec<Method> = Vec::new();
    methods.push(Method::Get);
    methods
}

/// Freshness window used when the configuration does not give one.
pub fn default_cache_max_age() -> (n: u64)
    ensures
        n == 10_000,
{
    10_000
}

impl PartialEq for CacheSettings {
    /// Two cache policies are equal exactly when both fields are equal.
    fn eq(&self, other: &Self) -> (r: bool) {
        if self.max_age_ms != other.max_age_ms {
            return false;
        }
        if self.methods.len() != other.methods.len() {
            return false;
        }
        let mut i: usize = 0;
        while i < self.methods.len()
            invariant
                i <= self.methods@.len(),
                self.methods@.len() == other.methods@.len(),
                self.max_age_ms == other.max_age_ms,
                forall|j: int| 0 <= j < i ==> self.methods@[j] == other.methods@[j],
            decreases self.methods@.len() - i,
        {
            if self.methods[i] != other.methods[i] {
                return false;
            }
            i += 1;
        }
        proof {
            assert(self.methods@ =~= other.methods@);
        }
        true
    }
}

impl Eq for CacheSettings {}

impl vstd::std_specs::cmp::PartialEqSpecImpl for CacheSettings {
    open spec fn obeys_eq_spec() -> bool {
        true
    }

    open spec fn eq_spec(&self, other: &Self) -> bool {
        self.methods@ == other.methods@ && self.max_age_ms == other.max_age_ms
    }
}

/// One header predicate holds: the request carries the header and its value
/// satisfies the predicate; a missing header fails the predicate.
pub open spec fn spec_header_pred_ok(headers: Seq<Header>, hm: &HeaderMatch) -> bool {
    match first_header_value(headers, hm.name@) {
        Some(v) => spec_matches(&hm.pattern, v),
        None => false,
    }
}

/// A rule matches a request: the path predicate holds and every header
/// predicate holds.
pub open spec fn spec_rule_matches(rule: &Rule, req: &ReqHead) -> bool {
    &&& spec_matches(&rule.path, req.path@)
    &&& match rule.match_headers {
        Some(hs) => forall|i: int|
            0 <= i < hs@.len() ==> spec_header_pred_ok(req.headers@, &hs@[i]),
        None => true,
    }
}

/// The forwarded path: under `remove_match` on a `Start` predicate whose text
/// prefixes the path, the prefix is stripped, an emptied path becoming `/`;
/// any other predicate leaves the path unchanged.
pub open spec fn spec_rewrite_path(rule: &Rule, path: Seq<char>) -> Seq<char> {
    match &rule.path {
        MatchType::Start(p) => if rule.remove_match && p@.is_prefix_of(path) {
            if path.len() == p@.len() {
                seq!['/']
            } else {
                path.subrange(p@.len() as int, path.len() as int)
            }
        } else {
            path
        },
        _ => path,
    }
}

impl Rule {
    /// Whether this rule selects `req`.
    #[verifier::loop_isolation(false)]
    pub fn matches(&self, req: &ReqHead) -> (r: bool)
        ensures
            r == spec_rule_matches(self, req),
    {
        let path_result = self.path.matches(req.path.as_str());

        if !path_result.is_match() {
            return false;
        }

        if let Some(headers) = self.match_headers.as_ref() {
            let mut i: usize = 0;
            while i < headers.len()
                invariant
                    i <= headers@.len(),
                    forall|j: int| 0 <= j < i ==> spec_header_pred_ok(req.headers@, &headers@[j]),
                decreases headers@.len() - i,
            {
                let hm = &headers[i];
                match get_header(&req.headers, hm.name.as_str()) {
                    Some(value) => {
                        if !hm.pattern.matches(value.as_str()).is_match() {
                            return false;
                        }
                    },
                    None => {
                        return false;
                    },
                }
                i += 1;
            }
        }

        true
    }

    /// The path sent upstream for `path`, after any `remove_match` rewrite.
    pub fn rewrite_path(&self, path: &str) -> (r: String)
        ensures
            r@ == spec_rewrite_path(self, path@),
    {
        match &self.path {
            MatchType::Start(p) => {
                if self.remove_match && str_starts_with(path, p.as_str()) {
                    let plen = p.as_str().unicode_len();
                    let slen = path.unicode_len();
                    if plen == slen {
                        let root = String::from_str("/");
                        proof {
                            reveal_strlit("/");
                            assert(root@ =~= seq!['/']);
                        }
                        root
                    } else {
                        path.substring_char(plen, slen).to_owned()
                    }
                } else {
                    path.to_owned()
                }
            },
            _ => path.to_owned(),
        }
    }
}

/// Rewriting a matched prefix rule's own prefix yields the root path: with
/// `remove_match` set on a `Start` rule, a path equal to the rule's whole
/// prefix is rewritten to `/`.
pub proof fn lemma_rewrite_whole_prefix_is_root(rule: &Rule, path: Seq<char>)
    requires
        rule.remove_match,
        rule.path matches MatchType::Start(p) && p@ == path,
    ensures
        spec_rewrite_path(rule, path) == seq!['/'],
{
    let p = rule.path->Start_0;
    assert(p@ =~= path.subrange(0, p@.len() as int));
    assert(p@.is_prefix_of(path));
}

} // verus!
