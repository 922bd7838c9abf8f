use vstd::prelude::*;

use crate::authentication::{Authentication, AuthenticationSource};
use crate::error::Error;
use crate::match_type::{lemma_le_total, lemma_le_trans, spec_le, spec_length, spec_priority};
use crate::rule::Rule;
use crate::strutil::str_eq;

verus! {

broadcast use vstd::seq_lib::group_to_multiset_ensures;

/// How the listener terminates TLS, if at all.
pub enum Tls {
    /// Certificates and private key loaded from files.
    File { certs: String, private_key: String },
    /// Certificates managed through ACME, cached in a directory.
    Acme { domains: Vec<String>, cache_dir: String },
}

/// One backend the proxy forwards to.
pub struct Upstream {
    /// Authority (`host:port`) the upstream is reached at.
    pub addr: String,
    /// Cap on simultaneously open connections to this upstream.
    pub max_connections: usize,
    /// Authentication this upstream demands, if any.
    pub authentication: Option<Authentication>,
    /// Dense index of this upstream, assigned at startup.
    pub key: usize,
}

/// A configured upstream together with the name the rules refer to it by.
pub struct NamedUpstream {
    pub name: String,
    pub upstream: Upstream,
}

/// The proxy's whole configuration.
pub struct Config {
    /// Bind address, as text.
    pub addr: String,
    pub tls: Option<Tls>,
    /// Rules, re-sorted at startup.
    pub rules: Vec<Rule>,
    pub upstreams: Vec<NamedUpstream>,
    /// Server-wide admission limit.
    pub max_connections: usize,
}

/// Default cap on simultaneously open connections to a single upstream.
pub fn default_upstream_max_connections() -> (n: usize)
    ensures
        n == 10,
{
    10
}

/// Default server-wide admission limit.
pub fn default_server_max_connections() -> (n: usize)
    ensures
        n == 100,
{
    100
}

impl Default for Config {
    /// An empty configuration listening on every interface at port 80.
    fn default() -> (c: Config)
        ensures
            c.addr@ == "0.0.0.0:80"@,
            c.tls is None,
            c.rules@.len() == 0,
            c.upstreams@.len() == 0,
            c.max_connections == 100,
    {
        Config {
            addr: String::from_str("0.0.0.0:80"),
            tls: None,
            rules: Vec::new(),
            upstreams: Vec::new(),
            max_connections: default_server_max_connections(),
        }
    }
}

/// Some upstream carries this name.
pub open spec fn spec_has_name(ups: Seq<NamedUpstream>, name: Seq<char>) -> bool {
    exists|k: int| 0 <= k < ups.len() && ups[k].name@ == name
}

/// `k` is the first index whose upstream carries this name.
pub open spec fn spec_first_index(ups: Seq<NamedUpstream>, name: Seq<char>, k: int) -> bool {
    &&& 0 <= k < ups.len()
    &&& ups[k].name@ == name
    &&& forall|j: int| 0 <= j < k ==> ups[j].name@ != name
}

/// The upstream's authentication source, if it names an upstream, names a
/// configured one.
pub open spec fn spec_auth_resolvable(ups: Seq<NamedUpstream>, u: &Upstream) -> bool {
    match u.authentication {
        Some(a) => match a.source {
            AuthenticationSource::Upstream { name, .. } => spec_has_name(ups, name@),
            AuthenticationSource::Path(_) => true,
        },
        None => true,
    }
}

/// Every name the configuration refers to names a configured upstream.
pub open spec fn spec_resolvable(c: &Config) -> bool {
    &&& forall|i: int|
        0 <= i < c.rules@.len() ==> spec_has_name(c.upstreams@, #[trigger] c.rules@[i].upstream@)
    &&& forall|k: int|
        0 <= k < c.upstreams@.len() ==> spec_auth_resolvable(
            c.upstreams@,
            &(#[trigger] c.upstreams@[k]).upstream,
        )
}

/// `new` is `orig` with its upstream name resolved to the first index that
/// carries it; every other field is unchanged.
pub open spec fn spec_rule_resolved(ups: Seq<NamedUpstream>, orig: &Rule, new: &Rule) -> bool {
    &&& new.path == orig.path
    &&& new.remove_match == orig.remove_match
    &&& new.match_headers == orig.match_headers
    &&& new.upstream == orig.upstream
    &&& new.cache == orig.cache
    &&& new.cache_key == orig.cache_key
    &&& spec_first_index(ups, orig.upstream@, new.upstream_key as int)
}

/// `new` is `orig` with its own key set to `k` and any named authentication
/// source resolved to the first index carrying that name; every other field is
/// unchanged.
pub open spec fn spec_upstream_resolved(
    ups: Seq<NamedUpstream>,
    orig: &NamedUpstream,
    new: &NamedUpstream,
    k: int,
) -> bool {
    &&& new.name == orig.name
    &&& new.upstream.addr == orig.upstream.addr
    &&& new.upstream.max_connections == orig.upstream.max_connections
    &&& new.upstream.key == k
    &&& match (orig.upstream.authentication, new.upstream.authentication) {
        (None, None) => true,
        (Some(a), Some(b)) => {
            &&& b.exclude == a.exclude
            &&& match (a.source, b.source) {
                (AuthenticationSource::Path(p), AuthenticationSource::Path(q)) => p == q,
                (
                    AuthenticationSource::Upstream { name: n1, path: p1, .. },
                    AuthenticationSource::Upstream { name: n2, path: p2, key: k2 },
                ) => n1 == n2 && p1 == p2 && spec_first_index(ups, n1@, k2 as int),
                _ => false,
            }
        },
        _ => false,
    }
}

/// `new` is `orig` with every key resolved and everything else unchanged.
pub open spec fn spec_resolved(orig: &Config, new: &Config) -> bool {
    &&& new.addr == orig.addr
    &&& new.tls == orig.tls
    &&& new.max_connections == orig.max_connections
    &&& new.rules@.len() == orig.rules@.len()
    &&& forall|i: int|
        0 <= i < orig.rules@.len() ==> spec_rule_resolved(
            new.upstreams@,
            &orig.rules@[i],
            &(#[trigger] new.rules@[i]),
        )
    &&& new.upstreams@.len() == orig.upstreams@.len()
    &&& forall|k: int|
        0 <= k < orig.upstreams@.len() ==> spec_upstream_resolved(
            new.upstreams@,
            &orig.upstreams@[k],
            &(#[trigger] new.upstreams@[k]),
            k,
        )
}

/// Looks up the first upstream carrying `name`.
pub fn find_upstream(ups: &Vec<NamedUpstream>, name: &str) -> (r: Option<usize>)
    ensures
        match r {
            Some(k) => spec_first_index(ups@, name@, k as int),
            None => !spec_has_name(ups@, name@),
        },
{
    let mut k: usize = 0;
    while k < ups.len()
        invariant
            k <= ups@.len(),
            forall|j: int| 0 <= j < k ==> ups@[j].name@ != name@,
        decreases ups@.len() - k,
    {
        if str_eq(ups[k].name.as_str(), name) {
            return Some(k);
        }
        k += 1;
    }
    None
}

/// Resolves every upstream name in the configuration to a dense index: each
/// upstream's own key becomes its position, each rule's `upstream_key` the
/// position of the upstream it names, and each named authentication source's
/// key the position of the upstream it names. Fails exactly when some name
/// does not name a configured upstream.
pub fn resolve_keys(cfg: Config) -> (r: Result<Config, Error>)
    ensures
        r is Ok <==> spec_resolvable(&cfg),
        r matches Ok(c) ==> spec_resolved(&cfg, &c),
{
    let Config { addr, tls, mut rules, upstreams, max_connections } = cfg;
    let ghost orig_rules = rules@;
    let ghost orig_ups = upstreams@;

    // Resolve each authentication source first, while the upstream list is whole.
    let mut auth_keys: Vec<Option<usize>> = Vec::new();
    let mut k: usize = 0;
    while k < upstreams.len()
        invariant
            orig_ups == cfg.upstreams@,
            upstreams@ == orig_ups,
            k <= orig_ups.len(),
            auth_keys@.len() == k,
            forall|j: int|
                0 <= j < k ==> match (#[trigger] orig_ups[j]).upstream.authentication {
                    Some(a) => match a.source {
                        AuthenticationSource::Upstream { name, .. } => auth_keys@[j] matches Some(x)
                            && spec_first_index(orig_ups, name@, x as int),
                        AuthenticationSource::Path(_) => auth_keys@[j] is None,
                    },
                    None => auth_keys@[j] is None,
                },
        decreases orig_ups.len() - k,
    {
        let entry: Option<usize> = match &upstreams[k].upstream.authentication {
            Some(a) => match &a.source {
                AuthenticationSource::Upstream { name, .. } => {
                    match find_upstream(&upstreams, name.as_str()) {
                        Some(x) => Some(x),
                        None => {
                            proof {
                                assert(!spec_auth_resolvable(
                                    cfg.upstreams@,
                                    &cfg.upstreams@[k as int].upstream,
                                ));
                                assert(!spec_resolvable(&cfg));
                            }
                            return Err(Error::Config(String::from_str(
                                "authentication names an unknown upstream",
                            )));
                        },
                    }
                },
                AuthenticationSource::Path(_) => None,
            },
            None => None,
        };
        auth_keys.push(entry);
        k += 1;
    }

    // Resolve each rule's upstream name.
    let mut new_rules: Vec<Rule> = Vec::new();
    while rules.len() > 0
        invariant
            orig_ups == cfg.upstreams@,
            orig_rules == cfg.rules@,
            upstreams@ == orig_ups,
            new_rules@.len() + rules@.len() == orig_rules.len(),
            rules@ =~= orig_rules.skip(new_rules@.len() as int),
            forall|i: int|
                0 <= i < new_rules@.len() ==> spec_rule_resolved(
                    orig_ups,
                    &orig_rules[i],
                    &(#[trigger] new_rules@[i]),
                ),
        decreases rules@.len(),
    {
        let ghost n = new_rules@.len() as int;
        let rule = rules.remove(0);
        proof {
            assert(rule == orig_rules[n]);
            assert(rules@ =~= orig_rules.skip(n + 1));
        }
        match find_upstream(&upstreams, rule.upstream.as_str()) {
            Some(x) => {
                let Rule { path, remove_match, match_headers, upstream, cache, cache_key, .. } =
                    rule;
                new_rules.push(
                    Rule {
                        path,
                        remove_match,
                        match_headers,
                        upstream,
                        cache,
                        upstream_key: x,
                        cache_key,
                    },
                );
            },
            None => {
                proof {
                    assert(cfg.rules@[n] == orig_rules[n]);
                    assert(!spec_has_name(cfg.upstreams@, cfg.rules@[n].upstream@));
                    assert(!spec_resolvable(&cfg));
                }
                return Err(Error::Config(String::from_str("rule names an unknown upstream")));
            },
        }
    }

    // Assign each upstream its own key and the resolved authentication key.
    let mut upstreams = upstreams;
    let mut new_ups: Vec<NamedUpstream> = Vec::new();
    while upstreams.len() > 0
        invariant
            auth_keys@.len() == orig_ups.len(),
            forall|j: int|
                0 <= j < orig_ups.len() ==> match (#[trigger] orig_ups[j]).upstream.authentication {
                    Some(a) => match a.source {
                        AuthenticationSource::Upstream { name, .. } => auth_keys@[j] matches Some(x)
                            && spec_first_index(orig_ups, name@, x as int),
                        AuthenticationSource::Path(_) => auth_keys@[j] is None,
                    },
                    None => auth_keys@[j] is None,
                },
            new_ups@.len() + upstreams@.len() == orig_ups.len(),
            upstreams@ =~= orig_ups.skip(new_ups@.len() as int),
            forall|j: int|
                0 <= j < new_ups@.len() ==> spec_upstream_resolved(
                    orig_ups,
                    &orig_ups[j],
                    &(#[trigger] new_ups@[j]),
                    j,
                ),
            forall|j: int| 0 <= j < new_ups@.len() ==> (#[trigger] new_ups@[j]).name == orig_ups[j].name,
        decreases upstreams@.len(),
    {
        let idx = new_ups.len();
        let ghost n = new_ups@.len() as int;
        let nu = upstreams.remove(0);
        proof {
            assert(nu == orig_ups[n]);
            assert(upstreams@ =~= orig_ups.skip(n + 1));
        }
        let NamedUpstream { name, upstream } = nu;
        let Upstream { addr: uaddr, max_connections: umax, authentication, .. } = upstream;
        let new_auth: Option<Authentication> = match authentication {
            None => None,
            Some(a) => {
                let Authentication { exclude, source } = a;
                let new_source: AuthenticationSource = match source {
                    AuthenticationSource::Path(p) => AuthenticationSource::Path(p),
                    AuthenticationSource::Upstream { name: an, path: ap, .. } => {
                        let x: usize = match auth_keys[idx] {
                            Some(x) => x,
                            None => {
                                proof {
                                    assert(false);
                                }
                                0
                            },
                        };
                        AuthenticationSource::Upstream { name: an, path: ap, key: x }
                    },
                };
                Some(Authentication { exclude, source: new_source })
            },
        };
        new_ups.push(
            NamedUpstream {
                name,
                upstream: Upstream {
                    addr: uaddr,
                    max_connections: umax,
                    authentication: new_auth,
                    key: idx,
                },
            },
        );
    }

    proof {
        assert(forall|j: int|
            0 <= j < orig_ups.len() ==> (#[trigger] new_ups@[j]).name@ == orig_ups[j].name@);
        assert forall|i: int| 0 <= i < orig_rules.len() implies spec_rule_resolved(
            new_ups@,
            &orig_rules[i],
            &new_rules@[i],
        ) by {
            assert(spec_rule_resolved(orig_ups, &orig_rules[i], &new_rules@[i]));
            let key = new_rules@[i].upstream_key as int;
            assert(new_ups@[key].name@ == orig_ups[key].name@);
            assert forall|j: int| 0 <= j < key implies new_ups@[j].name@
                != orig_rules[i].upstream@ by {
                assert(new_ups@[j].name@ == orig_ups[j].name@);
            }
        }
        assert forall|k2: int| 0 <= k2 < orig_ups.len() implies spec_upstream_resolved(
            new_ups@,
            &orig_ups[k2],
            &new_ups@[k2],
            k2,
        ) by {
            assert(spec_upstream_resolved(orig_ups, &orig_ups[k2], &new_ups@[k2], k2));
            match (orig_ups[k2].upstream.authentication, new_ups@[k2].upstream.authentication) {
                (Some(a), Some(b)) => {
                    match (a.source, b.source) {
                        (
                            AuthenticationSource::Upstream { name: n1, .. },
                            AuthenticationSource::Upstream { key: key2, .. },
                        ) => {
                            assert(spec_first_index(orig_ups, n1@, key2 as int));
                            assert(new_ups@[key2 as int].name@ == orig_ups[key2 as int].name@);
                            assert forall|j: int| 0 <= j < key2 as int implies new_ups@[j].name@
                                != n1@ by {
                                assert(new_ups@[j].name@ == orig_ups[j].name@);
                            }
                        },
                        _ => {},
                    }
                },
                _ => {},
            }
        }
    }

    Ok(Config { addr, tls, rules: new_rules, upstreams: new_ups, max_connections })
}

/// Rules stand in non-decreasing predicate order.
pub open spec fn rules_sorted(s: Seq<Rule>) -> bool {
    forall|i: int, j: int| 0 <= i < j < s.len() ==> spec_le(&s[i].path, &s[j].path)
}

/// Sorts rules by predicate order, the order the handler scans them in:
/// the result is sorted and holds exactly the given rules.
pub fn sort_rules(rules: Vec<Rule>) -> (r: Vec<Rule>)
    ensures
        rules_sorted(r@),
        r@.to_multiset() == rules@.to_multiset(),
{
    let ghost orig = rules@;
    let mut remaining = rules;
    let mut out: Vec<Rule> = Vec::new();
    while remaining.len() > 0
        invariant
            out@.to_multiset().add(remaining@.to_multiset()) == orig.to_multiset(),
            rules_sorted(out@),
            forall|i: int, j: int|
                0 <= i < out@.len() && 0 <= j < remaining@.len() ==> spec_le(
                    &(#[trigger] out@[i]).path,
                    &(#[trigger] remaining@[j]).path,
                ),
        decreases remaining@.len(),
    {
        let mut best: usize = 0;
        let mut c: usize = 1;
        while c < remaining.len()
            invariant
                0 < remaining@.len(),
                best < c,
                c <= remaining@.len(),
                forall|j: int|
                    0 <= j < c ==> spec_le(
                        &remaining@[best as int].path,
                        &(#[trigger] remaining@[j]).path,
                    ),
            decreases remaining@.len() - c,
        {
            if remaining[c].path.le(&remaining[best].path) && !remaining[best].path.le(
                &remaining[c].path,
            ) {
                proof {
                    assert forall|j: int| 0 <= j < c implies spec_le(
                        &remaining@[c as int].path,
                        &(#[trigger] remaining@[j]).path,
                    ) by {
                        lemma_le_trans(
                            &remaining@[c as int].path,
                            &remaining@[best as int].path,
                            &remaining@[j].path,
                        );
                    }
                }
                best = c;
            } else {
                proof {
                    lemma_le_total(&remaining@[best as int].path, &remaining@[c as int].path);
                }
            }
            c += 1;
        }
        let ghost old_rem = remaining@;
        let x = remaining.remove(best);
        proof {
            assert(old_rem.contains(old_rem[best as int]));
            assert(old_rem.to_multiset().count(x) > 0);
            assert(out@.push(x).to_multiset().add(remaining@.to_multiset()) =~= orig.to_multiset());
            assert forall|j: int| 0 <= j < remaining@.len() implies spec_le(
                &x.path,
                &(#[trigger] remaining@[j]).path,
            ) by {
                if j < best as int {
                    assert(remaining@[j] == old_rem[j]);
                } else {
                    assert(remaining@[j] == old_rem[j + 1]);
                }
            }
        }
        out.push(x);
    }
    proof {
        assert(remaining@.to_multiset().len() == 0);
        assert(out@.to_multiset().add(remaining@.to_multiset()) =~= out@.to_multiset());
    }
    out
}

/// Sorted rules keep the tag order `Start`, then `Contains`, then `Regex`,
/// and within one tag the longer text comes first.
pub proof fn lemma_sorted_rules_priority(s: Seq<Rule>, i: int, j: int)
    requires
        rules_sorted(s),
        0 <= i < j < s.len(),
    ensures
        s[i].path is Contains ==> !(s[j].path is Start),
        s[i].path is Regex ==> s[j].path is Regex,
        spec_priority(&s[i].path) == spec_priority(&s[j].path) ==> spec_length(&s[i].path)
            >= spec_length(&s[j].path),
{
    assert(spec_le(&s[i].path, &s[j].path));
}

} // verus!
