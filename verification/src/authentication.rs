use vstd::prelude::*;

use crate::pattern::{regex_match, CompiledRegex};
use crate::strutil::str_contains;

verus! {

/// Where an authentication sub-request is sent.
pub enum AuthenticationSource {
    /// Authenticate against another configured upstream.
    Upstream {
        /// Name of that upstream; must name a key of the configured upstreams.
        name: String,
        /// Path of the sub-request.
        path: String,
        /// Dense index of the named upstream, assigned at startup.
        key: usize,
    },
    /// Authenticate against the request's own upstream at this path.
    Path(String),
}

/// A literal path, or a pattern whose `*` wildcards each match one or more
/// characters.
pub enum PathWithWildCard {
    Path(String),
    WithWildCard(CompiledRegex),
}

/// Authentication demanded by an upstream.
pub struct Authentication {
    /// Paths that skip authentication.
    pub exclude: Vec<PathWithWildCard>,
    pub source: AuthenticationSource,
}

/// What a `PathWithWildCard` means, applied to a request path.
pub open spec fn spec_pwc_matches(p: &PathWithWildCard, subject: Seq<char>) -> bool {
    match p {
        PathWithWildCard::Path(path) => path@ == subject,
        PathWithWildCard::WithWildCard(re) => regex_match(re.pattern(), subject),
    }
}

/// `s` holds at least one `*`.
pub open spec fn has_wildcard(s: Seq<char>) -> bool {
    exists|i: int| 0 <= i < s.len() && s[i] == '*'
}

/// Each character of the pattern text, `*` expanded to the regex `.+`.
pub open spec fn expand_wildcards(s: Seq<char>) -> Seq<char>
    decreases s.len(),
{
    if s.len() == 0 {
        Seq::empty()
    } else {
        (if s[0] == '*' {
            seq!['.', '+']
        } else {
            seq![s[0]]
        }) + expand_wildcards(s.drop_first())
    }
}

/// The anchored regular expression a wildcard path is compiled to.
pub open spec fn wildcard_pattern(s: Seq<char>) -> Seq<char> {
    seq!['^'] + expand_wildcards(s) + seq!['$']
}

proof fn lemma_expand_push(t: Seq<char>, c: char)
    ensures
        expand_wildcards(t.push(c)) == expand_wildcards(t) + (if c == '*' {
            seq!['.', '+']
        } else {
            seq![c]
        }),
    decreases t.len(),
{
    let piece: Seq<char> = if c == '*' {
        seq!['.', '+']
    } else {
        seq![c]
    };
    if t.len() == 0 {
        assert(t.push(c)[0] == c);
        assert(t.push(c).drop_first() =~= Seq::<char>::empty());
        assert(expand_wildcards(Seq::<char>::empty()) == Seq::<char>::empty());
        assert(expand_wildcards(t.push(c)) =~= piece);
        assert(expand_wildcards(t) + piece =~= piece);
    } else {
        assert(t.push(c)[0] == t[0]);
        assert(t.push(c).drop_first() =~= t.drop_first().push(c));
        lemma_expand_push(t.drop_first(), c);
        assert(expand_wildcards(t.push(c)) =~= expand_wildcards(t) + piece);
    }
}

/// Builds the anchored regex text for a wildcard path.
fn wildcard_to_regex(s: &str) -> (r: String)
    ensures
        r@ == wildcard_pattern(s@),
{
    let slen = s.unicode_len();
    let mut out = String::from_str("^");
    proof {
        reveal_strlit("^");
        assert(out@ =~= seq!['^']);
        assert(s@.subrange(0, 0) =~= Seq::<char>::empty());
        assert(out@ =~= seq!['^'] + expand_wildcards(s@.subrange(0, 0)));
    }
    let mut i: usize = 0;
    while i < slen
        invariant
            slen == s@.len(),
            i <= slen,
            out@ == seq!['^'] + expand_wildcards(s@.subrange(0, i as int)),
        decreases slen - i,
    {
        let c = s.get_char(i);
        let ghost prefix = s@.subrange(0, i as int);
        if c == '*' {
            out.append(".+");
            proof {
                reveal_strlit(".+");
                assert(".+"@ =~= seq!['.', '+']);
            }
        } else {
            let piece = s.substring_char(i, i + 1);
            proof {
                assert(piece@ =~= seq![s@[i as int]]);
            }
            out.append(piece);
        }
        proof {
            assert(s@.subrange(0, i + 1) =~= prefix.push(s@[i as int]));
            lemma_expand_push(prefix, s@[i as int]);
        }
        i += 1;
    }
    proof {
        assert(s@.subrange(0, slen as int) =~= s@);
    }
    out.append("$");
    proof {
        reveal_strlit("$");
        assert("$"@ =~= seq!['$']);
        assert(out@ =~= wildcard_pattern(s@));
    }
    out
}

impl PathWithWildCard {
    /// Parses an exclude path: text without `*` is a literal path; text with
    /// `*` is compiled to an anchored regex with each `*` replaced by `.+`.
    /// `None` only when that regex does not compile.
    pub fn from_pattern(s: &str) -> (r: Option<PathWithWildCard>)
        ensures
            !has_wildcard(s@) ==> (r matches Some(p) && p matches PathWithWildCard::Path(q) && q@
                == s@),
            has_wildcard(s@) ==> match r {
                Some(p) => p matches PathWithWildCard::WithWildCard(re) && re.pattern()
                    == wildcard_pattern(s@),
                None => true,
            },
            r is None ==> has_wildcard(s@),
    {
        proof {
            reveal_strlit("*");
        }
        let found = str_contains(s, "*");
        proof {
            assert("*"@ =~= seq!['*']);
            if found {
                let i = choose|i: int| crate::strutil::occurs_at(s@, "*"@, i);
                assert(s@[i] == s@.subrange(i, i + 1)[0]);
            }
            if has_wildcard(s@) {
                let i = choose|i: int| 0 <= i < s@.len() && s@[i] == '*';
                assert(s@.subrange(i, i + 1) =~= "*"@);
                assert(crate::strutil::occurs_at(s@, "*"@, i));
            }
        }
        if !found {
            Some(PathWithWildCard::Path(s.to_owned()))
        } else {
            let re_text = wildcard_to_regex(s);
            match CompiledRegex::compile(re_text.as_str()) {
                Some(re) => Some(PathWithWildCard::WithWildCard(re)),
                None => None,
            }
        }
    }

    /// Whether this exclude entry matches a request path.
    pub fn matches(&self, subject_path: &str) -> (r: bool)
        ensures
            r == spec_pwc_matches(self, subject_path@),
    {
        match self {
            PathWithWildCard::Path(path) => crate::strutil::str_eq(path.as_str(), subject_path),
            PathWithWildCard::WithWildCard(re) => re.is_match(subject_path),
        }
    }
}

} // verus!
