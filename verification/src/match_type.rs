use vstd::prelude::*;

use crate::pattern::{regex_match, CompiledRegex};
use crate::strutil::{contains_seq, str_contains, str_ends_with, str_eq, str_starts_with};

verus! {

/// A path or header predicate of a rule.
pub enum MatchType {
    /// Matches when the subject starts with the stored text.
    Start(String),
    /// Matches when the stored text occurs anywhere in the subject.
    Contains(String),
    /// Matches when the stored regular expression matches the subject.
    Regex(CompiledRegex),
}

/// The outcome of applying one `MatchType` to a subject, tagged like the predicate.
pub enum MatchResult {
    Start(bool),
    Contains(bool),
    Regex(bool),
}

/// What a `MatchType` means, applied to a subject string.
pub open spec fn spec_matches(m: &MatchType, s: Seq<char>) -> bool {
    match m {
        MatchType::Start(p) => p@.is_prefix_of(s),
        MatchType::Contains(p) => contains_seq(s, p@),
        MatchType::Regex(c) => regex_match(c.pattern(), s),
    }
}

/// The boolean carried by a `MatchResult`.
pub open spec fn spec_result_is_match(r: &MatchResult) -> bool {
    match r {
        MatchResult::Start(b) => *b,
        MatchResult::Contains(b) => *b,
        MatchResult::Regex(b) => *b,
    }
}

/// Priority of a predicate tag: cheaper predicates come first.
pub open spec fn spec_priority(m: &MatchType) -> int {
    match m {
        MatchType::Start(_) => 0,
        MatchType::Contains(_) => 1,
        MatchType::Regex(_) => usize::MAX as int,
    }
}

/// Length of the stored literal or pattern text, the tie-breaker for ordering.
pub open spec fn spec_length(m: &MatchType) -> nat {
    match m {
        MatchType::Start(p) => p@.len(),
        MatchType::Contains(p) => p@.len(),
        MatchType::Regex(c) => c.pattern().len(),
    }
}

/// Rule ordering: lower priority tag first; within a tag, longer text first.
pub open spec fn spec_le(a: &MatchType, b: &MatchType) -> bool {
    spec_priority(a) < spec_priority(b) || (spec_priority(a) == spec_priority(b)
        && spec_length(a) >= spec_length(b))
}

/// The rule order relates any two predicates.
pub proof fn lemma_le_total(a: &MatchType, b: &MatchType)
    ensures
        spec_le(a, b) || spec_le(b, a),
{
}

/// The rule order is transitive.
pub proof fn lemma_le_trans(a: &MatchType, b: &MatchType, c: &MatchType)
    requires
        spec_le(a, b),
        spec_le(b, c),
    ensures
        spec_le(a, c),
{
}

impl MatchResult {
    pub fn is_match(&self) -> (r: bool)
        ensures
            r == spec_result_is_match(self),
    {
        match self {
            MatchResult::Start(matched) => *matched,
            MatchResult::Contains(matched) => *matched,
            MatchResult::Regex(matched) => *matched,
        }
    }
}

impl MatchType {
    pub fn matches(&self, subject: &str) -> (r: MatchResult)
        ensures
            spec_result_is_match(&r) == spec_matches(self, subject@),
            self is Start <==> r is Start,
            self is Contains <==> r is Contains,
            self is Regex <==> r is Regex,
    {
        match self {
            MatchType::Start(pattern) => MatchResult::Start(str_starts_with(subject, pattern.as_str())),
            MatchType::Contains(pattern) => MatchResult::Contains(str_contains(subject, pattern.as_str())),
            MatchType::Regex(regex) => MatchResult::Regex(regex.is_match(subject)),
        }
    }

    pub fn priority(&self) -> (r: usize)
        ensures
            r == spec_priority(self),
    {
        match self {
            MatchType::Start(_) => 0,
            MatchType::Contains(_) => 1,
            MatchType::Regex(_) => usize::MAX,
        }
    }

    pub fn length(&self) -> (r: usize)
        ensures
            r == spec_length(self),
    {
        match self {
            MatchType::Start(pat) => pat.as_str().unicode_len(),
            MatchType::Contains(pat) => pat.as_str().unicode_len(),
            MatchType::Regex(re) => re.pattern_str().unicode_len(),
        }
    }

    /// The sort order used for rule priority at startup.
    pub fn le(&self, other: &MatchType) -> (r: bool)
        ensures
            r == spec_le(self, other),
    {
        let pa = self.priority();
        let pb = other.priority();
        if pa < pb {
            true
        } else if pa == pb {
            self.length() >= other.length()
        } else {
            false
        }
    }
}

impl PartialEq for MatchType {
    fn eq(&self, other: &Self) -> (r: bool) {
        match (self, other) {
            (MatchType::Start(pat), MatchType::Start(other_pat)) => {
                str_eq(pat.as_str(), other_pat.as_str())
            },
            (MatchType::Contains(pat), MatchType::Contains(other_pat)) => {
                str_eq(pat.as_str(), other_pat.as_str())
            },
            (MatchType::Regex(re), MatchType::Regex(other_re)) => {
                str_eq(re.pattern_str(), other_re.pattern_str())
            },
            _ => false,
        }
    }
}

impl Eq for MatchType {}

impl vstd::std_specs::cmp::PartialEqSpecImpl for MatchType {
    open spec fn obeys_eq_spec() -> bool {
        true
    }

    open spec fn eq_spec(&self, other: &Self) -> bool {
        match (self, other) {
            (MatchType::Start(pat), MatchType::Start(other_pat)) => pat@ == other_pat@,
            (MatchType::Contains(pat), MatchType::Contains(other_pat)) => pat@ == other_pat@,
            (MatchType::Regex(re), MatchType::Regex(other_re)) => re.pattern() == other_re.pattern(),
            _ => false,
        }
    }
}

/// Error from parsing a `MatchType` out of its textual form.
#[derive(Debug)]
pub struct MatchTypeFromStrError(String);

impl MatchTypeFromStrError {
    pub fn message(&self) -> (r: &String) {
        &self.0
    }
}

/// Textual form `regex(<pattern>)`.
pub open spec fn spec_regex_form(s: Seq<char>) -> bool {
    s.len() >= 7 && "regex("@.is_prefix_of(s) && ")"@.is_suffix_of(s)
}

/// Textual form `contains(<text>)`.
pub open spec fn spec_contains_form(s: Seq<char>) -> bool {
    s.len() >= 10 && "contains("@.is_prefix_of(s) && ")"@.is_suffix_of(s)
}

impl MatchType {
    /// Parses the textual form of a predicate: `regex(...)` compiles the inner
    /// pattern, `contains(...)` stores the inner text, and anything else is a
    /// `Start` predicate holding the whole string. Only an invalid regular
    /// expression is an error.
    pub fn from_str(s: &str) -> (r: Result<MatchType, MatchTypeFromStrError>)
        ensures
            spec_regex_form(s@) ==> match r {
                Ok(m) => m matches MatchType::Regex(c) && c.pattern() == s@.subrange(
                    6,
                    s@.len() - 1,
                ),
                Err(_) => true,
            },
            !spec_regex_form(s@) && spec_contains_form(s@) ==> (r matches Ok(m) && m matches
                MatchType::Contains(p) && p@ == s@.subrange(9, s@.len() - 1)),
            !spec_regex_form(s@) && !spec_contains_form(s@) ==> (r matches Ok(m) && m matches
                MatchType::Start(p) && p@ == s@),
            r is Err ==> spec_regex_form(s@),
    {
        proof {
            reveal_strlit("regex(");
            reveal_strlit("contains(");
            reveal_strlit(")");
        }
        let slen = s.unicode_len();
        if slen >= 7 && str_starts_with(s, "regex(") && str_ends_with(s, ")") {
            let inner = s.substring_char(6, slen - 1);
            match CompiledRegex::compile(inner) {
                Some(c) => Ok(MatchType::Regex(c)),
                None => Err(MatchTypeFromStrError(String::from_str("invalid regex pattern"))),
            }
        } else if slen >= 10 && str_starts_with(s, "contains(") && str_ends_with(s, ")") {
            let inner = s.substring_char(9, slen - 1);
            Ok(MatchType::Contains(inner.to_owned()))
        } else {
            Ok(MatchType::Start(s.to_owned()))
        }
    }
}

} // verus!
