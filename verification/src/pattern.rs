use vstd::prelude::*;

verus! {

#[verifier::external_type_specification]
#[verifier::external_body]
pub struct ExRegex(regex::Regex);

/// What `regex::Regex::is_match` returns for a given pattern text and subject:
/// regular-expression matching is a function of the two strings alone.
pub uninterp spec fn regex_match(pattern: Seq<char>, subject: Seq<char>) -> bool;

/// A compiled regular expression together with the pattern text it was built from.
/// The only way to construct one is `compile`, so the compiled value always
/// corresponds to the stored pattern text.
pub struct CompiledRegex {
    pattern: String,
    compiled: regex::Regex,
}

impl CompiledRegex {
    /// The pattern text this value was compiled from.
    pub closed spec fn pattern(&self) -> Seq<char> {
        self.pattern@
    }

    /// Relies on regex::Regex::new: `Some` exactly when it accepts the
    /// pattern; the stored pattern text is the argument itself.
    #[verifier::external_body]
    pub fn compile(pattern: &str) -> (r: Option<CompiledRegex>)
        ensures
            r matches Some(c) ==> c.pattern() == pattern@,
    {
        match regex::Regex::new(pattern) {
            Ok(compiled) => Some(CompiledRegex { pattern: pattern.to_owned(), compiled }),
            Err(_) => None,
        }
    }

    /// Relies on regex::Regex::is_match: whether the compiled pattern matches
    /// the subject; the result depends on the pattern and the subject alone.
    #[verifier::external_body]
    pub fn is_match(&self, subject: &str) -> (r: bool)
        ensures
            r == regex_match(self.pattern(), subject@),
    {
        self.compiled.is_match(subject)
    }

    /// The pattern text, for ordering and comparison of match predicates.
    pub fn pattern_str(&self) -> (r: &str)
        ensures
            r@ == self.pattern(),
    {
        self.pattern.as_str()
    }
}

} // verus!
