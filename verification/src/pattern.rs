//! Regular-expression rules, compiled by the `regex` crate.

use vstd::prelude::*;

verus! {

#[verifier::external_type_specification]
#[verifier::external_body]
pub struct ExRegex(regex::Regex);

/// Whether the `regex` crate accepts `pattern` (`Regex::new` returns `Ok`).
pub uninterp spec fn regex_compiles(pattern: Seq<char>) -> bool;

/// Whether the regex compiled from `pattern` finds a match anywhere in
/// `haystack` (`Regex::is_match`).
pub uninterp spec fn regex_finds(pattern: Seq<char>, haystack: Seq<char>) -> bool;

/// A compiled expression together with the source it was compiled from.
/// Only [`compile_pattern`] builds one, so `source` is always the text that
/// `re` was compiled from.
pub struct CompiledPattern {
    re: regex::Regex,
    source: String,
}

impl CompiledPattern {
    pub closed spec fn source(&self) -> Seq<char> {
        self.source@
    }
}

/// `regex::Regex::new`: succeeds exactly when the pattern is accepted
/// ([`regex_compiles`]); the compiled value keeps its source text.
#[verifier::external_body]
pub(crate) fn compile_pattern(pattern: &str) -> (r: Option<CompiledPattern>)
    ensures
        r is Some <==> regex_compiles(pattern@),
        r matches Some(c) ==> c.source() == pattern@,
{
    match regex::Regex::new(pattern) {
        Ok(re) => Some(CompiledPattern { re, source: pattern.to_string() }),
        Err(_) => None,
    }
}

/// `regex::Regex::is_match`: whether the expression matches somewhere in
/// `haystack`, named by [`regex_finds`] over the source and the haystack.
#[verifier::external_body]
pub(crate) fn pattern_is_match(c: &CompiledPattern, haystack: &str) -> (r: bool)
    ensures
        r == regex_finds(c.source(), haystack@),
{
    c.re.is_match(haystack)
}

} // verus!
