use vstd::prelude::*;

use regex::Regex;

verus! {

#[verifier::external_type_specification]
#[verifier::external_body]
pub struct ExRegex(regex::Regex);

#[verifier::external_type_specification]
#[verifier::external_body]
pub struct ExRegexError(regex::Error);

/// Whether `regex::Regex::new` accepts this pattern.
pub uninterp spec fn regex_compiles(pattern: Seq<char>) -> bool;

/// Whether the regular expression compiled from `pattern` finds a match in
/// `haystack` (`regex::Regex::captures` returns `Some`).
pub uninterp spec fn regex_captures(pattern: Seq<char>, haystack: Seq<char>) -> bool;

/// A regular expression together with the pattern it was compiled from.
///
/// Values are only made by [`compile_pattern`], so `regex` is always the
/// compilation of `source`.
pub struct CompiledPattern {
    source: String,
    regex: Regex,
}

impl CompiledPattern {
    /// The pattern this regular expression was compiled from.
    pub closed spec fn source(&self) -> Seq<char> {
        self.source@
    }
}

/// Calls `regex::Regex::new`. Trusted: the result is `Ok` exactly when the
/// pattern compiles (a function of the pattern alone), and the compiled value
/// remembers its pattern. What the regex crate accepts is named, not stated.
#[verifier::external_body]
pub(crate) fn compile_pattern(pattern: &str) -> (r: Result<CompiledPattern, regex::Error>)
    ensures
        r is Ok <==> regex_compiles(pattern@),
        r matches Ok(c) ==> c.source() == pattern@,
{
    match Regex::new(pattern) {
        Ok(regex) => Ok(CompiledPattern { source: pattern.to_string(), regex }),
        Err(e) => Err(e),
    }
}

/// Calls `regex::Regex::captures` and tells whether it returned `Some`.
/// Trusted: the answer is the named match relation between the pattern the
/// value was compiled from and the haystack.
#[verifier::external_body]
pub(crate) fn captures_found(compiled: &CompiledPattern, haystack: &str) -> (r: bool)
    ensures
        r == regex_captures(compiled.source(), haystack@),
{
    compiled.regex.captures(haystack).is_some()
}

} // verus!
