//! Compiled regular expressions, from the `regex` crate.
use vstd::prelude::*;
use crate::paths::opt_view;

verus! {

#[verifier::external_type_specification]
#[verifier::external_body]
pub struct ExRegex(regex::Regex);

#[verifier::external_type_specification]
#[verifier::external_body]
pub struct ExRegexError(regex::Error);

/// Whether `regex::Regex::new` accepts a pattern (it is valid and within
/// the default size limit).
pub uninterp spec fn regex_compiles(pattern: Seq<char>) -> bool;

/// For each match of `pattern` in `haystack`, left to right, as
/// `Regex::captures_iter` finds them: the text of capture group 1, or
/// `None` when that group took no part in the match.
pub uninterp spec fn regex_first_groups(pattern: Seq<char>, haystack: Seq<char>) -> Seq<
    Option<Seq<char>>,
>;

/// A compiled regular expression together with the pattern it was compiled
/// from.
pub struct CompiledPattern {
    regex: regex::Regex,
    source: Ghost<Seq<char>>,
}

impl View for CompiledPattern {
    type V = Seq<char>;

    /// The pattern the expression was compiled from.
    closed spec fn view(&self) -> Seq<char> {
        self.source@
    }
}

/// Compiles `pattern`.
///
/// Trusted: calls `regex::Regex::new`. The claim is that it succeeds exactly
/// when `regex_compiles(pattern)`, and that a success is the compiled form
/// of `pattern`. The error value is passed on as `regex` made it.
#[verifier::external_body]
pub(crate) fn compile_regex(pattern: &str) -> (r: Result<CompiledPattern, regex::Error>)
    ensures
        r is Ok <==> regex_compiles(pattern@),
        r matches Ok(c) ==> c@ == pattern@,
{
    match regex::Regex::new(pattern) {
        Ok(regex) => Ok(CompiledPattern { regex, source: Ghost(pattern@) }),
        Err(e) => Err(e),
    }
}

/// The message of a `regex` error.
///
/// Trusted: calls `to_string` on `regex::Error` (its `Display`). Nothing is
/// stated of the text: the error value is opaque here.
#[verifier::external_body]
pub(crate) fn regex_error_text(e: &regex::Error) -> String {
    e.to_string()
}

/// The capture group 1 of each match of `re` in `haystack`.
///
/// Trusted: calls `Regex::captures_iter`, and for each `Captures` reads
/// `get(1)` and the matched text (`Match::as_str`). The claim is that the
/// result is `regex_first_groups` of the compiled pattern and the haystack.
#[verifier::external_body]
pub(crate) fn first_groups(re: &CompiledPattern, haystack: &str) -> (r: Vec<Option<String>>)
    ensures
        r@.map_values(|o: Option<String>| opt_view(o)) == regex_first_groups(re@, haystack@),
{
    re.regex.captures_iter(haystack).map(|c| c.get(1).map(|m| m.as_str().to_string())).collect()
}

} // verus!
