//! Shell-style file name patterns, from the `glob` crate.
use vstd::prelude::*;

verus! {

#[verifier::external_type_specification]
#[verifier::external_body]
pub struct ExGlobPattern(glob::Pattern);

#[verifier::external_type_specification]
#[verifier::external_body]
pub struct ExGlobPatternError(glob::PatternError);

/// Whether `glob::Pattern::new` accepts a pattern.
pub uninterp spec fn glob_compiles(pattern: Seq<char>) -> bool;

/// Whether the compiled `pattern` matches `name`, as `Pattern::matches`
/// decides it (default match options).
pub uninterp spec fn glob_matches(pattern: Seq<char>, name: Seq<char>) -> bool;

/// A compiled glob pattern together with its source text.
pub struct CompiledGlob {
    pattern: glob::Pattern,
    source: Ghost<Seq<char>>,
}

impl View for CompiledGlob {
    type V = Seq<char>;

    /// The text the pattern was compiled from.
    closed spec fn view(&self) -> Seq<char> {
        self.source@
    }
}

/// Compiles a glob pattern.
///
/// Trusted: calls `glob::Pattern::new`. The claim is that it succeeds
/// exactly when `glob_compiles(pattern)` and that a success is the compiled
/// form of `pattern`. The error value is passed on as `glob` made it.
#[verifier::external_body]
pub(crate) fn compile_glob(pattern: &str) -> (r: Result<CompiledGlob, glob::PatternError>)
    ensures
        r is Ok <==> glob_compiles(pattern@),
        r matches Ok(g) ==> g@ == pattern@,
{
    match glob::Pattern::new(pattern) {
        Ok(p) => Ok(CompiledGlob { pattern: p, source: Ghost(pattern@) }),
        Err(e) => Err(e),
    }
}

/// Whether a compiled pattern matches `name`.
///
/// Trusted: calls `glob::Pattern::matches`; its answer is named
/// `glob_matches` of the pattern's text and the name.
#[verifier::external_body]
pub(crate) fn glob_is_match(g: &CompiledGlob, name: &str) -> (r: bool)
    ensures
        r == glob_matches(g@, name@),
{
    g.pattern.matches(name)
}

} // verus!
