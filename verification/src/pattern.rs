//! The compiled pattern type and its parse/print leaf operations.

use vstd::prelude::*;

verus! {

/// Whether a source string is valid pattern syntax, that is, whether the
/// pattern engine accepts it. Which strings the engine accepts is decided by
/// its grammar alone, so this is a pure function of the string; nothing more
/// is assumed about it.
pub uninterp spec fn valid_pattern(s: Seq<char>) -> bool;

/// The one domain error: a source string that is not valid pattern syntax.
/// `message` carries the engine's own description of the fault.
#[derive(Debug)]
pub struct PatternError {
    /// The pattern engine's description of the syntax fault.
    pub message: String,
}

/// The pattern engine's compiled matcher type, opaque to verification; values
/// of it are only carried, never inspected.
#[verifier::external_type_specification]
#[verifier::external_body]
pub struct ExRegex(fancy_regex::Regex);

/// Relies on `fancy_regex::Regex`'s `Clone`: duplicates the compiled matcher.
/// Nothing is assumed of the duplicate; the matcher is opaque either way.
pub assume_specification[ <fancy_regex::Regex as Clone>::clone ](
    regex: &fancy_regex::Regex,
) -> fancy_regex::Regex;

/// Relies on `fancy_regex::Regex::new`: compiles a source string into a
/// matcher, or reports a syntax error. Success depends only on the string,
/// named here `valid_pattern`. The error arm carries the engine's message.
#[verifier::external_body]
fn compile_regex(source: &str) -> (r: Result<fancy_regex::Regex, String>)
    ensures
        r is Ok <==> valid_pattern(source@),
{
    match fancy_regex::Regex::new(source) {
        Ok(regex) => Ok(regex),
        Err(err) => Err(format!("{}", err)),
    }
}

/// A compiled pattern together with the source string it was compiled from.
/// The matcher itself has no observable structure; the source string is the
/// pattern's entire wire representation, so it serves as the type's view.
#[derive(Debug, Clone)]
pub struct Pattern {
    regex: fancy_regex::Regex,
    source: String,
}

impl View for Pattern {
    type V = Seq<char>;

    closed spec fn view(&self) -> Seq<char> {
        self.source@
    }
}

impl Pattern {
    /// Every pattern holds a source string that the engine accepts, so
    /// re-parsing what a pattern encodes to always succeeds.
    pub closed spec fn wf(self) -> bool {
        valid_pattern(self.source@)
    }

    /// Decode a single pattern from its source string: compile it, keeping
    /// the source alongside the matcher. Succeeds exactly on valid pattern
    /// syntax; the error carries the engine's message.
    pub fn parse(source: &str) -> (r: Result<Pattern, PatternError>)
        ensures
            r is Ok <==> valid_pattern(source@),
            r is Ok ==> r->Ok_0@ == source@ && r->Ok_0.wf(),
    {
        match compile_regex(source) {
            Ok(regex) => Ok(Pattern { regex, source: String::from_str(source) }),
            Err(message) => Err(PatternError { message }),
        }
    }

    /// Encode the pattern: its wire representation is exactly the source
    /// string it was compiled from.
    pub fn source(&self) -> (r: &str)
        ensures
            r@ == self@,
    {
        self.source.as_str()
    }

    /// The compiled matcher, for callers that want to match text against the
    /// decoded pattern.
    pub fn regex(&self) -> &fancy_regex::Regex {
        &self.regex
    }
}

} // verus!
