//! Regular expressions over tag keys and values, matched by the `regex` crate.

use vstd::prelude::*;

verus! {

#[verifier::external_type_specification]
#[verifier::external_body]
pub struct ExRegex(regex::Regex);

/// Whether `pattern` compiles with `regex::Regex::new`.
pub uninterp spec fn regex_compiles(pattern: Seq<char>) -> bool;

/// Whether the compiled `pattern` matches somewhere in `text` (`Regex::is_match`).
pub uninterp spec fn regex_finds(pattern: Seq<char>, text: Seq<char>) -> bool;

/// A compiled regular expression together with its source pattern.
pub struct Pattern {
    source: String,
    compiled: regex::Regex,
}

/// `regex::Regex::new`: compiles `pattern`; `None` where the crate reports an error.
#[verifier::external_body]
fn compile_pattern(pattern: &str) -> (r: Option<Pattern>)
    ensures
        r is Some <==> regex_compiles(pattern@),
        r matches Some(p) ==> p.source@ == pattern@,
{
    match regex::Regex::new(pattern) {
        Ok(compiled) => Some(Pattern { source: pattern.to_string(), compiled }),
        Err(_) => None,
    }
}

/// `regex::Regex::is_match`: whether the pattern matches somewhere in `text`.
#[verifier::external_body]
fn pattern_is_match(p: &Pattern, text: &str) -> (b: bool)
    ensures
        b == regex_finds(p.source@, text@),
{
    p.compiled.is_match(text)
}

impl Pattern {
    /// The source text of the pattern.
    pub closed spec fn source_view(&self) -> Seq<char> {
        self.source@
    }

    /// Compiles a pattern; `None` when it is not a valid regular expression.
    pub fn new(pattern: &str) -> (r: Option<Pattern>)
        ensures
            r is Some <==> regex_compiles(pattern@),
            r matches Some(p) ==> p.source_view() == pattern@,
    {
        compile_pattern(pattern)
    }

    /// Whether the pattern matches somewhere in `text`.
    pub fn is_match(&self, text: &str) -> (b: bool)
        ensures
            b == regex_finds(self.source_view(), text@),
    {
        pattern_is_match(self, text)
    }

    /// The source text of the pattern.
    pub fn as_str(&self) -> (s: &str)
        ensures
            s@ == self.source_view(),
    {
        self.source.as_str()
    }
}

} // verus!
