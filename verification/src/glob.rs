//! The pattern matcher: a thin layer over globset. An empty pattern
//! means "every file", and is compiled as `*`. What a glob matches is
//! globset's business; the library names the answer and builds its
//! contracts on the name.

use vstd::prelude::*;
use vstd::string::*;
use crate::errors::ErrorKind;

verus! {

#[verifier::external_type_specification]
#[verifier::external_body]
pub struct ExGlobSet(globset::GlobSet);

/// Whether globset accepts a pattern string: the glob parses and its
/// size-limited regex builds.
pub uninterp spec fn glob_compiles(pattern: Seq<char>) -> bool;

/// Whether globset's matcher for a pattern matches a name. The answer
/// depends on the pattern and the name alone.
pub uninterp spec fn glob_match(pattern: Seq<char>, name: Seq<char>) -> bool;

/// The pattern a filter actually compiles: an empty pattern selects
/// everything.
pub open spec fn normalized_pattern(pattern: Seq<char>) -> Seq<char> {
    if pattern.len() == 0 {
        "*"@
    } else {
        pattern
    }
}

/// A compiled glob, kept together with the text it was compiled from.
pub struct Matcher {
    pattern: String,
    inner: globset::GlobSet,
}

impl Matcher {
    /// The text this matcher was compiled from.
    pub closed spec fn spec_pattern(&self) -> Seq<char> {
        self.pattern@
    }

    /// Relies on globset::Glob::new and GlobSetBuilder::build: whether a
    /// pattern compiles depends on its text alone (`*`, a tiny pattern,
    /// always does), and the set holds the compiled form of exactly that
    /// one pattern. The set builder reports a pattern whose regex
    /// exceeds globset's size limit as an error, where a lone matcher's
    /// compilation would panic.
    #[verifier::external_body]
    fn compile(pattern: &str) -> (r: Option<Matcher>)
        ensures
            r is Some <==> glob_compiles(pattern@),
            pattern@ == "*"@ ==> r is Some,
            r matches Some(m) ==> m.spec_pattern() == pattern@,
    {
        let glob = match globset::Glob::new(pattern) {
            Ok(g) => g,
            Err(_) => return None,
        };
        let mut builder = globset::GlobSetBuilder::new();
        builder.add(glob);
        match builder.build() {
            Ok(set) => Some(Matcher { pattern: pattern.to_owned(), inner: set }),
            Err(_) => None,
        }
    }

    /// Relies on globset::GlobSet::is_match on the one-pattern set: the
    /// answer is a function of the compiled pattern text and the
    /// candidate name alone, and the pattern `*` (whose single token
    /// compiles, under the default options, to a match-anything regex)
    /// matches every name.
    #[verifier::external_body]
    pub fn is_match(&self, name: &str) -> (r: bool)
        ensures
            r == glob_match(self.spec_pattern(), name@),
            self.spec_pattern() == "*"@ ==> r,
    {
        self.inner.is_match(name)
    }
}

/// Compile a pattern, turning the empty pattern into match-everything.
/// An invalid or oversized glob is a user-facing error, never a panic.
pub fn glob(pattern: &str) -> (r: Result<Matcher, crate::errors::Error>)
    ensures
        r is Ok <==> glob_compiles(normalized_pattern(pattern@)),
        pattern@.len() == 0 ==> r is Ok,
        r matches Ok(m) ==> m.spec_pattern() == normalized_pattern(pattern@),
        r matches Err(e) ==> (e.kind matches ErrorKind::PatternError(p) && p@ == pattern@),
{
    let effective: &str = if pattern.is_empty() {
        "*"
    } else {
        pattern
    };
    match Matcher::compile(effective) {
        Some(m) => Ok(m),
        None => Err(
            crate::errors::Error::from_kind(ErrorKind::PatternError(String::from_str(pattern))),
        ),
    }
}

} // verus!
