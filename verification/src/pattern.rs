//! Line patterns. Matching is done by the `regex` crate; what a match
//! yields is named here, and everything built on it is proved against that
//! name.

use regex::Regex;
use vstd::prelude::*;

verus! {

/// `regex::Regex`, a compiled regular expression. Nothing is known of what
/// is inside one.
#[verifier::external_type_specification]
#[verifier::external_body]
pub struct ExRegex(Regex);

/// The pattern of a front-matter line: a percent sign, a key made of word
/// characters, a colon, and a value that runs to the end of the line.
pub const FIELD_PATTERN: &'static str = "% (\\w+): (.+)";

/// The patterns this library compiles.
pub open spec fn is_known_pattern(source: Seq<char>) -> bool {
    source == FIELD_PATTERN@
}

/// What the regular expression written as `pattern` captures in `haystack`:
/// `None` where it matches nowhere; else, for its leftmost match, the text of
/// each capture group from the first on, `None` for a group that took no part
/// in the match.
pub uninterp spec fn captures_of(pattern: Seq<char>, haystack: Seq<char>) -> Option<
    Seq<Option<Seq<char>>>,
>;

/// The view of what `LinePattern::captures` hands back.
pub open spec fn groups_view(groups: Option<Vec<Option<String>>>) -> Option<
    Seq<Option<Seq<char>>>,
> {
    match groups {
        Some(v) => Some(
            Seq::new(
                v@.len(),
                |i: int|
                    match v@[i] {
                        Some(s) => Some(s@),
                        None => None,
                    },
            ),
        ),
        None => None,
    }
}

/// A compiled pattern, kept together with the text it was compiled from.
/// Only `compile` makes one, so the two always belong together.
pub struct LinePattern {
    source: String,
    compiled: Regex,
}

impl LinePattern {
    /// The text of the pattern.
    pub closed spec fn source(&self) -> Seq<char> {
        self.source@
    }

    /// Calls `Regex::new` on `source` and keeps the text beside the result.
    /// The contract claims that the pattern of this library compiles: it
    /// is well formed and far below the size limit of `regex`.
    #[verifier::external_body]
    pub(crate) fn compile(source: &str) -> (pattern: LinePattern)
        requires
            is_known_pattern(source@),
        ensures
            pattern.source() == source@,
    {
        LinePattern { source: source.to_string(), compiled: Regex::new(source).unwrap() }
    }

    /// Calls `Regex::captures` on `haystack` and copies out, with
    /// `Captures::iter` and `Match::as_str`, the text of each capture group
    /// but the whole match. The contract claims that the result is a
    /// function of the pattern's text and of the haystack, named
    /// `captures_of`: a search depends on nothing else.
    #[verifier::external_body]
    pub(crate) fn captures(&self, haystack: &str) -> (groups: Option<Vec<Option<String>>>)
        ensures
            groups_view(groups) == captures_of(self.source(), haystack@),
    {
        let found = self.compiled.captures(haystack)?;
        Some(found.iter().skip(1).map(|m| m.map(|m| m.as_str().to_string())).collect())
    }
}

} // verus!
