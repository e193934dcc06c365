//! Search over article titles.

use vstd::prelude::*;
use vstd::string::StringExecFns;

verus! {

/// The form by which a reader searches.
#[derive(Debug, Clone, PartialEq, Eq)]
pub struct Search {
    pub search_string: String,
}

/// The pattern that finds `term` anywhere in a title: the term between two
/// percent signs, the store's sign for "anything".
pub open spec fn title_pattern(term: Seq<char>) -> Seq<char> {
    "%"@ + term + "%"@
}

impl Search {
    /// The pattern to hand to the store for this search.
    pub fn pattern(&self) -> (p: String)
        ensures
            p@ == title_pattern(self.search_string@),
    {
        let mut p = String::from_str("%");
        p.append(self.search_string.as_str());
        p.append("%");
        p
    }
}

} // verus!
