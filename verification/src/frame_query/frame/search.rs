//! Searching frames by the beginning of their texts.

use vstd::prelude::*;

verus! {

/// The query string of a frame search.
#[derive(Debug, Clone, PartialEq)]
pub struct Info {
    pub term: String,
}

impl Info {
    /// The `LIKE` pattern a frame search uses: texts that start with the term.
    pub fn like_pattern(&self) -> (p: String)
        ensures
            p@ == self.term@ + "%"@,
    {
        let mut p = self.term.clone();
        p.append("%");
        p
    }
}

} // verus!
