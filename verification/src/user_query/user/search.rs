//! Searching users.

use vstd::prelude::*;

verus! {

/// The query string of a user search.
#[derive(Debug, Clone, PartialEq)]
pub struct Info {
    pub term: String,
}

impl Info {
    /// The `LIKE` pattern a user search uses: the term as it is.
    pub fn like_pattern(&self) -> (p: String)
        ensures
            p@ == self.term@,
    {
        self.term.clone()
    }
}

} // verus!
