//! Token claims and fresh ids of the user command service.

use vstd::prelude::*;

pub use crate::ids::generate_uuid;

verus! {

/// The claims of a token the user command service issues and accepts.
#[derive(Debug, Clone, PartialEq)]
pub struct Claims {
    pub id: String,
    pub exp: usize,
    pub sub: String,
}

} // verus!
