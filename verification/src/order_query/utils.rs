//! Token claims of the order query service.

use vstd::prelude::*;

verus! {

/// The claims of a token the order query service accepts.
#[derive(Debug, Clone, PartialEq)]
pub struct Claims {
    pub id: String,
    pub exp: usize,
    pub sub: String,
}

} // verus!
