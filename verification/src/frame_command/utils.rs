//! Token claims, fresh ids and correlation ids of the frame command service.

use vstd::prelude::*;
use crate::auth::{header_text, header_chars, is_visible_ascii};
use crate::ids::is_hyphenated_v4_uuid;

pub use crate::ids::generate_uuid;

verus! {

/// The claims of a token the frame command service accepts.
#[derive(Debug, Clone, PartialEq)]
pub struct Claims {
    pub sub: String,
    pub exp: usize,
}

/// The correlation id of a request: the `X-Correlation-ID` header when it
/// is there and is visible ASCII text, else a fresh id.
pub fn get_correlation_id(header: Option<&[u8]>) -> (id: String)
    ensures
        match header {
            Some(b) => if forall|i: int| 0 <= i < b@.len() ==> is_visible_ascii(#[trigger] b@[i]) {
                id@ == header_chars(b@)
            } else {
                is_hyphenated_v4_uuid(id@)
            },
            None => is_hyphenated_v4_uuid(id@),
        },
{
    match header {
        None => generate_uuid(),
        Some(b) => match header_text(b) {
            Some(text) => text,
            None => generate_uuid(),
        },
    }
}

} // verus!
