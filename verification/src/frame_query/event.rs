//! The `FrameCreated` event body as the query side reads it.

use vstd::prelude::*;

verus! {

/// The body of a `FrameCreated` event. `price_bits` holds the IEEE-754 bits
/// of the `f32` price.
#[derive(Debug, Clone, PartialEq)]
pub struct FrameCreatedData {
    pub brand_name: String,
    pub colors: Vec<String>,
    pub cover_image: Option<String>,
    pub description: Option<String>,
    pub has_case: bool,
    pub materials: Vec<String>,
    pub model_name: String,
    pub other_images: Vec<String>,
    pub owner_id: String,
    pub price_bits: u32,
    pub privacy_mode: i16,
}

} // verus!
