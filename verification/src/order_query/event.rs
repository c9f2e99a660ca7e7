//! The `OrderPlaced` event body as the query side reads it.

use vstd::prelude::*;

verus! {

/// The body of an `OrderPlaced` event. `date` counts days since 1970-01-01;
/// `total_bits` holds the IEEE-754 bits of the `f32` total.
#[derive(Debug, Clone, PartialEq)]
pub struct OrderPlacedData {
    pub customer_id: String,
    pub date: Option<i32>,
    pub frame_color: Option<String>,
    pub frame_id: String,
    pub owner_id: String,
    pub quantity: i32,
    pub total_bits: u32,
}

} // verus!
