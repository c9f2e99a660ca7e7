//! The order model of the read side.

use vstd::prelude::*;

pub mod get;

verus! {

/// An order as the query side serves it. `date` counts days since
/// 1970-01-01; `total_bits` holds the IEEE-754 bits of the `f32` total.
#[derive(Debug, Clone, PartialEq)]
pub struct Order {
    pub id: String,
    pub customer_id: String,
    pub date: Option<i32>,
    pub frame_color: Option<String>,
    pub frame_id: String,
    pub owner_id: String,
    pub quantity: i32,
    pub total_bits: u32,
    pub processed: bool,
    pub rejected: bool,
}

} // verus!
