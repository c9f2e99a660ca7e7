//! The order model of the write side.

use vstd::prelude::*;

pub mod mark;
pub mod place;

verus! {

/// An order. `date` counts days since 1970-01-01 (UTC); `total_bits` holds
/// the IEEE-754 bits of the `f32` total.
#[derive(Debug, Clone, PartialEq)]
pub struct Order {
    pub id: String,
    pub customer_id: String,
    pub date: i32,
    pub frame_color: Option<String>,
    pub frame_id: String,
    pub owner_id: String,
    pub quantity: u16,
    pub total_bits: u32,
}

} // verus!
