//! Reading orders back from their stored rows.

use vstd::prelude::*;
use super::Order;
use crate::order_query::projection::OrderRow;

verus! {

impl Order {
    /// The order a stored row describes.
    pub fn from_row(row: OrderRow) -> (o: Order)
        ensures
            o.id == row.entity_id,
            o.customer_id == row.customer_id,
            o.date == row.date,
            o.frame_color == row.frame_color,
            o.frame_id == row.frame_id,
            o.owner_id == row.owner_id,
            o.quantity == row.quantity,
            o.total_bits == row.total_bits,
            o.processed == row.processed,
            o.rejected == row.rejected,
    {
        Order {
            id: row.entity_id,
            customer_id: row.customer_id,
            date: row.date,
            frame_color: row.frame_color,
            frame_id: row.frame_id,
            owner_id: row.owner_id,
            quantity: row.quantity,
            total_bits: row.total_bits,
            processed: row.processed,
            rejected: row.rejected,
        }
    }
}

} // verus!
