//! Turning a completed order request into the body of its event.

use vstd::prelude::*;
use crate::pattern::{fails_with, outcome_agrees};

verus! {

/// The body of an `OrderPlaced` event. `date` is in microseconds since
/// 1970-01-01 00:00:00 UTC; `total_bits` holds the IEEE-754 bits of the
/// `f32` total.
#[derive(Debug, Clone, PartialEq)]
pub struct OrderPlacedData {
    pub customer_id: String,
    pub date: Option<i64>,
    pub frame_color: Option<String>,
    pub frame_id: String,
    pub owner_id: String,
    pub quantity: u16,
    pub total_bits: u32,
}

/// An order as a client sends it; the customer comes from the caller's
/// token, the owner and total from the frame ordered.
#[derive(Debug, Clone, PartialEq)]
pub struct WebModel {
    pub customer_id: Option<String>,
    pub date: Option<i64>,
    pub frame_color: Option<String>,
    pub frame_id: String,
    pub owner_id: Option<String>,
    pub quantity: u16,
    pub total_bits: Option<u32>,
}

/// The first missing part of an order: customer, owner, total.
pub open spec fn order_model_failure(m: WebModel) -> Option<Option<Seq<char>>> {
    if m.customer_id is None {
        fails_with("Missing customer_id"@)
    } else if m.owner_id is None {
        fails_with("Missing owner_id"@)
    } else if m.total_bits is None {
        fails_with("Missing total"@)
    } else {
        None
    }
}

/// An order is accepted exactly when its customer, owner and total are
/// present; no other field is required, and a missing one is reported in
/// the order customer, owner, total.
pub proof fn lemma_order_accepted_iff_complete(m: WebModel)
    ensures
        order_model_failure(m) is None <==> (m.customer_id is Some && m.owner_id is Some && m.total_bits is Some),
        m.customer_id is None ==> order_model_failure(m) == Some(Some("Missing customer_id"@)),
        m.customer_id is Some && m.owner_id is None ==> order_model_failure(m) == Some(Some("Missing owner_id"@)),
        m.customer_id is Some && m.owner_id is Some && m.total_bits is None ==> order_model_failure(m) == Some(
            Some("Missing total"@),
        ),
{
}

/// The request completed with what the client does not send: the customer
/// is the caller, and the owner and total come from the frame ordered.
/// Every other field is kept.
pub fn complete_order(m: WebModel, customer_id: String, owner_id: String, total_bits: u32) -> (r: WebModel)
    ensures
        r.customer_id == Some(customer_id),
        r.owner_id == Some(owner_id),
        r.total_bits == Some(total_bits),
        r.date == m.date,
        r.frame_color == m.frame_color,
        r.frame_id == m.frame_id,
        r.quantity == m.quantity,
{
    WebModel { customer_id: Some(customer_id), owner_id: Some(owner_id), total_bits: Some(total_bits), ..m }
}

impl OrderPlacedData {
    /// The event body of a completed order request.
    pub fn try_from(order_model: WebModel) -> (r: Result<OrderPlacedData, String>)
        ensures
            outcome_agrees(r, order_model_failure(order_model)),
            r matches Ok(d) ==> {
                &&& order_model.customer_id == Some(d.customer_id)
                &&& d.date == order_model.date
                &&& d.frame_color == order_model.frame_color
                &&& d.frame_id == order_model.frame_id
                &&& order_model.owner_id == Some(d.owner_id)
                &&& d.quantity == order_model.quantity
                &&& order_model.total_bits == Some(d.total_bits)
            },
    {
        let customer_id = match order_model.customer_id {
            Some(c) => c,
            None => {
                return Err("Missing customer_id".to_owned());
            },
        };
        let owner_id = match order_model.owner_id {
            Some(o) => o,
            None => {
                return Err("Missing owner_id".to_owned());
            },
        };
        let total_bits = match order_model.total_bits {
            Some(t) => t,
            None => {
                return Err("Missing total".to_owned());
            },
        };
        Ok(
            OrderPlacedData {
                customer_id,
                date: order_model.date,
                frame_color: order_model.frame_color,
                frame_id: order_model.frame_id,
                owner_id,
                quantity: order_model.quantity,
                total_bits,
            },
        )
    }
}

} // verus!
