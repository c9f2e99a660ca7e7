//! The read side of orders: the stored order rows, their projection from
//! order events, and the orders served to frame owners.

pub mod event;
pub mod order;
pub mod projection;
pub mod utils;
