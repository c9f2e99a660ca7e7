//! The write side of orders: placing orders and marking them.

pub mod order;
