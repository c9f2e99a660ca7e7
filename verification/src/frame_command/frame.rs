//! Frames on the write side share the field rules of the frame model.

pub mod create;

pub use crate::frame_query::frame::Frame;
