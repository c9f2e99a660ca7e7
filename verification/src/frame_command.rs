//! The write side of frames: validating and recording new frames.

pub mod event;
pub mod frame;
pub mod utils;
