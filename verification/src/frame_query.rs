//! The read side of frames: the stored frame rows, their projection from
//! `FrameCreated` events, and the frame model served to clients.

pub mod event;
pub mod frame;
pub mod projection;
