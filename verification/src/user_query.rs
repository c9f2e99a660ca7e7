//! The read side of users: the stored user rows, their projection from user
//! events, and the users served to clients.

pub mod event;
pub mod projection;
pub mod user;
