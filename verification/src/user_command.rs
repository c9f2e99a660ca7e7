//! The write side of users: registration, login and profile changes.

pub mod event;
pub mod user;
pub mod user_profile;
pub mod utils;
