//! Verified core of the Optic Mart services: field validation, event data
//! construction, request decisions and the query-side projections.

pub mod auth;
pub mod frame_command;
pub mod frame_query;
pub mod ids;
pub mod order_command;
pub mod order_query;
pub mod password;
pub mod pattern;
pub mod user_command;
pub mod projection;
pub mod text;
pub mod user_query;
