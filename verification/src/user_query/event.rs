//! User event bodies as the query side reads them.

use vstd::prelude::*;

verus! {

/// The body of a `UserRegistered` event. `start_date` counts days since
/// 1970-01-01.
#[derive(Debug, Clone, PartialEq)]
pub struct UserRegisteredData {
    pub name: String,
    pub start_date: Option<i32>,
    pub address: Option<String>,
    pub phone_number: Option<String>,
    pub username: String,
    pub password: String,
    pub email: String,
    pub photo: Option<String>,
}

/// The body of a `UserModified` event. `start_date` is in microseconds since
/// 1970-01-01 00:00:00 UTC.
#[derive(Debug, Clone, PartialEq)]
pub struct UserModifiedData {
    pub name: String,
    pub start_date: Option<i64>,
    pub address: Option<String>,
    pub phone_number: Option<String>,
    pub username: String,
    pub email: String,
    pub photo: Option<String>,
}

} // verus!
