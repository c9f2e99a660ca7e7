//! The user model of the read side and the rules its fields obey.

use vstd::prelude::*;
use crate::pattern::{check_field, text_failure, outcome_agrees};
use crate::text::str_eq;

pub mod get;
pub mod search;

verus! {

/// A user as the query side serves it. `start_date` counts days since
/// 1970-01-01.
#[derive(Debug, Clone, PartialEq)]
pub struct User {
    pub id: String,
    pub name: String,
    pub start_date: Option<i32>,
    pub address: Option<String>,
    pub phone_number: Option<String>,
    pub username: String,
    pub email: String,
    pub photo: Option<String>,
}

/// The pattern a user field must match, if any.
pub open spec fn user_field_pattern(field: Seq<char>) -> Option<Seq<char>> {
    if field == "name"@ {
        Some("^.{2,50}$"@)
    } else if field == "address"@ {
        Some("^.{1,500}$"@)
    } else if field == "phone_number"@ {
        Some("^[\\d+-]{4,20}$"@)
    } else if field == "username"@ {
        Some("^\\w{2,20}$"@)
    } else if field == "email"@ {
        Some("^\\w+@\\w+\\.\\w{2,}$"@)
    } else {
        None
    }
}

impl User {
    /// The pattern a user field must match, if any.
    pub fn get_field_regex_pattern(field_name: &str) -> (r: Option<&'static str>)
        ensures
            r.deep_view() == user_field_pattern(field_name@),
    {
        if str_eq(field_name, "name") {
            Some("^.{2,50}$")
        } else if str_eq(field_name, "address") {
            Some("^.{1,500}$")
        } else if str_eq(field_name, "phone_number") {
            Some("^[\\d+-]{4,20}$")
        } else if str_eq(field_name, "username") {
            Some("^\\w{2,20}$")
        } else if str_eq(field_name, "email") {
            Some("^\\w+@\\w+\\.\\w{2,}$")
        } else {
            None
        }
    }

    /// Checks a text against the pattern of its field.
    pub fn validate_field_str(field_name: &str, value: &str) -> (r: Result<(), String>)
        ensures
            outcome_agrees(r, text_failure(user_field_pattern(field_name@), field_name@, value@, true)),
    {
        let pattern = Self::get_field_regex_pattern(field_name);
        check_field(pattern, field_name, value, true)
    }
}

} // verus!
