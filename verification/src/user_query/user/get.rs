//! Reading users back from their stored rows.

use vstd::prelude::*;
use super::User;
use crate::user_query::projection::UserRow;

pub use crate::frame_query::frame::get::get_all_body;

verus! {

impl User {
    /// The user a stored row describes.
    pub fn from_row(row: UserRow) -> (u: User)
        ensures
            u.id == row.entity_id,
            u.name == row.name,
            u.start_date == row.start_date,
            u.address == row.address,
            u.phone_number == row.phone_number,
            u.username == row.username,
            u.email == row.email,
            u.photo == row.photo,
    {
        User {
            id: row.entity_id,
            name: row.name,
            start_date: row.start_date,
            address: row.address,
            phone_number: row.phone_number,
            username: row.username,
            email: row.email,
            photo: row.photo,
        }
    }
}

} // verus!
