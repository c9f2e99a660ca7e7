//! Projection of user events into stored user rows.

use vstd::prelude::*;
use crate::user_query::event::{UserRegisteredData, UserModifiedData};
use crate::projection::{Tracker, is_watermark};
use crate::text::str_eq;

verus! {

/// A row of the user query store. `start_date` counts days since
/// 1970-01-01; `updated_at` is the insertion time of the last event applied
/// to the row, in microseconds since 1970-01-01 00:00:00.
#[derive(Debug, Clone, PartialEq)]
pub struct UserRow {
    pub entity_id: String,
    pub name: String,
    pub start_date: Option<i32>,
    pub address: Option<String>,
    pub phone_number: Option<String>,
    pub username: String,
    pub email: String,
    pub photo: Option<String>,
    pub updated_at: i64,
}

/// The columns a `UserModified` event overwrites in the row of its user.
/// `start_date` is in microseconds since 1970-01-01 00:00:00 UTC.
#[derive(Debug, Clone, PartialEq)]
pub struct UserUpdate {
    pub entity_id: String,
    pub name: String,
    pub start_date: Option<i64>,
    pub address: Option<String>,
    pub phone_number: Option<String>,
    pub username: String,
    pub email: String,
    pub photo: Option<String>,
    pub updated_at: i64,
}

/// What an event of the user stream does to the query store.
#[derive(Debug, Clone, Copy, PartialEq, Eq)]
pub enum UserEventKind {
    /// Inserts a new row.
    Registered,
    /// Overwrites the row of the user.
    Modified,
    /// Changes nothing.
    Unknown,
}

pub open spec fn user_event_kind_of(event_type: Seq<char>) -> UserEventKind {
    if event_type == "UserRegistered"@ {
        UserEventKind::Registered
    } else if event_type == "UserModified"@ {
        UserEventKind::Modified
    } else {
        UserEventKind::Unknown
    }
}

/// What an event of the given type does to the query store.
pub fn user_event_kind(event_type: &str) -> (k: UserEventKind)
    ensures
        k == user_event_kind_of(event_type@),
{
    if str_eq(event_type, "UserRegistered") {
        UserEventKind::Registered
    } else if str_eq(event_type, "UserModified") {
        UserEventKind::Modified
    } else {
        UserEventKind::Unknown
    }
}

/// The row a `UserRegistered` event of `entity_id`, inserted at
/// `inserted_at`, is stored as: every field of the body but the password.
pub open spec fn registered_row(entity_id: String, body: UserRegisteredData, inserted_at: i64) -> UserRow {
    UserRow {
        entity_id,
        name: body.name,
        start_date: body.start_date,
        address: body.address,
        phone_number: body.phone_number,
        username: body.username,
        email: body.email,
        photo: body.photo,
        updated_at: inserted_at,
    }
}

/// The user query store never holds a password: the row stored for a
/// `UserRegistered` event is the same whatever password (or password hash)
/// its body carries.
pub proof fn lemma_registered_row_ignores_password(
    entity_id: String,
    body: UserRegisteredData,
    other_password: String,
    inserted_at: i64,
)
    ensures
        registered_row(entity_id, body, inserted_at)
            == registered_row(entity_id, UserRegisteredData { password: other_password, ..body }, inserted_at),
{
}

impl UserRow {
    /// The row a `UserRegistered` event of `entity_id`, inserted at
    /// `inserted_at`, is stored as; the password is not stored.
    pub fn registered(entity_id: String, body: UserRegisteredData, inserted_at: i64) -> (row: UserRow)
        ensures
            row.entity_id == entity_id,
            row.name == body.name,
            row.start_date == body.start_date,
            row.address == body.address,
            row.phone_number == body.phone_number,
            row.username == body.username,
            row.email == body.email,
            row.photo == body.photo,
            row.updated_at == inserted_at,
            row == registered_row(entity_id, body, inserted_at),
    {
        UserRow {
            entity_id,
            name: body.name,
            start_date: body.start_date,
            address: body.address,
            phone_number: body.phone_number,
            username: body.username,
            email: body.email,
            photo: body.photo,
            updated_at: inserted_at,
        }
    }
}

impl UserUpdate {
    /// The overwrite a `UserModified` event of `entity_id`, inserted at
    /// `inserted_at`, makes.
    pub fn modified(entity_id: String, body: UserModifiedData, inserted_at: i64) -> (u: UserUpdate)
        ensures
            u.entity_id == entity_id,
            u.name == body.name,
            u.start_date == body.start_date,
            u.address == body.address,
            u.phone_number == body.phone_number,
            u.username == body.username,
            u.email == body.email,
            u.photo == body.photo,
            u.updated_at == inserted_at,
    {
        UserUpdate {
            entity_id,
            name: body.name,
            start_date: body.start_date,
            address: body.address,
            phone_number: body.phone_number,
            username: body.username,
            email: body.email,
            photo: body.photo,
            updated_at: inserted_at,
        }
    }
}

/// The state of the user projection: the users it has applied events to.
pub struct UserProjection {
    pub tracker: Tracker,
}

impl UserProjection {
    /// A projection that has applied nothing.
    pub fn new() -> (p: UserProjection)
        ensures
            p.tracker.view() =~= Map::<Seq<char>, i64>::empty(),
    {
        UserProjection { tracker: Tracker::new() }
    }

    /// The time after which events are read next: the latest one applied,
    /// or the epoch.
    pub fn read_after(&self) -> (w: i64)
        ensures
            is_watermark(self.tracker.view(), w),
    {
        self.tracker.watermark()
    }

    /// Records that an event of `entity_id` inserted at `inserted_at` was
    /// applied (or found to change nothing).
    pub fn applied(&mut self, entity_id: String, inserted_at: i64)
        ensures
            final(self).tracker.view() == old(self).tracker.view().insert(entity_id@, inserted_at),
    {
        self.tracker.track(entity_id, inserted_at);
    }
}

/// What an event does to the user query store, as rows: an inserted row
/// (`UserRow::registered`), an overwrite of the row of `update.entity_id`
/// (`UserUpdate::modified`) with the date the store keeps of the update's
/// start time, or nothing.
pub enum UserStoreChange {
    Insert(UserRow),
    Overwrite(UserUpdate, Option<i32>),
    Nothing,
}

/// A row after a `UserModified` overwrite: everything but its entity id
/// comes from the update.
pub open spec fn overwritten(row: UserRow, update: UserUpdate, start_date: Option<i32>) -> UserRow {
    UserRow {
        entity_id: row.entity_id,
        name: update.name,
        start_date,
        address: update.address,
        phone_number: update.phone_number,
        username: update.username,
        email: update.email,
        photo: update.photo,
        updated_at: update.updated_at,
    }
}

/// The user query store after one change.
pub open spec fn apply_user_event(table: Seq<UserRow>, change: UserStoreChange) -> Seq<UserRow> {
    match change {
        UserStoreChange::Insert(row) => table.push(row),
        UserStoreChange::Overwrite(update, start_date) => Seq::new(
            table.len(),
            |i: int|
                if table[i].entity_id@ == update.entity_id@ {
                    overwritten(table[i], update, start_date)
                } else {
                    table[i]
                },
        ),
        UserStoreChange::Nothing => table,
    }
}

/// The user query store after the changes `changes`, one after another.
pub open spec fn apply_user_events(table: Seq<UserRow>, changes: Seq<UserStoreChange>) -> Seq<UserRow>
    decreases changes.len(),
{
    if changes.len() == 0 {
        table
    } else {
        apply_user_event(apply_user_events(table, changes.drop_last()), changes.last())
    }
}

/// How many of the changes insert a row.
pub open spec fn inserts(changes: Seq<UserStoreChange>) -> nat
    decreases changes.len(),
{
    if changes.len() == 0 {
        0
    } else {
        inserts(changes.drop_last()) + if changes.last() is Insert { 1nat } else { 0nat }
    }
}

/// The change overwrites the row of `entity_id`.
pub open spec fn overwrites(change: UserStoreChange, entity_id: Seq<char>) -> bool {
    change matches UserStoreChange::Overwrite(update, _) && update.entity_id@ == entity_id
}

/// A `UserModified` event overwrites the row of its own user and no other,
/// and keeps the number of rows.
pub proof fn lemma_modified_overwrites_only_its_row(table: Seq<UserRow>, update: UserUpdate, start_date: Option<i32>)
    ensures
        apply_user_event(table, UserStoreChange::Overwrite(update, start_date)).len() == table.len(),
        forall|i: int|
            0 <= i < table.len() ==> #[trigger] apply_user_event(table, UserStoreChange::Overwrite(update, start_date))[i]
                == if table[i].entity_id@ == update.entity_id@ {
                    overwritten(table[i], update, start_date)
                } else {
                    table[i]
                },
{
}

/// Over any changes, the store gains one row per insert and no other row,
/// and a row that no change overwrites stays as it was.
pub proof fn lemma_user_store_rows(table: Seq<UserRow>, changes: Seq<UserStoreChange>)
    ensures
        apply_user_events(table, changes).len() == table.len() + inserts(changes),
        forall|i: int|
            0 <= i < table.len() && (forall|k: int| 0 <= k < changes.len() ==> !overwrites(#[trigger] changes[k], table[i].entity_id@))
                ==> #[trigger] apply_user_events(table, changes)[i] == table[i],
    decreases changes.len(),
{
    if changes.len() > 0 {
        let init = changes.drop_last();
        lemma_user_store_rows(table, init);
        let before = apply_user_events(table, init);
        assert forall|i: int|
            0 <= i < table.len() && (forall|k: int| 0 <= k < changes.len() ==> !overwrites(#[trigger] changes[k], table[i].entity_id@))
                implies #[trigger] apply_user_events(table, changes)[i] == table[i] by {
            assert forall|k: int| 0 <= k < init.len() implies !overwrites(#[trigger] init[k], table[i].entity_id@) by {
                assert(init[k] == changes[k]);
            }
            assert(before[i] == table[i]);
            assert(!overwrites(changes[changes.len() - 1], table[i].entity_id@));
        }
    }
}

} // verus!
