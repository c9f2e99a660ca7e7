//! The user model of the write side and the rules its fields obey.

use vstd::prelude::*;
use crate::pattern::{check_field, check_optional, first_failure, text_failure, opt_failure, outcome_agrees};
use crate::text::str_eq;

pub mod login;
pub mod modify;
pub mod register;

pub use register::UserRegisteredData;

verus! {

/// A user as the write side knows it. `start_date` is in microseconds since
/// 1970-01-01 00:00:00 UTC.
#[derive(Debug, Clone, PartialEq)]
pub struct User {
    pub id: String,
    pub name: String,
    pub start_date: Option<i64>,
    pub address: Option<String>,
    pub phone_number: Option<String>,
    pub username: String,
    pub password: String,
    pub email: String,
    pub photo: Option<String>,
}

/// The pattern a user field must match, if any.
pub open spec fn user_field_pattern(field: Seq<char>) -> Option<Seq<char>> {
    if field == "name"@ {
        Some("^.{2,50}$"@)
    } else if field == "address"@ {
        Some("^.{1,500}$"@)
    } else if field == "phone_number"@ {
        Some("^[\\d+-]{4,20}$"@)
    } else if field == "username"@ {
        Some("^\\w{2,20}$"@)
    } else if field == "email"@ {
        Some("^\\w+@\\w+\\.\\w{2,}$"@)
    } else if field == "password"@ {
        Some("^.{2,50}$"@)
    } else {
        None
    }
}

/// The first check a user's profile fails, in the order they are made:
/// name, address, phone number, username, email.
pub open spec fn profile_failure(
    name: Seq<char>,
    address: Option<Seq<char>>,
    phone_number: Option<Seq<char>>,
    username: Seq<char>,
    email: Seq<char>,
) -> Option<Option<Seq<char>>> {
    first_failure(
        text_failure(user_field_pattern("name"@), "name"@, name, false),
        first_failure(
            opt_failure(user_field_pattern("address"@), "address"@, address, false),
            first_failure(
                opt_failure(user_field_pattern("phone_number"@), "phone_number"@, phone_number, false),
                first_failure(
                    text_failure(user_field_pattern("username"@), "username"@, username, false),
                    text_failure(user_field_pattern("email"@), "email"@, email, false),
                ),
            ),
        ),
    )
}

/// `value` passes the check against `pattern` for `field`.
pub open spec fn passes(pattern: Seq<char>, field: Seq<char>, value: Seq<char>) -> bool {
    text_failure(Some(pattern), field, value, false) is None
}

/// Every field of a profile passes its own check: a name of 2 to 50
/// characters, an address (if any) of 1 to 500, a phone number (if any) of 4
/// to 20 digits, `+` and `-`, a username of 2 to 20 word characters, and an
/// email `word@word.ww...`.
pub open spec fn profile_fields_pass(
    name: Seq<char>,
    address: Option<Seq<char>>,
    phone_number: Option<Seq<char>>,
    username: Seq<char>,
    email: Seq<char>,
) -> bool {
    &&& passes("^.{2,50}$"@, "name"@, name)
    &&& (address matches Some(a) ==> passes("^.{1,500}$"@, "address"@, a))
    &&& (phone_number matches Some(p) ==> passes("^[\\d+-]{4,20}$"@, "phone_number"@, p))
    &&& passes("^\\w{2,20}$"@, "username"@, username)
    &&& passes("^\\w+@\\w+\\.\\w{2,}$"@, "email"@, email)
}

/// The patterns of the user fields.
pub(crate) proof fn lemma_user_field_patterns()
    ensures
        user_field_pattern("name"@) == Some("^.{2,50}$"@),
        user_field_pattern("address"@) == Some("^.{1,500}$"@),
        user_field_pattern("phone_number"@) == Some("^[\\d+-]{4,20}$"@),
        user_field_pattern("username"@) == Some("^\\w{2,20}$"@),
        user_field_pattern("email"@) == Some("^\\w+@\\w+\\.\\w{2,}$"@),
        user_field_pattern("password"@) == Some("^.{2,50}$"@),
{
    reveal_strlit("name");
    reveal_strlit("address");
    reveal_strlit("phone_number");
    reveal_strlit("username");
    reveal_strlit("email");
    reveal_strlit("password");
    assert("name"@.len() == 4);
    assert("address"@.len() == 7);
    assert("phone_number"@.len() == 12);
    assert("username"@.len() == 8);
    assert("email"@.len() == 5);
    assert("password"@.len() == 8);
    assert("username"@[0] != "password"@[0]);
    assert("address"@ != "name"@);
    assert("phone_number"@ != "name"@);
    assert("phone_number"@ != "address"@);
    assert("username"@ != "name"@);
    assert("username"@ != "address"@);
    assert("username"@ != "phone_number"@);
    assert("email"@ != "name"@);
    assert("email"@ != "address"@);
    assert("email"@ != "phone_number"@);
    assert("email"@ != "username"@);
    assert("password"@ != "name"@);
    assert("password"@ != "address"@);
    assert("password"@ != "phone_number"@);
    assert("password"@ != "username"@);
    assert("password"@ != "email"@);
}

/// A profile is accepted exactly when each of its fields passes its own
/// check, whatever the other fields hold: a failing phone number is refused
/// whether or not an address is given, and so on for every field.
pub proof fn lemma_profile_accepted_iff_every_field_passes(
    name: Seq<char>,
    address: Option<Seq<char>>,
    phone_number: Option<Seq<char>>,
    username: Seq<char>,
    email: Seq<char>,
)
    ensures
        profile_failure(name, address, phone_number, username, email) is None
            <==> profile_fields_pass(name, address, phone_number, username, email),
{
    lemma_user_field_patterns();
}

impl User {
    /// The pattern a user field must match, if any.
    pub fn get_field_regex_pattern(field_name: &str) -> (r: Option<&'static str>)
        ensures
            r.deep_view() == user_field_pattern(field_name@),
    {
        if str_eq(field_name, "name") {
            Some("^.{2,50}$")
        } else if str_eq(field_name, "address") {
            Some("^.{1,500}$")
        } else if str_eq(field_name, "phone_number") {
            Some("^[\\d+-]{4,20}$")
        } else if str_eq(field_name, "username") {
            Some("^\\w{2,20}$")
        } else if str_eq(field_name, "email") {
            Some("^\\w+@\\w+\\.\\w{2,}$")
        } else if str_eq(field_name, "password") {
            Some("^.{2,50}$")
        } else {
            None
        }
    }

    /// Checks a text against the pattern of its field.
    pub fn validate_field_str(field_name: &str, value: &str) -> (r: Result<(), String>)
        ensures
            outcome_agrees(r, text_failure(user_field_pattern(field_name@), field_name@, value@, false)),
    {
        let pattern = Self::get_field_regex_pattern(field_name);
        check_field(pattern, field_name, value, false)
    }

    /// Checks the fields of a profile, in order, stopping at the first
    /// failure.
    pub fn validate_profile(
        name: &str,
        address: &Option<String>,
        phone_number: &Option<String>,
        username: &str,
        email: &str,
    ) -> (r: Result<(), String>)
        ensures
            outcome_agrees(
                r,
                profile_failure(name@, address.deep_view(), phone_number.deep_view(), username@, email@),
            ),
    {
        let r = User::validate_field_str("name", name);
        if r.is_err() {
            return r;
        }
        let r = check_optional(User::get_field_regex_pattern("address"), "address", address, false);
        if r.is_err() {
            return r;
        }
        let r = check_optional(
            User::get_field_regex_pattern("phone_number"),
            "phone_number",
            phone_number,
            false,
        );
        if r.is_err() {
            return r;
        }
        let r = User::validate_field_str("username", username);
        if r.is_err() {
            return r;
        }
        User::validate_field_str("email", email)
    }
}

/// Why a username or email cannot be taken.
#[derive(Debug, Clone, Copy, PartialEq, Eq)]
pub enum UniquenessError {
    UsernameExists,
    EmailExists,
}

impl UniquenessError {
    /// The message a refused request is answered with.
    pub fn message(&self) -> (m: String)
        ensures
            m@ == match self {
                UniquenessError::UsernameExists => "username exists"@,
                UniquenessError::EmailExists => "email exists"@,
            },
    {
        match self {
            UniquenessError::UsernameExists => "username exists".to_owned(),
            UniquenessError::EmailExists => "email exists".to_owned(),
        }
    }
}

/// The first stored (username, email) pair that clashes with the new ones,
/// and how: a row is checked for its username before its email.
pub open spec fn uniqueness_failure(rows: Seq<(Seq<char>, Seq<char>)>, username: Seq<char>, email: Seq<char>) -> Option<UniquenessError>
    decreases rows.len(),
{
    if rows.len() == 0 {
        None
    } else if rows[0].0 == username {
        Some(UniquenessError::UsernameExists)
    } else if rows[0].1 == email {
        Some(UniquenessError::EmailExists)
    } else {
        uniqueness_failure(rows.skip(1), username, email)
    }
}

/// A username that a stored user has is refused, and so is an email that a
/// stored user has; a request that is not refused clashes with no stored
/// user.
pub proof fn lemma_uniqueness_refusal(rows: Seq<(Seq<char>, Seq<char>)>, username: Seq<char>, email: Seq<char>)
    ensures
        (exists|i: int| 0 <= i < rows.len() && ((#[trigger] rows[i]).0 == username || rows[i].1 == email))
            <==> uniqueness_failure(rows, username, email) is Some,
    decreases rows.len(),
{
    if rows.len() > 0 {
        let rest = rows.skip(1);
        lemma_uniqueness_refusal(rest, username, email);
        if exists|i: int| 0 <= i < rows.len() && ((#[trigger] rows[i]).0 == username || rows[i].1 == email) {
            let i = choose|i: int| 0 <= i < rows.len() && ((#[trigger] rows[i]).0 == username || rows[i].1 == email);
            if i > 0 {
                assert(rest[i - 1] == rows[i]);
            }
        }
        if exists|i: int| 0 <= i < rest.len() && ((#[trigger] rest[i]).0 == username || rest[i].1 == email) {
            let i = choose|i: int| 0 <= i < rest.len() && ((#[trigger] rest[i]).0 == username || rest[i].1 == email);
            assert(rows[i + 1] == rest[i]);
        }
    }
}

/// The clash reported is that of the first clashing row, and a username
/// clash in that row wins over an email clash.
pub proof fn lemma_uniqueness_first_clash(rows: Seq<(Seq<char>, Seq<char>)>, username: Seq<char>, email: Seq<char>, i: int)
    requires
        0 <= i < rows.len(),
        rows[i].0 == username || rows[i].1 == email,
        forall|j: int| 0 <= j < i ==> (#[trigger] rows[j]).0 != username && rows[j].1 != email,
    ensures
        uniqueness_failure(rows, username, email) == if rows[i].0 == username {
            Some(UniquenessError::UsernameExists)
        } else {
            Some(UniquenessError::EmailExists)
        },
    decreases i,
{
    if i > 0 {
        let rest = rows.skip(1);
        assert forall|j: int| 0 <= j < i - 1 implies (#[trigger] rest[j]).0 != username && rest[j].1 != email by {
            assert(rest[j] == rows[j + 1]);
        }
        assert(rows[0].0 != username && rows[0].1 != email);
        lemma_uniqueness_first_clash(rest, username, email, i - 1);
    }
}

pub open spec fn pair_views(rows: Seq<(String, String)>) -> Seq<(Seq<char>, Seq<char>)> {
    rows.map_values(|r: (String, String)| (r.0@, r.1@))
}

/// Checks a new username and email against the stored users' ones.
pub fn check_uniqueness(rows: &Vec<(String, String)>, username: &str, email: &str) -> (r: Result<(), UniquenessError>)
    ensures
        match uniqueness_failure(pair_views(rows@), username@, email@) {
            None => r is Ok,
            Some(e) => r == Err::<(), UniquenessError>(e),
        },
{
    let ghost all = pair_views(rows@);
    let mut i: usize = 0;
    assert(all.skip(0) =~= all);
    while i < rows.len()
        invariant
            all == pair_views(rows@),
            i <= rows@.len(),
            uniqueness_failure(all, username@, email@) == uniqueness_failure(all.skip(i as int), username@, email@),
        decreases rows@.len() - i,
    {
        let ghost rest = all.skip(i as int);
        assert(rest[0] == (rows@[i as int].0@, rows@[i as int].1@));
        assert(rest.skip(1) =~= all.skip(i + 1));
        if str_eq(rows[i].0.as_str(), username) {
            return Err(UniquenessError::UsernameExists);
        }
        if str_eq(rows[i].1.as_str(), email) {
            return Err(UniquenessError::EmailExists);
        }
        i = i + 1;
    }
    assert(all.skip(i as int) =~= Seq::<(Seq<char>, Seq<char>)>::empty());
    Ok(())
}

/// A write to the user command store: a registration of a user with a newly
/// drawn `id` (`register`), or a change of the username and email of the
/// user `id`.
pub struct UserWrite {
    pub register: bool,
    pub id: Seq<char>,
    pub username: Seq<char>,
    pub email: Seq<char>,
}

/// The (username, email) pairs of the stored users (id, username, email).
pub open spec fn user_pairs(table: Seq<(Seq<char>, Seq<char>, Seq<char>)>) -> Seq<(Seq<char>, Seq<char>)> {
    table.map_values(|r: (Seq<char>, Seq<char>, Seq<char>)| (r.1, r.2))
}

/// The (username, email) pairs of the stored users other than `id`.
pub open spec fn other_pairs(table: Seq<(Seq<char>, Seq<char>, Seq<char>)>, id: Seq<char>) -> Seq<(Seq<char>, Seq<char>)>
    decreases table.len(),
{
    if table.len() == 0 {
        Seq::empty()
    } else {
        let rest = other_pairs(table.drop_last(), id);
        if table.last().0 != id {
            rest.push((table.last().1, table.last().2))
        } else {
            rest
        }
    }
}

/// What a write does to the store: a registration is inserted, and a change
/// is applied to the user's row, unless the uniqueness check refuses it.
pub open spec fn apply_user_write(
    table: Seq<(Seq<char>, Seq<char>, Seq<char>)>,
    w: UserWrite,
) -> Seq<(Seq<char>, Seq<char>, Seq<char>)> {
    if w.register {
        if uniqueness_failure(user_pairs(table), w.username, w.email) is None {
            table.push((w.id, w.username, w.email))
        } else {
            table
        }
    } else if uniqueness_failure(other_pairs(table, w.id), w.username, w.email) is None {
        Seq::new(
            table.len(),
            |i: int| if table[i].0 == w.id { (w.id, w.username, w.email) } else { table[i] },
        )
    } else {
        table
    }
}

/// The store after the writes `ws`, made one at a time.
pub open spec fn apply_user_writes(
    table: Seq<(Seq<char>, Seq<char>, Seq<char>)>,
    ws: Seq<UserWrite>,
) -> Seq<(Seq<char>, Seq<char>, Seq<char>)>
    decreases ws.len(),
{
    if ws.len() == 0 {
        table
    } else {
        apply_user_write(apply_user_writes(table, ws.drop_last()), ws.last())
    }
}

/// No two stored users share an id, a username or an email.
pub open spec fn users_distinct(table: Seq<(Seq<char>, Seq<char>, Seq<char>)>) -> bool {
    forall|i: int, j: int|
        0 <= i < j < table.len() ==> {
            &&& (#[trigger] table[i]).0 != (#[trigger] table[j]).0
            &&& table[i].1 != table[j].1
            &&& table[i].2 != table[j].2
        }
}

/// Each registration draws an id that no stored user and no other
/// registration has.
pub open spec fn fresh_ids(table: Seq<(Seq<char>, Seq<char>, Seq<char>)>, ws: Seq<UserWrite>) -> bool {
    &&& forall|a: int, i: int|
        0 <= a < ws.len() && (#[trigger] ws[a]).register && 0 <= i < table.len() ==> (#[trigger] table[i]).0 != ws[a].id
    &&& forall|a: int, b: int|
        0 <= a < b < ws.len() && (#[trigger] ws[a]).register && (#[trigger] ws[b]).register ==> ws[a].id != ws[b].id
}

proof fn lemma_other_pairs(table: Seq<(Seq<char>, Seq<char>, Seq<char>)>, id: Seq<char>)
    ensures
        forall|i: int|
            0 <= i < table.len() && (#[trigger] table[i]).0 != id ==> other_pairs(table, id).contains((table[i].1, table[i].2)),
    decreases table.len(),
{
    if table.len() > 0 {
        let init = table.drop_last();
        lemma_other_pairs(init, id);
        let rest = other_pairs(init, id);
        assert forall|i: int|
            0 <= i < table.len() && (#[trigger] table[i]).0 != id implies other_pairs(table, id).contains((table[i].1, table[i].2)) by {
            if i == table.len() - 1 {
                assert(other_pairs(table, id)[rest.len() as int] == (table[i].1, table[i].2));
            } else {
                assert(init[i] == table[i]);
                assert(rest.contains((table[i].1, table[i].2)));
                let j = choose|j: int| 0 <= j < rest.len() && rest[j] == (table[i].1, table[i].2);
                assert(other_pairs(table, id)[j] == rest[j]);
            }
        }
    }
}

/// A pair list the uniqueness check accepts holds neither the username nor
/// the email.
proof fn lemma_accepted_clashes_nowhere(rows: Seq<(Seq<char>, Seq<char>)>, username: Seq<char>, email: Seq<char>)
    requires
        uniqueness_failure(rows, username, email) is None,
    ensures
        forall|j: int| 0 <= j < rows.len() ==> (#[trigger] rows[j]).0 != username && rows[j].1 != email,
{
    lemma_uniqueness_refusal(rows, username, email);
}

/// `id` is the id of a user of `table` or was drawn by a registration of `ws`.
pub open spec fn id_drawn(table: Seq<(Seq<char>, Seq<char>, Seq<char>)>, ws: Seq<UserWrite>, id: Seq<char>) -> bool {
    ||| exists|k: int| 0 <= k < table.len() && (#[trigger] table[k]).0 == id
    ||| exists|a: int| 0 <= a < ws.len() && (#[trigger] ws[a]).register && ws[a].id == id
}

proof fn lemma_user_writes_prefix(table: Seq<(Seq<char>, Seq<char>, Seq<char>)>, ws: Seq<UserWrite>)
    requires
        users_distinct(table),
        fresh_ids(table, ws),
    ensures
        users_distinct(apply_user_writes(table, ws)),
        forall|i: int|
            0 <= i < apply_user_writes(table, ws).len() ==> id_drawn(table, ws, (#[trigger] apply_user_writes(table, ws)[i]).0),
    decreases ws.len(),
{
    if ws.len() == 0 {
        let after = apply_user_writes(table, ws);
        assert forall|i: int| 0 <= i < after.len() implies id_drawn(table, ws, (#[trigger] after[i]).0) by {
            assert(table[i] == after[i]);
        }
    } else {
        let init = ws.drop_last();
        let n = ws.len() - 1;
        let w = ws.last();
        assert forall|a: int, i: int|
            0 <= a < init.len() && (#[trigger] init[a]).register && 0 <= i < table.len() implies (#[trigger] table[i]).0 != init[a].id by {
            assert(init[a] == ws[a]);
        }
        assert forall|a: int, b: int|
            0 <= a < b < init.len() && (#[trigger] init[a]).register && (#[trigger] init[b]).register implies init[a].id != init[b].id by {
            assert(init[a] == ws[a] && init[b] == ws[b]);
        }
        lemma_user_writes_prefix(table, init);
        let before = apply_user_writes(table, init);
        let after = apply_user_writes(table, ws);
        assert(after == apply_user_write(before, w));
        // Every id stored before the last write is an initial id or one drawn
        // by an earlier registration.
        assert forall|i: int| 0 <= i < before.len() implies id_drawn(table, ws, (#[trigger] before[i]).0) by {
            if !(exists|k: int| 0 <= k < table.len() && (#[trigger] table[k]).0 == before[i].0) {
                let a = choose|a: int| 0 <= a < init.len() && (#[trigger] init[a]).register && init[a].id == before[i].0;
                assert(init[a] == ws[a]);
            }
        }
        if w.register {
            if uniqueness_failure(user_pairs(before), w.username, w.email) is None {
                lemma_accepted_clashes_nowhere(user_pairs(before), w.username, w.email);
                assert forall|i: int| 0 <= i < before.len() implies {
                    &&& (#[trigger] before[i]).0 != w.id
                    &&& before[i].1 != w.username
                    &&& before[i].2 != w.email
                } by {
                    assert(user_pairs(before)[i] == (before[i].1, before[i].2));
                    if exists|k: int| 0 <= k < table.len() && (#[trigger] table[k]).0 == before[i].0 {
                        let k = choose|k: int| 0 <= k < table.len() && (#[trigger] table[k]).0 == before[i].0;
                        assert(ws[n].register);
                    } else {
                        let a = choose|a: int| 0 <= a < init.len() && (#[trigger] init[a]).register && init[a].id == before[i].0;
                        assert(init[a] == ws[a]);
                        assert(ws[n].register);
                    }
                }
                assert forall|i: int, j: int| 0 <= i < j < after.len() implies {
                    &&& (#[trigger] after[i]).0 != (#[trigger] after[j]).0
                    &&& after[i].1 != after[j].1
                    &&& after[i].2 != after[j].2
                } by {
                    assert(after[i] == before[i]);
                    if j < before.len() {
                        assert(after[j] == before[j]);
                    }
                }
                assert forall|i: int| 0 <= i < after.len() implies id_drawn(table, ws, (#[trigger] after[i]).0) by {
                    if i == before.len() {
                        assert(ws[n].register && ws[n].id == after[i].0);
                    } else {
                        assert(after[i] == before[i]);
                    }
                }
            } else {
                assert forall|i: int| 0 <= i < after.len() implies id_drawn(table, ws, (#[trigger] after[i]).0) by {
                    assert(after[i] == before[i]);
                }
            }
        } else if uniqueness_failure(other_pairs(before, w.id), w.username, w.email) is None {
            lemma_accepted_clashes_nowhere(other_pairs(before, w.id), w.username, w.email);
            lemma_other_pairs(before, w.id);
            assert forall|i: int| 0 <= i < before.len() && (#[trigger] before[i]).0 != w.id implies {
                &&& before[i].1 != w.username
                &&& before[i].2 != w.email
            } by {
                let ps = other_pairs(before, w.id);
                assert(ps.contains((before[i].1, before[i].2)));
                let j = choose|j: int| 0 <= j < ps.len() && ps[j] == (before[i].1, before[i].2);
                assert(ps[j].0 != w.username && ps[j].1 != w.email);
            }
            assert forall|i: int, j: int| 0 <= i < j < after.len() implies {
                &&& (#[trigger] after[i]).0 != (#[trigger] after[j]).0
                &&& after[i].1 != after[j].1
                &&& after[i].2 != after[j].2
            } by {
                assert(before[i].0 != before[j].0);
                if before[i].0 == w.id {
                    assert(before[j].0 != w.id);
                } else if before[j].0 == w.id {
                    assert(before[i].0 != w.id);
                }
            }
            assert forall|i: int| 0 <= i < after.len() implies id_drawn(table, ws, (#[trigger] after[i]).0) by {
                assert(after[i].0 == before[i].0);
            }
        } else {
            assert forall|i: int| 0 <= i < after.len() implies id_drawn(table, ws, (#[trigger] after[i]).0) by {
                assert(after[i] == before[i]);
            }
        }
    }
}

/// Usernames and emails stay distinct: from a store in which no two users
/// share an id, a username or an email, any sequence of registrations and
/// changes made one at a time, where each registration draws an id no other
/// user has, leaves a store of which the same holds. A write that would
/// repeat a username or an email is refused and stores nothing.
pub proof fn lemma_usernames_and_emails_stay_distinct(table: Seq<(Seq<char>, Seq<char>, Seq<char>)>, ws: Seq<UserWrite>)
    requires
        users_distinct(table),
        fresh_ids(table, ws),
    ensures
        users_distinct(apply_user_writes(table, ws)),
{
    lemma_user_writes_prefix(table, ws);
}

/// No two stored users share a username or an email.
pub open spec fn names_distinct(table: Seq<(Seq<char>, Seq<char>, Seq<char>)>) -> bool {
    forall|i: int, j: int|
        0 <= i < j < table.len() ==> (#[trigger] table[i]).1 != (#[trigger] table[j]).1 && table[i].2 != table[j].2
}

/// What a write does to the store whose username and email columns are
/// declared `UNIQUE`: a write the uniqueness check lets through is still
/// refused by the store, and changes nothing, when it would repeat a
/// username or an email.
pub open spec fn apply_user_write_unique(
    table: Seq<(Seq<char>, Seq<char>, Seq<char>)>,
    w: UserWrite,
) -> Seq<(Seq<char>, Seq<char>, Seq<char>)> {
    if names_distinct(apply_user_write(table, w)) {
        apply_user_write(table, w)
    } else {
        table
    }
}

/// The store with `UNIQUE` columns after the writes `ws`, made one at a time.
pub open spec fn apply_user_writes_unique(
    table: Seq<(Seq<char>, Seq<char>, Seq<char>)>,
    ws: Seq<UserWrite>,
) -> Seq<(Seq<char>, Seq<char>, Seq<char>)>
    decreases ws.len(),
{
    if ws.len() == 0 {
        table
    } else {
        apply_user_write_unique(apply_user_writes_unique(table, ws.drop_last()), ws.last())
    }
}

/// With the store's `UNIQUE` username and email columns, usernames and
/// emails stay distinct over any sequence of registrations and changes,
/// whatever ids they carry.
pub proof fn lemma_unique_columns_keep_names_distinct(table: Seq<(Seq<char>, Seq<char>, Seq<char>)>, ws: Seq<UserWrite>)
    requires
        names_distinct(table),
    ensures
        names_distinct(apply_user_writes_unique(table, ws)),
    decreases ws.len(),
{
    if ws.len() > 0 {
        lemma_unique_columns_keep_names_distinct(table, ws.drop_last());
    }
}

/// Where the ids are distinct, the uniqueness check alone refuses every
/// write the `UNIQUE` columns would refuse: both stores end the same.
pub proof fn lemma_check_agrees_with_unique_columns(table: Seq<(Seq<char>, Seq<char>, Seq<char>)>, ws: Seq<UserWrite>)
    requires
        users_distinct(table),
        fresh_ids(table, ws),
    ensures
        apply_user_writes_unique(table, ws) == apply_user_writes(table, ws),
    decreases ws.len(),
{
    if ws.len() > 0 {
        let init = ws.drop_last();
        assert forall|a: int, i: int|
            0 <= a < init.len() && (#[trigger] init[a]).register && 0 <= i < table.len() implies (#[trigger] table[i]).0 != init[a].id by {
            assert(init[a] == ws[a]);
        }
        assert forall|a: int, b: int|
            0 <= a < b < init.len() && (#[trigger] init[a]).register && (#[trigger] init[b]).register implies init[a].id != init[b].id by {
            assert(init[a] == ws[a] && init[b] == ws[b]);
        }
        lemma_check_agrees_with_unique_columns(table, init);
        lemma_user_writes_prefix(table, ws);
        let after = apply_user_writes(table, ws);
        assert forall|i: int, j: int| 0 <= i < j < after.len() implies (#[trigger] after[i]).1 != (#[trigger] after[j]).1
            && after[i].2 != after[j].2 by {}
    }
}

/// Where a user can be found.
pub open spec fn user_location_of(addr: Seq<char>, username: Seq<char>) -> Seq<char> {
    addr + "/users/"@ + username
}

/// The `Location` of a user.
pub fn user_location(addr: &str, username: &str) -> (l: String)
    ensures
        l@ == user_location_of(addr@, username@),
{
    let mut l = addr.to_owned();
    l.append("/users/");
    l.append(username);
    l
}

} // verus!
