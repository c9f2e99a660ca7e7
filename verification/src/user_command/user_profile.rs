//! The first user model of the write side: a user built straight from a
//! registration, with its id drawn and its password hashed, and the
//! registration event made from it.

use vstd::prelude::*;
use crate::ids::{generate_uuid, is_hyphenated_v4_uuid};
use crate::password::{hash_password, bcrypt_verify_result, is_bcrypt_hash_with_cost, lemma_default_cost_digits, DEFAULT_COST};
use crate::pattern::{check_field, check_optional, first_failure, text_failure, opt_failure, outcome_agrees};
use crate::text::str_eq;

verus! {

/// A registered user. `start_date` is in microseconds since 1970-01-01
/// 00:00:00 UTC; `password` is a bcrypt hash.
#[derive(Debug, Clone, PartialEq)]
pub struct User {
    pub id: String,
    pub name: String,
    pub start_date: Option<i64>,
    pub address: Option<String>,
    pub phone_number: Option<String>,
    pub username: String,
    pub password: String,
    pub email: String,
    pub photo: Option<String>,
}

/// A registration as a client sends it, with the password in clear.
#[derive(Debug, Clone, PartialEq)]
pub struct WebModel {
    pub name: String,
    pub start_date: Option<i64>,
    pub address: Option<String>,
    pub phone_number: Option<String>,
    pub username: String,
    pub password: String,
    pub email: String,
    pub photo: Option<String>,
}

/// The body of a `UserRegistered` event made from a user.
#[derive(Debug, Clone, PartialEq)]
pub struct UserRegisteredData {
    pub name: String,
    pub start_date: Option<i64>,
    pub address: Option<String>,
    pub phone_number: Option<String>,
    pub username: String,
    pub password: String,
    pub email: String,
    pub photo: Option<String>,
}

/// The pattern a field of this model must match, if any.
pub open spec fn profile_field_pattern(field: Seq<char>) -> Option<Seq<char>> {
    if field == "name"@ {
        Some("^.{2,50}$"@)
    } else if field == "address"@ {
        Some("^.{1,500}$"@)
    } else if field == "phone_number"@ {
        Some("^[\\d+-]{4,20}$"@)
    } else if field == "username"@ {
        Some("^\\w{2,20}$"@)
    } else if field == "email"@ {
        Some("^\\w+@\\w{2,}\\.\\w{2,}$"@)
    } else if field == "password"@ {
        Some("^.{2,50}$"@)
    } else {
        None
    }
}

/// The first check a registration fails, in the order they are made: name,
/// address, phone number, username, email, password.
pub open spec fn registration_failure(m: WebModel) -> Option<Option<Seq<char>>> {
    first_failure(
        text_failure(profile_field_pattern("name"@), "name"@, m.name@, false),
        first_failure(
            opt_failure(profile_field_pattern("address"@), "address"@, m.address.deep_view(), false),
            first_failure(
                opt_failure(profile_field_pattern("phone_number"@), "phone_number"@, m.phone_number.deep_view(), false),
                first_failure(
                    text_failure(profile_field_pattern("username"@), "username"@, m.username@, false),
                    first_failure(
                        text_failure(profile_field_pattern("email"@), "email"@, m.email@, false),
                        text_failure(profile_field_pattern("password"@), "password"@, m.password@, false),
                    ),
                ),
            ),
        ),
    )
}

/// Every field of a profile registration passes its own check: a name of
/// 2 to 50 characters, an address (if any) of 1 to 500, a phone number (if
/// any) of 4 to 20 digits, `+` and `-`, a username of 2 to 20 word
/// characters, an email `word@ww...ww...`, and a password of 2 to 50
/// characters.
pub open spec fn profile_registration_fields_pass(m: WebModel) -> bool {
    &&& text_failure(Some("^.{2,50}$"@), "name"@, m.name@, false) is None
    &&& (m.address matches Some(a) ==> text_failure(Some("^.{1,500}$"@), "address"@, a@, false) is None)
    &&& (m.phone_number matches Some(p) ==> text_failure(Some("^[\\d+-]{4,20}$"@), "phone_number"@, p@, false) is None)
    &&& text_failure(Some("^\\w{2,20}$"@), "username"@, m.username@, false) is None
    &&& text_failure(Some("^\\w+@\\w{2,}\\.\\w{2,}$"@), "email"@, m.email@, false) is None
    &&& text_failure(Some("^.{2,50}$"@), "password"@, m.password@, false) is None
}

/// A profile registration is accepted exactly when each of its fields
/// passes its own check, each against its own field's value.
pub proof fn lemma_profile_registration_accepted_iff_every_field_passes(m: WebModel)
    ensures
        registration_failure(m) is None <==> profile_registration_fields_pass(m),
{
    reveal_strlit("name");
    reveal_strlit("address");
    reveal_strlit("phone_number");
    reveal_strlit("username");
    reveal_strlit("email");
    reveal_strlit("password");
    assert("name"@.len() == 4);
    assert("address"@.len() == 7);
    assert("phone_number"@.len() == 12);
    assert("username"@.len() == 8);
    assert("email"@.len() == 5);
    assert("password"@.len() == 8);
    assert("username"@[0] != "password"@[0]);
    assert("address"@ != "name"@);
    assert("phone_number"@ != "name"@);
    assert("phone_number"@ != "address"@);
    assert("username"@ != "name"@);
    assert("username"@ != "address"@);
    assert("username"@ != "phone_number"@);
    assert("email"@ != "name"@);
    assert("email"@ != "address"@);
    assert("email"@ != "phone_number"@);
    assert("email"@ != "username"@);
    assert("password"@ != "name"@);
    assert("password"@ != "address"@);
    assert("password"@ != "phone_number"@);
    assert("password"@ != "username"@);
    assert("password"@ != "email"@);
}

impl User {
    pub fn id(&self) -> (r: &String)
        ensures
            *r == self.id,
    {
        &self.id
    }

    pub fn name(&self) -> (r: &String)
        ensures
            *r == self.name,
    {
        &self.name
    }

    pub fn start_date(&self) -> (r: &Option<i64>)
        ensures
            *r == self.start_date,
    {
        &self.start_date
    }

    pub fn address(&self) -> (r: &Option<String>)
        ensures
            *r == self.address,
    {
        &self.address
    }

    pub fn phone_number(&self) -> (r: &Option<String>)
        ensures
            *r == self.phone_number,
    {
        &self.phone_number
    }

    pub fn username(&self) -> (r: &String)
        ensures
            *r == self.username,
    {
        &self.username
    }

    pub fn password(&self) -> (r: &String)
        ensures
            *r == self.password,
    {
        &self.password
    }

    pub fn email(&self) -> (r: &String)
        ensures
            *r == self.email,
    {
        &self.email
    }

    pub fn photo(&self) -> (r: &Option<String>)
        ensures
            *r == self.photo,
    {
        &self.photo
    }

    /// The pattern a field of this model must match, if any.
    pub fn get_field_regex_pattern(field_name: &str) -> (r: Option<&'static str>)
        ensures
            r.deep_view() == profile_field_pattern(field_name@),
    {
        if str_eq(field_name, "name") {
            Some("^.{2,50}$")
        } else if str_eq(field_name, "address") {
            Some("^.{1,500}$")
        } else if str_eq(field_name, "phone_number") {
            Some("^[\\d+-]{4,20}$")
        } else if str_eq(field_name, "username") {
            Some("^\\w{2,20}$")
        } else if str_eq(field_name, "email") {
            Some("^\\w+@\\w{2,}\\.\\w{2,}$")
        } else if str_eq(field_name, "password") {
            Some("^.{2,50}$")
        } else {
            None
        }
    }

    /// Checks a text against the pattern of its field.
    pub fn validate_field_str(field_name: &str, value: &str) -> (r: Result<(), String>)
        ensures
            outcome_agrees(r, text_failure(profile_field_pattern(field_name@), field_name@, value@, false)),
    {
        let pattern = Self::get_field_regex_pattern(field_name);
        check_field(pattern, field_name, value, false)
    }

    /// Builds a user from a registration: the fields are checked in order,
    /// a fresh id is drawn and the password is hashed with the default cost. A valid registration
    /// fails only when hashing fails.
    pub fn try_from(user_model: WebModel) -> (r: Result<User, String>)
        ensures
            registration_failure(user_model) is Some ==> outcome_agrees(r, registration_failure(user_model)),
            r matches Ok(u) ==> {
                &&& registration_failure(user_model) is None
                &&& is_hyphenated_v4_uuid(u.id@)
                &&& u.name == user_model.name
                &&& u.start_date == user_model.start_date
                &&& u.address == user_model.address
                &&& u.phone_number == user_model.phone_number
                &&& u.username == user_model.username
                &&& u.email == user_model.email
                &&& u.photo == user_model.photo
                &&& u.password@.len() == 60
                &&& is_bcrypt_hash_with_cost(u.password@, DEFAULT_COST)
                &&& u.password@.subrange(4, 6) == seq!['1', '2']
                &&& bcrypt_verify_result(user_model.password@, u.password@) == Some(true)
            },
    {
        let r = Self::validate_field_str("name", user_model.name.as_str());
        if r.is_err() {
            return Err(r.unwrap_err());
        }
        let r = check_optional(Self::get_field_regex_pattern("address"), "address", &user_model.address, false);
        if r.is_err() {
            return Err(r.unwrap_err());
        }
        let r = check_optional(
            Self::get_field_regex_pattern("phone_number"),
            "phone_number",
            &user_model.phone_number,
            false,
        );
        if r.is_err() {
            return Err(r.unwrap_err());
        }
        let r = Self::validate_field_str("username", user_model.username.as_str());
        if r.is_err() {
            return Err(r.unwrap_err());
        }
        let r = Self::validate_field_str("email", user_model.email.as_str());
        if r.is_err() {
            return Err(r.unwrap_err());
        }
        let r = Self::validate_field_str("password", user_model.password.as_str());
        if r.is_err() {
            return Err(r.unwrap_err());
        }
        let id = generate_uuid();
        proof {
            lemma_default_cost_digits();
        }
        match hash_password(user_model.password.as_str(), DEFAULT_COST) {
            Err(e) => Err(e),
            Ok(password) => Ok(
                User {
                    id,
                    name: user_model.name,
                    start_date: user_model.start_date,
                    address: user_model.address,
                    phone_number: user_model.phone_number,
                    username: user_model.username,
                    password,
                    email: user_model.email,
                    photo: user_model.photo,
                },
            ),
        }
    }
}

impl From<User> for UserRegisteredData {
    /// The registration event of a user carries all its fields but the id.
    fn from(user_model: User) -> (r: UserRegisteredData) {
        UserRegisteredData {
            name: user_model.name,
            start_date: user_model.start_date,
            address: user_model.address,
            phone_number: user_model.phone_number,
            username: user_model.username,
            password: user_model.password,
            email: user_model.email,
            photo: user_model.photo,
        }
    }
}

impl vstd::std_specs::convert::FromSpecImpl<User> for UserRegisteredData {
    open spec fn obeys_from_spec() -> bool {
        true
    }

    open spec fn from_spec(v: User) -> UserRegisteredData {
        UserRegisteredData {
            name: v.name,
            start_date: v.start_date,
            address: v.address,
            phone_number: v.phone_number,
            username: v.username,
            password: v.password,
            email: v.email,
            photo: v.photo,
        }
    }
}

} // verus!
