use optic_mart::password::{hash_password, verify_password, DEFAULT_COST};
use optic_mart::user_command::event::ExpectedVersion;
use optic_mart::user_command::user::login::{check_credentials, login_claims, StoredCredentials, TOKEN_LIFETIME_SECS};
use optic_mart::user_command::user::modify::{UserModifiedData, WebModel as ModifyModel};
use optic_mart::user_command::user::register::{UserRegisteredData, WebModel as RegisterModel};
use optic_mart::user_command::user::{check_uniqueness, user_location, UniquenessError, User};
use optic_mart::user_command::user_profile::{
    User as ProfileUser, UserRegisteredData as ProfileRegisteredData, WebModel as ProfileModel,
};
use optic_mart::user_query::user::User as QueryUser;

fn s(x: &str) -> String {
    x.to_string()
}

fn registration() -> RegisterModel {
    RegisterModel {
        name: s("Alice"),
        start_date: Some(1_600_000_000_000_000),
        address: None,
        phone_number: Some(s("+98-21-5555")),
        username: s("alice"),
        password: s("secret12"),
        email: s("alice@mail.com"),
        photo: None,
    }
}

#[test]
fn user_field_patterns() {
    assert_eq!(User::get_field_regex_pattern("name"), Some(r"^.{2,50}$"));
    assert_eq!(User::get_field_regex_pattern("address"), Some(r"^.{1,500}$"));
    assert_eq!(User::get_field_regex_pattern("phone_number"), Some(r"^[\d+-]{4,20}$"));
    assert_eq!(User::get_field_regex_pattern("username"), Some(r"^\w{2,20}$"));
    assert_eq!(User::get_field_regex_pattern("email"), Some(r"^\w+@\w+\.\w{2,}$"));
    assert_eq!(User::get_field_regex_pattern("password"), Some(r"^.{2,50}$"));
    assert_eq!(User::get_field_regex_pattern("photo"), None);
    assert_eq!(ProfileUser::get_field_regex_pattern("phone_number"), Some(r"^[\d+-]{4,20}$"));
    assert_eq!(ProfileUser::get_field_regex_pattern("password"), Some(r"^.{2,50}$"));
    assert_eq!(ProfileUser::get_field_regex_pattern("email"), Some(r"^\w+@\w{2,}\.\w{2,}$"));
    assert_eq!(QueryUser::get_field_regex_pattern("name"), Some(r"^.{2,50}$"));
    assert_eq!(QueryUser::get_field_regex_pattern("address"), Some(r"^.{1,500}$"));
}

#[test]
fn user_fields_are_matched_against_their_patterns() {
    assert_eq!(User::validate_field_str("name", "Al"), Ok(()));
    assert_eq!(
        User::validate_field_str("name", "A"),
        Err(s(r"Field 'name' is invalid. Expected pattern: ^.{2,50}$"))
    );
    assert_eq!(User::validate_field_str("name", "A b"), Ok(()));
    assert_eq!(User::validate_field_str("phone_number", "+12345"), Ok(()));
    assert_eq!(User::validate_field_str("phone_number", "12-34"), Ok(()));
    assert_eq!(
        User::validate_field_str("phone_number", "12 34"),
        Err(s(r"Field 'phone_number' is invalid. Expected pattern: ^[\d+-]{4,20}$"))
    );
    assert_eq!(User::validate_field_str("address", "Street 1, Tehran"), Ok(()));
    assert!(User::validate_field_str("address", "").is_err());
    assert!(User::validate_field_str("address", &"a".repeat(501)).is_err());
    assert_eq!(User::validate_field_str("address", &"a".repeat(500)), Ok(()));
    assert_eq!(User::validate_field_str("username", "al"), Ok(()));
    assert!(User::validate_field_str("username", "a").is_err());
    assert_eq!(User::validate_field_str("email", "a@b.cc"), Ok(()));
    assert!(User::validate_field_str("email", "a@b.c").is_err());
    assert_eq!(QueryUser::validate_field_str("address", "Street 1"), Ok(()));
    assert_eq!(
        QueryUser::validate_field_str("name", "A"),
        Err(s(r"Field 'name' is invalid. Expected pattern: ^.{2,50}$."))
    );
    assert_eq!(QueryUser::validate_field_str("name", "A b"), Ok(()));
}

#[test]
fn a_valid_registration_gets_a_bcrypt_hash_of_its_password() {
    let m = registration();
    let d = UserRegisteredData::try_from(m.clone()).unwrap();
    assert_eq!(d.name, m.name);
    assert_eq!(d.username, m.username);
    assert_eq!(d.email, m.email);
    assert_eq!(d.start_date, m.start_date);
    assert_eq!(d.password.len(), 60);
    assert_ne!(d.password, m.password);
    assert!(d.password.starts_with("$2b$12$"));
    assert_eq!(verify_password("secret12", &d.password), Some(true));
    assert_eq!(verify_password("other", &d.password), Some(false));
}

#[test]
fn registration_checks_stop_at_the_first_failure() {
    let mut m = registration();
    m.name = s("A");
    m.email = s("bad");
    assert_eq!(
        UserRegisteredData::try_from(m),
        Err(s(r"Field 'name' is invalid. Expected pattern: ^.{2,50}$"))
    );
    let mut m = registration();
    m.phone_number = Some(s("12"));
    assert_eq!(
        UserRegisteredData::try_from(m),
        Err(s(r"Field 'phone_number' is invalid. Expected pattern: ^[\d+-]{4,20}$"))
    );
    let mut m = registration();
    m.username = "u".repeat(21);
    assert_eq!(
        UserRegisteredData::try_from(m),
        Err(s(r"Field 'username' is invalid. Expected pattern: ^\w{2,20}$"))
    );
    let mut m = registration();
    m.username = s("a");
    assert_eq!(
        UserRegisteredData::try_from(m),
        Err(s(r"Field 'username' is invalid. Expected pattern: ^\w{2,20}$"))
    );
    let mut m = registration();
    m.password = s("x");
    assert_eq!(
        UserRegisteredData::try_from(m),
        Err(s(r"Field 'password' is invalid. Expected pattern: ^.{2,50}$"))
    );
    let mut m = registration();
    m.password = "p".repeat(51);
    assert!(UserRegisteredData::try_from(m).is_err());
    let mut m = registration();
    m.email = s("alice");
    assert_eq!(
        UserRegisteredData::try_from(m),
        Err(s(r"Field 'email' is invalid. Expected pattern: ^\w+@\w+\.\w{2,}$"))
    );
    let mut m = registration();
    m.address = None;
    m.phone_number = None;
    assert!(UserRegisteredData::try_from(m).is_ok());
}

#[test]
fn any_address_of_at_most_five_hundred_characters_is_accepted() {
    let mut m = registration();
    m.address = Some(s("Street 1, Tehran"));
    m.phone_number = Some(s("+98-21-5555"));
    assert!(UserRegisteredData::try_from(m).is_ok());
    let mut m = registration();
    m.address = Some("a".repeat(501));
    assert_eq!(
        UserRegisteredData::try_from(m),
        Err(s(r"Field 'address' is invalid. Expected pattern: ^.{1,500}$"))
    );
}

#[test]
fn a_valid_modification_keeps_its_fields() {
    let m = ModifyModel {
        name: s("Alice"),
        start_date: None,
        address: Some(s("Tehran")),
        phone_number: Some(s("+989121234567")),
        username: s("alice"),
        email: s("alice@mail.com"),
        photo: Some(s("p")),
    };
    let d = UserModifiedData::try_from(m.clone()).unwrap();
    assert_eq!(d.name, m.name);
    assert_eq!(d.start_date, m.start_date);
    assert_eq!(d.address, m.address);
    assert_eq!(d.phone_number, m.phone_number);
    assert_eq!(d.username, m.username);
    assert_eq!(d.email, m.email);
    assert_eq!(d.photo, m.photo);
    let mut bad = m;
    bad.username = s("bo b");
    assert_eq!(
        UserModifiedData::try_from(bad),
        Err(s(r"Field 'username' is invalid. Expected pattern: ^\w{2,20}$"))
    );
}

#[test]
fn uniqueness_reports_the_first_clash_username_first() {
    let rows = vec![(s("bob"), s("bob@x.io")), (s("carol"), s("c@x.io")), (s("dave"), s("d@x.io"))];
    assert_eq!(check_uniqueness(&rows, "alice", "alice@x.io"), Ok(()));
    assert_eq!(check_uniqueness(&rows, "carol", "new@x.io"), Err(UniquenessError::UsernameExists));
    assert_eq!(check_uniqueness(&rows, "new", "d@x.io"), Err(UniquenessError::EmailExists));
    assert_eq!(check_uniqueness(&rows, "dave", "c@x.io"), Err(UniquenessError::EmailExists));
    assert_eq!(check_uniqueness(&rows, "carol", "c@x.io"), Err(UniquenessError::UsernameExists));
    assert_eq!(check_uniqueness(&vec![], "a", "b"), Ok(()));
    assert_eq!(UniquenessError::UsernameExists.message().as_str(), "username exists");
    assert_eq!(UniquenessError::EmailExists.message().as_str(), "email exists");
}

#[test]
fn user_location_names_the_username() {
    assert_eq!(user_location("0.0.0.0:8002", "alice").as_str(), "0.0.0.0:8002/users/alice");
}

#[test]
fn a_registered_password_logs_in() {
    let hash = hash_password("pw1", DEFAULT_COST).unwrap();
    let stored = StoredCredentials { id: s("id-1"), password_hash: hash.clone() };
    assert_eq!(check_credentials(Some(stored), "pw1"), Some(s("id-1")));
}

#[test]
fn login_without_a_user_or_with_a_malformed_hash_is_refused() {
    assert_eq!(check_credentials(None, "pw"), None);
    let stored = StoredCredentials { id: s("id-1"), password_hash: s("not a hash") };
    assert_eq!(check_credentials(Some(stored), "pw"), None);
}

#[test]
fn login_does_not_look_at_whether_the_password_matches() {
    let hash = hash_password("right", 4).unwrap();
    let stored = StoredCredentials { id: s("id-2"), password_hash: hash };
    assert_eq!(check_credentials(Some(stored), "wrong"), Some(s("id-2")));
}

#[test]
fn hashing_refuses_costs_outside_four_to_thirty_one() {
    assert!(hash_password("x", 3).is_err());
    assert!(hash_password("x", 32).is_err());
    assert_eq!(hash_password("x", 4).unwrap().len(), 60);
}

#[test]
fn login_claims_last_two_hours() {
    let c = login_claims(s("id"), s("alice"), 1_000);
    assert_eq!(c.id, s("id"));
    assert_eq!(c.sub, s("alice"));
    assert_eq!(c.exp, 8_200);
    assert_eq!(TOKEN_LIFETIME_SECS, 2 * 60 * 60);
}

#[test]
fn user_expected_versions() {
    assert_eq!(ExpectedVersion::StreamShouldNotExist.value(), -1);
    assert_eq!(ExpectedVersion::StreamShouldExist.value(), -4);
}

fn profile_model() -> ProfileModel {
    ProfileModel {
        name: s("Alice"),
        start_date: None,
        address: None,
        phone_number: None,
        username: s("alice"),
        password: s("secret12"),
        email: s("alice@mail.com"),
        photo: None,
    }
}

#[test]
fn a_valid_profile_gets_an_id_and_a_hash_of_its_password() {
    let m = profile_model();
    let u = ProfileUser::try_from(m.clone()).unwrap();
    assert_eq!(u.name, m.name);
    assert_eq!(u.username, m.username);
    assert_eq!(u.email, m.email);
    assert_eq!(u.start_date, None);
    assert_eq!(u.address, None);
    assert_eq!(u.phone_number, None);
    assert_eq!(u.photo, None);
    assert!(u.password.starts_with("$2b$12$"));
    assert_eq!(verify_password("secret12", &u.password), Some(true));
    assert_eq!(u.id.len(), 36);
    assert_eq!(u.id.as_bytes()[14], b'4');
    let v = ProfileUser::try_from(m).unwrap();
    assert_ne!(u.id, v.id);
}

#[test]
fn profile_checks_each_field_against_its_own_pattern() {
    let mut m = profile_model();
    m.username = s("some user");
    assert_eq!(
        ProfileUser::try_from(m),
        Err(s(r"Field 'username' is invalid. Expected pattern: ^\w{2,20}$"))
    );
    let mut m = profile_model();
    m.email = s("not an email");
    assert_eq!(
        ProfileUser::try_from(m),
        Err(s(r"Field 'email' is invalid. Expected pattern: ^\w+@\w{2,}\.\w{2,}$"))
    );
    let mut m = profile_model();
    m.name = s("A");
    m.email = s("bad");
    assert_eq!(
        ProfileUser::try_from(m),
        Err(s(r"Field 'name' is invalid. Expected pattern: ^.{2,50}$"))
    );
    let mut m = profile_model();
    m.password = s("x");
    assert_eq!(
        ProfileUser::try_from(m),
        Err(s(r"Field 'password' is invalid. Expected pattern: ^.{2,50}$"))
    );
    let mut m = profile_model();
    m.phone_number = Some(s("+98-21-5555"));
    m.address = Some(s("Street 1"));
    assert!(ProfileUser::try_from(m).is_ok());
}

#[test]
fn profile_accessors_and_event_body() {
    let u = ProfileUser {
        id: s("i"),
        name: s("n"),
        start_date: Some(7),
        address: Some(s("a")),
        phone_number: None,
        username: s("u"),
        password: s("h"),
        email: s("e"),
        photo: Some(s("p")),
    };
    assert_eq!(u.id(), "i");
    assert_eq!(u.name(), "n");
    assert_eq!(*u.start_date(), Some(7));
    assert_eq!(*u.address(), Some(s("a")));
    assert_eq!(*u.phone_number(), None);
    assert_eq!(u.username(), "u");
    assert_eq!(u.password(), "h");
    assert_eq!(u.email(), "e");
    assert_eq!(*u.photo(), Some(s("p")));
    let d = ProfileRegisteredData::from(u);
    assert_eq!(d.name, s("n"));
    assert_eq!(d.password, s("h"));
    assert_eq!(d.email, s("e"));
}

#[test]
fn usernames_and_emails_stay_distinct_over_registrations_and_changes() {
    // (id, username, email) rows of the store, written one request at a time.
    let mut table: Vec<(String, String, String)> = Vec::new();
    let pairs = |t: &Vec<(String, String, String)>, except: Option<&str>| -> Vec<(String, String)> {
        t.iter()
            .filter(|r| Some(r.0.as_str()) != except)
            .map(|r| (r.1.clone(), r.2.clone()))
            .collect()
    };
    for (id, u, e) in [("1", "alice", "a@x.io"), ("2", "bob", "b@x.io"), ("3", "alice", "c@x.io"), ("4", "carol", "b@x.io")] {
        if check_uniqueness(&pairs(&table, None), u, e).is_ok() {
            table.push((s(id), s(u), s(e)));
        }
    }
    assert_eq!(table.len(), 2);
    // bob may keep his own email, but not take alice's username.
    assert_eq!(check_uniqueness(&pairs(&table, Some("2")), "bobby", "b@x.io"), Ok(()));
    assert_eq!(
        check_uniqueness(&pairs(&table, Some("2")), "alice", "b@x.io"),
        Err(UniquenessError::UsernameExists)
    );
    assert_eq!(
        check_uniqueness(&pairs(&table, Some("2")), "bob", "a@x.io"),
        Err(UniquenessError::EmailExists)
    );
}
