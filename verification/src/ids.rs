//! Fresh identifiers, from the `uuid` crate.

use vstd::prelude::*;

verus! {

pub open spec fn is_lower_hex_digit(c: char) -> bool {
    ('0' <= c && c <= '9') || ('a' <= c && c <= 'f')
}

/// `s` is a random (version 4, RFC 4122 variant) UUID in lower-case
/// hyphenated form, such as `67e55044-10b1-426f-9247-bb680e5fe0c8`.
pub open spec fn is_hyphenated_v4_uuid(s: Seq<char>) -> bool {
    &&& s.len() == 36
    &&& forall|i: int|
        0 <= i < 36 ==> if i == 8 || i == 13 || i == 18 || i == 23 {
            s[i] == '-'
        } else {
            is_lower_hex_digit(#[trigger] s[i])
        }
    &&& s[14] == '4'
    &&& (s[19] == '8' || s[19] == '9' || s[19] == 'a' || s[19] == 'b')
}

/// A new random id: `uuid::Uuid::new_v4()` written with `hyphenated()`.
/// The contract claims only the form of the text, which the crate's
/// formatting code shows: 32 lower-case hexadecimal digits in groups of
/// 8-4-4-4-12, with the version digit `4` and an RFC 4122 variant digit.
/// Which id comes out is random and left unsaid; so is the crate's panic
/// when the operating system gives no random bytes.
#[verifier::external_body]
pub fn generate_uuid() -> (id: String)
    ensures
        is_hyphenated_v4_uuid(id@),
{
    format!("{}", uuid::Uuid::new_v4().hyphenated())
}

} // verus!
