//! Password hashing and checking, through the `bcrypt` crate.

use vstd::prelude::*;

verus! {

/// The work factor the services hash passwords with (the value of
/// `bcrypt::DEFAULT_COST`).
pub const DEFAULT_COST: u32 = 12;

/// The two decimal digits of a cost from 0 to 99.
pub open spec fn cost_digits(cost: u32) -> Seq<char> {
    seq![((cost / 10) + 48) as char, ((cost % 10) + 48) as char]
}

/// `h` has the form bcrypt writes its hashes in: `$2b$`, the two digits of
/// the cost, `$`, then 53 characters of salt and hash.
pub open spec fn is_bcrypt_hash_with_cost(h: Seq<char>, cost: u32) -> bool {
    &&& h.len() == 60
    &&& h.subrange(0, 4) == seq!['$', '2', 'b', '$']
    &&& h.subrange(4, 6) == cost_digits(cost)
    &&& h[6] == '$'
}

/// The default cost is written `12`.
pub proof fn lemma_default_cost_digits()
    ensures
        cost_digits(DEFAULT_COST) == seq!['1', '2'],
{
    assert(cost_digits(DEFAULT_COST) =~= seq!['1', '2']);
}

/// What `bcrypt::verify(password, hash)` returns: `Some(matches)` when
/// `hash` is a well-formed bcrypt hash, `None` when it is rejected.
pub uninterp spec fn bcrypt_verify_result(password: Seq<char>, hash: Seq<char>) -> Option<bool>;

/// Hashes `password` with a random salt through `bcrypt::hash`. The contract
/// claims what the crate's source shows of every outcome: a cost outside
/// 4..=31 is refused; a hash is written `$2b$`, the cost in two digits, `$`
/// and 53 characters of salt and hash (60 in all), and verifies the
/// password it was made from. The call may also fail when the operating
/// system gives no randomness; which salt is drawn is left unsaid, and so is
/// the text of an error.
#[verifier::external_body]
pub fn hash_password(password: &str, cost: u32) -> (r: Result<String, String>)
    ensures
        !(4 <= cost <= 31) ==> r is Err,
        r matches Ok(h) ==> is_bcrypt_hash_with_cost(h@, cost) && bcrypt_verify_result(password@, h@) == Some(true),
{
    match bcrypt::hash(password, cost) {
        Ok(h) => Ok(h),
        Err(e) => Err(e.to_string()),
    }
}

/// Checks `password` against a stored hash through `bcrypt::verify`. The
/// contract claims that the outcome is `bcrypt_verify_result` of the two, and
/// that a hash that is not 60 characters long is rejected.
#[verifier::external_body]
pub fn verify_password(password: &str, hash: &str) -> (r: Option<bool>)
    ensures
        r == bcrypt_verify_result(password@, hash@),
        r is Some ==> hash@.len() == 60,
{
    match bcrypt::verify(password, hash) {
        Ok(b) => Some(b),
        Err(_) => None,
    }
}

} // verus!
