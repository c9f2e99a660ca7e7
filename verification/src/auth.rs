//! Reading the caller's token out of an `Authorization` header.

use vstd::prelude::*;
use crate::text::{
    replace_all, replace_all_exec, trim, trim_exec, occurs_nowhere, is_white_space, lemma_replace_absent,
    lemma_replace_leading, lemma_trim_padded,
};

verus! {

/// A header byte that can stand in a textual header value: visible ASCII
/// or a tab.
pub open spec fn is_visible_ascii(b: u8) -> bool {
    (32 <= b && b < 127) || b == 9
}

/// The text of a header value whose bytes are all visible ASCII.
pub open spec fn header_chars(bytes: Seq<u8>) -> Seq<char> {
    Seq::new(bytes.len(), |i: int| bytes[i] as char)
}

/// A header value read as text: `Some` exactly when every byte is visible
/// ASCII (or a tab), as `HeaderValue::to_str` decides.
pub fn header_text(bytes: &[u8]) -> (r: Option<String>)
    ensures
        r is Some <==> (forall|i: int| 0 <= i < bytes@.len() ==> is_visible_ascii(#[trigger] bytes@[i])),
        r matches Some(s) ==> s@ == header_chars(bytes@),
{
    let mut out = String::new();
    let mut i: usize = 0;
    while i < bytes.len()
        invariant
            i <= bytes@.len(),
            forall|j: int| 0 <= j < i ==> is_visible_ascii(#[trigger] bytes@[j]),
            out@ == header_chars(bytes@.take(i as int)),
        decreases bytes@.len() - i,
    {
        let b = bytes[i];
        if !((32 <= b && b < 127) || b == 9) {
            return None;
        }
        out.push(b as char);
        i = i + 1;
        assert(out@ =~= header_chars(bytes@.take(i as int)));
    }
    assert(bytes@.take(i as int) =~= bytes@);
    Some(out)
}

/// The token of an `Authorization` value: every `Bearer` removed, then
/// surrounding white space trimmed.
pub open spec fn bearer_token_of(header: Seq<char>) -> Seq<char> {
    trim(replace_all(header, "Bearer"@, ""@))
}

/// The token of a header written `Bearer <token>` is the token, for a token
/// with no white space at its ends and no `Bearer` inside.
pub proof fn lemma_bearer_header_gives_token(token: Seq<char>)
    requires
        occurs_nowhere(token, "Bearer"@),
        token.len() == 0 || (!is_white_space(token[0]) && !is_white_space(token.last())),
    ensures
        bearer_token_of("Bearer "@ + token) == token,
{
    reveal_strlit("Bearer");
    reveal_strlit("Bearer ");
    reveal_strlit(" ");
    reveal_strlit("");
    let pat = "Bearer"@;
    let rest = seq![' '] + token;
    assert("Bearer "@ + token =~= pat + rest);
    lemma_replace_leading(pat, rest, ""@);
    assert forall|i: int| 0 <= i && i + pat.len() <= rest.len() implies #[trigger] rest.subrange(i, i + pat.len()) != pat by {
        if i == 0 {
            assert(rest.subrange(i, i + pat.len())[0] == ' ');
        } else {
            assert(rest.subrange(i, i + pat.len()) =~= token.subrange(i - 1, i - 1 + pat.len()));
        }
    }
    lemma_replace_absent(rest, pat, ""@);
    assert(""@ + rest =~= rest);
    lemma_trim_padded(' ', token);
}

/// The token of an `Authorization` value.
pub fn bearer_token(auth_header: &str) -> (token: String)
    ensures
        token@ == bearer_token_of(auth_header@),
{
    proof {
        reveal_strlit("Bearer");
    }
    let replaced = replace_all_exec(auth_header, "Bearer", "");
    trim_exec(replaced.as_str())
}

/// Why a request carries no usable token.
#[derive(Debug, Clone, PartialEq)]
pub enum AuthError {
    /// There is no `Authorization` header ("Auth required.", 401).
    Missing,
    /// The header value is not visible ASCII text (400).
    NotText,
}

/// The token a request carries, given the bytes of its `Authorization`
/// header, if it has one.
pub fn auth_token(header: Option<&[u8]>) -> (r: Result<String, AuthError>)
    ensures
        match header {
            None => r == Err::<String, AuthError>(AuthError::Missing),
            Some(b) => if forall|i: int| 0 <= i < b@.len() ==> is_visible_ascii(#[trigger] b@[i]) {
                r matches Ok(t) && t@ == bearer_token_of(header_chars(b@))
            } else {
                r == Err::<String, AuthError>(AuthError::NotText)
            },
        },
{
    match header {
        None => Err(AuthError::Missing),
        Some(b) => match header_text(b) {
            Some(text) => Ok(bearer_token(text.as_str())),
            None => Err(AuthError::NotText),
        },
    }
}

impl AuthError {
    /// The status a request without a usable token is answered with.
    pub fn status(&self) -> (c: u16)
        ensures
            c == match self {
                AuthError::Missing => 401u16,
                AuthError::NotText => 400u16,
            },
    {
        match self {
            AuthError::Missing => 401,
            AuthError::NotText => 400,
        }
    }

    /// The message a request without a usable token is answered with.
    pub fn message(&self) -> (m: String)
        ensures
            m@ == match self {
                AuthError::Missing => "Auth required."@,
                AuthError::NotText => "failed to convert header to a str"@,
            },
    {
        match self {
            AuthError::Missing => "Auth required.".to_owned(),
            AuthError::NotText => "failed to convert header to a str".to_owned(),
        }
    }
}

} // verus!
