//! The HTTP Basic and Bearer authentication fixtures.

use vstd::prelude::*;
use vstd::utf8::encode_utf8;
use crate::text::{chars_eq, chars_of, has_prefix, slice_chars, starts_with, string_of};

verus! {

/// What the `STANDARD` engine of `base64` decodes a text to, if it accepts it.
pub uninterp spec fn base64_decoded(input: Seq<char>) -> Option<Seq<u8>>;

/// Calls `decode` of the `STANDARD` engine of `base64`. The result is named
/// `base64_decoded`; nothing more is stated of it.
#[verifier::external_body]
fn base64_decode(input: &str) -> (r: Option<Vec<u8>>)
    ensures
        match r {
            Some(v) => base64_decoded(input@) == Some(v@),
            None => base64_decoded(input@) is None,
        },
{
    base64::Engine::decode(&base64::engine::general_purpose::STANDARD, input).ok()
}

/// Whether an `Authorization` header carries `user:password` in the Basic
/// scheme: `Basic ` followed by the base64 of the UTF-8 of those credentials.
pub open spec fn basic_auth_spec(authorization: Option<Seq<char>>, user: Seq<char>, password: Seq<char>) -> bool {
    match authorization {
        Some(h) => has_prefix(h, "Basic "@) && match base64_decoded(h.skip(6)) {
            Some(b) => b == encode_utf8(user + ":"@ + password),
            None => false,
        },
        None => false,
    }
}

fn bytes_eq(a: &[u8], b: &[u8]) -> (r: bool)
    ensures
        r == (a@ == b@),
{
    if a.len() != b.len() {
        return false;
    }
    let mut i: usize = 0;
    while i < a.len()
        invariant
            a@.len() == b@.len(),
            i <= a@.len(),
            forall|j: int| 0 <= j < i ==> a@[j] == b@[j],
        decreases a@.len() - i,
    {
        if a[i] != b[i] {
            return false;
        }
        i = i + 1;
    }
    assert(a@ =~= b@);
    true
}

/// Checks the credentials of `/basic-auth/{user}/{password}`.
pub fn basic_auth_ok(authorization: Option<&str>, user: &str, password: &str) -> (r: bool)
    ensures
        r == basic_auth_spec(crate::behavior::text_of(authorization), user@, password@),
{
    match authorization {
        None => false,
        Some(h) => {
            let c = chars_of(h);
            let prefix = chars_of("Basic ");
            if !starts_with(c.as_slice(), prefix.as_slice()) {
                return false;
            }
            proof {
                reveal_strlit("Basic ");
            }
            let rest = string_of(slice_chars(c.as_slice(), 6, c.len()).as_slice());
            assert(rest@ =~= h@.skip(6));
            match base64_decode(rest.as_str()) {
                None => false,
                Some(decoded) => {
                    let mut v = chars_of(user);
                    v.push(':');
                    let p = chars_of(password);
                    crate::text::push_all(&mut v, p.as_slice());
                    let expected = string_of(v.as_slice());
                    proof {
                        reveal_strlit(":");
                    }
                    assert(expected@ =~= user@ + ":"@ + password@);
                    let e = expected.as_str().as_bytes();
                    bytes_eq(decoded.as_slice(), e)
                },
            }
        },
    }
}

/// The token `/bearer` expects: the `token` query parameter, else `biubin`.
pub open spec fn bearer_expected_spec(token: Option<Seq<char>>) -> Seq<char> {
    match token {
        Some(t) => t,
        None => "biubin"@,
    }
}

pub fn bearer_expected(token: Option<&str>) -> (t: String)
    ensures
        t@ == bearer_expected_spec(crate::behavior::text_of(token)),
{
    match token {
        Some(t) => t.to_owned(),
        None => "biubin".to_owned(),
    }
}

/// Whether an `Authorization` header is `Bearer ` followed by exactly `expected`.
pub open spec fn bearer_spec(authorization: Option<Seq<char>>, expected: Seq<char>) -> bool {
    match authorization {
        Some(h) => has_prefix(h, "Bearer "@) && h.skip(7) == expected,
        None => false,
    }
}

pub fn bearer_ok(authorization: Option<&str>, expected: &str) -> (r: bool)
    ensures
        r == bearer_spec(crate::behavior::text_of(authorization), expected@),
{
    match authorization {
        None => false,
        Some(h) => {
            let c = chars_of(h);
            let prefix = chars_of("Bearer ");
            if !starts_with(c.as_slice(), prefix.as_slice()) {
                return false;
            }
            proof {
                reveal_strlit("Bearer ");
            }
            let rest = slice_chars(c.as_slice(), 7, c.len());
            let e = chars_of(expected);
            assert(rest@ =~= h@.skip(7));
            chars_eq(rest.as_slice(), e.as_slice())
        },
    }
}

/// With a `token` query parameter `t`, a `Bearer u` header is accepted
/// exactly when `u` is `t`; without one, exactly `Bearer biubin` is.
pub proof fn law_bearer_token_from_query(t: Seq<char>, u: Seq<char>)
    ensures
        bearer_spec(Some("Bearer "@ + u), bearer_expected_spec(Some(t))) <==> u == t,
        bearer_spec(Some("Bearer "@ + u), bearer_expected_spec(None)) <==> u == "biubin"@,
{
    reveal_strlit("Bearer ");
    let h = "Bearer "@ + u;
    assert(h.take(7) =~= "Bearer "@);
    assert(h.skip(7) =~= u);
}

} // verus!
