//! Opaque refresh tokens: random alphanumeric strings.
use vstd::prelude::*;
use crate::text::push_char;

verus! {

/// Characters of a refresh token.
pub const REFRESH_TOKEN_LEN: usize = 32;

pub open spec fn is_alphanumeric(c: char) -> bool {
    ('A' <= c && c <= 'Z') || ('a' <= c && c <= 'z') || ('0' <= c && c <= '9')
}

/// Relies on `rand::distributions::Alphanumeric` sampled from
/// `rand::thread_rng()`: an ASCII letter or digit.
#[verifier::external_body]
fn random_alphanumeric() -> (r: u8)
    ensures
        is_alphanumeric_byte(r),
{
    rand::Rng::sample(&mut rand::thread_rng(), rand::distributions::Alphanumeric)
}

pub open spec fn is_alphanumeric_byte(b: u8) -> bool {
    (65 <= b <= 90) || (97 <= b <= 122) || (48 <= b <= 57)
}

/// The token whose characters are the given bytes, in order.
pub fn refresh_token_from(bytes: &[u8]) -> (r: String)
    ensures
        r@ == bytes@.map_values(|b: u8| b as char),
{
    let mut out = String::new();
    let mut i: usize = 0;
    while i < bytes.len()
        invariant
            i <= bytes@.len(),
            out@ == bytes@.subrange(0, i as int).map_values(|b: u8| b as char),
        decreases bytes@.len() - i,
    {
        push_char(&mut out, bytes[i] as char);
        i += 1;
        assert(out@ =~= bytes@.subrange(0, i as int).map_values(|b: u8| b as char));
    }
    assert(bytes@.subrange(0, i as int) =~= bytes@);
    out
}

/// A fresh refresh token of 32 random letters and digits.
pub fn generate_refresh_token() -> (r: String)
    ensures
        r@.len() == REFRESH_TOKEN_LEN,
        forall|k: int| 0 <= k < r@.len() ==> is_alphanumeric(#[trigger] r@[k]),
{
    let mut drawn: Vec<u8> = Vec::new();
    while drawn.len() < REFRESH_TOKEN_LEN
        invariant
            drawn@.len() <= REFRESH_TOKEN_LEN,
            forall|k: int| 0 <= k < drawn@.len() ==> is_alphanumeric_byte(#[trigger] drawn@[k]),
        decreases REFRESH_TOKEN_LEN - drawn@.len(),
    {
        drawn.push(random_alphanumeric());
    }
    let r = refresh_token_from(drawn.as_slice());
    assert forall|k: int| 0 <= k < r@.len() implies is_alphanumeric(#[trigger] r@[k]) by {
        assert(r@[k] == (drawn@[k] as char));
        assert((drawn@[k] as char) as u32 == drawn@[k]);
    }
    r
}

} // verus!
