//! Building and signing a token: `header.payload.signature`, the first two
//! parts base64url over UTF-8 JSON.
use vstd::prelude::*;
use crate::base64url::{b64, base64url_encode};
use crate::claims::minted;
use crate::error::TokenError;
use crate::json::{claims_json, claims_to_json};
use crate::keys::{ed_signature, hmac_text, SigningKey};
use crate::model::{
    algorithm_text, copied, family_of, KeyFamily, Algorithm, ClaimsView, JwtAudience, JwtIssuer, TokenClaims, JwtUser,
};
use vstd::utf8::encode_utf8;

verus! {

/// The JSON text of the token header for `a`.
pub open spec fn header_json(a: Algorithm) -> Seq<char> {
    "{\"typ\":\"JWT\",\"alg\":\""@ + (algorithm_text(a) + "\"}"@)
}

/// First part of a token: the encoded header.
pub open spec fn header_segment(a: Algorithm) -> Seq<char> {
    b64(encode_utf8(header_json(a)))
}

/// Second part of a token: the encoded claims.
pub open spec fn payload_segment(c: ClaimsView) -> Seq<char> {
    b64(encode_utf8(claims_json(c)))
}

/// The text that the signature covers.
pub open spec fn signing_input(a: Algorithm, c: ClaimsView) -> Seq<char> {
    header_segment(a) + seq!['.'] + payload_segment(c)
}

/// A complete token for `a` and `c` with signature text `sig`.
pub open spec fn token_text(a: Algorithm, c: ClaimsView, sig: Seq<char>) -> Seq<char> {
    signing_input(a, c) + seq!['.'] + sig
}

/// What signing `c` with `alg` under a key of `family` made from `source`
/// gives.
pub open spec fn signed_token(alg: Algorithm, c: ClaimsView, family: KeyFamily, source: Seq<u8>) -> Result<
    Seq<char>,
    TokenError,
> {
    let message = encode_utf8(signing_input(alg, c));
    if family_of(alg) != family {
        Err(TokenError::AlgorithmKeyMismatch)
    } else if alg != Algorithm::EdDSA {
        Ok(token_text(alg, c, hmac_text(alg, source, message)))
    } else {
        match ed_signature(source, message) {
            Some(sig) => Ok(token_text(alg, c, sig)),
            None => Err(TokenError::SigningFailure),
        }
    }
}

pub open spec fn text_result(r: Result<String, TokenError>) -> Result<Seq<char>, TokenError> {
    match r {
        Ok(t) => Ok(t@),
        Err(e) => Err(e),
    }
}

/// The JSON text of the token header for `a`.
pub fn header_text(a: Algorithm) -> (r: String)
    ensures
        r@ == header_json(a),
{
    let mut out = String::new();
    out.append("{\"typ\":\"JWT\",\"alg\":\"");
    out.append(a.as_str());
    out.append("\"}");
    assert(out@ =~= header_json(a));
    out
}

/// Base64url text of the UTF-8 encoding of `text`.
pub fn segment_of(text: &String) -> (r: String)
    ensures
        r@ == b64(encode_utf8(text@)),
{
    base64url_encode(text.as_str().as_bytes())
}

/// The text that a signature over `alg` and `claims` covers.
pub fn signing_input_of(alg: Algorithm, claims: &TokenClaims) -> (r: String)
    ensures
        r@ == signing_input(alg, claims@),
{
    let mut out = segment_of(&header_text(alg));
    proof {
        reveal_strlit(".");
    }
    assert("."@ =~= seq!['.']);
    out.append(".");
    let payload = segment_of(&claims_to_json(claims));
    out.append(payload.as_str());
    assert(out@ =~= signing_input(alg, claims@));
    out
}

/// The token whose signing input is `input` and whose signature is `sig`.
pub fn assemble(input: String, sig: &str) -> (r: String)
    ensures
        r@ == input@ + seq!['.'] + sig@,
{
    let mut out = input;
    proof {
        reveal_strlit(".");
    }
    assert("."@ =~= seq!['.']);
    out.append(".");
    out.append(sig);
    out
}

pub struct AuthTokenView {
    pub alg: Algorithm,
    pub claims: ClaimsView,
}

/// A token under construction, consumed by `encode`.
pub struct AuthToken {
    alg: Algorithm,
    claims: TokenClaims,
}

impl View for AuthToken {
    type V = AuthTokenView;

    closed spec fn view(&self) -> AuthTokenView {
        AuthTokenView { alg: self.alg, claims: self.claims@ }
    }
}

impl AuthToken {
    /// A token for `user` with fresh claims, to be signed with HS256.
    pub fn new(user: JwtUser) -> (r: AuthToken)
        ensures
            r@.alg == Algorithm::HS256,
            r@.claims == minted(user@, r@.claims.sub, r@.claims.iat),
            r@.claims.sub.len() == 36,
    {
        AuthToken { alg: Algorithm::HS256, claims: TokenClaims::new(user) }
    }

    /// Selects the signing algorithm.
    pub fn alg(self, alg: Algorithm) -> (r: AuthToken)
        ensures
            r@ == (AuthTokenView { alg, claims: self@.claims }),
    {
        AuthToken { alg, claims: self.claims }
    }

    /// Sets the expiry timestamp. `encode` does not compare it with the
    /// not-before timestamp: keeping the two in order is the caller's part.
    pub fn exp(self, exp: i64) -> (r: AuthToken)
        ensures
            r@ == (AuthTokenView { alg: self@.alg, claims: ClaimsView { exp, ..self@.claims } }),
    {
        let mut claims = self.claims;
        claims.exp = exp;
        AuthToken { alg: self.alg, claims }
    }

    /// Sets the not-before timestamp.
    pub fn nbf(self, nbf: i64) -> (r: AuthToken)
        ensures
            r@ == (AuthTokenView { alg: self@.alg, claims: ClaimsView { nbf, ..self@.claims } }),
    {
        let mut claims = self.claims;
        claims.nbf = nbf;
        AuthToken { alg: self.alg, claims }
    }

    /// Declares the issuers.
    pub fn iss(self, iss: &[JwtIssuer]) -> (r: AuthToken)
        ensures
            r@ == (AuthTokenView { alg: self@.alg, claims: ClaimsView { iss: iss@, ..self@.claims } }),
    {
        let mut claims = self.claims;
        claims.iss = copied(iss);
        AuthToken { alg: self.alg, claims }
    }

    /// Declares the audiences.
    pub fn aud(self, aud: &[JwtAudience]) -> (r: AuthToken)
        ensures
            r@ == (AuthTokenView { alg: self@.alg, claims: ClaimsView { aud: aud@, ..self@.claims } }),
    {
        let mut claims = self.claims;
        claims.aud = copied(aud);
        AuthToken { alg: self.alg, claims }
    }

    /// Signs the claims with `key` and returns the compact token.
    pub fn encode(self, key: &SigningKey) -> (r: Result<String, TokenError>)
        ensures
            text_result(r) == signed_token(self@.alg, self@.claims, key.spec_family(), key.spec_source()),
    {
        if self.alg.family() != key.family() {
            return Err(TokenError::AlgorithmKeyMismatch);
        }
        let input = signing_input_of(self.alg, &self.claims);
        match key.sign(input.as_str().as_bytes(), self.alg) {
            Some(sig) => {
                let token = assemble(input, sig.as_str());
                assert(token@ == token_text(self@.alg, self@.claims, sig@));
                Ok(token)
            },
            None => Err(TokenError::SigningFailure),
        }
    }
}

} // verus!
