//! Failures of the token core, each a distinct kind.
use vstd::prelude::*;

verus! {

/// Everything that can go wrong while handling keys, passwords and tokens.
#[derive(Clone, Copy, Debug, PartialEq, Eq, Structural)]
pub enum TokenError {
    MissingConfig,
    InvalidKeyEncoding,
    HashingFailure,
    SerializationFailure,
    SigningFailure,
    AlgorithmKeyMismatch,
    MalformedToken,
    SignatureInvalid,
    Expired,
    NotYetValid,
    IssuerMismatch,
    AudienceMismatch,
}

pub open spec fn error_text(e: TokenError) -> Seq<char> {
    match e {
        TokenError::MissingConfig => "key material is not configured"@,
        TokenError::InvalidKeyEncoding => "key material could not be parsed"@,
        TokenError::HashingFailure => "password hashing failed"@,
        TokenError::SerializationFailure => "claims could not be serialized"@,
        TokenError::SigningFailure => "token could not be signed"@,
        TokenError::AlgorithmKeyMismatch => "algorithm does not fit the key"@,
        TokenError::MalformedToken => "token is malformed"@,
        TokenError::SignatureInvalid => "token signature is invalid"@,
        TokenError::Expired => "token has expired"@,
        TokenError::NotYetValid => "token is not valid yet"@,
        TokenError::IssuerMismatch => "token issuer is not trusted"@,
        TokenError::AudienceMismatch => "token audience is not accepted"@,
    }
}

impl TokenError {
    /// A short description that reveals no detail of the failure.
    pub fn as_str(&self) -> (r: &'static str)
        ensures
            r@ == error_text(*self),
    {
        match self {
            TokenError::MissingConfig => "key material is not configured",
            TokenError::InvalidKeyEncoding => "key material could not be parsed",
            TokenError::HashingFailure => "password hashing failed",
            TokenError::SerializationFailure => "claims could not be serialized",
            TokenError::SigningFailure => "token could not be signed",
            TokenError::AlgorithmKeyMismatch => "algorithm does not fit the key",
            TokenError::MalformedToken => "token is malformed",
            TokenError::SignatureInvalid => "token signature is invalid",
            TokenError::Expired => "token has expired",
            TokenError::NotYetValid => "token is not valid yet",
            TokenError::IssuerMismatch => "token issuer is not trusted",
            TokenError::AudienceMismatch => "token audience is not accepted",
        }
    }
}

} // verus!
