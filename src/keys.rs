//! Key material: a signing and a verifying capability, built once from a
//! shared secret or from an Ed25519 PEM pair.
use vstd::prelude::*;
use crate::error::TokenError;
use crate::model::{Algorithm, KeyFamily};
use vstd::utf8::encode_utf8;

verus! {

#[verifier::external_type_specification]
#[verifier::external_body]
pub struct ExEncodingKey(jsonwebtoken::EncodingKey);

#[verifier::external_type_specification]
#[verifier::external_body]
pub struct ExDecodingKey(jsonwebtoken::DecodingKey);

/// The base64url text of the HMAC that `alg` gives for `message` under
/// `secret`.
pub uninterp spec fn hmac_text(alg: Algorithm, secret: Seq<u8>, message: Seq<u8>) -> Seq<char>;

/// The base64url text of the Ed25519 signature of `message` under the
/// private key in `private_pem`, if that key can sign.
pub uninterp spec fn ed_signature(private_pem: Seq<u8>, message: Seq<u8>) -> Option<Seq<char>>;

/// Whether `signature` is base64url text of an Ed25519 signature of
/// `message` under the public key in `public_pem`.
pub uninterp spec fn ed_verifies(public_pem: Seq<u8>, signature: Seq<char>, message: Seq<u8>) -> bool;

/// Whether `pem` parses as an Ed25519 private key.
pub uninterp spec fn ed_private_pem_ok(pem: Seq<u8>) -> bool;

/// Whether `pem` parses as an Ed25519 public key.
pub uninterp spec fn ed_public_pem_ok(pem: Seq<u8>) -> bool;

/// Whether `signature` signs `message` with `alg` under a key of `family`
/// made from `source`; false where the algorithm does not fit the key.
pub open spec fn signature_ok(
    family: KeyFamily,
    source: Seq<u8>,
    alg: Algorithm,
    message: Seq<u8>,
    signature: Seq<char>,
) -> bool {
    if family == KeyFamily::Hmac && alg != Algorithm::EdDSA {
        signature == hmac_text(alg, source, message)
    } else if family == KeyFamily::Ed && alg == Algorithm::EdDSA {
        ed_verifies(source, signature, message)
    } else {
        false
    }
}

/// Relies on `jsonwebtoken::EncodingKey::from_secret`, which never fails.
/// The key is made here, beside the record of its kind and its secret, so
/// the record describes the key that `crypto::sign` receives.
#[verifier::external_body]
fn signing_key_from_secret(secret: &[u8]) -> (r: SigningKey)
    ensures
        r.spec_family() == KeyFamily::Hmac,
        r.spec_source() == secret@,
{
    SigningKey {
        key: jsonwebtoken::EncodingKey::from_secret(secret),
        family: KeyFamily::Hmac,
        source: Ghost(secret@),
    }
}

/// Relies on `jsonwebtoken::DecodingKey::from_secret`, which never fails.
/// The key is made here, beside the record of its kind and its secret.
#[verifier::external_body]
fn verifying_key_from_secret(secret: &[u8]) -> (r: VerifyingKey)
    ensures
        r.spec_family() == KeyFamily::Hmac,
        r.spec_source() == secret@,
{
    VerifyingKey {
        key: jsonwebtoken::DecodingKey::from_secret(secret),
        family: KeyFamily::Hmac,
        source: Ghost(secret@),
    }
}

/// Relies on `jsonwebtoken::EncodingKey::from_ed_pem`: whether it parses
/// depends on the PEM bytes alone. The key is made here, beside the record
/// of its kind and its PEM bytes.
#[verifier::external_body]
fn signing_key_from_ed_pem(pem: &[u8]) -> (r: Option<SigningKey>)
    ensures
        r is Some <==> ed_private_pem_ok(pem@),
        r is Some ==> r->Some_0.spec_family() == KeyFamily::Ed && r->Some_0.spec_source() == pem@,
{
    match jsonwebtoken::EncodingKey::from_ed_pem(pem) {
        Ok(key) => Some(SigningKey { key, family: KeyFamily::Ed, source: Ghost(pem@) }),
        Err(_) => None,
    }
}

/// Relies on `jsonwebtoken::DecodingKey::from_ed_pem`: whether it parses
/// depends on the PEM bytes alone. The key is made here, beside the record
/// of its kind and its PEM bytes.
#[verifier::external_body]
fn verifying_key_from_ed_pem(pem: &[u8]) -> (r: Option<VerifyingKey>)
    ensures
        r is Some <==> ed_public_pem_ok(pem@),
        r is Some ==> r->Some_0.spec_family() == KeyFamily::Ed && r->Some_0.spec_source() == pem@,
{
    match jsonwebtoken::DecodingKey::from_ed_pem(pem) {
        Ok(key) => Some(VerifyingKey { key, family: KeyFamily::Ed, source: Ghost(pem@) }),
        Err(_) => None,
    }
}

/// Relies on `jsonwebtoken::crypto::sign`, called on the key that `key`
/// was made from: for an HMAC key and an HS algorithm the base64url HMAC of
/// the message under the secret, which always succeeds; for an Ed25519 key
/// and EdDSA the deterministic Ed25519 signature. Its output is unpadded
/// base64url of a non-empty digest: no dot, at least one character.
#[verifier::external_body]
fn sign_message(message: &[u8], key: &SigningKey, alg: Algorithm) -> (r: Option<String>)
    ensures
        key.spec_family() == KeyFamily::Hmac && alg != Algorithm::EdDSA ==> r is Some && r->Some_0@
            == hmac_text(alg, key.spec_source(), message@),
        key.spec_family() == KeyFamily::Ed && alg == Algorithm::EdDSA ==> (r is Some <==> ed_signature(
            key.spec_source(),
            message@,
        ) is Some) && (r is Some ==> r->Some_0@ == ed_signature(key.spec_source(), message@)->Some_0),
        r is Some ==> r->Some_0@.len() > 0 && forall|k: int| 0 <= k < r->Some_0@.len() ==> r->Some_0@[k] != '.',
{
    let alg = match alg {
        Algorithm::HS256 => jsonwebtoken::Algorithm::HS256,
        Algorithm::HS384 => jsonwebtoken::Algorithm::HS384,
        Algorithm::HS512 => jsonwebtoken::Algorithm::HS512,
        Algorithm::EdDSA => jsonwebtoken::Algorithm::EdDSA,
    };
    jsonwebtoken::crypto::sign(message, &key.key, alg).ok()
}

/// Relies on `jsonwebtoken::crypto::verify`, called on the key that `key`
/// was made from: for an HMAC key and an HS algorithm it re-signs the
/// message and compares; for an Ed25519 key and EdDSA it checks the
/// signature. An error there counts as invalid.
#[verifier::external_body]
fn verify_signature(signature: &str, message: &[u8], key: &VerifyingKey, alg: Algorithm) -> (r: bool)
    ensures
        key.spec_family() == KeyFamily::Hmac && alg != Algorithm::EdDSA ==> r == (signature@ == hmac_text(
            alg,
            key.spec_source(),
            message@,
        )),
        key.spec_family() == KeyFamily::Ed && alg == Algorithm::EdDSA ==> r == ed_verifies(
            key.spec_source(),
            signature@,
            message@,
        ),
{
    let alg = match alg {
        Algorithm::HS256 => jsonwebtoken::Algorithm::HS256,
        Algorithm::HS384 => jsonwebtoken::Algorithm::HS384,
        Algorithm::HS512 => jsonwebtoken::Algorithm::HS512,
        Algorithm::EdDSA => jsonwebtoken::Algorithm::EdDSA,
    };
    jsonwebtoken::crypto::verify(signature, message, &key.key, alg).unwrap_or(false)
}

/// The capability to sign, with the kind of key behind it and the bytes it
/// was made from (the secret, or the private key PEM).
pub struct SigningKey {
    key: jsonwebtoken::EncodingKey,
    family: KeyFamily,
    source: Ghost<Seq<u8>>,
}

/// The capability to check signatures, with the kind of key behind it and
/// the bytes it was made from (the secret, or the public key PEM).
pub struct VerifyingKey {
    key: jsonwebtoken::DecodingKey,
    family: KeyFamily,
    source: Ghost<Seq<u8>>,
}

impl SigningKey {
    pub closed spec fn spec_family(&self) -> KeyFamily {
        self.family
    }

    pub closed spec fn spec_source(&self) -> Seq<u8> {
        self.source@
    }

    /// The kind of key behind this capability.
    pub fn family(&self) -> (r: KeyFamily)
        ensures
            r == self.spec_family(),
    {
        self.family
    }

    /// Signs `message` with `alg`; `None` where the key cannot sign.
    pub fn sign(&self, message: &[u8], alg: Algorithm) -> (r: Option<String>)
        ensures
            self.spec_family() == KeyFamily::Hmac && alg != Algorithm::EdDSA ==> r is Some && r->Some_0@
                == hmac_text(alg, self.spec_source(), message@),
            self.spec_family() == KeyFamily::Ed && alg == Algorithm::EdDSA ==> (r is Some <==> ed_signature(
                self.spec_source(),
                message@,
            ) is Some) && (r is Some ==> r->Some_0@ == ed_signature(self.spec_source(), message@)->Some_0),
            r is Some ==> r->Some_0@.len() > 0 && forall|k: int| 0 <= k < r->Some_0@.len() ==> r->Some_0@[k]
                != '.',
    {
        sign_message(message, self, alg)
    }
}

impl VerifyingKey {
    pub closed spec fn spec_family(&self) -> KeyFamily {
        self.family
    }

    pub closed spec fn spec_source(&self) -> Seq<u8> {
        self.source@
    }

    /// The kind of key behind this capability.
    pub fn family(&self) -> (r: KeyFamily)
        ensures
            r == self.spec_family(),
    {
        self.family
    }

    /// Whether `signature` signs `message` under `alg` and this key; false
    /// where the algorithm does not fit the key.
    pub fn verify(&self, signature: &str, message: &[u8], alg: Algorithm) -> (r: bool)
        ensures
            r == signature_ok(self.spec_family(), self.spec_source(), alg, message@, signature@),
    {
        if family_fits(self.family, alg) {
            verify_signature(signature, message, self, alg)
        } else {
            false
        }
    }
}

fn family_fits(family: KeyFamily, alg: Algorithm) -> (r: bool)
    ensures
        r == ((family == KeyFamily::Hmac && alg != Algorithm::EdDSA) || (family == KeyFamily::Ed && alg
            == Algorithm::EdDSA)),
{
    match (family, alg) {
        (KeyFamily::Hmac, Algorithm::EdDSA) => false,
        (KeyFamily::Hmac, _) => true,
        (KeyFamily::Ed, Algorithm::EdDSA) => true,
        (KeyFamily::Ed, _) => false,
    }
}

/// A signing capability and the matching verifying capability.
pub struct JwtKeys {
    pub encoding: SigningKey,
    pub decoding: VerifyingKey,
}

impl JwtKeys {
    /// Symmetric key material from a shared secret.
    pub fn from_secret(secret: &str) -> (r: JwtKeys)
        ensures
            r.encoding.spec_family() == KeyFamily::Hmac,
            r.decoding.spec_family() == KeyFamily::Hmac,
            r.encoding.spec_source() == encode_utf8(secret@),
            r.decoding.spec_source() == encode_utf8(secret@),
    {
        let bytes = secret.as_bytes();
        JwtKeys { encoding: signing_key_from_secret(bytes), decoding: verifying_key_from_secret(bytes) }
    }

    /// Ed25519 key material from a PEM private key and a PEM public key.
    pub fn from_ed_pem(private_key: &str, public_key: &str) -> (r: Result<JwtKeys, TokenError>)
        ensures
            r is Ok <==> ed_private_pem_ok(encode_utf8(private_key@)) && ed_public_pem_ok(
                encode_utf8(public_key@),
            ),
            r is Ok ==> r->Ok_0.encoding.spec_family() == KeyFamily::Ed && r->Ok_0.decoding.spec_family()
                == KeyFamily::Ed && r->Ok_0.encoding.spec_source() == encode_utf8(private_key@)
                && r->Ok_0.decoding.spec_source() == encode_utf8(public_key@),
            r is Err ==> r == Err::<JwtKeys, TokenError>(TokenError::InvalidKeyEncoding),
    {
        let encoding = match signing_key_from_ed_pem(private_key.as_bytes()) {
            Some(k) => k,
            None => {
                return Err(TokenError::InvalidKeyEncoding);
            },
        };
        let decoding = match verifying_key_from_ed_pem(public_key.as_bytes()) {
            Some(k) => k,
            None => {
                return Err(TokenError::InvalidKeyEncoding);
            },
        };
        Ok(JwtKeys { encoding, decoding })
    }
}

} // verus!
