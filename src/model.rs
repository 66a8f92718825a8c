//! Data carried by a token: the identity snapshot, the trust scope and the
//! timing fields, with their mathematical views.
use vstd::prelude::*;

verus! {

/// Privilege level of an account; earlier variants rank higher.
#[allow(non_camel_case_types, clippy::upper_case_acronyms)]
#[derive(Clone, Copy, Debug, PartialEq, Eq, Structural, PartialOrd, Ord, Hash)]
pub enum UserRole {
    MANAGER,
    ADMIN,
    MODERATOR,
    USER,
}

/// Services that may accept a token.
#[non_exhaustive]
#[derive(Clone, Copy, Debug, PartialEq, Eq, Structural, Hash)]
pub enum JwtAudience {
    MainWebsite,
    Account,
    Dashboard,
}

/// Parties that may mint a token.
#[allow(clippy::upper_case_acronyms)]
#[non_exhaustive]
#[derive(Clone, Copy, Debug, PartialEq, Eq, Structural, Hash)]
pub enum JwtIssuer {
    API,
}

/// Audience of the single-scope token format.
#[derive(Clone, Copy, Debug, PartialEq, Eq, Structural, Hash)]
pub enum Audience {
    FileUpload,
}

/// Signing algorithms that a key pair of this library can serve.
#[derive(Clone, Copy, Debug, PartialEq, Eq, Structural, Hash)]
pub enum Algorithm {
    HS256,
    HS384,
    HS512,
    EdDSA,
}

/// The two kinds of key material.
#[derive(Clone, Copy, Debug, PartialEq, Eq, Structural, Hash)]
pub enum KeyFamily {
    Hmac,
    Ed,
}

pub open spec fn role_text(r: UserRole) -> Seq<char> {
    match r {
        UserRole::MANAGER => "MANAGER"@,
        UserRole::ADMIN => "ADMIN"@,
        UserRole::MODERATOR => "MODERATOR"@,
        UserRole::USER => "USER"@,
    }
}

pub open spec fn audience_text(a: JwtAudience) -> Seq<char> {
    match a {
        JwtAudience::MainWebsite => "https://lerpz.com"@,
        JwtAudience::Account => "https://account.lerpz.com"@,
        JwtAudience::Dashboard => "https://dashboard.lerpz.com"@,
    }
}

pub open spec fn issuer_text(i: JwtIssuer) -> Seq<char> {
    match i {
        JwtIssuer::API => "https://api.lerpz.com"@,
    }
}

pub open spec fn algorithm_text(a: Algorithm) -> Seq<char> {
    match a {
        Algorithm::HS256 => "HS256"@,
        Algorithm::HS384 => "HS384"@,
        Algorithm::HS512 => "HS512"@,
        Algorithm::EdDSA => "EdDSA"@,
    }
}

pub open spec fn family_of(a: Algorithm) -> KeyFamily {
    match a {
        Algorithm::EdDSA => KeyFamily::Ed,
        _ => KeyFamily::Hmac,
    }
}

impl UserRole {
    /// The role's name as it appears in a token.
    pub fn as_str(&self) -> (r: &'static str)
        ensures
            r@ == role_text(*self),
    {
        match self {
            UserRole::MANAGER => "MANAGER",
            UserRole::ADMIN => "ADMIN",
            UserRole::MODERATOR => "MODERATOR",
            UserRole::USER => "USER",
        }
    }
}

impl JwtAudience {
    /// The audience's URI as it appears in a token.
    pub fn as_str(&self) -> (r: &'static str)
        ensures
            r@ == audience_text(*self),
    {
        match self {
            JwtAudience::MainWebsite => "https://lerpz.com",
            JwtAudience::Account => "https://account.lerpz.com",
            JwtAudience::Dashboard => "https://dashboard.lerpz.com",
        }
    }
}

impl JwtIssuer {
    /// The issuer's URI as it appears in a token.
    pub fn as_str(&self) -> (r: &'static str)
        ensures
            r@ == issuer_text(*self),
    {
        match self {
            JwtIssuer::API => "https://api.lerpz.com",
        }
    }
}

impl Audience {
    /// The audience's name as it appears in a token.
    pub fn as_str(&self) -> (r: &'static str)
        ensures
            r@ == "file-upload"@,
    {
        match self {
            Audience::FileUpload => "file-upload",
        }
    }
}

impl Algorithm {
    /// The algorithm's name as it appears in a token header.
    pub fn as_str(&self) -> (r: &'static str)
        ensures
            r@ == algorithm_text(*self),
    {
        match self {
            Algorithm::HS256 => "HS256",
            Algorithm::HS384 => "HS384",
            Algorithm::HS512 => "HS512",
            Algorithm::EdDSA => "EdDSA",
        }
    }

    /// The kind of key that this algorithm signs with.
    pub fn family(&self) -> (r: KeyFamily)
        ensures
            r == family_of(*self),
    {
        match self {
            Algorithm::EdDSA => KeyFamily::Ed,
            _ => KeyFamily::Hmac,
        }
    }
}

/// A copy of an account's identity, taken when a token is minted.
#[derive(Clone, Debug)]
pub struct JwtUser {
    pub id: String,
    pub username: String,
    pub email: String,
    pub role: UserRole,
}

pub struct UserView {
    pub id: Seq<char>,
    pub username: Seq<char>,
    pub email: Seq<char>,
    pub role: UserRole,
}

impl View for JwtUser {
    type V = UserView;

    open spec fn view(&self) -> UserView {
        UserView { id: self.id@, username: self.username@, email: self.email@, role: self.role }
    }
}

/// An account as stored, with its timestamps in seconds since the epoch.
#[derive(Clone, Debug)]
pub struct User {
    pub id: String,
    pub username: String,
    pub email: String,
    pub password: String,
    pub role: UserRole,
    pub created_at: i64,
    pub updated_at: i64,
}

impl From<User> for JwtUser {
    /// The identity snapshot of `user`: everything but the password and the
    /// timestamps.
    fn from(user: User) -> (r: JwtUser) {
        JwtUser { id: user.id, username: user.username, email: user.email, role: user.role }
    }
}

impl vstd::std_specs::convert::FromSpecImpl<User> for JwtUser {
    open spec fn obeys_from_spec() -> bool {
        true
    }

    open spec fn from_spec(user: User) -> JwtUser {
        JwtUser { id: user.id, username: user.username, email: user.email, role: user.role }
    }
}

/// The payload of a token.
#[derive(Clone, Debug)]
pub struct TokenClaims {
    pub sub: String,
    pub exp: i64,
    pub nbf: i64,
    pub iat: i64,
    pub iss: Vec<JwtIssuer>,
    pub aud: Vec<JwtAudience>,
    pub user: JwtUser,
}

pub struct ClaimsView {
    pub sub: Seq<char>,
    pub exp: i64,
    pub nbf: i64,
    pub iat: i64,
    pub iss: Seq<JwtIssuer>,
    pub aud: Seq<JwtAudience>,
    pub user: UserView,
}

impl View for TokenClaims {
    type V = ClaimsView;

    open spec fn view(&self) -> ClaimsView {
        ClaimsView {
            sub: self.sub@,
            exp: self.exp,
            nbf: self.nbf,
            iat: self.iat,
            iss: self.iss@,
            aud: self.aud@,
            user: self.user@,
        }
    }
}

/// A vector holding the elements of `s`, in order.
pub fn copied<T: Copy>(s: &[T]) -> (r: Vec<T>)
    ensures
        r@ == s@,
{
    let mut v: Vec<T> = Vec::new();
    let mut i: usize = 0;
    while i < s.len()
        invariant
            i <= s@.len(),
            v@ == s@.subrange(0, i as int),
        decreases s.len() - i,
    {
        v.push(s[i]);
        i += 1;
        assert(v@ =~= s@.subrange(0, i as int));
    }
    assert(v@ =~= s@);
    v
}

} // verus!
