//! Fresh claims for a user: a new subject, the issue time and the default
//! lifetime, with an empty trust scope.
use vstd::prelude::*;
use crate::model::{ClaimsView, JwtAudience, JwtIssuer, TokenClaims, JwtUser};

verus! {

/// Seconds from minting to expiry unless a caller sets another expiry.
pub const TOKEN_LIFETIME_SECS: i64 = 900;

/// Expiry of a token minted at `now` with the default lifetime, saturating
/// at the largest timestamp.
pub open spec fn default_expiry(now: i64) -> i64 {
    if now <= i64::MAX - TOKEN_LIFETIME_SECS {
        (now + TOKEN_LIFETIME_SECS) as i64
    } else {
        i64::MAX
    }
}

/// The claims minted for `user` at `now` under subject `sub`.
pub open spec fn minted(user: crate::model::UserView, sub: Seq<char>, now: i64) -> ClaimsView {
    ClaimsView {
        sub,
        exp: default_expiry(now),
        nbf: now,
        iat: now,
        iss: Seq::empty(),
        aud: Seq::empty(),
        user,
    }
}

/// Relies on `chrono::Utc::now`: the current time in seconds since the epoch.
#[verifier::external_body]
pub(crate) fn current_timestamp() -> i64 {
    chrono::Utc::now().timestamp()
}

/// Hyphenated lowercase hex text of a UUID: 36 characters, dashes at 8, 13,
/// 18 and 23, hex digits elsewhere.
pub open spec fn is_uuid_text(s: Seq<char>) -> bool {
    &&& s.len() == 36
    &&& forall|k: int|
        0 <= k < 36 ==> if k == 8 || k == 13 || k == 18 || k == 23 {
            #[trigger] s[k] == '-'
        } else {
            ('0' <= s[k] && s[k] <= '9') || ('a' <= s[k] && s[k] <= 'f')
        }
}

/// Relies on `uuid::Uuid::new_v4` and its `Display`: a random identifier
/// in the hyphenated lowercase form.
#[verifier::external_body]
fn fresh_subject() -> (r: String)
    ensures
        is_uuid_text(r@),
{
    uuid::Uuid::new_v4().to_string()
}

impl TokenClaims {
    /// The claims for `user` minted at `now` under subject `sub`.
    pub fn issued_at(user: JwtUser, sub: String, now: i64) -> (r: TokenClaims)
        ensures
            r@ == minted(user@, sub@, now),
    {
        let exp = if now <= i64::MAX - TOKEN_LIFETIME_SECS {
            now + TOKEN_LIFETIME_SECS
        } else {
            i64::MAX
        };
        let r = TokenClaims {
            sub,
            exp,
            nbf: now,
            iat: now,
            iss: Vec::<JwtIssuer>::new(),
            aud: Vec::<JwtAudience>::new(),
            user,
        };
        assert(r@.iss =~= Seq::<JwtIssuer>::empty());
        assert(r@.aud =~= Seq::<JwtAudience>::empty());
        r
    }

    /// Claims for `user` minted now, under a fresh random subject.
    pub fn new(user: JwtUser) -> (r: TokenClaims)
        ensures
            r@ == minted(user@, r@.sub, r@.iat),
            is_uuid_text(r@.sub),
    {
        let sub = fresh_subject();
        let now = current_timestamp();
        TokenClaims::issued_at(user, sub, now)
    }
}

} // verus!
