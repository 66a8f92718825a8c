//! Validating a token: structure and signature first, then expiry,
//! not-before, issuer and audience, stopping at the first failure.
use vstd::prelude::*;
use vstd::utf8::{decode_utf8_encode_utf8, encode_utf8, encode_utf8_decode_utf8, encode_utf8_valid_utf8};
use crate::base64url::{b64, decode_toward, lemma_b64_injective, lemma_b64_no_dot};
use crate::claims::current_timestamp;
use crate::encode::{header_json, header_segment, header_text, signed_token, signing_input, token_text};
use crate::error::TokenError;
use crate::json::claims_json;
use crate::json_read::decode_claims;
use crate::json_unique::lemma_claims_json_injective;
use crate::keys::{hmac_text, signature_ok, VerifyingKey};
use crate::model::{
    algorithm_text, copied, family_of, Algorithm, ClaimsView, JwtAudience, JwtIssuer, KeyFamily, TokenClaims,
};
use crate::text::{append_chars, chars_of, same_chars, slice_chars, string_from_utf8};

verus! {

/// `t` is a header for `a`, a dot, the encoded `payload`, a dot and `sig`.
pub open spec fn has_layout(t: Seq<char>, a: Algorithm, payload: Seq<char>, sig: Seq<char>) -> bool {
    t == header_segment(a) + seq!['.'] + b64(encode_utf8(payload)) + seq!['.'] + sig
}

pub open spec fn well_formed(t: Seq<char>) -> bool {
    exists|x: (Algorithm, Seq<char>, Seq<char>)| has_layout(t, x.0, x.1, x.2)
}

/// The algorithm, payload text and signature text of a well-formed token.
pub open spec fn layout_of(t: Seq<char>) -> (Algorithm, Seq<char>, Seq<char>) {
    choose|x: (Algorithm, Seq<char>, Seq<char>)| has_layout(t, x.0, x.1, x.2)
}

proof fn lemma_algorithm_text_inj(a: Algorithm, b: Algorithm)
    requires
        algorithm_text(a) == algorithm_text(b),
    ensures
        a == b,
{
    reveal_strlit("HS256");
    reveal_strlit("HS384");
    reveal_strlit("HS512");
    reveal_strlit("EdDSA");
    assert("HS256"@ =~= seq!['H', 'S', '2', '5', '6']);
    assert("HS384"@ =~= seq!['H', 'S', '3', '8', '4']);
    assert("HS512"@ =~= seq!['H', 'S', '5', '1', '2']);
    assert("EdDSA"@ =~= seq!['E', 'd', 'D', 'S', 'A']);
    if a != b {
        let k: int = if a == Algorithm::EdDSA || b == Algorithm::EdDSA { 0 } else { 2 };
        assert(algorithm_text(a)[k] != algorithm_text(b)[k]);
    }
}

proof fn lemma_header_json_inj(a: Algorithm, b: Algorithm)
    requires
        header_json(a) == header_json(b),
    ensures
        a == b,
{
    let p = "{\"typ\":\"JWT\",\"alg\":\""@;
    let h = header_json(a);
    reveal_strlit("HS256");
    reveal_strlit("HS384");
    reveal_strlit("HS512");
    reveal_strlit("EdDSA");
    assert(algorithm_text(a).len() == 5 && algorithm_text(b).len() == 5);
    assert(algorithm_text(a) =~= h.subrange(p.len() as int, (p.len() + 5) as int));
    assert(algorithm_text(b) =~= h.subrange(p.len() as int, (p.len() + 5) as int));
    lemma_algorithm_text_inj(a, b);
}

proof fn lemma_no_dot_split(t: Seq<char>, a: Seq<char>, x: Seq<char>, b: Seq<char>, y: Seq<char>)
    requires
        t == a + seq!['.'] + x,
        t == b + seq!['.'] + y,
        forall|k: int| 0 <= k < a.len() ==> a[k] != '.',
        forall|k: int| 0 <= k < b.len() ==> b[k] != '.',
    ensures
        a == b,
        x == y,
{
    if a.len() < b.len() {
        assert(t[a.len() as int] == '.');
        assert(t[a.len() as int] == b[a.len() as int]);
    }
    if b.len() < a.len() {
        assert(t[b.len() as int] == '.');
        assert(t[b.len() as int] == a[b.len() as int]);
    }
    assert(a =~= t.subrange(0, a.len() as int));
    assert(b =~= t.subrange(0, b.len() as int));
    assert(x =~= t.subrange((a.len() + 1) as int, t.len() as int));
    assert(y =~= t.subrange((b.len() + 1) as int, t.len() as int));
}

/// A token text has at most one layout.
pub proof fn lemma_layout_unique(
    t: Seq<char>,
    a1: Algorithm,
    pl1: Seq<char>,
    s1: Seq<char>,
    a2: Algorithm,
    pl2: Seq<char>,
    s2: Seq<char>,
)
    requires
        has_layout(t, a1, pl1, s1),
        has_layout(t, a2, pl2, s2),
    ensures
        a1 == a2 && pl1 == pl2 && s1 == s2,
{
    let h1 = header_segment(a1);
    let h2 = header_segment(a2);
    let q1 = b64(encode_utf8(pl1));
    let q2 = b64(encode_utf8(pl2));
    lemma_b64_no_dot(encode_utf8(header_json(a1)));
    lemma_b64_no_dot(encode_utf8(header_json(a2)));
    lemma_b64_no_dot(encode_utf8(pl1));
    lemma_b64_no_dot(encode_utf8(pl2));
    assert(t =~= h1 + seq!['.'] + (q1 + seq!['.'] + s1));
    assert(t =~= h2 + seq!['.'] + (q2 + seq!['.'] + s2));
    lemma_no_dot_split(t, h1, q1 + seq!['.'] + s1, h2, q2 + seq!['.'] + s2);
    lemma_no_dot_split(q1 + seq!['.'] + s1, q1, s1, q2, s2);
    lemma_b64_injective(encode_utf8(header_json(a1)), encode_utf8(header_json(a2)));
    encode_utf8_decode_utf8(header_json(a1));
    encode_utf8_decode_utf8(header_json(a2));
    lemma_header_json_inj(a1, a2);
    lemma_b64_injective(encode_utf8(pl1), encode_utf8(pl2));
    encode_utf8_decode_utf8(pl1);
    encode_utf8_decode_utf8(pl2);
}

/// Index of the first dot at or after `from`, or the length if there is none.
fn find_dot(t: &Vec<char>, from: usize) -> (r: usize)
    requires
        from <= t@.len(),
    ensures
        from <= r <= t@.len(),
        forall|k: int| from <= k < r ==> t@[k] != '.',
        r < t@.len() ==> t@[r as int] == '.',
{
    let mut i = from;
    while i < t.len() && t[i] != '.'
        invariant
            from <= i <= t@.len(),
            forall|k: int| from <= k < i ==> t@[k] != '.',
        decreases t@.len() - i,
    {
        i += 1;
    }
    i
}

/// The algorithm whose header JSON is `chars`.
fn parse_header(chars: &Vec<char>) -> (r: Option<Algorithm>)
    ensures
        r is Some ==> header_json(r->Some_0) == chars@,
        forall|a: Algorithm| chars@ == header_json(a) ==> r == Some(a),
{
    let candidates = [Algorithm::HS256, Algorithm::HS384, Algorithm::HS512, Algorithm::EdDSA];
    let mut i: usize = 0;
    while i < 4
        invariant
            i <= 4,
            candidates@ == seq![Algorithm::HS256, Algorithm::HS384, Algorithm::HS512, Algorithm::EdDSA],
            forall|k: int| 0 <= k < i ==> header_json(#[trigger] candidates@[k]) != chars@,
        decreases 4 - i,
    {
        let a = candidates[i];
        if same_chars(&chars_of(header_text(a).as_str()), chars) {
            proof {
                assert forall|b: Algorithm| chars@ == header_json(b) implies a == b by {
                    lemma_header_json_inj(a, b);
                }
            }
            return Some(a);
        }
        i += 1;
    }
    proof {
        assert forall|b: Algorithm| chars@ != header_json(b) by {
            match b {
                Algorithm::HS256 => assert(header_json(candidates@[0]) != chars@),
                Algorithm::HS384 => assert(header_json(candidates@[1]) != chars@),
                Algorithm::HS512 => assert(header_json(candidates@[2]) != chars@),
                Algorithm::EdDSA => assert(header_json(candidates@[3]) != chars@),
            }
        }
    }
    None
}

/// The UTF-8 text of `bytes` when it is valid UTF-8.
fn utf8_text(bytes: Vec<u8>) -> (r: Option<String>)
    ensures
        r is Some <==> vstd::utf8::valid_utf8(bytes@),
        r is Some ==> encode_utf8(r->Some_0@) == bytes@,
        forall|s: Seq<char>| bytes@ == encode_utf8(s) ==> r is Some && r->Some_0@ == s,
{
    let ghost b = bytes@;
    let r = string_from_utf8(bytes);
    proof {
        if r is Some {
            decode_utf8_encode_utf8(b);
        }
        assert forall|s: Seq<char>| b == encode_utf8(s) implies r is Some && r->Some_0@ == s by {
            encode_utf8_valid_utf8(s);
            encode_utf8_decode_utf8(s);
        }
    }
    r
}

/// The parts of a structurally valid token.
pub struct TokenParts {
    pub alg: Algorithm,
    pub message: String,
    pub signature: String,
    pub payload: String,
}

/// Splits `token` into its parts and checks its header against `allowed`.
pub fn split_token(token: &str, allowed: &[Algorithm]) -> (r: Result<TokenParts, TokenError>)
    ensures
        !well_formed(token@) ==> r == Err::<TokenParts, TokenError>(TokenError::MalformedToken),
        well_formed(token@) && !allowed@.contains(layout_of(token@).0) ==> r == Err::<TokenParts, TokenError>(
            TokenError::SignatureInvalid,
        ),
        well_formed(token@) && allowed@.contains(layout_of(token@).0) ==> r is Ok,
        r is Ok ==> ({
            let p = r->Ok_0;
            &&& p.alg == layout_of(token@).0
            &&& p.payload@ == layout_of(token@).1
            &&& p.signature@ == layout_of(token@).2
            &&& p.message@ == header_segment(p.alg) + seq!['.'] + b64(encode_utf8(p.payload@))
        }),
{
    let ghost x = layout_of(token@);
    let t = chars_of(token);
    let n = t.len();
    let ghost hyp = well_formed(token@);
    let ghost hs = header_segment(x.0);
    let ghost ps = b64(encode_utf8(x.1));
    proof {
        if hyp {
            lemma_b64_no_dot(encode_utf8(header_json(x.0)));
            lemma_b64_no_dot(encode_utf8(x.1));
            assert(t@[hs.len() as int] == '.');
            assert(forall|k: int| 0 <= k < hs.len() ==> #[trigger] t@[k] == hs[k]);
            assert(t@[(hs.len() + 1 + ps.len()) as int] == '.');
            assert(forall|k: int| 0 <= k < ps.len() ==> #[trigger] t@[hs.len() + 1 + k] == ps[k]);
        }
    }
    let d1 = find_dot(&t, 0);
    if d1 >= n {
        proof {
            if hyp {
                assert(t@[hs.len() as int] == '.');
            }
        }
        return Err(TokenError::MalformedToken);
    }
    proof {
        if hyp {
            if (d1 as int) < hs.len() {
                assert(t@[d1 as int] == hs[d1 as int]);
            }
            assert(d1 == hs.len());
        }
    }
    let d2 = find_dot(&t, d1 + 1);
    if d2 >= n {
        proof {
            if hyp {
                assert(t@[(hs.len() + 1 + ps.len()) as int] == '.');
            }
        }
        return Err(TokenError::MalformedToken);
    }
    proof {
        if hyp {
            if (d2 as int) < hs.len() + 1 + ps.len() {
                assert(t@[d2 as int] == ps[d2 - hs.len() - 1]);
            }
            assert(d2 == hs.len() + 1 + ps.len());
        }
    }
    let h = slice_chars(&t, 0, d1);
    let p = slice_chars(&t, d1 + 1, d2);
    let sig = slice_chars(&t, d2 + 1, n);
    assert(t@ =~= h@ + seq!['.'] + p@ + seq!['.'] + sig@);
    proof {
        if hyp {
            assert(h@ =~= hs);
            assert(p@ =~= ps);
            assert(sig@ =~= x.2);
        }
    }
    let hb = match decode_toward(&h, Ghost(encode_utf8(header_json(x.0)))) {
        Some(b) => b,
        None => {
            return Err(TokenError::MalformedToken);
        },
    };
    let htext = match utf8_text(hb) {
        Some(s) => s,
        None => {
            return Err(TokenError::MalformedToken);
        },
    };
    let alg = match parse_header(&chars_of(htext.as_str())) {
        Some(a) => a,
        None => {
            return Err(TokenError::MalformedToken);
        },
    };
    let pb = match decode_toward(&p, Ghost(encode_utf8(x.1))) {
        Some(b) => b,
        None => {
            return Err(TokenError::MalformedToken);
        },
    };
    let payload = match utf8_text(pb) {
        Some(s) => s,
        None => {
            return Err(TokenError::MalformedToken);
        },
    };
    proof {
        let w = (alg, payload@, sig@);
        assert(has_layout(token@, w.0, w.1, w.2));
        assert(well_formed(token@));
        lemma_layout_unique(token@, alg, payload@, sig@, x.0, x.1, x.2);
    }
    let mut allowed_alg = false;
    let mut i: usize = 0;
    while i < allowed.len()
        invariant
            i <= allowed@.len(),
            allowed_alg == (exists|k: int| 0 <= k < i && allowed@[k] == alg),
        decreases allowed@.len() - i,
    {
        if allowed[i] == alg {
            allowed_alg = true;
        }
        i += 1;
    }
    if !allowed_alg {
        return Err(TokenError::SignatureInvalid);
    }
    let mut message = String::new();
    append_chars(&mut message, &slice_chars(&t, 0, d2));
    assert(message@ =~= h@ + seq!['.'] + p@);
    let mut signature = String::new();
    append_chars(&mut signature, &sig);
    Ok(TokenParts { alg, message, signature, payload })
}

/// Which issuers and audiences a validator accepts, and whether it checks
/// not-before. A scope left at `None` is not checked.
pub struct ValidationPolicy {
    pub validate_nbf: bool,
    pub issuers: Option<Vec<JwtIssuer>>,
    pub audiences: Option<Vec<JwtAudience>>,
}

pub struct PolicyView {
    pub validate_nbf: bool,
    pub issuers: Option<Seq<JwtIssuer>>,
    pub audiences: Option<Seq<JwtAudience>>,
}

impl View for ValidationPolicy {
    type V = PolicyView;

    open spec fn view(&self) -> PolicyView {
        PolicyView {
            validate_nbf: self.validate_nbf,
            issuers: match self.issuers {
                Some(v) => Some(v@),
                None => None,
            },
            audiences: match self.audiences {
                Some(v) => Some(v@),
                None => None,
            },
        }
    }
}

/// Some element of `a` is also an element of `b`.
pub open spec fn shares<T>(a: Seq<T>, b: Seq<T>) -> bool {
    exists|i: int, j: int| 0 <= i < a.len() && 0 <= j < b.len() && a[i] == b[j]
}

/// The timing and scope checks, in their fixed order.
pub open spec fn policy_result(c: ClaimsView, now: i64, p: PolicyView) -> Result<ClaimsView, TokenError> {
    if now > c.exp {
        Err(TokenError::Expired)
    } else if p.validate_nbf && now < c.nbf {
        Err(TokenError::NotYetValid)
    } else if p.issuers is Some && !shares(c.iss, p.issuers->Some_0) {
        Err(TokenError::IssuerMismatch)
    } else if p.audiences is Some && !shares(c.aud, p.audiences->Some_0) {
        Err(TokenError::AudienceMismatch)
    } else {
        Ok(c)
    }
}

/// The outcome for a payload text once the signature check gave `sig_ok`.
pub open spec fn claims_check(payload: Seq<char>, sig_ok: bool, now: i64, p: PolicyView) -> Result<
    ClaimsView,
    TokenError,
> {
    if !sig_ok {
        Err(TokenError::SignatureInvalid)
    } else if exists|c: ClaimsView| claims_json(c) == payload {
        policy_result(choose|c: ClaimsView| claims_json(c) == payload, now, p)
    } else {
        Err(TokenError::MalformedToken)
    }
}

pub open spec fn result_view(r: Result<TokenClaims, TokenError>) -> Result<ClaimsView, TokenError> {
    match r {
        Ok(c) => Ok(c@),
        Err(e) => Err(e),
    }
}

fn shares_issuer(a: &Vec<JwtIssuer>, b: &Vec<JwtIssuer>) -> (r: bool)
    ensures
        r == shares(a@, b@),
{
    let mut i: usize = 0;
    while i < a.len()
        invariant
            i <= a@.len(),
            forall|x: int, y: int| 0 <= x < i && 0 <= y < b@.len() ==> a@[x] != b@[y],
        decreases a@.len() - i,
    {
        let mut j: usize = 0;
        while j < b.len()
            invariant
                i < a@.len(),
                j <= b@.len(),
                forall|x: int, y: int| 0 <= x < i && 0 <= y < b@.len() ==> a@[x] != b@[y],
                forall|y: int| 0 <= y < j ==> a@[i as int] != b@[y],
            decreases b@.len() - j,
        {
            if a[i] == b[j] {
                return true;
            }
            j += 1;
        }
        i += 1;
    }
    false
}

fn shares_audience(a: &Vec<JwtAudience>, b: &Vec<JwtAudience>) -> (r: bool)
    ensures
        r == shares(a@, b@),
{
    let mut i: usize = 0;
    while i < a.len()
        invariant
            i <= a@.len(),
            forall|x: int, y: int| 0 <= x < i && 0 <= y < b@.len() ==> a@[x] != b@[y],
        decreases a@.len() - i,
    {
        let mut j: usize = 0;
        while j < b.len()
            invariant
                i < a@.len(),
                j <= b@.len(),
                forall|x: int, y: int| 0 <= x < i && 0 <= y < b@.len() ==> a@[x] != b@[y],
                forall|y: int| 0 <= y < j ==> a@[i as int] != b@[y],
            decreases b@.len() - j,
        {
            if a[i] == b[j] {
                return true;
            }
            j += 1;
        }
        i += 1;
    }
    false
}

/// Checks expiry, not-before, issuer and audience of `c` at time `now`.
pub fn apply_policy(c: &TokenClaims, now: i64, p: &ValidationPolicy) -> (r: Result<(), TokenError>)
    ensures
        r is Ok <==> policy_result(c@, now, p@) is Ok,
        r is Err ==> policy_result(c@, now, p@) == Err::<ClaimsView, TokenError>(r->Err_0),
{
    if now > c.exp {
        return Err(TokenError::Expired);
    }
    if p.validate_nbf && now < c.nbf {
        return Err(TokenError::NotYetValid);
    }
    match &p.issuers {
        Some(allowed) => {
            if !shares_issuer(&c.iss, allowed) {
                return Err(TokenError::IssuerMismatch);
            }
        },
        None => {},
    }
    match &p.audiences {
        Some(allowed) => {
            if !shares_audience(&c.aud, allowed) {
                return Err(TokenError::AudienceMismatch);
            }
        },
        None => {},
    }
    Ok(())
}

/// Decodes the payload text and applies the policy, once the signature
/// check has given `signature_ok`.
pub fn check_claims(payload: &str, signature_ok: bool, now: i64, policy: &ValidationPolicy) -> (r: Result<
    TokenClaims,
    TokenError,
>)
    ensures
        result_view(r) == claims_check(payload@, signature_ok, now, policy@),
{
    if !signature_ok {
        return Err(TokenError::SignatureInvalid);
    }
    let c = match decode_claims(payload) {
        Some(c) => c,
        None => {
            return Err(TokenError::MalformedToken);
        },
    };
    proof {
        let c0 = choose|x: ClaimsView| claims_json(x) == payload@;
        assert(claims_json(c0) == payload@);
    }
    match apply_policy(&c, now, policy) {
        Ok(()) => Ok(c),
        Err(e) => Err(e),
    }
}

/// What validating a token gives, once the signature check gave `sig_ok`
/// and the clock read `now`.
pub open spec fn decode_outcome(
    token: Seq<char>,
    algorithms: Seq<Algorithm>,
    policy: PolicyView,
    family: KeyFamily,
    sig_ok: bool,
    now: i64,
) -> Result<ClaimsView, TokenError> {
    if !well_formed(token) {
        Err(TokenError::MalformedToken)
    } else if !algorithms.contains(layout_of(token).0) || family_of(layout_of(token).0) != family {
        Err(TokenError::SignatureInvalid)
    } else {
        claims_check(layout_of(token).1, sig_ok, now, policy)
    }
}

/// Whether the signature of `token` is valid for its algorithm and message
/// under a key of `family` made from `source`.
pub open spec fn token_signature_ok(family: KeyFamily, source: Seq<u8>, token: Seq<char>) -> bool {
    let x = layout_of(token);
    signature_ok(family, source, x.0, encode_utf8(header_segment(x.0) + seq!['.'] + b64(encode_utf8(x.1))), x.2)
}

pub struct ValidatorView {
    pub token: Seq<char>,
    pub algorithms: Seq<Algorithm>,
    pub policy: PolicyView,
}

/// A token awaiting validation, with the checks to apply; consumed by
/// `decode`.
pub struct JwtDecoder {
    token: String,
    algorithms: Vec<Algorithm>,
    policy: ValidationPolicy,
}

impl View for JwtDecoder {
    type V = ValidatorView;

    closed spec fn view(&self) -> ValidatorView {
        ValidatorView { token: self.token@, algorithms: self.algorithms@, policy: self.policy@ }
    }
}

impl JwtDecoder {
    /// Validation of `token` that accepts HS256 only, checks not-before and
    /// checks no trust scope.
    pub fn new(token: String) -> (r: JwtDecoder)
        ensures
            r@.token == token@,
            r@.algorithms == seq![Algorithm::HS256],
            r@.policy == (PolicyView { validate_nbf: true, issuers: None, audiences: None }),
    {
        let mut algorithms: Vec<Algorithm> = Vec::new();
        algorithms.push(Algorithm::HS256);
        let r = JwtDecoder {
            token,
            algorithms,
            policy: ValidationPolicy { validate_nbf: true, issuers: None, audiences: None },
        };
        assert(r@.algorithms =~= seq![Algorithm::HS256]);
        r
    }

    /// Accepts exactly the algorithm `alg`.
    pub fn alg(self, alg: Algorithm) -> (r: JwtDecoder)
        ensures
            r@ == (ValidatorView { algorithms: seq![alg], ..self@ }),
    {
        let mut algorithms: Vec<Algorithm> = Vec::new();
        algorithms.push(alg);
        let r = JwtDecoder { token: self.token, algorithms, policy: self.policy };
        assert(r@.algorithms =~= seq![alg]);
        r
    }

    /// Accepts exactly the algorithms in `algs`.
    pub fn algorithms(self, algs: &[Algorithm]) -> (r: JwtDecoder)
        ensures
            r@ == (ValidatorView { algorithms: algs@, ..self@ }),
    {
        JwtDecoder { token: self.token, algorithms: copied(algs), policy: self.policy }
    }

    /// Turns the not-before check on or off.
    pub fn validate_nbf(self, value: bool) -> (r: JwtDecoder)
        ensures
            r@ == (ValidatorView { policy: PolicyView { validate_nbf: value, ..self@.policy }, ..self@ }),
    {
        let policy = ValidationPolicy {
            validate_nbf: value,
            issuers: self.policy.issuers,
            audiences: self.policy.audiences,
        };
        JwtDecoder { token: self.token, algorithms: self.algorithms, policy }
    }

    /// Requires the token's audiences to meet `aud`.
    pub fn validate_aud(self, aud: &[JwtAudience]) -> (r: JwtDecoder)
        ensures
            r@ == (ValidatorView { policy: PolicyView { audiences: Some(aud@), ..self@.policy }, ..self@ }),
    {
        let policy = ValidationPolicy {
            validate_nbf: self.policy.validate_nbf,
            issuers: self.policy.issuers,
            audiences: Some(copied(aud)),
        };
        JwtDecoder { token: self.token, algorithms: self.algorithms, policy }
    }

    /// Requires the token's issuers to meet `iss`.
    pub fn validate_iss(self, iss: &[JwtIssuer]) -> (r: JwtDecoder)
        ensures
            r@ == (ValidatorView { policy: PolicyView { issuers: Some(iss@), ..self@.policy }, ..self@ }),
    {
        let policy = ValidationPolicy {
            validate_nbf: self.policy.validate_nbf,
            issuers: Some(copied(iss)),
            audiences: self.policy.audiences,
        };
        JwtDecoder { token: self.token, algorithms: self.algorithms, policy }
    }

    /// Validates the token against `key` and the configured checks, and
    /// returns its claims.
    pub fn decode(self, key: &VerifyingKey) -> (r: Result<TokenClaims, TokenError>)
        ensures
            exists|now: i64|
                result_view(r) == decode_outcome(
                    self@.token,
                    self@.algorithms,
                    self@.policy,
                    key.spec_family(),
                    token_signature_ok(key.spec_family(), key.spec_source(), self@.token),
                    now,
                ),
    {
        let ghost v = self@;
        let ghost fam = key.spec_family();
        let ghost ok0 = token_signature_ok(fam, key.spec_source(), v.token);
        let parts = match split_token(self.token.as_str(), self.algorithms.as_slice()) {
            Ok(p) => p,
            Err(e) => {
                assert(result_view(Err(e)) == decode_outcome(v.token, v.algorithms, v.policy, fam, ok0, 0));
                return Err(e);
            },
        };
        if parts.alg.family() != key.family() {
            assert(decode_outcome(v.token, v.algorithms, v.policy, fam, ok0, 0) == Err::<ClaimsView, TokenError>(
                TokenError::SignatureInvalid,
            ));
            return Err(TokenError::SignatureInvalid);
        }
        let ok = key.verify(parts.signature.as_str(), parts.message.as_str().as_bytes(), parts.alg);
        let now = current_timestamp();
        assert(ok == ok0);
        let r = check_claims(parts.payload.as_str(), ok, now, &self.policy);
        assert(result_view(r) == decode_outcome(v.token, v.algorithms, v.policy, fam, ok0, now));
        r
    }
}

/// The token text for `alg`, `c` and `sig` is well formed, its layout is
/// exactly those three parts, and its payload text decodes to `c` alone.
pub proof fn lemma_token_layout(alg: Algorithm, c: ClaimsView, sig: Seq<char>)
    ensures
        well_formed(token_text(alg, c, sig)),
        layout_of(token_text(alg, c, sig)) == (alg, claims_json(c), sig),
        header_segment(alg) + seq!['.'] + b64(encode_utf8(claims_json(c))) == signing_input(alg, c),
        (choose|d: ClaimsView| claims_json(d) == claims_json(c)) == c,
{
    let t = token_text(alg, c, sig);
    let x = (alg, claims_json(c), sig);
    assert(t =~= header_segment(alg) + seq!['.'] + b64(encode_utf8(claims_json(c))) + seq!['.'] + sig);
    assert(has_layout(t, x.0, x.1, x.2));
    let y = layout_of(t);
    lemma_layout_unique(t, y.0, y.1, y.2, x.0, x.1, x.2);
    let c0 = choose|d: ClaimsView| claims_json(d) == claims_json(c);
    lemma_claims_json_injective(c0, c);
}

/// Round trip: a token signed for `c` and checked with the matching key,
/// by a validator that accepts its algorithm and expects exactly its issuers
/// and audiences, yields `c` back, its identity snapshot included, at any
/// time inside its validity window.
pub proof fn lemma_round_trip(
    alg: Algorithm,
    c: ClaimsView,
    sig: Seq<char>,
    validate_nbf: bool,
    family: KeyFamily,
    now: i64,
)
    requires
        family_of(alg) == family,
        c.iss.len() > 0,
        c.aud.len() > 0,
        now <= c.exp,
        validate_nbf ==> c.nbf <= now,
    ensures
        decode_outcome(
            token_text(alg, c, sig),
            seq![alg],
            PolicyView { validate_nbf, issuers: Some(c.iss), audiences: Some(c.aud) },
            family,
            true,
            now,
        ) == Ok::<ClaimsView, TokenError>(c),
{
    let t = token_text(alg, c, sig);
    lemma_token_layout(alg, c, sig);
    assert(seq![alg].contains(alg)) by {
        assert(seq![alg][0] == alg);
    }
    assert(shares(c.iss, c.iss)) by {
        assert(c.iss[0] == c.iss[0]);
    }
    assert(shares(c.aud, c.aud)) by {
        assert(c.aud[0] == c.aud[0]);
    }
}

/// Round trip through the keys: the token that `encode` gives for `c`
/// under an HMAC secret validates, under a key made from the same secret,
/// to `c` itself, by a validator that accepts its algorithm and expects
/// exactly its issuers and audiences, at any time inside its validity window.
pub proof fn lemma_signed_round_trip(
    alg: Algorithm,
    c: ClaimsView,
    source: Seq<u8>,
    validate_nbf: bool,
    now: i64,
)
    requires
        alg != Algorithm::EdDSA,
        c.iss.len() > 0,
        c.aud.len() > 0,
        now <= c.exp,
        validate_nbf ==> c.nbf <= now,
    ensures
        signed_token(alg, c, KeyFamily::Hmac, source) is Ok,
        decode_outcome(
            signed_token(alg, c, KeyFamily::Hmac, source)->Ok_0,
            seq![alg],
            PolicyView { validate_nbf, issuers: Some(c.iss), audiences: Some(c.aud) },
            KeyFamily::Hmac,
            token_signature_ok(KeyFamily::Hmac, source, signed_token(alg, c, KeyFamily::Hmac, source)->Ok_0),
            now,
        ) == Ok::<ClaimsView, TokenError>(c),
{
    let sig = hmac_text(alg, source, encode_utf8(signing_input(alg, c)));
    let t = token_text(alg, c, sig);
    assert(signed_token(alg, c, KeyFamily::Hmac, source) == Ok::<Seq<char>, TokenError>(t));
    lemma_token_layout(alg, c, sig);
    assert(token_signature_ok(KeyFamily::Hmac, source, t));
    lemma_round_trip(alg, c, sig, validate_nbf, KeyFamily::Hmac, now);
}

/// Wrong key: a token that `encode` gave under one HMAC secret is refused
/// with `SignatureInvalid` under a key made from another secret, whenever
/// the two secrets give different HMACs of its signing input.
pub proof fn lemma_wrong_key_rejected(
    alg: Algorithm,
    c: ClaimsView,
    signer: Seq<u8>,
    checker: Seq<u8>,
    algorithms: Seq<Algorithm>,
    policy: PolicyView,
    now: i64,
)
    requires
        alg != Algorithm::EdDSA,
        hmac_text(alg, signer, encode_utf8(signing_input(alg, c))) != hmac_text(
            alg,
            checker,
            encode_utf8(signing_input(alg, c)),
        ),
    ensures
        decode_outcome(
            signed_token(alg, c, KeyFamily::Hmac, signer)->Ok_0,
            algorithms,
            policy,
            KeyFamily::Hmac,
            token_signature_ok(KeyFamily::Hmac, checker, signed_token(alg, c, KeyFamily::Hmac, signer)->Ok_0),
            now,
        ) == Err::<ClaimsView, TokenError>(TokenError::SignatureInvalid),
{
    let sig = hmac_text(alg, signer, encode_utf8(signing_input(alg, c)));
    let t = token_text(alg, c, sig);
    assert(signed_token(alg, c, KeyFamily::Hmac, signer) == Ok::<Seq<char>, TokenError>(t));
    lemma_token_layout(alg, c, sig);
    assert(!token_signature_ok(KeyFamily::Hmac, checker, t));
    lemma_bad_signature_rejected(t, algorithms, policy, KeyFamily::Hmac, now);
}

/// Audience enforcement: a genuine, current token for audience `a` is
/// refused with `AudienceMismatch` by a validator that requires another
/// audience `b`, and accepted by one that requires `a`.
pub proof fn lemma_audience_enforced(
    alg: Algorithm,
    c: ClaimsView,
    sig: Seq<char>,
    a: JwtAudience,
    b: JwtAudience,
    validate_nbf: bool,
    family: KeyFamily,
    now: i64,
)
    requires
        family_of(alg) == family,
        c.aud == seq![a],
        a != b,
        now <= c.exp,
        validate_nbf ==> c.nbf <= now,
    ensures
        decode_outcome(
            token_text(alg, c, sig),
            seq![alg],
            PolicyView { validate_nbf, issuers: None, audiences: Some(seq![b]) },
            family,
            true,
            now,
        ) == Err::<ClaimsView, TokenError>(TokenError::AudienceMismatch),
        decode_outcome(
            token_text(alg, c, sig),
            seq![alg],
            PolicyView { validate_nbf, issuers: None, audiences: Some(seq![a]) },
            family,
            true,
            now,
        ) == Ok::<ClaimsView, TokenError>(c),
{
    let t = token_text(alg, c, sig);
    lemma_token_layout(alg, c, sig);
    assert(seq![alg].contains(alg)) by {
        assert(seq![alg][0] == alg);
    }
    assert(shares(c.aud, seq![a])) by {
        assert(c.aud[0] == seq![a][0]);
    }
    assert(!shares(c.aud, seq![b]));
}

/// A failed signature check: whatever the token, the algorithms, the
/// policy and the time, validation then refuses the token, with
/// `MalformedToken` or `SignatureInvalid`, and always with `SignatureInvalid`
/// when its layout is sound. It is never accepted, nor refused for a later
/// reason.
pub proof fn lemma_bad_signature_rejected(
    token: Seq<char>,
    algorithms: Seq<Algorithm>,
    policy: PolicyView,
    family: KeyFamily,
    now: i64,
)
    ensures
        decode_outcome(token, algorithms, policy, family, false, now) == Err::<ClaimsView, TokenError>(
            TokenError::MalformedToken,
        ) || decode_outcome(token, algorithms, policy, family, false, now) == Err::<ClaimsView, TokenError>(
            TokenError::SignatureInvalid,
        ),
        well_formed(token) ==> decode_outcome(token, algorithms, policy, family, false, now) == Err::<
            ClaimsView,
            TokenError,
        >(TokenError::SignatureInvalid),
{
}

/// Expiry: once the clock is past a token's expiry, validation fails with
/// `Expired` whatever the issuer, audience and not-before settings, as long
/// as the token is otherwise genuine.
pub proof fn lemma_expired_rejected(
    alg: Algorithm,
    c: ClaimsView,
    sig: Seq<char>,
    algorithms: Seq<Algorithm>,
    policy: PolicyView,
    family: KeyFamily,
    now: i64,
)
    requires
        algorithms.contains(alg),
        family_of(alg) == family,
        now > c.exp,
    ensures
        decode_outcome(token_text(alg, c, sig), algorithms, policy, family, true, now) == Err::<
            ClaimsView,
            TokenError,
        >(TokenError::Expired),
{
    let t = token_text(alg, c, sig);
    lemma_token_layout(alg, c, sig);
}

/// The token carried by an `Authorization` header value of the form
/// `Bearer <token>`.
pub fn bearer_token(header: &str) -> (r: Option<String>)
    ensures
        r is Some <==> (header@.len() >= 7 && header@.subrange(0, 7) == "Bearer "@),
        r is Some ==> header@ == "Bearer "@ + r->Some_0@,
{
    proof {
        reveal_strlit("Bearer ");
    }
    let chars = chars_of(header);
    let n = chars.len();
    if n < 7 || !same_chars(&slice_chars(&chars, 0, 7), &chars_of("Bearer ")) {
        return None;
    }
    let mut token = String::new();
    append_chars(&mut token, &slice_chars(&chars, 7, n));
    assert(header@ =~= "Bearer "@ + token@);
    Some(token)
}

/// The outcome of validating `t` with the default checks, accepting `alg`
/// only, under a key of `family` made from `source`, at time `now`.
#[verifier::opaque]
pub open spec fn bearer_outcome(t: Seq<char>, alg: Algorithm, family: KeyFamily, source: Seq<u8>, now: i64) -> Result<
    ClaimsView,
    TokenError,
> {
    decode_outcome(
        t,
        seq![alg],
        PolicyView { validate_nbf: true, issuers: None, audiences: None },
        family,
        token_signature_ok(family, source, t),
        now,
    )
}

/// Whether an `Authorization` header value carries a bearer token that
/// validates under `key`, signed with `alg`, with the default checks.
pub fn token_is_valid(header: &str, key: &VerifyingKey, alg: Algorithm) -> (r: bool)
    ensures
        !(header@.len() >= 7 && header@.subrange(0, 7) == "Bearer "@) ==> !r,
        r ==> exists|now: i64|
            bearer_outcome(header@.subrange(7, header@.len() as int), alg, key.spec_family(), key.spec_source(), now)
                is Ok,
        header@.len() >= 7 && header@.subrange(0, 7) == "Bearer "@ && (forall|now: i64|
            bearer_outcome(header@.subrange(7, header@.len() as int), alg, key.spec_family(), key.spec_source(), now)
                is Ok) ==> r,
{
    match bearer_token(header) {
        Some(t) => {
            proof {
                reveal_strlit("Bearer ");
                assert(t@ =~= header@.subrange(7, header@.len() as int));
            }
            let ghost tv = t@;
            let result = JwtDecoder::new(t).alg(alg).decode(key);
            proof {
                let now0 = choose|now: i64|
                    result_view(result) == decode_outcome(
                        tv,
                        seq![alg],
                        PolicyView { validate_nbf: true, issuers: None, audiences: None },
                        key.spec_family(),
                        token_signature_ok(key.spec_family(), key.spec_source(), tv),
                        now,
                    );
                reveal(bearer_outcome);
                assert(result_view(result) == bearer_outcome(tv, alg, key.spec_family(), key.spec_source(), now0));
                if result is Ok {
                    assert(bearer_outcome(tv, alg, key.spec_family(), key.spec_source(), now0) is Ok);
                }
            }
            result.is_ok()
        },
        None => false,
    }
}

} // verus!
