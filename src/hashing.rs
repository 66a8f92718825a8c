//! Password hashing with Argon2id at its default cost parameters.
use vstd::prelude::*;
use vstd::utf8::encode_utf8;
use crate::error::TokenError;

verus! {

/// The PHC string that Argon2id gives for a password and a salt at the time
/// cost, memory cost (KiB) and parallelism given.
pub uninterp spec fn argon2_encoding(
    password: Seq<u8>,
    salt: Seq<u8>,
    time_cost: u32,
    mem_cost: u32,
    lanes: u32,
) -> Seq<char>;

/// Whether a password matches a PHC string (`None` when the string does not
/// parse).
pub uninterp spec fn argon2_verdict(encoded: Seq<char>, password: Seq<u8>) -> Option<bool>;

/// Relies on `argon2::hash_encoded` with `argon2::Config::default()` but for
/// the three costs: its context refuses a salt under 8 bytes, no lanes, a
/// zero time cost and less than 8 KiB of memory per lane, accepts the rest
/// within the bounds below, and is deterministic. `verify_encoded` reads the
/// costs and salt back from the PHC string and recomputes with the same
/// empty secret and data, so it accepts the password the string was made
/// from.
#[verifier::external_body]
fn argon2_hash(password: &[u8], salt: &[u8], time_cost: u32, mem_cost: u32, lanes: u32) -> (r: Option<
    String,
>)
    ensures
        salt@.len() < 8 || lanes == 0 || time_cost == 0 || mem_cost < 8 * lanes ==> r is None,
        8 <= salt@.len() <= 0xFFFF_FFFF && password@.len() <= 0xFFFF_FFFF && 1 <= lanes <= 0xFF_FFFF && time_cost
            >= 1 && 8 * lanes <= mem_cost <= 0x20_0000 ==> r is Some,
        r is Some ==> r->Some_0@ == argon2_encoding(password@, salt@, time_cost, mem_cost, lanes),
        r is Some ==> argon2_verdict(r->Some_0@, password@) == Some(true),
{
    let config = argon2::Config { time_cost, mem_cost, lanes, ..argon2::Config::default() };
    argon2::hash_encoded(password, salt, &config).ok()
}

/// Relies on `argon2::verify_encoded`: a comparison in constant time, or an
/// error when the PHC string does not parse.
#[verifier::external_body]
fn argon2_verify(encoded: &str, password: &[u8]) -> (r: Option<bool>)
    ensures
        r == argon2_verdict(encoded@, password@),
{
    argon2::verify_encoded(encoded, password).ok()
}

/// Default time cost: passes over memory.
pub const DEFAULT_TIME_COST: u32 = 2;

/// Default memory cost in KiB.
pub const DEFAULT_MEM_COST: u32 = 19456;

/// Default parallelism.
pub const DEFAULT_LANES: u32 = 1;

/// Hashes passwords under one salt and one set of cost parameters.
pub struct PasswordHasher {
    pub salt: String,
    pub time_cost: u32,
    pub mem_cost: u32,
    pub lanes: u32,
}

impl PasswordHasher {
    /// A hasher with the default costs.
    pub fn new(salt: String) -> (r: PasswordHasher)
        ensures
            r.salt@ == salt@,
            r.time_cost == DEFAULT_TIME_COST,
            r.mem_cost == DEFAULT_MEM_COST,
            r.lanes == DEFAULT_LANES,
    {
        PasswordHasher { salt, time_cost: DEFAULT_TIME_COST, mem_cost: DEFAULT_MEM_COST, lanes: DEFAULT_LANES }
    }

    /// The same salt with other costs.
    pub fn with_costs(self, time_cost: u32, mem_cost: u32, lanes: u32) -> (r: PasswordHasher)
        ensures
            r.salt@ == self.salt@,
            r.time_cost == time_cost,
            r.mem_cost == mem_cost,
            r.lanes == lanes,
    {
        PasswordHasher { salt: self.salt, time_cost, mem_cost, lanes }
    }

    /// The storable digest of `password`.
    pub fn hash(&self, password: &str) -> (r: Result<String, TokenError>)
        ensures
            r is Ok ==> r->Ok_0@ == argon2_encoding(
                encode_utf8(password@),
                encode_utf8(self.salt@),
                self.time_cost,
                self.mem_cost,
                self.lanes,
            ),
            r is Ok ==> argon2_verdict(r->Ok_0@, encode_utf8(password@)) == Some(true),
            r is Err ==> r == Err::<String, TokenError>(TokenError::HashingFailure),
            encode_utf8(self.salt@).len() < 8 || self.lanes == 0 || self.time_cost == 0 || self.mem_cost < 8
                * self.lanes ==> r is Err,
            8 <= encode_utf8(self.salt@).len() <= 0xFFFF_FFFF && encode_utf8(password@).len() <= 0xFFFF_FFFF && 1
                <= self.lanes <= 0xFF_FFFF && self.time_cost >= 1 && 8 * self.lanes <= self.mem_cost <= 0x20_0000
                ==> r is Ok,
    {
        match argon2_hash(password.as_bytes(), self.salt.as_str().as_bytes(), self.time_cost, self.mem_cost, self.lanes) {
            Some(d) => Ok(d),
            None => Err(TokenError::HashingFailure),
        }
    }

    /// Whether `password` matches `digest`, whatever costs made it.
    pub fn verify(password: &str, digest: &str) -> (r: Result<bool, TokenError>)
        ensures
            r == (match argon2_verdict(digest@, encode_utf8(password@)) {
                Some(b) => Ok::<bool, TokenError>(b),
                None => Err(TokenError::HashingFailure),
            }),
    {
        match argon2_verify(digest, password.as_bytes()) {
            Some(b) => Ok(b),
            None => Err(TokenError::HashingFailure),
        }
    }
}

} // verus!
