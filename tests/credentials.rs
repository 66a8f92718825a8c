use lerpz_auth::error::TokenError;
use lerpz_auth::hashing::PasswordHasher;
use lerpz_auth::refresh::{generate_refresh_token, refresh_token_from};
use std::collections::HashSet;

#[test]
fn refresh_token_length() {
    let token = generate_refresh_token();
    assert_eq!(token.len(), 32);
}

#[test]
fn refresh_tokens_are_alphanumeric_and_distinct() {
    let mut seen = HashSet::new();
    for _ in 0..10_000 {
        let token = generate_refresh_token();
        assert_eq!(token.chars().count(), 32);
        assert!(token.chars().all(|c| c.is_ascii_alphanumeric()));
        assert!(seen.insert(token));
    }
}

#[test]
fn hashed_password_verifies() {
    let hasher = PasswordHasher::new("somesalt".to_string());
    let digest = hasher.hash("password").unwrap();
    assert!(digest.starts_with("$argon2id$"));
    assert_eq!(PasswordHasher::verify("password", &digest), Ok(true));
    assert_eq!(PasswordHasher::verify("wrong password", &digest), Ok(false));
}

#[test]
fn hashing_is_deterministic_and_salted() {
    let a = PasswordHasher::new("somesalt".to_string());
    let b = PasswordHasher::new("othersalt".to_string());
    let first = a.hash("password").unwrap();
    assert_eq!(first, a.hash("password").unwrap());
    assert_ne!(first, b.hash("password").unwrap());
}

#[test]
fn short_salt_and_bad_digest_fail() {
    let hasher = PasswordHasher::new("short".to_string());
    assert_eq!(hasher.hash("password"), Err(TokenError::HashingFailure));
    assert_eq!(PasswordHasher::verify("password", "not a digest"), Err(TokenError::HashingFailure));
}

#[test]
fn costs_are_configurable() {
    let cheap = PasswordHasher::new("somesalt".to_string()).with_costs(1, 64, 1);
    assert_eq!((cheap.time_cost, cheap.mem_cost, cheap.lanes), (1, 64, 1));
    let digest = cheap.hash("password").unwrap();
    assert!(digest.contains("m=64,t=1,p=1"));
    assert_eq!(PasswordHasher::verify("password", &digest), Ok(true));
    let default_digest = PasswordHasher::new("somesalt".to_string()).hash("password").unwrap();
    assert_ne!(digest, default_digest);
    assert!(default_digest.contains("m=19456,t=2,p=1"));
}

#[test]
fn invalid_costs_fail() {
    let no_lanes = PasswordHasher::new("somesalt".to_string()).with_costs(1, 64, 0);
    assert_eq!(no_lanes.hash("password"), Err(TokenError::HashingFailure));
    let no_time = PasswordHasher::new("somesalt".to_string()).with_costs(0, 64, 1);
    assert_eq!(no_time.hash("password"), Err(TokenError::HashingFailure));
    let little_memory = PasswordHasher::new("somesalt".to_string()).with_costs(1, 15, 2);
    assert_eq!(little_memory.hash("password"), Err(TokenError::HashingFailure));
}

#[test]
fn refresh_token_is_the_drawn_characters() {
    assert_eq!(refresh_token_from(b"aZ09"), "aZ09");
    assert_eq!(refresh_token_from(b""), "");
}
