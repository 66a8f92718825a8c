use lerpz_auth::decode::{bearer_token, check_claims, split_token, token_is_valid, JwtDecoder, ValidationPolicy};
use lerpz_auth::encode::AuthToken;
use lerpz_auth::error::TokenError;
use lerpz_auth::keys::JwtKeys;
use lerpz_auth::model::{Algorithm, JwtAudience, JwtIssuer, JwtUser, KeyFamily, TokenClaims, UserRole};

fn test_user() -> JwtUser {
    JwtUser {
        id: uuid::Uuid::new_v4().to_string(),
        username: "test".to_string(),
        email: "test@test.com".to_string(),
        role: UserRole::ADMIN,
    }
}

fn now() -> i64 {
    std::time::SystemTime::now()
        .duration_since(std::time::UNIX_EPOCH)
        .unwrap()
        .as_secs() as i64
}

#[test]
fn encode_and_decode() {
    let user = test_user();
    let keys = JwtKeys::from_secret("secret");

    let token = AuthToken::new(user)
        .alg(Algorithm::HS512)
        .aud(&[JwtAudience::MainWebsite])
        .iss(&[JwtIssuer::API])
        .encode(&keys.encoding)
        .unwrap();
    let token_data = JwtDecoder::new(token)
        .alg(Algorithm::HS512)
        .validate_aud(&[JwtAudience::MainWebsite])
        .validate_iss(&[JwtIssuer::API])
        .validate_nbf(true)
        .decode(&keys.decoding)
        .unwrap();

    assert!(token_data.aud.contains(&JwtAudience::MainWebsite));
    assert!(token_data.iss.contains(&JwtIssuer::API));
}

#[test]
pub fn invalid_iss_and_aud() {
    let user = test_user();
    let keys = JwtKeys::from_secret("secret");

    let token = AuthToken::new(user)
        .aud(&[JwtAudience::MainWebsite])
        .iss(&[JwtIssuer::API])
        .encode(&keys.encoding)
        .unwrap();
    let token_data = JwtDecoder::new(token)
        .validate_nbf(true)
        // This is not the same as the token's audience
        .validate_aud(&[JwtAudience::Account])
        .validate_iss(&[JwtIssuer::API])
        .decode(&keys.decoding);

    assert!(token_data.is_err());
}

#[test]
fn round_trip_keeps_the_identity_snapshot() {
    let user = JwtUser {
        id: "0f8fad5b-d9cb-469f-a165-70867728950e".to_string(),
        username: "Quote \" and \\ and \u{1} and é".to_string(),
        email: "a@b.c".to_string(),
        role: UserRole::MODERATOR,
    };
    let keys = JwtKeys::from_secret("another secret");
    let token = AuthToken::new(user.clone())
        .aud(&[JwtAudience::Account, JwtAudience::Dashboard])
        .iss(&[JwtIssuer::API])
        .encode(&keys.encoding)
        .unwrap();
    let claims = JwtDecoder::new(token)
        .validate_aud(&[JwtAudience::Account, JwtAudience::Dashboard])
        .validate_iss(&[JwtIssuer::API])
        .decode(&keys.decoding)
        .unwrap();
    assert_eq!(claims.user.id, user.id);
    assert_eq!(claims.user.username, user.username);
    assert_eq!(claims.user.email, user.email);
    assert_eq!(claims.user.role, user.role);
    assert_eq!(claims.aud, vec![JwtAudience::Account, JwtAudience::Dashboard]);
}

#[test]
fn fresh_claims_have_default_lifetime_and_empty_scope() {
    let before = now();
    let claims = TokenClaims::new(test_user());
    let after = now();
    assert!(before <= claims.iat && claims.iat <= after);
    assert_eq!(claims.nbf, claims.iat);
    assert_eq!(claims.exp, claims.iat + 900);
    assert!(claims.iss.is_empty());
    assert!(claims.aud.is_empty());
    assert_eq!(claims.sub.len(), 36);
    for (k, ch) in claims.sub.chars().enumerate() {
        if k == 8 || k == 13 || k == 18 || k == 23 {
            assert_eq!(ch, '-');
        } else {
            assert!(ch.is_ascii_digit() || ('a'..='f').contains(&ch));
        }
    }
    let other = TokenClaims::new(test_user());
    assert_ne!(claims.sub, other.sub);
}

#[test]
fn issued_at_sets_the_timing_fields() {
    let claims = TokenClaims::issued_at(test_user(), "s".to_string(), 1000);
    assert_eq!((claims.iat, claims.nbf, claims.exp), (1000, 1000, 1900));
    let late = TokenClaims::issued_at(test_user(), "s".to_string(), i64::MAX - 10);
    assert_eq!(late.exp, i64::MAX);
}

#[test]
fn tampering_with_any_character_is_detected() {
    let keys = JwtKeys::from_secret("secret");
    let token = AuthToken::new(test_user())
        .aud(&[JwtAudience::MainWebsite])
        .encode(&keys.encoding)
        .unwrap();
    let chars: Vec<char> = token.chars().collect();
    for i in 0..chars.len() {
        for replacement in ['A', 'b', '.', '-'] {
            if chars[i] == replacement {
                continue;
            }
            let mut changed = chars.clone();
            changed[i] = replacement;
            let tampered: String = changed.into_iter().collect();
            let result = JwtDecoder::new(tampered).decode(&keys.decoding);
            assert!(
                matches!(result, Err(TokenError::SignatureInvalid) | Err(TokenError::MalformedToken)),
                "position {} accepted",
                i
            );
        }
    }
}

#[test]
fn wrong_key_is_rejected() {
    let a = JwtKeys::from_secret("key A");
    let b = JwtKeys::from_secret("key B");
    let token = AuthToken::new(test_user()).encode(&a.encoding).unwrap();
    let result = JwtDecoder::new(token).decode(&b.decoding);
    assert!(matches!(result, Err(TokenError::SignatureInvalid)));
}

#[test]
fn expired_token_is_rejected_whatever_the_settings() {
    let keys = JwtKeys::from_secret("secret");
    let past = now() - 3600;
    let make = || {
        AuthToken::new(test_user())
            .nbf(past - 60)
            .exp(past)
            .aud(&[JwtAudience::MainWebsite])
            .encode(&keys.encoding)
            .unwrap()
    };
    let plain = JwtDecoder::new(make()).decode(&keys.decoding);
    assert!(matches!(plain, Err(TokenError::Expired)));
    let scoped = JwtDecoder::new(make())
        .validate_nbf(false)
        .validate_aud(&[JwtAudience::Dashboard])
        .validate_iss(&[JwtIssuer::API])
        .decode(&keys.decoding);
    assert!(matches!(scoped, Err(TokenError::Expired)));
}

#[test]
fn audience_is_enforced() {
    let keys = JwtKeys::from_secret("secret");
    let token = AuthToken::new(test_user())
        .aud(&[JwtAudience::MainWebsite])
        .encode(&keys.encoding)
        .unwrap();
    let wrong = JwtDecoder::new(token.clone())
        .validate_aud(&[JwtAudience::Account])
        .decode(&keys.decoding);
    assert!(matches!(wrong, Err(TokenError::AudienceMismatch)));
    let right = JwtDecoder::new(token)
        .validate_aud(&[JwtAudience::MainWebsite])
        .decode(&keys.decoding);
    assert!(right.is_ok());
}

#[test]
fn issuer_is_enforced() {
    let keys = JwtKeys::from_secret("secret");
    let token = AuthToken::new(test_user()).encode(&keys.encoding).unwrap();
    let result = JwtDecoder::new(token)
        .validate_iss(&[JwtIssuer::API])
        .decode(&keys.decoding);
    assert!(matches!(result, Err(TokenError::IssuerMismatch)));
}

#[test]
fn unset_scope_is_not_checked() {
    let keys = JwtKeys::from_secret("secret");
    let token = AuthToken::new(test_user()).encode(&keys.encoding).unwrap();
    assert!(JwtDecoder::new(token).decode(&keys.decoding).is_ok());
}

#[test]
fn not_yet_valid_token_is_rejected_only_when_checked() {
    let keys = JwtKeys::from_secret("secret");
    let future = now() + 3600;
    let make = || {
        AuthToken::new(test_user())
            .nbf(future)
            .exp(future + 60)
            .encode(&keys.encoding)
            .unwrap()
    };
    let checked = JwtDecoder::new(make()).decode(&keys.decoding);
    assert!(matches!(checked, Err(TokenError::NotYetValid)));
    let unchecked = JwtDecoder::new(make()).validate_nbf(false).decode(&keys.decoding);
    assert!(unchecked.is_ok());
}

#[test]
fn malformed_tokens_are_rejected() {
    let keys = JwtKeys::from_secret("secret");
    for text in ["", "abc", "a.b", "a.b.c", "!!.??.x"] {
        let result = JwtDecoder::new(text.to_string()).decode(&keys.decoding);
        assert!(matches!(result, Err(TokenError::MalformedToken)), "{}", text);
    }
}

#[test]
fn algorithm_outside_the_accepted_set_is_rejected() {
    let keys = JwtKeys::from_secret("secret");
    let token = AuthToken::new(test_user())
        .alg(Algorithm::HS384)
        .encode(&keys.encoding)
        .unwrap();
    let result = JwtDecoder::new(token.clone()).decode(&keys.decoding);
    assert!(matches!(result, Err(TokenError::SignatureInvalid)));
    let several = JwtDecoder::new(token)
        .algorithms(&[Algorithm::HS256, Algorithm::HS384])
        .decode(&keys.decoding);
    assert!(several.is_ok());
}

#[test]
fn algorithm_must_fit_the_key() {
    let keys = JwtKeys::from_secret("secret");
    assert_eq!(keys.encoding.family(), KeyFamily::Hmac);
    let result = AuthToken::new(test_user()).alg(Algorithm::EdDSA).encode(&keys.encoding);
    assert!(matches!(result, Err(TokenError::AlgorithmKeyMismatch)));
}

#[test]
fn unparsable_pem_is_rejected() {
    let result = JwtKeys::from_ed_pem("not a key", "not a key either");
    assert!(matches!(result, Err(TokenError::InvalidKeyEncoding)));
}

#[test]
fn token_has_the_documented_layout() {
    let keys = JwtKeys::from_secret("secret");
    let token = AuthToken::new(test_user()).encode(&keys.encoding).unwrap();
    let parts: Vec<&str> = token.split('.').collect();
    assert_eq!(parts.len(), 3);
    assert_eq!(parts[0], "eyJ0eXAiOiJKV1QiLCJhbGciOiJIUzI1NiJ9");
    let split = split_token(&token, &[Algorithm::HS256]).unwrap();
    assert_eq!(split.alg, Algorithm::HS256);
    assert_eq!(split.signature, parts[2]);
    assert!(split.payload.starts_with("{\"sub\":\""));
    assert!(keys.decoding.verify(&split.signature, split.message.as_bytes(), split.alg));
    assert!(!keys.decoding.verify("AAAA", split.message.as_bytes(), split.alg));
}

#[test]
fn claims_checks_run_in_order() {
    let payload = "{\"sub\":\"s\",\"exp\":100,\"nbf\":50,\"iat\":50,\"aud\":[\"https://lerpz.com\"],\"user\":{\"id\":\"i\",\"username\":\"u\",\"email\":\"e\",\"role\":\"USER\"}}";
    let open = ValidationPolicy { validate_nbf: true, issuers: None, audiences: None };
    let scoped = ValidationPolicy {
        validate_nbf: true,
        issuers: Some(vec![JwtIssuer::API]),
        audiences: Some(vec![JwtAudience::Account]),
    };
    assert!(matches!(check_claims(payload, false, 60, &open), Err(TokenError::SignatureInvalid)));
    assert!(matches!(check_claims("{}", true, 60, &open), Err(TokenError::MalformedToken)));
    assert!(matches!(check_claims(payload, true, 101, &scoped), Err(TokenError::Expired)));
    assert!(matches!(check_claims(payload, true, 49, &scoped), Err(TokenError::NotYetValid)));
    assert!(matches!(check_claims(payload, true, 60, &scoped), Err(TokenError::IssuerMismatch)));
    let aud_only = ValidationPolicy { issuers: None, ..scoped };
    assert!(matches!(check_claims(payload, true, 60, &aud_only), Err(TokenError::AudienceMismatch)));
    let claims = check_claims(payload, true, 100, &open).unwrap();
    assert_eq!(claims.exp, 100);
    assert_eq!(claims.user.role, UserRole::USER);
}

#[test]
fn bearer_header_is_checked() {
    let keys = JwtKeys::from_secret("secret");
    let token = AuthToken::new(test_user()).encode(&keys.encoding).unwrap();
    let header = format!("Bearer {}", token);
    assert_eq!(bearer_token(&header), Some(token.clone()));
    assert_eq!(bearer_token("Basic abc"), None);
    assert!(token_is_valid(&header, &keys.decoding, Algorithm::HS256));
    assert!(!token_is_valid(&token, &keys.decoding, Algorithm::HS256));
    assert!(!token_is_valid(&header, &keys.decoding, Algorithm::HS512));
    let other = JwtKeys::from_secret("other");
    assert!(!token_is_valid(&header, &other.decoding, Algorithm::HS256));
}

#[test]
fn empty_scope_is_left_out_of_the_payload() {
    let keys = JwtKeys::from_secret("secret");
    let token = AuthToken::new(test_user()).encode(&keys.encoding).unwrap();
    let split = split_token(&token, &[Algorithm::HS256]).unwrap();
    assert!(!split.payload.contains("\"iss\""));
    assert!(!split.payload.contains("\"aud\""));
    let scoped = AuthToken::new(test_user()).aud(&[JwtAudience::Account]).encode(&keys.encoding).unwrap();
    let split = split_token(&scoped, &[Algorithm::HS256]).unwrap();
    assert!(!split.payload.contains("\"iss\""));
    assert!(split.payload.contains(",\"aud\":[\"https://account.lerpz.com\"],\"user\""));
}

#[test]
fn signing_capabilities_agree() {
    let keys = JwtKeys::from_secret("secret");
    let sig = keys.encoding.sign(b"message", Algorithm::HS256).unwrap();
    assert_eq!(sig.len(), 43);
    assert!(!sig.contains('.'));
    assert!(keys.decoding.verify(&sig, b"message", Algorithm::HS256));
    assert!(!keys.decoding.verify(&sig, b"massage", Algorithm::HS256));
    assert!(!keys.decoding.verify(&sig, b"message", Algorithm::EdDSA));
    let other = JwtKeys::from_secret("other").encoding.sign(b"message", Algorithm::HS256).unwrap();
    assert_ne!(sig, other);
}
