use lerpz_auth::base64url::{base64url_decode, base64url_encode};
use lerpz_auth::encode::{header_text, signing_input_of};
use lerpz_auth::env::{get_env_parse, Config, Error};
use lerpz_auth::error::TokenError;
use lerpz_auth::json::claims_to_json;
use lerpz_auth::json_read::decode_claims;
use lerpz_auth::model::{Algorithm, Audience, JwtAudience, JwtIssuer, JwtUser, TokenClaims, User, UserRole};
use lerpz_auth::text::{chars_of, write_int};

fn sample_claims() -> TokenClaims {
    TokenClaims {
        sub: "abc".to_string(),
        exp: 1900,
        nbf: 1000,
        iat: -5,
        iss: vec![JwtIssuer::API],
        aud: vec![JwtAudience::MainWebsite, JwtAudience::Dashboard],
        user: JwtUser {
            id: "id-1".to_string(),
            username: "a\"b\\c\nd".to_string(),
            email: "x@y.z".to_string(),
            role: UserRole::MANAGER,
        },
    }
}

#[test]
fn base64url_matches_known_values() {
    assert_eq!(base64url_encode(b""), "");
    assert_eq!(base64url_encode(b"f"), "Zg");
    assert_eq!(base64url_encode(b"fo"), "Zm8");
    assert_eq!(base64url_encode(b"foo"), "Zm9v");
    assert_eq!(base64url_encode(b"hello"), "aGVsbG8");
    assert_eq!(base64url_encode(&[0xfb, 0xff, 0xbf]), "-_-_");
}

#[test]
fn base64url_decodes_what_it_encodes() {
    let bytes: Vec<u8> = (0..=255).collect();
    let text = base64url_encode(&bytes);
    let back = base64url_decode(&chars_of(&text)).unwrap();
    assert_eq!(back, bytes);
    assert_eq!(base64url_decode(&chars_of("aGVsbG8")).unwrap(), b"hello".to_vec());
    assert!(base64url_decode(&chars_of("a")).is_none());
    assert!(base64url_decode(&chars_of("a+b/")).is_none());
    assert!(base64url_decode(&chars_of("Zh")).is_none());
}

#[test]
fn claims_json_has_the_fixed_layout() {
    let text = claims_to_json(&sample_claims());
    assert_eq!(
        text,
        "{\"sub\":\"abc\",\"exp\":1900,\"nbf\":1000,\"iat\":-5,\"iss\":[\"https://api.lerpz.com\"],\
         \"aud\":[\"https://lerpz.com\",\"https://dashboard.lerpz.com\"],\"user\":{\"id\":\"id-1\",\
         \"username\":\"a\\\"b\\\\c\\u000ad\",\"email\":\"x@y.z\",\"role\":\"MANAGER\"}}"
    );
}

#[test]
fn claims_json_decodes_back() {
    let claims = sample_claims();
    let back = decode_claims(&claims_to_json(&claims)).unwrap();
    assert_eq!(back.sub, claims.sub);
    assert_eq!((back.exp, back.nbf, back.iat), (claims.exp, claims.nbf, claims.iat));
    assert_eq!(back.iss, claims.iss);
    assert_eq!(back.aud, claims.aud);
    assert_eq!(back.user.username, claims.user.username);
    assert_eq!(back.user.role, claims.user.role);
    assert!(decode_claims("{\"sub\": \"abc\"}").is_none());
    assert!(decode_claims("").is_none());
}

#[test]
fn header_and_signing_input() {
    assert_eq!(header_text(Algorithm::HS512), "{\"typ\":\"JWT\",\"alg\":\"HS512\"}");
    assert_eq!(header_text(Algorithm::EdDSA), "{\"typ\":\"JWT\",\"alg\":\"EdDSA\"}");
    let input = signing_input_of(Algorithm::HS256, &sample_claims());
    assert!(input.starts_with("eyJ0eXAiOiJKV1QiLCJhbGciOiJIUzI1NiJ9."));
}

#[test]
fn names_of_enumerations() {
    assert_eq!(UserRole::ADMIN.as_str(), "ADMIN");
    assert_eq!(JwtAudience::Account.as_str(), "https://account.lerpz.com");
    assert_eq!(JwtIssuer::API.as_str(), "https://api.lerpz.com");
    assert_eq!(Audience::FileUpload.as_str(), "file-upload");
    assert!(UserRole::MANAGER < UserRole::ADMIN);
    assert!(UserRole::MODERATOR < UserRole::USER);
}

#[test]
fn integers_are_written_in_decimal() {
    let mut out = String::new();
    write_int(&mut out, i64::MIN);
    out.push(' ');
    write_int(&mut out, 0);
    out.push(' ');
    write_int(&mut out, 42);
    assert_eq!(out, "-9223372036854775808 0 42");
}

#[test]
fn env_integer_values() {
    assert_eq!(get_env_parse("PORT", Some("8080")), Ok(8080));
    assert_eq!(get_env_parse("PORT", Some("-7")), Ok(-7));
    assert_eq!(get_env_parse("PORT", Some("+5")), Ok(5));
    assert_eq!(get_env_parse("PORT", Some("007")), Ok(7));
    assert_eq!(get_env_parse("PORT", Some("-0")), Ok(0));
    assert_eq!(get_env_parse("PORT", Some("-9223372036854775808")), Ok(i64::MIN));
    assert_eq!(get_env_parse("PORT", Some("9223372036854775807")), Ok(i64::MAX));
    assert_eq!(get_env_parse("PORT", Some("9223372036854775808")), Err(Error::WrongFormat("PORT")));
    assert_eq!(get_env_parse("PORT", Some("99999999999999999999999")), Err(Error::WrongFormat("PORT")));
    assert_eq!(get_env_parse("PORT", Some("eighty")), Err(Error::WrongFormat("PORT")));
    assert_eq!(get_env_parse("PORT", Some("12a")), Err(Error::WrongFormat("PORT")));
    assert_eq!(get_env_parse("PORT", Some("+")), Err(Error::WrongFormat("PORT")));
    assert_eq!(get_env_parse("PORT", Some("")), Err(Error::WrongFormat("PORT")));
    assert_eq!(get_env_parse("PORT", None), Err(Error::MissingEnv("PORT")));
}

#[test]
fn error_descriptions() {
    assert_eq!(TokenError::Expired.as_str(), "token has expired");
    assert_eq!(TokenError::MalformedToken.as_str(), "token is malformed");
}

#[test]
fn config_reports_the_first_missing_variable() {
    let s = |v: &str| Some(v.to_string());
    let ok = Config::from_env(s("pub"), s("priv"), s("origin"), s("url")).unwrap();
    assert_eq!(ok.PUBLIC_KEY, "pub");
    assert_eq!(ok.ACCOUNT_SERVICE_URL, "url");
    assert!(matches!(
        Config::from_env(None, None, s("origin"), s("url")),
        Err(Error::MissingEnv("PUBLIC_KEY"))
    ));
    assert!(matches!(
        Config::from_env(s("pub"), s("priv"), None, None),
        Err(Error::MissingEnv("API_ORIGIN"))
    ));
    assert!(matches!(
        Config::from_env(s("pub"), s("priv"), s("origin"), None),
        Err(Error::MissingEnv("ACCOUNT_SERVICE_URL"))
    ));
}

#[test]
fn snapshot_of_an_account_drops_secrets_and_timestamps() {
    let user = User {
        id: "u-1".to_string(),
        username: "name".to_string(),
        email: "mail@example.com".to_string(),
        password: "digest".to_string(),
        role: UserRole::USER,
        created_at: 1,
        updated_at: 2,
    };
    let snapshot = JwtUser::from(user);
    assert_eq!(snapshot.id, "u-1");
    assert_eq!(snapshot.username, "name");
    assert_eq!(snapshot.email, "mail@example.com");
    assert_eq!(snapshot.role, UserRole::USER);
}
