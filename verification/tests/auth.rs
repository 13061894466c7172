use axum::http::header;
use axum::http::HeaderMap;
use base64::engine::general_purpose::URL_SAFE_NO_PAD;
use base64::Engine;
use devbit::auth::auth_cookie;
use devbit::auth::constant_time_eq;
use devbit::auth::development_code_is_allowed;
use devbit::auth::expired_auth_cookie;
use devbit::auth::generate_token;
use devbit::auth::hash_password;
use devbit::auth::identity_from_headers;
use devbit::auth::identity_from_token;
use devbit::auth::is_admin_user;
use devbit::auth::is_production_environment;
use devbit::auth::jwt_secret;
use devbit::auth::password_needs_upgrade;
use devbit::auth::pbkdf2_hmac_sha256;
use devbit::auth::remaining_token_lifetime;
use devbit::auth::token_from_headers;
use devbit::auth::token_from_values;
use devbit::auth::user_id_from_headers;
use devbit::auth::user_id_from_token;
use devbit::auth::validate_production_secret;
use devbit::auth::verify_password;
use devbit::auth::AuthIdentity;
use devbit::auth::DEFAULT_JWT_SECRET;
use devbit::clock::NANOS_PER_SECOND;
use devbit::password::hash_password_with_salt;
use devbit::password::MAX_PASSWORD_HASH_ITERATIONS;
use devbit::password::PASSWORD_HASH_BYTES;
use devbit::password::PASSWORD_HASH_PREFIX;
use devbit::password::PASSWORD_SALT_BYTES;
use devbit::token::generate_token_at;
use devbit::claims::read_claims;
use devbit::claims::TokenClaims;
use devbit::token::identity_from_token_at;
use devbit::token::identity_named_by;
use devbit::token::token_lifetime_at;
use devbit::token::user_id_from_token_at;
use devbit::token::TOKEN_LIFETIME_SECONDS;
use jsonwebtoken::crypto::sign;
use jsonwebtoken::Algorithm;
use jsonwebtoken::EncodingKey;

fn hex(bytes: &[u8]) -> String {
    bytes.iter().map(|byte| format!("{byte:02x}")).collect()
}

/// A token with the given claims, signed with the given secret.
fn signed(claims: &[u8], secret: &str) -> String {
    let header = URL_SAFE_NO_PAD.encode(br#"{"typ":"JWT","alg":"HS256"}"#);
    let message = format!("{header}.{}", URL_SAFE_NO_PAD.encode(claims));
    let key = EncodingKey::from_secret(secret.as_bytes());
    let signature = sign(message.as_bytes(), &key, Algorithm::HS256).unwrap();
    format!("{message}.{signature}")
}

/// Who a token with the given claims names.
fn named(claims: &str) -> Option<AuthIdentity> {
    identity_named_by(&signed(claims.as_bytes(), "s"), Some("s"))
}

#[test]
fn passwords_round_trip_and_reject_wrong_values() {
    let hash = hash_password("correct horse battery staple");

    assert!(verify_password("correct horse battery staple", &hash));
    assert!(!verify_password("wrong", &hash));
    assert!(!password_needs_upgrade(&hash));
    assert!(password_needs_upgrade("legacy plaintext"));
}

#[test]
fn bearer_header_takes_precedence_over_cookie() {
    let mut headers = HeaderMap::new();
    headers.insert(header::AUTHORIZATION, "Bearer header-token".parse().unwrap());
    headers.insert(header::COOKIE, "theme=dark; auth_token=cookie-token".parse().unwrap());

    assert_eq!(token_from_headers(&headers).as_deref(), Some("header-token"));
}

#[test]
fn token_is_read_from_cookie() {
    let mut headers = HeaderMap::new();
    headers.insert(
        header::COOKIE,
        "theme=dark; auth_token=cookie-token; locale=en".parse().unwrap(),
    );

    assert_eq!(token_from_headers(&headers).as_deref(), Some("cookie-token"));
}

#[test]
fn production_rejects_missing_empty_and_default_secrets() {
    for secret in [None, Some(""), Some("  "), Some(DEFAULT_JWT_SECRET)] {
        assert!(validate_production_secret(Some("production"), secret, false).is_err());
    }

    assert!(validate_production_secret(Some("production"), Some("unique-secret"), false).is_ok());
    assert!(validate_production_secret(Some("development"), None, false).is_ok());
    assert!(validate_production_secret(None, None, true).is_err());
    assert!(validate_production_secret(None, Some("unique-secret"), true).is_ok());
}

#[test]
fn development_codes_are_only_allowed_in_safe_local_modes() {
    assert!(development_code_is_allowed(Some("development"), false));
    assert!(development_code_is_allowed(Some("test"), false));
    assert!(development_code_is_allowed(None, true));
    assert!(!development_code_is_allowed(None, false));
    assert!(!development_code_is_allowed(Some("staging"), true));
    assert!(!development_code_is_allowed(Some("production"), true));
}

#[test]
fn malformed_password_hashes_are_rejected_before_derivation() {
    let salt = URL_SAFE_NO_PAD.encode([0_u8; PASSWORD_SALT_BYTES]);
    let digest = URL_SAFE_NO_PAD.encode([0_u8; PASSWORD_HASH_BYTES]);

    assert!(!verify_password("password", &format!("{PASSWORD_HASH_PREFIX}$100000${salt}$")));
    let truncated = format!("{PASSWORD_HASH_PREFIX}$100000${salt}");
    assert!(!verify_password(&truncated, &truncated));
    assert!(!verify_password("password", &format!("{PASSWORD_HASH_PREFIX}$0${salt}${digest}")));
    assert!(!verify_password(
        "password",
        &format!(
            "{PASSWORD_HASH_PREFIX}${}${salt}${digest}",
            MAX_PASSWORD_HASH_ITERATIONS + 1
        ),
    ));
    assert!(!verify_password(
        "password",
        &format!(
            "{PASSWORD_HASH_PREFIX}$100000${}${digest}",
            URL_SAFE_NO_PAD.encode([0_u8; PASSWORD_SALT_BYTES - 1])
        ),
    ));
}

#[test]
fn keys_are_derived_as_published() {
    assert_eq!(
        hex(&pbkdf2_hmac_sha256(b"password", b"salt", 1, 32)),
        "120fb6cffcf8b32c43e7225256c4f837a86548c92ccc35480805987cb70be17b"
    );
    assert_eq!(
        hex(&pbkdf2_hmac_sha256(b"password", b"salt", 2, 32)),
        "ae4d0c95af6b46d32d0adff928f06dd02a303f8ef3c251dfd6e2d85a95474c43"
    );
    assert_eq!(
        hex(&pbkdf2_hmac_sha256(
            b"passwordPASSWORDpassword",
            b"saltSALTsaltSALTsaltSALTsaltSALTsalt",
            4096,
            40,
        )),
        "348c89dbcbd32b2f32d814b8116e84cf2b17347ebc1800181c4e2a1fb8dd53e1c635518c7dac47e9"
    );
}

#[test]
fn keys_of_long_passwords_are_derived_from_their_digest() {
    assert_eq!(
        hex(&pbkdf2_hmac_sha256(&[b'k'; 100], b"s", 3, 20)),
        "5393fdd22141d18e0ad7f185974c30da7be2e9b7"
    );
}

#[test]
fn stored_passwords_hold_iterations_salt_and_digest() {
    let salt: Vec<u8> = (0..16).collect();
    let stored = hash_password_with_salt("hunter2", &salt);
    assert_eq!(
        stored,
        "pbkdf2-sha256$100000$AAECAwQFBgcICQoLDA0ODw$hE1uCS3vlWo9J3PkHXIb8tlaHY9STZcMp2zSBSigNnk"
    );
    assert!(verify_password("hunter2", &stored));
    assert_eq!(stored.len(), 87);
    assert_eq!(hash_password("hunter2").len(), 87);
}

#[test]
fn other_iteration_counts_are_verified() {
    let stored =
        "pbkdf2-sha256$1000$AAECAwQFBgcICQoLDA0ODw$9VUOiRGfWTzTZixtfaW9P3qQ4lzS3CIfWKYWbHcnU9M";
    assert!(verify_password("hunter2", stored));
    assert!(!verify_password("hunter3", stored));
}

#[test]
fn legacy_passwords_fit_literally() {
    assert!(verify_password("open sesame", "open sesame"));
    assert!(!verify_password("open sesame", "open  sesame"));
    assert!(password_needs_upgrade("open sesame"));
}

#[test]
fn two_hashes_of_a_password_differ() {
    assert_ne!(hash_password("same"), hash_password("same"));
}

#[test]
fn bytes_are_compared_in_full() {
    assert!(constant_time_eq(b"abc", b"abc"));
    assert!(!constant_time_eq(b"abc", b"abd"));
    assert!(!constant_time_eq(b"abc", b"ab"));
    assert!(constant_time_eq(b"", b""));
}

#[test]
fn tokens_need_the_scheme_and_a_value() {
    assert_eq!(token_from_values(Some("Bearer  a.b.c "), None).as_deref(), Some("a.b.c"));
    assert_eq!(token_from_values(Some("Bearer   "), None), None);
    assert_eq!(token_from_values(Some("bearer a"), None), None);
    assert_eq!(
        token_from_values(Some("Basic x"), Some("auth_token=; auth_token=y")).as_deref(),
        Some("y")
    );
    assert_eq!(token_from_values(None, Some("xauth_token=y")), None);
    assert_eq!(token_from_values(None, Some("a=b; auth_token= y z")).as_deref(), Some(" y z"));
    assert_eq!(token_from_values(None, None), None);
}

#[test]
fn cookies_hold_the_token() {
    assert_eq!(
        auth_cookie("abc"),
        "auth_token=abc; Path=/; HttpOnly; Secure; SameSite=Strict; Max-Age=86400"
    );
    assert_eq!(
        expired_auth_cookie(),
        "auth_token=; Path=/; HttpOnly; Secure; SameSite=Strict; Max-Age=0; Expires=Thu, 01 Jan 1970 00:00:00 GMT"
    );
    assert_eq!(token_from_values(None, Some(&auth_cookie("abc"))).as_deref(), Some("abc"));
    assert_eq!(token_from_values(None, Some(&expired_auth_cookie())), None);
}

#[test]
fn only_the_first_two_users_administer() {
    assert!(is_admin_user(1));
    assert!(is_admin_user(2));
    assert!(!is_admin_user(0));
    assert!(!is_admin_user(3));
    assert!(!is_admin_user(-1));
}

#[test]
fn production_is_recognised_in_any_case() {
    assert!(is_production_environment(Some(" Production ")));
    assert!(!is_production_environment(Some("productions")));
    assert!(!is_production_environment(None));
}

#[test]
fn blank_secrets_give_way_to_the_default() {
    assert_eq!(jwt_secret(None), DEFAULT_JWT_SECRET);
    assert_eq!(jwt_secret(Some(" \t")), DEFAULT_JWT_SECRET);
    assert_eq!(jwt_secret(Some(" spaced ")), " spaced ");
}

#[test]
fn secrets_are_demanded_with_a_reason() {
    assert_eq!(
        validate_production_secret(None, None, true),
        Err("JWT_SECRET must be set to a non-default value in production and release builds")
    );
    assert!(validate_production_secret(None, Some(" devbit-local-secret "), true).is_err());
}

#[test]
fn issued_tokens_name_their_user() {
    let token = generate_token(7, "seven@example.com", Some("one secret")).unwrap();
    let identity = identity_from_token(&token, Some("one secret")).unwrap();
    assert_eq!(identity.user_id, 7);
    assert_eq!(user_id_from_token(&token, Some("one secret")), Some(7));
    assert_eq!(identity_from_token(&token, Some("another secret")), None);
    assert_eq!(identity_from_token(&token, None), None);
    assert_eq!(identity_from_token("no token", Some("one secret")), None);
    assert_eq!(token.matches('.').count(), 2);
}

#[test]
fn tokens_expire_a_day_after_they_were_issued() {
    let token = generate_token_at(7, "seven@example.com", 4_000_000_000, None).unwrap();
    assert_eq!(
        identity_from_token(&token, None),
        Some(AuthIdentity {
            user_id: 7,
            expires_at: (4_000_000_000 + TOKEN_LIFETIME_SECONDS) as usize,
        })
    );
    let stale = generate_token_at(7, "seven@example.com", 1_000_000_000, None).unwrap();
    assert_eq!(identity_from_token(&stale, None), None);
    assert_eq!(user_id_from_token(&stale, None), None);
}

#[test]
fn sessions_are_carried_by_header_and_cookie() {
    let token = generate_token(9, "nine@example.com", None).unwrap();
    let mut headers = HeaderMap::new();
    assert_eq!(identity_from_headers(&headers, None), None);
    headers.insert(header::AUTHORIZATION, format!("Bearer {token}").parse().unwrap());
    assert_eq!(identity_from_headers(&headers, None).map(|identity| identity.user_id), Some(9));
    headers.remove(header::AUTHORIZATION);
    headers.insert(header::COOKIE, auth_cookie(&token).parse().unwrap());
    assert_eq!(user_id_from_headers(&headers, None), Some(9));
    headers.insert(header::COOKIE, expired_auth_cookie().parse().unwrap());
    assert_eq!(user_id_from_headers(&headers, None), None);
}

#[test]
fn claims_need_a_user_an_expiry_and_a_plausible_address() {
    let identity = Some(AuthIdentity { user_id: 42, expires_at: 1_000 });
    assert_eq!(named(r#"{"sub":42,"email":"a@b","exp":1000}"#), identity);
    assert_eq!(named(r#"{"exp":1000,"sub":42}"#), identity);
    assert_eq!(named(r#"{"sub":42,"email":null,"exp":1000}"#), identity);
    assert_eq!(named(" {\n\t\"sub\" : 42 , \"exp\" : 1000 } "), identity);
    assert_eq!(named(r#"{"\u0073ub":42,"exp":1000}"#), identity);
    assert_eq!(named(r#"{"sub":-42,"exp":0}"#).unwrap().user_id, -42);
    for claims in [
        r#"{"sub":42,"email":7,"exp":1000}"#,
        r#"{"email":"a@b","exp":1000}"#,
        r#"{"sub":42,"email":"a@b"}"#,
        r#"{"sub":2147483648,"exp":1000}"#,
        r#"{"sub":"42","exp":1000}"#,
        r#"{"sub":42.0,"exp":1000}"#,
        r#"{"sub":42,"exp":1000.5}"#,
        r#"{"sub":42,"exp":-1}"#,
        r#"{"sub":42,"exp":1000,}"#,
        r#"{"sub":42,"exp":1000} x"#,
        r#"{"sub":42 "exp":1000}"#,
        r#"{"sub":42,"exp":1000,"aud":"others"}"#,
        r#"[42,"a@b",1000]"#,
        "{}",
        "",
    ] {
        assert_eq!(named(claims), None, "{claims}");
    }
}

#[test]
fn claims_may_come_only_once() {
    assert_eq!(named(r#"{"sub":42,"email":"a@b","email":"a@b","exp":1000}"#), None);
    assert_eq!(named(r#"{"sub":42,"email":null,"exp":1000,"\u0065mail":null}"#), None);
    assert_eq!(named(r#"{"sub":42,"sub":42,"exp":1000}"#), None);
    assert_eq!(named(r#"{"sub":42,"exp":1000,"exp":1000}"#), None);
    assert_eq!(read_claims(br#"{"sub":1,"sub":1,"exp":2}"#), None);
    assert_eq!(read_claims(br#"{"sub":1,"exp":2}"#), Some(TokenClaims { sub: 1, exp: 2 }));
}

#[test]
fn other_claims_are_skipped() {
    let identity = Some(AuthIdentity { user_id: 42, expires_at: 1_000 });
    assert_eq!(named(r#"{"x":1,"sub":42,"x":[{"sub":1}],"exp":1000}"#), identity);
    assert_eq!(named(r#"{"sub":42,"exp":1000,"big":1e999}"#), identity);
    let deep = format!(r#"{{"deep":{}{},"sub":42,"exp":1000}}"#, "[".repeat(300), "]".repeat(300));
    assert_eq!(named(&deep), identity);
    let mut bytes = br#"{"sub":42,"exp":1000,"raw":""#.to_vec();
    bytes.extend_from_slice(&[0xff, b'"', b'}']);
    assert_eq!(identity_named_by(&signed(&bytes, "s"), Some("s")), identity);
}

#[test]
fn tokens_need_the_signature_of_the_secret() {
    let token = signed(br#"{"sub":42,"exp":1000}"#, "s");
    assert_eq!(identity_named_by(&token, Some("t")), None);
    assert_eq!(identity_named_by(&token[..token.len() - 1], Some("s")), None);
    assert_eq!(identity_named_by(&format!("x.{token}"), Some("s")), None);
}

#[test]
fn tokens_are_accepted_up_to_a_minute_after_their_expiry() {
    let token = generate_token_at(7, "seven@example.com", 1_000, None).unwrap();
    let expiry = 1_000 + TOKEN_LIFETIME_SECONDS;
    let identity = Some(AuthIdentity { user_id: 7, expires_at: expiry as usize });
    assert_eq!(identity_from_token_at(&token, None, 1_000), identity);
    assert_eq!(identity_from_token_at(&token, None, expiry + 60), identity);
    assert_eq!(identity_from_token_at(&token, None, expiry + 61), None);
    assert_eq!(user_id_from_token_at(&token, None, expiry), Some(7));
    assert_eq!(user_id_from_token_at(&token, None, expiry + 61), None);
    let lasting = signed(br#"{"sub":7,"exp":18446744073709551615}"#, "s");
    assert_eq!(user_id_from_token_at(&lasting, Some("s"), i64::MAX), Some(7));
}

#[test]
fn lifetimes_end_at_the_expiry() {
    let identity = AuthIdentity { user_id: 1, expires_at: 100 };
    assert_eq!(token_lifetime_at(identity, 40).nanos, 60 * NANOS_PER_SECOND);
    assert_eq!(token_lifetime_at(identity, 100).nanos, 0);
    assert_eq!(token_lifetime_at(identity, 101).nanos, 0);
    assert_eq!(token_lifetime_at(identity, -1).nanos, 100 * NANOS_PER_SECOND);
}

#[test]
fn a_new_token_has_most_of_a_day_left() {
    let token = generate_token(1, "one@example.com", None).unwrap();
    let identity = identity_from_token(&token, None).unwrap();
    let left = remaining_token_lifetime(identity).nanos / NANOS_PER_SECOND;
    assert!(left <= 86_400 && left > 86_000);
}
