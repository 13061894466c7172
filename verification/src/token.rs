//! Session tokens: signed JSON web tokens that name a user and an expiry.
use crate::claims::read_claims;
use crate::claims::TokenClaims;
use crate::claims::EMAIL_CLAIM;
use crate::claims::EXP_CLAIM;
use crate::claims::SUB_CLAIM;
use crate::clock::utc_timestamp;
use crate::clock::Duration;
use crate::clock::Reading;
use crate::crypto::base64url_decode;
use crate::text::split_at_each;
use crate::text::trim;
use jsonwebtoken::DecodingKey;
use jsonwebtoken::EncodingKey;
use jsonwebtoken::Header;
use jsonwebtoken::Validation;
use serde::de::IgnoredAny;
use vstd::prelude::*;

verus! {

/// The secret that signs tokens where none is configured.
pub const DEFAULT_JWT_SECRET: &'static str = "devbit-local-secret";

/// How many seconds a token is valid.
pub const TOKEN_LIFETIME_SECONDS: i64 = 86_400;

/// How many seconds after its expiry a token is still accepted, since clocks
/// differ.
pub const EXPIRY_LEEWAY_SECONDS: i64 = 60;

/// No timestamp is later: the end of the last day that 32 bits can count.
pub const MAX_TIMESTAMP: i64 = 185_542_587_187_200;

/// Who holds a token, and until when, in seconds since the Unix epoch.
#[derive(Clone, Copy, Debug, PartialEq, Eq, Structural)]
pub struct AuthIdentity {
    pub user_id: i32,
    pub expires_at: usize,
}

/// A token could not be issued.
#[derive(Clone, Copy, Debug, PartialEq, Eq, Structural)]
pub struct TokenError;

/// The error of the `jsonwebtoken` crate.
#[verifier::external_type_specification]
#[verifier::external_body]
pub struct ExJwtError(jsonwebtoken::errors::Error);

/// The token that `jsonwebtoken::encode` makes of a subject, an address and an
/// expiry, signed with HMAC-SHA-256 under a secret; none where it fails.
pub uninterp spec fn jwt_encoded(
    sub: i32,
    email: Seq<char>,
    exp: usize,
    secret: Seq<char>,
) -> Option<Seq<char>>;

/// The tokens that `jsonwebtoken::decode` accepts under a secret, whatever
/// their expiry is.
pub uninterp spec fn is_signed(token: Seq<char>, secret: Seq<char>) -> bool;

/// The bytes of the claims of a token: the second of three parts.
pub open spec fn payload_of(token: Seq<char>) -> Option<Seq<u8>> {
    let parts = crate::text::split(token, '.');
    if parts.len() == 3 {
        crate::crypto::base64url_decoded(parts[1])
    } else {
        None
    }
}

/// The claims of a token, signed or not.
pub open spec fn claims_of(token: Seq<char>) -> Option<TokenClaims> {
    match payload_of(token) {
        Some(bytes) => crate::claims::claims_in(bytes),
        None => None,
    }
}

/// Text that can be a token: one or more URL-safe Base64 characters and dots.
pub open spec fn is_token_text(token: Seq<char>) -> bool {
    &&& token.len() > 0
    &&& forall|i: int|
        0 <= i < token.len() ==> crate::crypto::is_base64url_char(#[trigger] token[i]) || token[i]
            == '.'
}

/// Calls `jsonwebtoken::encode` with the default header, which selects
/// HMAC-SHA-256, on an object with the three claims under the given names. The
/// contract claims that the outcome depends on the arguments alone, that the
/// token is accepted under the secret, that its claims are those that were put
/// into it, and that it is made of Base64 characters and dots.
#[verifier::external_body]
fn jwt_encode(
    names: (&str, &str, &str),
    sub: i32,
    email: &str,
    exp: usize,
    secret: &str,
) -> (r: Result<String, jsonwebtoken::errors::Error>)
    requires
        names.0@ == SUB_CLAIM@,
        names.1@ == EMAIL_CLAIM@,
        names.2@ == EXP_CLAIM@,
    ensures
        match r {
            Ok(token) => jwt_encoded(sub, email@, exp, secret@) == Some(token@) && is_signed(
                token@,
                secret@,
            ) && claims_of(token@) == Some((TokenClaims { sub, exp: exp as u64 }))
                && is_token_text(token@),
            Err(_) => jwt_encoded(sub, email@, exp, secret@) is None,
        },
{
    let mut claims = serde_json::Map::new();
    claims.insert(names.0.to_string(), sub.into());
    claims.insert(names.1.to_string(), email.into());
    claims.insert(names.2.to_string(), exp.into());
    jsonwebtoken::encode(&Header::default(), &claims, &EncodingKey::from_secret(secret.as_bytes()))
}

/// Calls `jsonwebtoken::decode` with the default validation, but for the
/// expiry, whose time is not looked at: the signature has to be HMAC-SHA-256
/// under the secret, there has to be an expiry, and there may be no audience.
/// The contract claims that the outcome depends on the token and the secret
/// alone.
#[verifier::external_body]
fn jwt_verify(token: &str, secret: &str) -> (r: bool)
    ensures
        r == is_signed(token@, secret@),
{
    let key = DecodingKey::from_secret(secret.as_bytes());
    let mut validation = Validation::default();
    validation.validate_exp = false;
    jsonwebtoken::decode::<IgnoredAny>(token, &key, &validation).is_ok()
}

/// The secret that signs and checks tokens: the configured one, unless it is
/// blank.
pub open spec fn signing_secret(configured: Option<Seq<char>>) -> Seq<char> {
    match configured {
        Some(value) => if crate::text::trimmed(value).len() > 0 {
            value
        } else {
            DEFAULT_JWT_SECRET@
        },
        None => DEFAULT_JWT_SECRET@,
    }
}

/// Who the claims of a token name.
pub open spec fn identity_of(claims: Option<TokenClaims>) -> Option<AuthIdentity> {
    match claims {
        Some(claims) => if claims.exp <= usize::MAX {
            Some(AuthIdentity { user_id: claims.sub, expires_at: claims.exp as usize })
        } else {
            None
        },
        None => None,
    }
}

/// Who a token names as long as it has not expired.
pub open spec fn token_identity(token: Seq<char>, secret: Seq<char>) -> Option<AuthIdentity> {
    if is_signed(token, secret) {
        identity_of(claims_of(token))
    } else {
        None
    }
}

/// Who is recognised at a time, given whom a token names: that user, up to the
/// expiry of the token and the leeway after it.
pub open spec fn valid_at(named: Option<AuthIdentity>, now: i64) -> Option<AuthIdentity> {
    match named {
        Some(identity) => if now <= identity.expires_at + EXPIRY_LEEWAY_SECONDS {
            Some(identity)
        } else {
            None
        },
        None => None,
    }
}

/// What the system clock can show, in seconds since the Unix epoch.
pub open spec fn is_reading(now: i64) -> bool {
    0 <= now <= MAX_TIMESTAMP
}

/// Who is recognised now, given whom a token names: nobody where it names
/// nobody, else who is recognised at what the clock showed when it was looked
/// at.
pub open spec fn recognised(named: Option<AuthIdentity>, accepted: Option<AuthIdentity>) -> bool {
    ||| named is None && accepted is None
    ||| exists|reading: Reading|
        is_reading(reading.seconds()) && accepted == #[trigger] valid_at(named, reading.seconds())
}

/// The user that an identity is of.
pub open spec fn user_of(identity: Option<AuthIdentity>) -> Option<i32> {
    match identity {
        Some(identity) => Some(identity.user_id),
        None => None,
    }
}

/// Which user is recognised now, given whom a token names.
pub open spec fn recognised_user(named: Option<AuthIdentity>, accepted: Option<i32>) -> bool {
    ||| named is None && accepted is None
    ||| exists|reading: Reading|
        is_reading(reading.seconds()) && accepted == user_of(
            #[trigger] valid_at(named, reading.seconds()),
        )
}

/// The expiry of a token that is issued at a given time.
pub open spec fn expiry(issued_at: int) -> usize {
    (issued_at + TOKEN_LIFETIME_SECONDS) as usize
}

/// The secret that signs and checks tokens; `configured` is the value of
/// `JWT_SECRET`, where it is set.
pub fn jwt_secret(configured: Option<&str>) -> (r: String)
    ensures
        r@ == signing_secret(crate::text::optional_text(configured)),
{
    match configured {
        Some(value) => {
            if trim(value).is_empty() {
                DEFAULT_JWT_SECRET.to_owned()
            } else {
                value.to_owned()
            }
        },
        None => DEFAULT_JWT_SECRET.to_owned(),
    }
}

/// Issues a token at a given time, in seconds since the Unix epoch.
pub fn generate_token_at(
    user_id: i32,
    email: &str,
    issued_at: i64,
    configured_secret: Option<&str>,
) -> (r: Result<String, TokenError>)
    requires
        0 <= issued_at <= i64::MAX - TOKEN_LIFETIME_SECONDS,
    ensures
        match r {
            Ok(token) => jwt_encoded(
                user_id,
                email@,
                expiry(issued_at as int),
                signing_secret(crate::text::optional_text(configured_secret)),
            ) == Some(token@) && token_identity(
                token@,
                signing_secret(crate::text::optional_text(configured_secret)),
            ) == Some(AuthIdentity { user_id, expires_at: expiry(issued_at as int) })
                && is_token_text(token@),
            Err(_) => jwt_encoded(
                user_id,
                email@,
                expiry(issued_at as int),
                signing_secret(crate::text::optional_text(configured_secret)),
            ) is None,
        },
{
    let expiration: usize = (issued_at + TOKEN_LIFETIME_SECONDS) as usize;
    let secret: String = jwt_secret(configured_secret);
    match jwt_encode(
        (SUB_CLAIM, EMAIL_CLAIM, EXP_CLAIM),
        user_id,
        email,
        expiration,
        secret.as_str(),
    ) {
        Ok(token) => Ok(token),
        Err(_) => Err(TokenError),
    }
}

/// Issues a token now. It names `user_id` under the same secret.
pub fn generate_token(user_id: i32, email: &str, configured_secret: Option<&str>) -> (r: Result<
    String,
    TokenError,
>)
    ensures
        exists|reading: Reading|
            is_reading(reading.seconds()) && match r {
                Ok(token) => jwt_encoded(
                    user_id,
                    email@,
                    #[trigger] expiry(reading.seconds() as int),
                    signing_secret(crate::text::optional_text(configured_secret)),
                ) == Some(token@) && token_identity(
                    token@,
                    signing_secret(crate::text::optional_text(configured_secret)),
                ) == Some(AuthIdentity { user_id, expires_at: expiry(reading.seconds() as int) })
                    && is_token_text(token@),
                Err(_) => jwt_encoded(
                    user_id,
                    email@,
                    expiry(reading.seconds() as int),
                    signing_secret(crate::text::optional_text(configured_secret)),
                ) is None,
            },
{
    let reading: Reading = utc_timestamp();
    let issued: Result<String, TokenError> = generate_token_at(
        user_id,
        email,
        reading.value(),
        configured_secret,
    );
    let ghost at = expiry(reading.seconds() as int);
    issued
}

fn read_payload(token: &str) -> (r: Option<TokenClaims>)
    ensures
        r == claims_of(token@),
{
    let parts: Vec<&str> = split_at_each(token, '.');
    assert(crate::text::views(parts@) == crate::text::split(token@, '.'));
    if parts.len() != 3 {
        return None;
    }
    assert(crate::text::views(parts@)[1] == parts@[1]@);
    match base64url_decode(parts[1]) {
        Some(bytes) => read_claims(bytes.as_slice()),
        None => None,
    }
}

/// Who a token names as long as it has not expired.
pub fn identity_named_by(token: &str, configured_secret: Option<&str>) -> (r: Option<AuthIdentity>)
    ensures
        r == token_identity(
            token@,
            signing_secret(crate::text::optional_text(configured_secret)),
        ),
{
    let secret: String = jwt_secret(configured_secret);
    if !jwt_verify(token, secret.as_str()) {
        return None;
    }
    match read_payload(token) {
        Some(claims) => if claims.exp <= usize::MAX as u64 {
            Some(AuthIdentity { user_id: claims.sub, expires_at: claims.exp as usize })
        } else {
            None
        },
        None => None,
    }
}

/// Who a token names, where it is accepted at `now`, in seconds since the Unix
/// epoch.
pub fn identity_from_token_at(token: &str, configured_secret: Option<&str>, now: i64) -> (r: Option<
    AuthIdentity,
>)
    ensures
        r == valid_at(
            token_identity(
                token@,
                signing_secret(crate::text::optional_text(configured_secret)),
            ),
            now,
        ),
{
    match identity_named_by(token, configured_secret) {
        Some(identity) => if now as i128 <= identity.expires_at as i128
            + EXPIRY_LEEWAY_SECONDS as i128 {
            Some(identity)
        } else {
            None
        },
        None => None,
    }
}

/// Who a token names, where it is accepted now.
pub fn identity_from_token(token: &str, configured_secret: Option<&str>) -> (r: Option<
    AuthIdentity,
>)
    ensures
        recognised(
            token_identity(
                token@,
                signing_secret(crate::text::optional_text(configured_secret)),
            ),
            r,
        ),
{
    let reading: Reading = utc_timestamp();
    identity_from_token_at(token, configured_secret, reading.value())
}

/// The user that a token names, where it is accepted at `now`.
pub fn user_id_from_token_at(token: &str, configured_secret: Option<&str>, now: i64) -> (r: Option<
    i32,
>)
    ensures
        r == user_of(
            valid_at(
                token_identity(
                    token@,
                    signing_secret(crate::text::optional_text(configured_secret)),
                ),
                now,
            ),
        ),
{
    match identity_from_token_at(token, configured_secret, now) {
        Some(identity) => Some(identity.user_id),
        None => None,
    }
}

/// The user that a token names, where it is accepted now.
pub fn user_id_from_token(token: &str, configured_secret: Option<&str>) -> (r: Option<i32>)
    ensures
        recognised_user(
            token_identity(
                token@,
                signing_secret(crate::text::optional_text(configured_secret)),
            ),
            r,
        ),
{
    let reading: Reading = utc_timestamp();
    user_id_from_token_at(token, configured_secret, reading.value())
}

/// The seconds of a lifetime that are left at `now`, in seconds since the Unix
/// epoch; a time that `usize` cannot hold counts as the epoch.
pub open spec fn seconds_left(identity: AuthIdentity, now: i64) -> nat {
    let at = if 0 <= now <= usize::MAX {
        now as int
    } else {
        0
    };
    if identity.expires_at >= at {
        (identity.expires_at - at) as nat
    } else {
        0
    }
}

/// How long a token is still valid at `now`.
pub fn token_lifetime_at(identity: AuthIdentity, now: i64) -> (r: Duration)
    ensures
        r.nanos == seconds_left(identity, now) * crate::clock::NANOS_PER_SECOND,
{
    let at: u64 = if now >= 0 && now as u64 <= usize::MAX as u64 {
        now as u64
    } else {
        0
    };
    let expires_at: u64 = identity.expires_at as u64;
    let left: u64 = if expires_at >= at {
        expires_at - at
    } else {
        0
    };
    Duration::from_secs(left)
}

/// A span is what is left of a token at some reading of the clock.
pub open spec fn lifetime_of(duration: Duration, identity: AuthIdentity) -> bool {
    exists|reading: Reading|
        is_reading(reading.seconds()) && duration.nanos == #[trigger] seconds_left(
            identity,
            reading.seconds(),
        ) * crate::clock::NANOS_PER_SECOND
}

/// How long a token is still valid now.
pub fn remaining_token_lifetime(identity: AuthIdentity) -> (r: Duration)
    ensures
        lifetime_of(r, identity),
{
    let reading: Reading = utc_timestamp();
    token_lifetime_at(identity, reading.value())
}

// ---------------------------------------------------------------------------
// Laws.
// ---------------------------------------------------------------------------
/// From the moment on in which a token is issued, and for the whole of its
/// lifetime, it is accepted under the same secret and names its user, whatever
/// the address in it is; a minute after the end of its lifetime it is refused
/// for good.
pub proof fn law_tokens_live_for_a_day(
    token: Seq<char>,
    user_id: i32,
    issued_at: int,
    secret: Seq<char>,
    now: i64,
)
    requires
        token_identity(token, secret) == Some(
            (AuthIdentity { user_id, expires_at: expiry(issued_at) }),
        ),
        0 <= issued_at <= MAX_TIMESTAMP,
        issued_at + TOKEN_LIFETIME_SECONDS <= usize::MAX,
    ensures
        now <= issued_at + TOKEN_LIFETIME_SECONDS ==> valid_at(
            token_identity(token, secret),
            now,
        ) == Some(AuthIdentity { user_id, expires_at: expiry(issued_at) }),
        now <= issued_at + TOKEN_LIFETIME_SECONDS ==> user_of(
            valid_at(token_identity(token, secret), now),
        ) == Some(user_id),
        now > issued_at + TOKEN_LIFETIME_SECONDS + EXPIRY_LEEWAY_SECONDS ==> valid_at(
            token_identity(token, secret),
            now,
        ) is None,
{
}

} // verus!
