//! Who a request comes from, and the rules on secrets and environments.
pub use crate::password::constant_time_eq;
pub use crate::password::hash_password;
pub use crate::password::password_needs_upgrade;
pub use crate::password::pbkdf2_hmac_sha256;
pub use crate::password::verify_password;
pub use crate::password::MAX_PASSWORD_BYTES;
pub use crate::token::generate_token;
pub use crate::token::identity_from_token;
pub use crate::token::identity_from_token_at;
pub use crate::token::jwt_secret;
pub use crate::token::remaining_token_lifetime;
pub use crate::token::user_id_from_token;
pub use crate::token::user_id_from_token_at;
pub use crate::token::AuthIdentity;
pub use crate::token::DEFAULT_JWT_SECRET;

use crate::headers::header_text;
use crate::text::eq_ignore_ascii_case;
use crate::text::same_text;
use crate::text::split_at_each;
use crate::text::strip_prefix;
use crate::text::trim;
use axum::http::HeaderMap;
use vstd::prelude::*;
use vstd::string::StringExecFns;

verus! {

/// The cookie that carries a token.
pub const AUTH_COOKIE_NAME: &'static str = "auth_token";

/// The cookie that carries a token, up to its value.
pub const AUTH_COOKIE_PREFIX: &'static str = "auth_token=";

/// What stands before a token in an `authorization` header.
pub const BEARER_PREFIX: &'static str = "Bearer ";

/// What follows the token in the cookie of a new session.
pub const AUTH_COOKIE_ATTRIBUTES: &'static str =
    "; Path=/; HttpOnly; Secure; SameSite=Strict; Max-Age=86400";

/// What follows the empty token in the cookie of an ended session.
pub const EXPIRED_COOKIE_ATTRIBUTES: &'static str =
    "; Path=/; HttpOnly; Secure; SameSite=Strict; Max-Age=0; Expires=Thu, 01 Jan 1970 00:00:00 GMT";

/// Why a secret is not accepted.
pub const SECRET_REQUIRED: &'static str =
    "JWT_SECRET must be set to a non-default value in production and release builds";

// ---------------------------------------------------------------------------
// Tokens in requests.
// ---------------------------------------------------------------------------
/// `text`, unless there is none of it.
pub open spec fn non_empty(text: Seq<char>) -> Option<Seq<char>> {
    if text.len() > 0 {
        Some(text)
    } else {
        None
    }
}

/// The token that an `authorization` header carries.
pub open spec fn bearer_token(header: Seq<char>) -> Option<Seq<char>> {
    match crate::text::without_prefix(header, BEARER_PREFIX@) {
        Some(rest) => non_empty(crate::text::trimmed(rest)),
        None => None,
    }
}

/// The token that a single cookie carries.
pub open spec fn cookie_value(cookie: Seq<char>) -> Option<Seq<char>> {
    match crate::text::without_prefix(crate::text::trimmed(cookie), AUTH_COOKIE_PREFIX@) {
        Some(rest) => non_empty(rest),
        None => None,
    }
}

/// The token of the first cookie that carries one.
pub open spec fn first_cookie_value(cookies: Seq<Seq<char>>) -> Option<Seq<char>>
    decreases cookies.len(),
{
    if cookies.len() == 0 {
        None
    } else {
        match cookie_value(cookies[0]) {
            Some(token) => Some(token),
            None => first_cookie_value(cookies.drop_first()),
        }
    }
}

/// The token that a `cookie` header carries.
pub open spec fn cookie_token(header: Seq<char>) -> Option<Seq<char>> {
    first_cookie_value(crate::text::split(header, ';'))
}

/// The token that the two headers of a request carry: the `authorization`
/// header comes first.
pub open spec fn request_token(
    authorization: Option<Seq<char>>,
    cookie: Option<Seq<char>>,
) -> Option<Seq<char>> {
    let bearer = match authorization {
        Some(header) => bearer_token(header),
        None => None,
    };
    match (bearer, cookie) {
        (Some(token), _) => Some(token),
        (None, Some(header)) => cookie_token(header),
        (None, None) => None,
    }
}

/// The token that a request carries.
pub open spec fn token_of(headers: HeaderMap) -> Option<Seq<char>> {
    request_token(
        crate::headers::header_text_of(headers, "authorization"@),
        crate::headers::header_text_of(headers, "cookie"@),
    )
}

/// Who the token of a request names as long as it has not expired.
pub open spec fn identity_in(headers: HeaderMap, secret: Seq<char>) -> Option<AuthIdentity> {
    match token_of(headers) {
        Some(token) => crate::token::token_identity(token, secret),
        None => None,
    }
}

fn bearer<'a>(header: &'a str) -> (r: Option<&'a str>)
    ensures
        match r {
            Some(token) => bearer_token(header@) == Some(token@),
            None => bearer_token(header@) is None,
        },
{
    match strip_prefix(header, BEARER_PREFIX) {
        Some(rest) => {
            let token: &'a str = trim(rest);
            if token.is_empty() {
                None
            } else {
                Some(token)
            }
        },
        None => None,
    }
}

fn single_cookie<'a>(cookie: &'a str) -> (r: Option<&'a str>)
    ensures
        match r {
            Some(token) => cookie_value(cookie@) == Some(token@),
            None => cookie_value(cookie@) is None,
        },
{
    match strip_prefix(trim(cookie), AUTH_COOKIE_PREFIX) {
        Some(rest) => {
            if rest.is_empty() {
                None
            } else {
                Some(rest)
            }
        },
        None => None,
    }
}

fn cookie_in<'a>(header: &'a str) -> (r: Option<&'a str>)
    ensures
        match r {
            Some(token) => cookie_token(header@) == Some(token@),
            None => cookie_token(header@) is None,
        },
{
    let cookies: Vec<&'a str> = split_at_each(header, ';');
    let ghost pieces = crate::text::split(header@, ';');
    assert(crate::text::views(cookies@) == pieces);
    let mut i: usize = 0;
    assert(pieces.skip(0) =~= pieces);
    while i < cookies.len()
        invariant
            i <= cookies@.len(),
            pieces == crate::text::views(cookies@),
            pieces == crate::text::split(header@, ';'),
            first_cookie_value(pieces) == first_cookie_value(pieces.skip(i as int)),
        decreases cookies@.len() - i,
    {
        let ghost rest = pieces.skip(i as int);
        assert(rest[0] == cookies@[i as int]@);
        assert(rest.drop_first() =~= pieces.skip(i + 1));
        match single_cookie(cookies[i]) {
            Some(token) => {
                return Some(token);
            },
            None => {},
        }
        i = i + 1;
    }
    None
}

/// The token that the texts of the two headers carry.
pub fn token_from_values(authorization: Option<&str>, cookie: Option<&str>) -> (r: Option<String>)
    ensures
        match r {
            Some(token) => request_token(
                crate::text::optional_text(authorization),
                crate::text::optional_text(cookie),
            ) == Some(token@),
            None => request_token(
                crate::text::optional_text(authorization),
                crate::text::optional_text(cookie),
            ) is None,
        },
{
    match authorization {
        Some(value) => {
            match bearer(value) {
                Some(token) => {
                    return Some(token.to_owned());
                },
                None => {},
            }
        },
        None => {},
    }
    match cookie {
        Some(value) => match cookie_in(value) {
            Some(token) => Some(token.to_owned()),
            None => None,
        },
        None => None,
    }
}

/// The token that a request carries.
pub fn token_from_headers(headers: &HeaderMap) -> (r: Option<String>)
    ensures
        match r {
            Some(token) => token_of(*headers) == Some(token@),
            None => token_of(*headers) is None,
        },
{
    token_from_values(header_text(headers, "authorization"), header_text(headers, "cookie"))
}

/// Who a request comes from, where its token is accepted now. A request whose
/// token names nobody comes from nobody; one whose token names somebody comes
/// from that user unless the token has expired.
pub fn identity_from_headers(headers: &HeaderMap, configured_secret: Option<&str>) -> (r: Option<
    AuthIdentity,
>)
    ensures
        crate::token::recognised(
            identity_in(
                *headers,
                crate::token::signing_secret(crate::text::optional_text(configured_secret)),
            ),
            r,
        ),
{
    match token_from_headers(headers) {
        Some(token) => identity_from_token(token.as_str(), configured_secret),
        None => None,
    }
}

/// The user that a request comes from, where its token is accepted now.
pub fn user_id_from_headers(headers: &HeaderMap, configured_secret: Option<&str>) -> (r: Option<
    i32,
>)
    ensures
        crate::token::recognised_user(
            identity_in(
                *headers,
                crate::token::signing_secret(crate::text::optional_text(configured_secret)),
            ),
            r,
        ),
{
    match identity_from_headers(headers, configured_secret) {
        Some(identity) => Some(identity.user_id),
        None => None,
    }
}

/// The cookie of a new session.
pub open spec fn session_cookie(token: Seq<char>) -> Seq<char> {
    AUTH_COOKIE_NAME@ + "="@ + token + AUTH_COOKIE_ATTRIBUTES@
}

/// The cookie that carries `token` in a new session.
pub fn auth_cookie(token: &str) -> (r: String)
    ensures
        r@ == session_cookie(token@),
{
    let mut cookie: String = AUTH_COOKIE_NAME.to_owned();
    cookie.append("=");
    cookie.append(token);
    cookie.append(AUTH_COOKIE_ATTRIBUTES);
    cookie
}

/// The cookie that ends a session: it holds no token and has expired.
pub fn expired_auth_cookie() -> (r: String)
    ensures
        r@ == AUTH_COOKIE_NAME@ + "="@ + EXPIRED_COOKIE_ATTRIBUTES@,
{
    let mut cookie: String = AUTH_COOKIE_NAME.to_owned();
    cookie.append("=");
    cookie.append(EXPIRED_COOKIE_ATTRIBUTES);
    cookie
}

/// Whether a user is an administrator.
pub fn is_admin_user(user_id: i32) -> (r: bool)
    ensures
        r == (user_id == 1 || user_id == 2),
{
    user_id == 1 || user_id == 2
}

// ---------------------------------------------------------------------------
// Environments and secrets.
// ---------------------------------------------------------------------------
/// An environment with the given name, whatever its case and the white space
/// around it.
pub open spec fn is_environment(environment: Option<Seq<char>>, name: Seq<char>) -> bool {
    environment matches Some(value) && crate::text::same_ignoring_ascii_case(
        crate::text::trimmed(value),
        name,
    )
}

/// The production environment.
pub open spec fn is_production(environment: Option<Seq<char>>) -> bool {
    is_environment(environment, "production"@)
}

/// A secret that is safe to deploy with: neither missing, blank nor the
/// default, whatever the white space around it.
pub open spec fn is_deployable_secret(secret: Option<Seq<char>>) -> bool {
    secret matches Some(value) && crate::text::trimmed(value).len() > 0 && crate::text::trimmed(
        value,
    ) != DEFAULT_JWT_SECRET@
}

/// An environment in which verification codes may be shown: development or
/// test where one is named, and a debug build where none is.
pub open spec fn shows_codes(environment: Option<Seq<char>>, debug_build: bool) -> bool {
    if environment is Some {
        is_environment(environment, "development"@) || is_environment(environment, "test"@)
    } else {
        debug_build
    }
}

/// Whether an environment is the production environment.
pub fn is_production_environment(environment: Option<&str>) -> (r: bool)
    ensures
        r == is_production(crate::text::optional_text(environment)),
{
    match environment {
        Some(value) => eq_ignore_ascii_case(trim(value), "production"),
        None => false,
    }
}

/// Demands a deployable secret in production and in release builds.
pub fn validate_production_secret(
    environment: Option<&str>,
    secret: Option<&str>,
    release_build: bool,
) -> (r: Result<(), &'static str>)
    ensures
        r is Ok <==> (is_production(crate::text::optional_text(environment)) || release_build
            ==> is_deployable_secret(crate::text::optional_text(secret))),
        r matches Err(reason) ==> reason@ == SECRET_REQUIRED@,
{
    if !is_production_environment(environment) && !release_build {
        return Ok(());
    }
    match secret {
        Some(value) => {
            let kept: &str = trim(value);
            if kept.is_empty() || same_text(kept, DEFAULT_JWT_SECRET) {
                Err(SECRET_REQUIRED)
            } else {
                Ok(())
            }
        },
        None => Err(SECRET_REQUIRED),
    }
}

/// Whether verification codes may be shown in an environment.
pub fn development_code_is_allowed(environment: Option<&str>, debug_build: bool) -> (r: bool)
    ensures
        r == shows_codes(crate::text::optional_text(environment), debug_build),
{
    match environment {
        Some(value) => {
            let name: &str = trim(value);
            eq_ignore_ascii_case(name, "development") || eq_ignore_ascii_case(name, "test")
        },
        None => debug_build,
    }
}

// ---------------------------------------------------------------------------
// Laws.
// ---------------------------------------------------------------------------
/// A token in an `authorization` header is used whatever the cookies say.
pub proof fn law_bearer_takes_precedence(authorization: Seq<char>, cookie: Option<Seq<char>>)
    requires
        bearer_token(authorization) is Some,
    ensures
        request_token(Some(authorization), cookie) == bearer_token(authorization),
{
}

proof fn lemma_token_is_trimmed(token: Seq<char>)
    requires
        crate::token::is_token_text(token),
    ensures
        crate::text::trimmed(token) == token,
        !token.contains(';'),
        !crate::text::is_white_space(token.last()),
{
    assert(crate::crypto::is_base64url_char(token[0]) || token[0] == '.');
    assert(crate::text::trimmed_start(token) == token);
    assert(token.last() == token[token.len() - 1]);
    assert(crate::crypto::is_base64url_char(token[token.len() - 1]) || token[token.len() - 1]
        == '.');
}

/// A text that an `authorization` header can carry as a token: not empty, and
/// with no white space around it.
pub open spec fn is_bearer_value(token: Seq<char>) -> bool {
    token.len() > 0 && crate::text::trimmed(token) == token
}

/// A text that a cookie can carry as a token: not empty, without the mark
/// between cookies, and with no white space at its end.
pub open spec fn is_cookie_value(token: Seq<char>) -> bool {
    token.len() > 0 && !token.contains(';') && !crate::text::is_white_space(token.last())
}

/// Every token that the server issues can be carried either way.
pub proof fn law_issued_tokens_can_be_carried(token: Seq<char>)
    requires
        crate::token::is_token_text(token),
    ensures
        is_bearer_value(token),
        is_cookie_value(token),
{
    lemma_token_is_trimmed(token);
}

/// A token comes back whole from an `authorization` header that carries it.
pub proof fn law_bearer_header_carries_the_token(token: Seq<char>)
    requires
        is_bearer_value(token),
    ensures
        bearer_token(BEARER_PREFIX@ + token) == Some(token),
{
    let header = BEARER_PREFIX@ + token;
    assert(header.subrange(0, BEARER_PREFIX@.len() as int) =~= BEARER_PREFIX@);
    assert(header.skip(BEARER_PREFIX@.len() as int) =~= token);
}

proof fn lemma_cookie_is_trimmed(token: Seq<char>)
    requires
        is_cookie_value(token),
    ensures
        crate::text::trimmed(AUTH_COOKIE_PREFIX@ + token) == AUTH_COOKIE_PREFIX@ + token,
        crate::text::trimmed(seq![' '] + AUTH_COOKIE_PREFIX@ + token) == AUTH_COOKIE_PREFIX@
            + token,
        !(AUTH_COOKIE_PREFIX@ + token).contains(';'),
        !(seq![' '] + AUTH_COOKIE_PREFIX@ + token).contains(';'),
{
    reveal_strlit("auth_token=");
    let cookie = AUTH_COOKIE_PREFIX@ + token;
    let spaced = seq![' '] + AUTH_COOKIE_PREFIX@ + token;
    assert(cookie[0] == 'a');
    assert(cookie.last() == token.last());
    assert(crate::text::trimmed_start(cookie) == cookie);
    assert(spaced.drop_first() =~= cookie);
    assert(crate::text::trimmed_start(spaced) == crate::text::trimmed_start(cookie));
    assert forall|i: int| 0 <= i < cookie.len() implies cookie[i] != ';' by {
        if i >= AUTH_COOKIE_PREFIX@.len() {
            assert(cookie[i] == token[i - AUTH_COOKIE_PREFIX@.len()]);
            assert(token.contains(token[i - AUTH_COOKIE_PREFIX@.len()]));
        }
    }
    assert forall|i: int| 0 <= i < spaced.len() implies spaced[i] != ';' by {
        if i > 0 {
            assert(spaced[i] == cookie[i - 1]);
        }
    }
}

proof fn lemma_first_cookie_skips(before: Seq<Seq<char>>, rest: Seq<Seq<char>>)
    requires
        forall|i: int| 0 <= i < before.len() ==> cookie_value(#[trigger] before[i]) is None,
    ensures
        first_cookie_value(before + rest) == first_cookie_value(rest),
    decreases before.len(),
{
    if before.len() == 0 {
        assert(before + rest =~= rest);
    } else {
        assert((before + rest)[0] == before[0]);
        assert((before + rest).drop_first() =~= before.drop_first() + rest);
        assert forall|i: int| 0 <= i < before.drop_first().len() implies cookie_value(
            #[trigger] before.drop_first()[i],
        ) is None by {
            assert(before.drop_first()[i] == before[i + 1]);
        }
        lemma_first_cookie_skips(before.drop_first(), rest);
    }
}

/// A token comes back whole from the cookie header of a browser that holds the
/// session cookie, alone or after other cookies, and whatever cookies follow.
pub proof fn law_cookie_header_carries_the_token(
    token: Seq<char>,
    before: Seq<char>,
    after: Seq<char>,
)
    requires
        is_cookie_value(token),
        cookie_token(before) is None,
    ensures
        cookie_token(AUTH_COOKIE_PREFIX@ + token) == Some(token),
        cookie_token(AUTH_COOKIE_PREFIX@ + token + seq![';'] + after) == Some(token),
        cookie_token(before + seq![';'] + (seq![' '] + AUTH_COOKIE_PREFIX@ + token)) == Some(token),
        cookie_token(
            before + seq![';'] + (seq![' '] + AUTH_COOKIE_PREFIX@ + token) + seq![';'] + after,
        ) == Some(token),
{
    lemma_cookie_is_trimmed(token);
    let cookie = AUTH_COOKIE_PREFIX@ + token;
    let spaced = seq![' '] + AUTH_COOKIE_PREFIX@ + token;
    assert(cookie.subrange(0, AUTH_COOKIE_PREFIX@.len() as int) =~= AUTH_COOKIE_PREFIX@);
    assert(cookie.skip(AUTH_COOKIE_PREFIX@.len() as int) =~= token);
    assert(cookie_value(cookie) == Some(token));
    assert(cookie_value(spaced) == Some(token));
    crate::text::lemma_split_without_separator(cookie, ';');
    crate::text::lemma_split_without_separator(spaced, ';');
    crate::text::lemma_split_join(cookie, after, ';');
    crate::text::lemma_split_join(before, spaced, ';');
    crate::text::lemma_split_join(before + seq![';'] + spaced, after, ';');
    let others = crate::text::split(before, ';');
    let following = crate::text::split(after, ';');
    lemma_no_cookie_value(others);
    assert((seq![cookie] + following)[0] == cookie);
    assert((seq![spaced] + following)[0] == spaced);
    lemma_first_cookie_skips(others, seq![spaced]);
    lemma_first_cookie_skips(others, seq![spaced] + following);
    assert(others + seq![spaced] + following =~= others + (seq![spaced] + following));
    assert(seq![cookie][0] == cookie);
    assert(seq![spaced][0] == spaced);
}

proof fn lemma_no_cookie_value(cookies: Seq<Seq<char>>)
    requires
        first_cookie_value(cookies) is None,
    ensures
        forall|i: int| 0 <= i < cookies.len() ==> cookie_value(#[trigger] cookies[i]) is None,
    decreases cookies.len(),
{
    if cookies.len() > 0 {
        lemma_no_cookie_value(cookies.drop_first());
        assert forall|i: int| 0 <= i < cookies.len() implies cookie_value(
            #[trigger] cookies[i],
        ) is None by {
            if i > 0 {
                assert(cookies[i] == cookies.drop_first()[i - 1]);
            }
        }
    }
}

/// The cookie of an ended session carries no token, whatever other cookies
/// stand around it.
pub proof fn law_ended_session_carries_no_token(before: Seq<char>, after: Seq<char>)
    requires
        cookie_token(before) is None,
        cookie_token(after) is None,
    ensures
        cookie_token(
            before + seq![';'] + (seq![' '] + AUTH_COOKIE_PREFIX@) + seq![';'] + after,
        ) is None,
{
    reveal_strlit("auth_token=");
    let empty = AUTH_COOKIE_PREFIX@;
    let cookie = seq![' '] + empty;
    assert(!cookie.contains(';'));
    crate::text::lemma_split_without_separator(cookie, ';');
    crate::text::lemma_split_join(before, cookie, ';');
    crate::text::lemma_split_join(before + seq![';'] + cookie, after, ';');
    assert(cookie_value(cookie) is None) by {
        assert(cookie.drop_first() =~= empty);
        assert(empty[0] == 'a');
        assert(empty.last() == '=');
        assert(crate::text::trimmed_start(cookie) == crate::text::trimmed_start(empty));
        assert(crate::text::trimmed_start(empty) == empty);
        assert(crate::text::trimmed_end(empty) == empty);
        assert(empty.skip(empty.len() as int).len() == 0);
    }
    let others = crate::text::split(before, ';').push(cookie);
    let following = crate::text::split(after, ';');
    lemma_no_cookie_value(crate::text::split(before, ';'));
    assert(crate::text::split(before, ';') + seq![cookie] + following =~= others + following);
    lemma_first_cookie_skips(others, following);
}

/// The cookie of a new session holds the token under the name that is read.
pub proof fn law_session_cookie_holds_the_token(token: Seq<char>)
    ensures
        session_cookie(token) == AUTH_COOKIE_PREFIX@ + token + AUTH_COOKIE_ATTRIBUTES@,
{
    reveal_strlit("auth_token");
    reveal_strlit("=");
    reveal_strlit("auth_token=");
    assert(AUTH_COOKIE_NAME@ + "="@ =~= AUTH_COOKIE_PREFIX@);
}

/// A release build shows verification codes only where the environment names
/// development or test.
pub proof fn law_release_builds_hide_codes(environment: Option<Seq<char>>)
    ensures
        shows_codes(environment, false) ==> is_environment(environment, "development"@)
            || is_environment(environment, "test"@),
{
}

/// Production never shows verification codes.
pub proof fn law_production_hides_codes(environment: Seq<char>, debug_build: bool)
    requires
        is_production(Some(environment)),
    ensures
        !shows_codes(Some(environment), debug_build),
{
    reveal_strlit("production");
    reveal_strlit("development");
    reveal_strlit("test");
    let name = crate::text::trimmed(environment);
    assert(name.len() == "production"@.len());
}

} // verus!
