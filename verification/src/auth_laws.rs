//! What holds of the tokens in requests, of cookies, of environments and of
//! secrets.
use crate::token::AuthIdentity;
use axum::http::HeaderMap;
use vstd::prelude::*;

verus! {

// ---------------------------------------------------------------------------
// Tokens in requests.
// ---------------------------------------------------------------------------
/// An `authorization` header carries what follows the word `Bearer` and a
/// space, without the white space around it; any other header, and one with
/// nothing but white space there, carries no token.
pub proof fn law_bearer_headers_carry_a_token(
    left: Seq<char>,
    token: Seq<char>,
    right: Seq<char>,
    header: Seq<char>,
)
    requires
        crate::text_laws::is_blank(left),
        crate::text_laws::is_tight(token),
        crate::text_laws::is_blank(right),
    ensures
        token.len() > 0 ==> crate::auth::bearer_token("Bearer "@ + (left + token + right)) == Some(
            token,
        ),
        token.len() == 0 ==> crate::auth::bearer_token("Bearer "@ + (left + token + right)) is None,
        (forall|rest: Seq<char>| header != #[trigger] ("Bearer "@ + rest))
            ==> crate::auth::bearer_token(header) is None,
{
    crate::text_laws::law_trimming_keeps_the_core(left, token, right);
    crate::text_laws::law_prefixes_come_off("Bearer "@, left + token + right, header);
}

/// A cookie carries what follows its name and the equals sign, up to the white
/// space behind it; a cookie with another name, or without a value, carries no
/// token.
pub proof fn law_cookies_carry_a_token(
    left: Seq<char>,
    token: Seq<char>,
    right: Seq<char>,
    other: Seq<char>,
)
    requires
        crate::text_laws::is_blank(left),
        crate::text_laws::is_blank(right),
        token.len() > 0 ==> !crate::text::is_white_space(token[token.len() - 1]),
        crate::text_laws::is_tight(other),
        forall|rest: Seq<char>| other != #[trigger] ("auth_token="@ + rest),
    ensures
        token.len() > 0 ==> crate::auth::cookie_value(left + ("auth_token="@ + token) + right)
            == Some(token),
        token.len() == 0 ==> crate::auth::cookie_value(left + ("auth_token="@ + token) + right)
            is None,
        crate::auth::cookie_value(left + other + right) is None,
{
    reveal_strlit("auth_token=");
    let cookie = "auth_token="@ + token;
    assert(cookie[0] == 'a');
    if token.len() > 0 {
        assert(cookie[cookie.len() - 1] == token[token.len() - 1]);
    } else {
        assert(cookie =~= "auth_token="@);
    }
    crate::text_laws::law_trimming_keeps_the_core(left, cookie, right);
    crate::text_laws::law_prefixes_come_off("auth_token="@, token, other);
    crate::text_laws::law_trimming_keeps_the_core(left, other, right);
}

/// The cookies of a header stand between semicolons, and the first one that
/// carries a token counts.
pub proof fn law_the_first_cookie_counts(first: Seq<char>, rest: Seq<char>)
    requires
        !first.contains(';'),
    ensures
        crate::auth::cookie_token(first) == crate::auth::cookie_value(first),
        crate::auth::cookie_token(first + seq![';'] + rest) == (if crate::auth::cookie_value(first)
            is Some {
            crate::auth::cookie_value(first)
        } else {
            crate::auth::cookie_token(rest)
        }),
{
    crate::text::lemma_split_without_separator(first, ';');
    crate::text::lemma_split_join(first, rest, ';');
    let cookies = seq![first] + crate::text::split(rest, ';');
    assert(cookies[0] == first);
    assert(cookies.drop_first() =~= crate::text::split(rest, ';'));
    assert(seq![first].drop_first() =~= Seq::<Seq<char>>::empty());
    assert(crate::auth::first_cookie_value(seq![first].drop_first()) is None);
}

/// The `authorization` header of a request counts before its `cookie` header,
/// and a request with neither carries no token.
pub proof fn law_requests_carry_a_token(authorization: Seq<char>, cookie: Seq<char>)
    ensures
        crate::auth::request_token(Some(authorization), None) == crate::auth::bearer_token(
            authorization,
        ),
        crate::auth::request_token(None, Some(cookie)) == crate::auth::cookie_token(cookie),
        crate::auth::request_token(None, None) is None,
        crate::auth::bearer_token(authorization) is None ==> crate::auth::request_token(
            Some(authorization),
            Some(cookie),
        ) == crate::auth::cookie_token(cookie),
        crate::auth::bearer_token(authorization) is Some ==> crate::auth::request_token(
            Some(authorization),
            Some(cookie),
        ) == crate::auth::bearer_token(authorization),
{
}

/// The token of a request is that of its headers `authorization` and `cookie`,
/// and the request comes from whom that token names.
pub proof fn law_two_headers_are_read(headers: HeaderMap, secret: Seq<char>)
    ensures
        ({
            let texts = crate::headers::header_texts(headers);
            let authorization = if texts.contains_key("authorization"@) {
                Some(texts["authorization"@])
            } else {
                None
            };
            let cookie = if texts.contains_key("cookie"@) {
                Some(texts["cookie"@])
            } else {
                None
            };
            let token = crate::auth::request_token(authorization, cookie);
            &&& crate::auth::token_of(headers) == token
            &&& token is None ==> crate::auth::identity_in(headers, secret) is None
            &&& token is Some ==> crate::auth::identity_in(headers, secret)
                == crate::token::token_identity(token->0, secret)
        }),
{
}

/// The cookie of a new session lives for a day and that of an ended one is
/// empty and has expired; neither is open to scripts or to plain connections.
pub proof fn law_session_cookies_are_guarded(token: Seq<char>)
    ensures
        crate::auth::session_cookie(token) == "auth_token="@ + token
            + "; Path=/; HttpOnly; Secure; SameSite=Strict; Max-Age=86400"@,
        crate::auth::AUTH_COOKIE_NAME@ + "="@ + crate::auth::EXPIRED_COOKIE_ATTRIBUTES@
            == "auth_token="@
            + "; Path=/; HttpOnly; Secure; SameSite=Strict; Max-Age=0; Expires=Thu, 01 Jan 1970 00:00:00 GMT"@,
{
    reveal_strlit("auth_token");
    reveal_strlit("=");
    reveal_strlit("auth_token=");
    assert("auth_token"@ + "="@ =~= "auth_token="@);
}

/// The administrators are the users one and two.
pub proof fn law_two_users_administer(user_id: i32)
    ensures
        crate::account::is_admin(user_id) <==> (1 <= user_id <= 2),
{
}

// ---------------------------------------------------------------------------
// Headers.
// ---------------------------------------------------------------------------
/// The text of a header is the one under its name, where there is one.
pub proof fn law_headers_are_read_by_name(headers: HeaderMap, name: Seq<char>)
    ensures
        match crate::headers::header_text_of(headers, name) {
            Some(text) => crate::headers::header_texts(headers).contains_pair(name, text),
            None => !crate::headers::header_texts(headers).contains_key(name),
        },
{
}

/// Setting a header gives it the text under every spelling of its name, and
/// leaves every other header alone.
pub proof fn law_headers_are_set_by_name(
    headers: Map<Seq<char>, Seq<char>>,
    name: Seq<char>,
    text: Seq<char>,
    spelling: Seq<char>,
)
    ensures
        ({
            let after = crate::headers::with_header(headers, name, text);
            if crate::text::ascii_lowered(spelling) == crate::text::ascii_lowered(name) {
                after.contains_pair(spelling, text)
            } else {
                &&& after.contains_key(spelling) == headers.contains_key(spelling)
                &&& headers.contains_key(spelling) ==> after[spelling] == headers[spelling]
            }
        }),
{
    crate::text_laws::law_case_is_lost_by_lowering(spelling, name);
}

// ---------------------------------------------------------------------------
// Environments and secrets.
// ---------------------------------------------------------------------------
/// An environment is production where it says so, in any case and with any
/// white space around it, and not where it says anything else or nothing.
pub proof fn law_production_is_named(left: Seq<char>, name: Seq<char>, right: Seq<char>)
    requires
        crate::text_laws::is_blank(left),
        crate::text_laws::is_tight(name),
        crate::text_laws::is_blank(right),
    ensures
        crate::auth::is_production(Some(left + name + right)) <==> crate::text::ascii_lowered(name)
            == "production"@,
        !crate::auth::is_production(None),
{
    crate::text_laws::law_trimming_keeps_the_core(left, name, right);
    crate::text_laws::law_case_is_lost_by_lowering(name, "production"@);
    reveal_strlit("production");
    assert(crate::text::ascii_lowered("production"@) =~= "production"@);
}

/// Codes are shown where the environment says development or test, in any case
/// and with any white space around it, and nowhere else where it says
/// anything; where it says nothing, debug builds show them.
pub proof fn law_codes_are_shown_in_development(
    left: Seq<char>,
    name: Seq<char>,
    right: Seq<char>,
    debug_build: bool,
)
    requires
        crate::text_laws::is_blank(left),
        crate::text_laws::is_tight(name),
        crate::text_laws::is_blank(right),
    ensures
        crate::auth::shows_codes(Some(left + name + right), debug_build) <==> (
        crate::text::ascii_lowered(name) == "development"@ || crate::text::ascii_lowered(name)
            == "test"@),
        crate::auth::shows_codes(None, debug_build) == debug_build,
{
    crate::text_laws::law_trimming_keeps_the_core(left, name, right);
    crate::text_laws::law_case_is_lost_by_lowering(name, "development"@);
    crate::text_laws::law_case_is_lost_by_lowering(name, "test"@);
    reveal_strlit("development");
    reveal_strlit("test");
    assert(crate::text::ascii_lowered("development"@) =~= "development"@);
    assert(crate::text::ascii_lowered("test"@) =~= "test"@);
}

/// A secret may be deployed where something other than the local secret is left
/// of it once the white space around it is gone.
pub proof fn law_secrets_have_to_be_set(left: Seq<char>, secret: Seq<char>, right: Seq<char>)
    requires
        crate::text_laws::is_blank(left),
        crate::text_laws::is_tight(secret),
        crate::text_laws::is_blank(right),
    ensures
        crate::auth::is_deployable_secret(Some(left + secret + right)) <==> secret.len() > 0
            && secret != "devbit-local-secret"@,
        !crate::auth::is_deployable_secret(None),
{
    crate::text_laws::law_trimming_keeps_the_core(left, secret, right);
}

/// Production and release builds start only with a secret that may be deployed;
/// elsewhere any secret will do, or none.
pub proof fn law_deployments_need_a_secret(
    environment: Option<Seq<char>>,
    secret: Option<Seq<char>>,
)
    ensures
        crate::config::secret_accepted(environment, secret, true)
            <==> crate::auth::is_deployable_secret(secret),
        crate::auth::is_production(environment) ==> (crate::config::secret_accepted(
            environment,
            secret,
            false,
        ) <==> crate::auth::is_deployable_secret(secret)),
        !crate::auth::is_production(environment) ==> crate::config::secret_accepted(
            environment,
            secret,
            false,
        ),
{
}

/// A bind address that is none is reported as it was written; the other texts
/// of the configuration are fixed.
pub proof fn law_configuration_texts(bind_address: Seq<char>)
    ensures
        crate::config::bad_address_message(bind_address) == "invalid BIND_ADDR "@
            + crate::config::quoted_text(bind_address) + ": invalid socket address syntax"@,
        crate::auth::SECRET_REQUIRED@
            == "JWT_SECRET must be set to a non-default value in production and release builds"@,
        crate::config::DEFAULT_BIND_ADDRESS@ == "127.0.0.1:7878"@,
        crate::config::DEFAULT_DATABASE_URL@ == "postgres://postgres:@localhost:5432/users"@,
{
}

} // verus!
