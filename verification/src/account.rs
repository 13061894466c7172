//! Accounts: registration, login, the current user and the end of a session.
//!
//! Each request is a chain of steps. A step takes what the database or another
//! service answered and says what to do next, or with which status the request
//! is refused.
use crate::auth::auth_cookie;
use crate::auth::expired_auth_cookie;
use crate::auth::is_admin_user;
use crate::auth::user_id_from_headers;
use crate::password::hash_password;
use crate::password::password_needs_upgrade;
use crate::password::verify_password;
use crate::password::MAX_PASSWORD_BYTES;
use crate::status::Status;
use crate::text::to_lowercase;
use crate::text::trim;
use crate::token::generate_token;
use crate::token::TokenError;
use crate::ws::Departure;
use crate::ws::WsState;
use axum::http::HeaderMap;
use vstd::prelude::*;

verus! {

/// What is told of a user.
#[derive(Debug)]
pub struct User {
    pub id: i32,
    pub name: String,
    pub email: String,
    pub avatar_url: Option<String>,
    pub is_admin: bool,
}

/// What is stored of a user.
#[derive(Debug)]
pub struct UserRow {
    pub id: i32,
    pub name: String,
    pub email: String,
    pub avatar_url: Option<String>,
}

/// A request to register.
#[derive(Debug)]
pub struct CreateUserRequest {
    pub name: String,
    pub email: String,
    pub code: String,
    pub password: String,
}

/// A registration whose verification code is to be looked up.
#[derive(Debug)]
pub struct PendingUser {
    pub name: String,
    pub email: String,
    pub code: String,
    pub password: String,
}

/// A registration that is to be stored.
#[derive(Debug)]
pub struct NewUser {
    pub name: String,
    pub email: String,
    pub password_hash: String,
}

/// The answer to a registration.
#[derive(Debug)]
pub struct CreateUserResponse {
    pub name: String,
    pub email: String,
    pub id: i32,
}

/// A request to log in.
#[derive(Debug)]
pub struct LoginRequest {
    pub email: String,
    pub password: String,
}

/// A login whose password fits, with the hash that replaces a legacy password.
#[derive(Debug)]
pub struct Login {
    pub user: UserRow,
    pub upgraded_hash: Option<String>,
}

/// The answer to a login: the token, the cookie that carries it and the user.
#[derive(Debug)]
pub struct LoginResponse {
    pub token: String,
    pub cookie: String,
    pub user: User,
}

/// The answer to the end of a session, with the receipts for what was sent.
pub struct LogoutResponse {
    pub success: bool,
    pub cookie: String,
    pub departure: Option<Departure>,
}

/// The form in which addresses are stored and compared.
pub open spec fn normalized_email(email: Seq<char>) -> Seq<char> {
    crate::text::lowercased(crate::text::trimmed(email))
}

/// A password of acceptable length.
pub open spec fn is_acceptable_password(password: Seq<char>) -> bool {
    password.len() > 0 && vstd::utf8::encode_utf8(password).len() <= MAX_PASSWORD_BYTES
}

/// A user may be registered under these: a name and an address that are not
/// blank, and a password of acceptable length.
pub open spec fn is_acceptable_registration(request: CreateUserRequest) -> bool {
    &&& crate::text::trimmed(request.name@).len() > 0
    &&& crate::text::trimmed(request.email@).len() > 0
    &&& is_acceptable_password(request.password@)
}

/// The administrators.
pub open spec fn is_admin(user_id: i32) -> bool {
    user_id == 1 || user_id == 2
}

/// A user is told as stored, with the mark of an administrator.
pub open spec fn tells(user: User, row: UserRow) -> bool {
    &&& user.id == row.id
    &&& user.name@ == row.name@
    &&& user.email@ == row.email@
    &&& crate::text::optional_string(user.avatar_url) == crate::text::optional_string(
        row.avatar_url,
    )
    &&& user.is_admin == is_admin(row.id)
}

/// The form in which an address is stored and compared.
pub fn normalize_email(email: &str) -> (r: String)
    ensures
        r@ == normalized_email(email@),
        r@.len() == 0 <==> crate::text::trimmed(email@).len() == 0,
        crate::text::is_ascii_text(crate::text::trimmed(email@)) ==> r@
            == crate::text::ascii_lowered(crate::text::trimmed(email@)),
{
    to_lowercase(trim(email))
}

fn acceptable_password(password: &str) -> (r: bool)
    ensures
        r == is_acceptable_password(password@),
{
    !password.is_empty() && password.as_bytes().len() <= MAX_PASSWORD_BYTES
}

/// The user as told to clients.
pub fn tell_user(row: UserRow) -> (r: User)
    ensures
        tells(r, row),
{
    User {
        id: row.id,
        name: row.name,
        email: row.email,
        avatar_url: row.avatar_url,
        is_admin: is_admin_user(row.id),
    }
}

// ---------------------------------------------------------------------------
// Registration.
// ---------------------------------------------------------------------------
/// Starts a registration: its code is to be looked up among those that have
/// not expired.
pub fn begin_registration(request: CreateUserRequest) -> (r: Result<PendingUser, Status>)
    ensures
        match r {
            Ok(pending) => is_acceptable_registration(request) && pending.name@
                == crate::text::trimmed(request.name@) && pending.email@ == normalized_email(
                request.email@,
            ) && (crate::text::is_ascii_text(crate::text::trimmed(request.email@))
                ==> pending.email@ == crate::text::ascii_lowered(
                crate::text::trimmed(request.email@),
            )) && pending.code@ == crate::text::trimmed(request.code@) && pending.password@
                == request.password@,
            Err(status) => !is_acceptable_registration(request) && status == Status::BadRequest,
        },
{
    let email: String = normalize_email(request.email.as_str());
    let name: &str = trim(request.name.as_str());
    if name.is_empty() || email.as_str().is_empty() || !acceptable_password(
        request.password.as_str(),
    ) {
        return Err(Status::BadRequest);
    }
    Ok(
        PendingUser {
            name: name.to_owned(),
            email,
            code: trim(request.code.as_str()).to_owned(),
            password: request.password,
        },
    )
}

/// Goes on once the code was looked up; `code_exists` is the outcome, or
/// nothing where the lookup failed. The password is hashed.
pub fn continue_registration(pending: PendingUser, code_exists: Option<bool>) -> (r: Result<
    NewUser,
    Status,
>)
    ensures
        match r {
            Ok(user) => code_exists == Some(true) && user.name@ == pending.name@ && user.email@
                == pending.email@ && crate::password::is_hash_of(
                user.password_hash@,
                pending.password@,
            ) && crate::password::is_salted_hash_of(user.password_hash@, pending.password@)
                && crate::password::password_matches(pending.password@, user.password_hash@)
                && !crate::password::needs_upgrade(user.password_hash@),
            Err(status) => match code_exists {
                None => status == Status::InternalServerError,
                Some(exists) => !exists && status == Status::Unauthorized,
            },
        },
{
    match code_exists {
        None => Err(Status::InternalServerError),
        Some(false) => Err(Status::Unauthorized),
        Some(true) => Ok(
            NewUser {
                name: pending.name,
                email: pending.email,
                password_hash: hash_password(pending.password.as_str()),
            },
        ),
    }
}

/// Ends a registration once the user was stored under an id, or was not since
/// the address is taken, and the codes of the address were deleted or not.
pub fn finish_registration(user: NewUser, id: Option<i32>, codes_deleted: bool) -> (r: Result<
    CreateUserResponse,
    Status,
>)
    ensures
        match r {
            Ok(response) => id == Some(response.id) && codes_deleted && response.name@ == user.name@
                && response.email@ == user.email@,
            Err(status) => match id {
                None => status == Status::Conflict,
                Some(_) => !codes_deleted && status == Status::InternalServerError,
            },
        },
{
    match id {
        None => Err(Status::Conflict),
        Some(id) => if codes_deleted {
            Ok(CreateUserResponse { name: user.name, email: user.email, id })
        } else {
            Err(Status::InternalServerError)
        },
    }
}

// ---------------------------------------------------------------------------
// Login.
// ---------------------------------------------------------------------------
/// Starts a login: gives the address to look up.
pub fn begin_login(request: &LoginRequest) -> (r: Result<String, Status>)
    ensures
        match r {
            Ok(email) => is_acceptable_password(request.password@) && email@ == normalized_email(
                request.email@,
            ) && (crate::text::is_ascii_text(crate::text::trimmed(request.email@)) ==> email@
                == crate::text::ascii_lowered(crate::text::trimmed(request.email@))),
            Err(status) => !is_acceptable_password(request.password@) && status
                == Status::BadRequest,
        },
{
    if !acceptable_password(request.password.as_str()) {
        return Err(Status::BadRequest);
    }
    Ok(normalize_email(request.email.as_str()))
}

/// What a lookup of a user gave: nothing where it failed, else the stored
/// password and the user, where there is one.
pub type StoredLogin = Option<Option<(String, UserRow)>>;

/// Goes on once the user was looked up: the password has to fit, and a legacy
/// password is hashed.
pub fn continue_login(password: &str, stored: StoredLogin) -> (r: Result<Login, Status>)
    ensures
        match r {
            Ok(login) => stored matches Some(Some((stored_password, row)))
                && crate::password::password_matches(password@, stored_password@) && login.user
                == row && (match login.upgraded_hash {
                Some(hash) => crate::password::needs_upgrade(stored_password@)
                    && crate::password::is_hash_of(hash@, password@)
                    && crate::password::is_salted_hash_of(hash@, password@)
                    && crate::password::password_matches(password@, hash@)
                    && !crate::password::needs_upgrade(hash@),
                None => !crate::password::needs_upgrade(stored_password@),
            }),
            Err(status) => match stored {
                None => status == Status::InternalServerError,
                Some(None) => status == Status::Unauthorized,
                Some(Some((stored_password, _))) => !crate::password::password_matches(
                    password@,
                    stored_password@,
                ) && status == Status::Unauthorized,
            },
        },
{
    match stored {
        None => Err(Status::InternalServerError),
        Some(None) => Err(Status::Unauthorized),
        Some(Some((stored_password, row))) => {
            if !verify_password(password, stored_password.as_str()) {
                return Err(Status::Unauthorized);
            }
            let upgraded_hash: Option<String> = if password_needs_upgrade(
                stored_password.as_str(),
            ) {
                Some(hash_password(password))
            } else {
                None
            };
            Ok(Login { user: row, upgraded_hash })
        },
    }
}

/// An upgrade was asked for and could not be stored.
pub open spec fn upgrade_lost(login: Login, upgrade_stored: bool) -> bool {
    login.upgraded_hash is Some && !upgrade_stored
}

/// What came of issuing a token with a given expiry for a user: a token that
/// names the user, or none where it cannot be made.
pub open spec fn issued(
    row: UserRow,
    secret: Seq<char>,
    token: Option<Seq<char>>,
    expires_at: usize,
) -> bool {
    &&& crate::token::jwt_encoded(row.id, row.email@, expires_at, secret) == token
    &&& token matches Some(text) ==> crate::token::token_identity(text, secret) == Some(
        (crate::token::AuthIdentity { user_id: row.id, expires_at }),
    )
}

/// The answer to a login, given the token that was issued for it.
pub fn login_response(row: UserRow, issued: Result<String, TokenError>) -> (r: Result<
    LoginResponse,
    Status,
>)
    ensures
        match r {
            Ok(response) => (issued matches Ok(token) && response.token@ == token@)
                && response.cookie@ == crate::auth::session_cookie(response.token@) && tells(
                response.user,
                row,
            ),
            Err(status) => issued is Err && status == Status::InternalServerError,
        },
{
    match issued {
        Ok(token) => {
            let cookie: String = auth_cookie(token.as_str());
            Ok(LoginResponse { token, cookie, user: tell_user(row) })
        },
        Err(_) => Err(Status::InternalServerError),
    }
}

/// Ends a login once the upgraded hash was stored, where there is one: a token
/// is issued.
pub fn finish_login(login: Login, upgrade_stored: bool, configured_secret: Option<&str>) -> (r:
    Result<LoginResponse, Status>)
    ensures
        match r {
            Ok(response) => !upgrade_lost(login, upgrade_stored) && response.cookie@
                == crate::auth::session_cookie(response.token@) && tells(response.user, login.user)
                && crate::token::is_token_text(response.token@) && exists|
                reading: crate::clock::Reading,
            |
                issued(
                    login.user,
                    crate::token::signing_secret(crate::text::optional_text(configured_secret)),
                    Some(response.token@),
                    #[trigger] crate::token::expiry(reading.seconds() as int),
                ) && crate::token::is_reading(reading.seconds()),
            Err(status) => status == Status::InternalServerError && (upgrade_lost(
                login,
                upgrade_stored,
            ) || exists|reading: crate::clock::Reading|
                issued(
                    login.user,
                    crate::token::signing_secret(crate::text::optional_text(configured_secret)),
                    None,
                    #[trigger] crate::token::expiry(reading.seconds() as int),
                ) && crate::token::is_reading(reading.seconds())),
        },
{
    if login.upgraded_hash.is_some() && !upgrade_stored {
        return Err(Status::InternalServerError);
    }
    let issued: Result<String, TokenError> = generate_token(
        login.user.id,
        login.user.email.as_str(),
        configured_secret,
    );
    login_response(login.user, issued)
}

// ---------------------------------------------------------------------------
// The current user and the end of a session.
// ---------------------------------------------------------------------------
/// The user that a request comes from, or the refusal of a request that comes
/// from nobody.
pub fn require_user(headers: &HeaderMap, configured_secret: Option<&str>) -> (r: Result<
    i32,
    Status,
>)
    ensures
        crate::token::recognised_user(
            crate::auth::identity_in(
                *headers,
                crate::token::signing_secret(crate::text::optional_text(configured_secret)),
            ),
            match r {
                Ok(user_id) => Some(user_id),
                Err(_) => None,
            },
        ),
        r matches Err(status) ==> status == Status::Unauthorized,
{
    match user_id_from_headers(headers, configured_secret) {
        Some(user_id) => Ok(user_id),
        None => Err(Status::Unauthorized),
    }
}

/// The current user once looked up; nothing where the lookup failed.
pub fn current_user(stored: Option<Option<UserRow>>) -> (r: Result<User, Status>)
    ensures
        match r {
            Ok(user) => stored matches Some(Some(row)) && tells(user, row),
            Err(status) => match stored {
                None => status == Status::InternalServerError,
                Some(found) => found is None && status == Status::Unauthorized,
            },
        },
{
    match stored {
        None => Err(Status::InternalServerError),
        Some(None) => Err(Status::Unauthorized),
        Some(Some(row)) => Ok(tell_user(row)),
    }
}

/// What the end of a session does to the connections: those of the user are
/// all closed and the others are told; without a user nothing happens.
pub open spec fn signed_out(
    before: WsState,
    after: WsState,
    user_id: Option<i32>,
    departure: Option<Departure>,
) -> bool {
    match (user_id, departure) {
        (Some(user_id), Some(departure)) => {
            &&& before.connections().contains_key(user_id)
            &&& after.history() == before.history() + crate::ws::signal_offers(departure.signals@)
                + crate::ws::all_offers(departure.announcement@)
            &&& crate::ws::all_signalled(departure.signals@, before.connections()[user_id])
            &&& crate::ws::broadcast_done(
                before.connections().remove(user_id),
                after.connections(),
                departure.announcement@,
                crate::ws::offline_text(user_id),
            )
        },
        (Some(user_id), None) => {
            &&& !before.connections().contains_key(user_id)
            &&& after.connections() == before.connections()
            &&& after.history() == before.history()
        },
        (None, departure) => {
            &&& departure is None
            &&& after.connections() == before.connections()
            &&& after.history() == before.history()
        },
    }
}

/// Ends the session of a user, where the request comes from one: all
/// connections of the user are closed, and the cookie is taken back.
pub fn logout_user(ws_state: &mut WsState, user_id: Option<i32>) -> (r: LogoutResponse)
    ensures
        r.success,
        r.cookie@ == crate::auth::AUTH_COOKIE_NAME@ + "="@ + crate::auth::EXPIRED_COOKIE_ATTRIBUTES@,
        signed_out(*old(ws_state), *final(ws_state), user_id, r.departure),
{
    let departure: Option<Departure> = match user_id {
        Some(user_id) => ws_state.disconnect_user(user_id),
        None => None,
    };
    LogoutResponse { success: true, cookie: expired_auth_cookie(), departure }
}

/// Ends the session that a request comes from.
pub fn logout(ws_state: &mut WsState, headers: &HeaderMap, configured_secret: Option<&str>) -> (r:
    LogoutResponse)
    ensures
        r.success,
        r.cookie@ == crate::auth::AUTH_COOKIE_NAME@ + "="@ + crate::auth::EXPIRED_COOKIE_ATTRIBUTES@,
        exists|user_id: Option<i32>|
            crate::token::recognised_user(
                crate::auth::identity_in(
                    *headers,
                    crate::token::signing_secret(crate::text::optional_text(configured_secret)),
                ),
                user_id,
            ) && #[trigger] signed_out(*old(ws_state), *final(ws_state), user_id, r.departure),
{
    let user_id: Option<i32> = user_id_from_headers(headers, configured_secret);
    logout_user(ws_state, user_id)
}

// ---------------------------------------------------------------------------
// Laws.
// ---------------------------------------------------------------------------
/// Who has logged in is named by every later request under the same secret
/// that carries the token, in its `authorization` header or in the cookie that
/// came with the token, alone or among others.
pub proof fn law_logins_name_their_user(
    row: UserRow,
    secret: Seq<char>,
    token: Seq<char>,
    expires_at: usize,
    cookie: Option<Seq<char>>,
    before: Seq<char>,
    after: Seq<char>,
)
    requires
        issued(row, secret, Some(token), expires_at),
        crate::token::is_token_text(token),
        crate::auth::cookie_token(before) is None,
    ensures
        crate::token::token_identity(token, secret) == Some(
            (crate::token::AuthIdentity { user_id: row.id, expires_at }),
        ),
        crate::auth::request_token(Some(crate::auth::BEARER_PREFIX@ + token), cookie) == Some(
            token,
        ),
        crate::auth::request_token(None, Some(crate::auth::AUTH_COOKIE_PREFIX@ + token)) == Some(
            token,
        ),
        crate::auth::request_token(
            None,
            Some(
                before + seq![';'] + (seq![' '] + crate::auth::AUTH_COOKIE_PREFIX@ + token)
                    + seq![';'] + after,
            ),
        ) == Some(token),
{
    crate::auth::law_issued_tokens_can_be_carried(token);
    crate::auth::law_bearer_header_carries_the_token(token);
    crate::auth::law_bearer_takes_precedence(crate::auth::BEARER_PREFIX@ + token, cookie);
    crate::auth::law_cookie_header_carries_the_token(token, before, after);
}

} // verus!
