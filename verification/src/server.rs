//! The routes of the server and what it adds to every response.
use crate::clock::Duration;
use crate::clock::Instant;
use crate::clock::NANOS_PER_SECOND;
use crate::headers::set_header;
use crate::rate_limit::RateLimiter;
use axum::http::HeaderMap;
use vstd::prelude::*;
use vstd::string::StringExecFns;

verus! {

/// How many requests a client may make to log in or register within the
/// window.
pub const STRICT_REQUESTS: usize = 5;

/// How many other requests a client may make within the window.
pub const GENERAL_REQUESTS: usize = 10;

/// How many seconds the window of a limit has.
pub const WINDOW_SECONDS: u64 = 60;

/// What stands before the path of a route under its second address.
pub const API_PREFIX: &'static str = "/api";

/// The nanoseconds of a millisecond.
pub const NANOS_PER_MILLI: u128 = 1_000_000;

/// What the server answers.
#[derive(Clone, Copy, Debug, PartialEq, Eq, Structural)]
pub enum Endpoint {
    SendCode,
    Register,
    Login,
    CurrentUser,
    UploadAvatar,
    Logout,
    ServeAvatar,
    Health,
    WebSocket,
}

/// The method of a route.
#[derive(Clone, Copy, Debug, PartialEq, Eq, Structural)]
pub enum Method {
    Get,
    Post,
}

/// How often a client may use a route.
#[derive(Clone, Copy, Debug, PartialEq, Eq, Structural)]
pub enum Limit {
    Strict,
    General,
    Unlimited,
}

/// How a request is logged.
#[derive(Clone, Copy, Debug, PartialEq, Eq, Structural)]
pub enum LogLevel {
    Error,
    Warn,
    Info,
}

/// The answer of the health check.
#[derive(Debug)]
pub struct HealthResponse {
    pub status: &'static str,
    pub db: &'static str,
    pub uptime_secs: u64,
}

// ---------------------------------------------------------------------------
// Routes.
// ---------------------------------------------------------------------------
/// The path of an endpoint under its first address.
pub open spec fn path_of(endpoint: Endpoint) -> Seq<char> {
    match endpoint {
        Endpoint::SendCode => "/register/send_code"@,
        Endpoint::Register => "/register"@,
        Endpoint::Login => "/login"@,
        Endpoint::CurrentUser => "/me"@,
        Endpoint::UploadAvatar => "/me/avatar"@,
        Endpoint::Logout => "/logout"@,
        Endpoint::ServeAvatar => "/avatars/{filename}"@,
        Endpoint::Health => "/health"@,
        Endpoint::WebSocket => "/ws"@,
    }
}

/// The limit of an endpoint.
pub open spec fn limit_of(endpoint: Endpoint) -> Limit {
    match endpoint {
        Endpoint::SendCode | Endpoint::Register | Endpoint::Login => Limit::Strict,
        Endpoint::CurrentUser
        | Endpoint::UploadAvatar
        | Endpoint::Logout
        | Endpoint::ServeAvatar => Limit::General,
        Endpoint::Health | Endpoint::WebSocket => Limit::Unlimited,
    }
}

/// The endpoints that change something are posted to.
pub open spec fn method_of(endpoint: Endpoint) -> Method {
    match endpoint {
        Endpoint::SendCode
        | Endpoint::Register
        | Endpoint::Login
        | Endpoint::UploadAvatar
        | Endpoint::Logout => Method::Post,
        _ => Method::Get,
    }
}

impl Endpoint {
    /// The path under the first address.
    pub fn path(self) -> (r: &'static str)
        ensures
            r@ == path_of(self),
    {
        match self {
            Endpoint::SendCode => "/register/send_code",
            Endpoint::Register => "/register",
            Endpoint::Login => "/login",
            Endpoint::CurrentUser => "/me",
            Endpoint::UploadAvatar => "/me/avatar",
            Endpoint::Logout => "/logout",
            Endpoint::ServeAvatar => "/avatars/{filename}",
            Endpoint::Health => "/health",
            Endpoint::WebSocket => "/ws",
        }
    }

    /// The path under the second address.
    pub fn api_path(self) -> (r: String)
        ensures
            r@ == API_PREFIX@ + path_of(self),
    {
        let mut path: String = API_PREFIX.to_owned();
        path.append(self.path());
        path
    }

    /// The method of the route.
    pub fn method(self) -> (r: Method)
        ensures
            r == method_of(self),
    {
        match self {
            Endpoint::SendCode
            | Endpoint::Register
            | Endpoint::Login
            | Endpoint::UploadAvatar
            | Endpoint::Logout => Method::Post,
            _ => Method::Get,
        }
    }
}

/// The endpoints with the strict limit.
pub fn auth_routes() -> (r: Vec<Endpoint>)
    ensures
        r@.no_duplicates(),
        forall|endpoint: Endpoint|
            #[trigger] r@.contains(endpoint) <==> limit_of(endpoint) == Limit::Strict,
{
    let mut routes: Vec<Endpoint> = Vec::new();
    routes.push(Endpoint::SendCode);
    routes.push(Endpoint::Register);
    routes.push(Endpoint::Login);
    assert(routes@ =~= seq![Endpoint::SendCode, Endpoint::Register, Endpoint::Login]);
    assert(routes@[0] == Endpoint::SendCode);
    assert(routes@[1] == Endpoint::Register);
    assert(routes@[2] == Endpoint::Login);
    routes
}

/// The endpoints with the general limit.
pub fn account_routes() -> (r: Vec<Endpoint>)
    ensures
        r@.no_duplicates(),
        forall|endpoint: Endpoint|
            #[trigger] r@.contains(endpoint) <==> limit_of(endpoint) == Limit::General,
{
    let mut routes: Vec<Endpoint> = Vec::new();
    routes.push(Endpoint::CurrentUser);
    routes.push(Endpoint::UploadAvatar);
    routes.push(Endpoint::Logout);
    routes.push(Endpoint::ServeAvatar);
    assert(routes@[0] == Endpoint::CurrentUser);
    assert(routes@[1] == Endpoint::UploadAvatar);
    assert(routes@[2] == Endpoint::Logout);
    assert(routes@[3] == Endpoint::ServeAvatar);
    routes
}

/// The endpoints without a limit.
pub fn infrastructure_routes() -> (r: Vec<Endpoint>)
    ensures
        r@.no_duplicates(),
        forall|endpoint: Endpoint|
            #[trigger] r@.contains(endpoint) <==> limit_of(endpoint) == Limit::Unlimited,
{
    let mut routes: Vec<Endpoint> = Vec::new();
    routes.push(Endpoint::Health);
    routes.push(Endpoint::WebSocket);
    assert(routes@[0] == Endpoint::Health);
    assert(routes@[1] == Endpoint::WebSocket);
    routes
}

/// A limiter that no client has used yet; none where there is no limit.
pub fn limiter_for(limit: Limit, now: Instant) -> (r: Option<RateLimiter>)
    ensures
        match (limit, r) {
            (Limit::Strict, Some(limiter)) => limiter.state()
                == crate::rate_limit::LimiterState::fresh(
                STRICT_REQUESTS as nat,
                (WINDOW_SECONDS * NANOS_PER_SECOND) as nat,
                now,
            ),
            (Limit::General, Some(limiter)) => limiter.state()
                == crate::rate_limit::LimiterState::fresh(
                GENERAL_REQUESTS as nat,
                (WINDOW_SECONDS * NANOS_PER_SECOND) as nat,
                now,
            ),
            (Limit::Unlimited, None) => true,
            _ => false,
        },
{
    let window: Duration = Duration::from_secs(WINDOW_SECONDS);
    match limit {
        Limit::Strict => Some(RateLimiter::new(STRICT_REQUESTS, window, now)),
        Limit::General => Some(RateLimiter::new(GENERAL_REQUESTS, window, now)),
        Limit::Unlimited => None,
    }
}

// ---------------------------------------------------------------------------
// Health and logging.
// ---------------------------------------------------------------------------
/// `n`, or the greatest number that `u64` can hold.
pub open spec fn saturated(n: nat) -> u64 {
    if n <= u64::MAX {
        n as u64
    } else {
        u64::MAX
    }
}

/// The health of a server that was started at `start`.
pub fn health(database_is_available: bool, start: Instant, now: Instant) -> (r: HealthResponse)
    ensures
        r.status@ == if database_is_available {
            "ok"@
        } else {
            "degraded"@
        },
        r.db@ == if database_is_available {
            "ok"@
        } else {
            "unreachable"@
        },
        r.uptime_secs == saturated(crate::clock::elapsed(now, start) / NANOS_PER_SECOND as nat),
{
    let seconds: u128 = now.saturating_duration_since(start).nanos / NANOS_PER_SECOND;
    let uptime_secs: u64 = if seconds <= u64::MAX as u128 {
        seconds as u64
    } else {
        u64::MAX
    };
    if database_is_available {
        HealthResponse { status: "ok", db: "ok", uptime_secs }
    } else {
        HealthResponse { status: "degraded", db: "unreachable", uptime_secs }
    }
}

/// How a request with a given status is logged: server errors as errors,
/// client errors as warnings, all else as information.
pub open spec fn level_of(status: u16) -> LogLevel {
    if status >= 500 {
        LogLevel::Error
    } else if status >= 400 {
        LogLevel::Warn
    } else {
        LogLevel::Info
    }
}

/// How a request with a given status is logged.
pub fn log_level(status: u16) -> (r: LogLevel)
    ensures
        r == level_of(status),
{
    if status >= 500 {
        LogLevel::Error
    } else if status >= 400 {
        LogLevel::Warn
    } else {
        LogLevel::Info
    }
}

/// The whole milliseconds of a span.
pub fn latency_ms(elapsed: Duration) -> (r: u64)
    ensures
        r == saturated(elapsed.nanos as nat / NANOS_PER_MILLI as nat),
{
    let millis: u128 = elapsed.nanos / NANOS_PER_MILLI;
    if millis <= u64::MAX as u128 {
        millis as u64
    } else {
        u64::MAX
    }
}

// ---------------------------------------------------------------------------
// Security headers.
// ---------------------------------------------------------------------------
/// The headers of a response with the security headers set.
pub open spec fn secured(headers: Map<Seq<char>, Seq<char>>) -> Map<Seq<char>, Seq<char>> {
    crate::headers::with_header(
        crate::headers::with_header(
            crate::headers::with_header(headers, "x-content-type-options"@, "nosniff"@),
            "x-frame-options"@,
            "DENY"@,
        ),
        "strict-transport-security"@,
        "max-age=63072000; includeSubDomains; preload"@,
    )
}

/// The headers of a response that had room for some of the security headers:
/// those that were set are the first ones.
pub open spec fn partly_secured(
    before: Map<Seq<char>, Seq<char>>,
    after: Map<Seq<char>, Seq<char>>,
) -> bool {
    let sniffless = crate::headers::with_header(before, "x-content-type-options"@, "nosniff"@);
    ||| after == before
    ||| after == sniffless
    ||| after == crate::headers::with_header(sniffless, "x-frame-options"@, "DENY"@)
}

/// Sets the security headers of a response; says whether there was room for
/// all of them.
pub fn add_security_headers(headers: &mut HeaderMap) -> (r: bool)
    ensures
        r ==> crate::headers::header_texts(*final(headers)) == secured(
            crate::headers::header_texts(*old(headers)),
        ),
        !r ==> partly_secured(
            crate::headers::header_texts(*old(headers)),
            crate::headers::header_texts(*final(headers)),
        ),
        crate::headers::header_names(*old(headers)) + 2 <= crate::headers::ROOMY_HEADERS ==> r,
{
    proof {
        reveal_strlit("x-content-type-options");
        reveal_strlit("nosniff");
        reveal_strlit("x-frame-options");
        reveal_strlit("DENY");
        reveal_strlit("strict-transport-security");
        reveal_strlit("max-age=63072000; includeSubDomains; preload");
    }
    set_header(headers, "x-content-type-options", "nosniff") && set_header(
        headers,
        "x-frame-options",
        "DENY",
    ) && set_header(
        headers,
        "strict-transport-security",
        "max-age=63072000; includeSubDomains; preload",
    )
}

// ---------------------------------------------------------------------------
// Laws.
// ---------------------------------------------------------------------------
/// No two endpoints share a path, under either address.
pub proof fn law_paths_are_distinct(a: Endpoint, b: Endpoint)
    ensures
        a != b ==> path_of(a) != path_of(b),
        a != b ==> API_PREFIX@ + path_of(a) != API_PREFIX@ + path_of(b),
        path_of(a) != API_PREFIX@ + path_of(b),
{
    reveal_strlit("/register/send_code");
    reveal_strlit("/register");
    reveal_strlit("/login");
    reveal_strlit("/me");
    reveal_strlit("/me/avatar");
    reveal_strlit("/logout");
    reveal_strlit("/avatars/{filename}");
    reveal_strlit("/health");
    reveal_strlit("/ws");
    reveal_strlit("/api");
    let first = path_of(a);
    let second = path_of(b);
    if first == second {
        assert(first.len() == second.len());
        assert(first[1] == second[1]);
        assert(first[2] == second[2]);
        assert(first.len() > 4 ==> first[4] == second[4]);
    }
    assert(a != b ==> first != second);
    if API_PREFIX@ + first == API_PREFIX@ + second {
        assert((API_PREFIX@ + first).skip(4) =~= first);
        assert((API_PREFIX@ + second).skip(4) =~= second);
    }
    assert((API_PREFIX@ + second)[2] == 'p');
    assert(first[1] == 'a' ==> first[2] == 'v');
    assert((API_PREFIX@ + second)[1] == 'a');
}

/// Every response carries the security headers, whatever it held before, and
/// its other headers stay as they were.
pub proof fn law_responses_are_secured(headers: Map<Seq<char>, Seq<char>>, other: Seq<char>)
    requires
        !crate::text::same_ignoring_ascii_case(other, "x-content-type-options"@),
        !crate::text::same_ignoring_ascii_case(other, "x-frame-options"@),
        !crate::text::same_ignoring_ascii_case(other, "strict-transport-security"@),
    ensures
        secured(headers).contains_pair("x-content-type-options"@, "nosniff"@),
        secured(headers).contains_pair("x-frame-options"@, "DENY"@),
        secured(headers).contains_pair(
            "strict-transport-security"@,
            "max-age=63072000; includeSubDomains; preload"@,
        ),
        secured(headers).contains_key(other) == headers.contains_key(other),
        headers.contains_key(other) ==> secured(headers)[other] == headers[other],
{
    reveal_strlit("x-content-type-options");
    reveal_strlit("x-frame-options");
    reveal_strlit("strict-transport-security");
    let names = ("x-content-type-options"@, "x-frame-options"@, "strict-transport-security"@);
    assert(names.0.len() != names.1.len());
    assert(names.0.len() != names.2.len());
    assert(names.1.len() != names.2.len());
}

/// A response that lacks room for all security headers still keeps every other
/// header as it was.
pub proof fn law_other_headers_stay(
    before: Map<Seq<char>, Seq<char>>,
    after: Map<Seq<char>, Seq<char>>,
    other: Seq<char>,
)
    requires
        partly_secured(before, after),
        !crate::text::same_ignoring_ascii_case(other, "x-content-type-options"@),
        !crate::text::same_ignoring_ascii_case(other, "x-frame-options"@),
    ensures
        after.contains_key(other) == before.contains_key(other),
        before.contains_key(other) ==> after[other] == before[other],
{
}

} // verus!
