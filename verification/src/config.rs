//! The configuration of the service, checked before it starts.
use crate::address::parse_socket_address;
use crate::address::SocketAddress;
use crate::auth::is_production_environment;
use crate::auth::validate_production_secret;
use crate::text::text_or;
use crate::text::trim;
use vstd::prelude::*;
use vstd::string::StringExecFns;

verus! {

/// Where the service listens unless configured otherwise.
pub const DEFAULT_BIND_ADDRESS: &'static str = "127.0.0.1:7878";

/// The database that is used unless configured otherwise.
pub const DEFAULT_DATABASE_URL: &'static str = "postgres://postgres:@localhost:5432/users";

/// The configuration of the service.
#[derive(Debug, Clone, Copy)]
pub struct AppConfig {
    pub bind_address: SocketAddress,
    pub is_production: bool,
}

/// Why a configuration is not accepted.
#[derive(Debug)]
pub struct ConfigError {
    message: String,
}

/// The notation of a text as a quoted literal with escapes.
pub uninterp spec fn quoted_text(text: Seq<char>) -> Seq<char>;

/// Calls the `Debug` formatting of `str`. The contract claims that the notation
/// depends on the text alone.
#[verifier::external_body]
fn quoted(text: &str) -> (r: String)
    ensures
        r@ == quoted_text(text@),
{
    format!("{:?}", text)
}

/// The message for a bind address that is no socket address.
pub open spec fn bad_address_message(bind_address: Seq<char>) -> Seq<char> {
    "invalid BIND_ADDR "@ + quoted_text(bind_address) + ": invalid socket address syntax"@
}

impl ConfigError {
    /// The message of the error.
    pub closed spec fn text(&self) -> Seq<char> {
        self.message@
    }

    /// An error with the given message.
    pub fn new(message: String) -> (r: ConfigError)
        ensures
            r.text() == message@,
    {
        ConfigError { message }
    }

    /// The message of the error.
    pub fn message(&self) -> (r: &str)
        ensures
            r@ == self.text(),
    {
        self.message.as_str()
    }
}

/// The database to use; `configured` is the value of `DATABASE_URL`, where it
/// is set.
pub fn database_url(configured: Option<&str>) -> (r: String)
    ensures
        r@ == match configured {
            Some(url) => url@,
            None => DEFAULT_DATABASE_URL@,
        },
{
    text_or(configured, DEFAULT_DATABASE_URL).to_owned()
}

/// The secret may be used in the environment and the build.
pub open spec fn secret_accepted(
    environment: Option<Seq<char>>,
    jwt_secret: Option<Seq<char>>,
    release_build: bool,
) -> bool {
    crate::auth::is_production(environment) || release_build ==> crate::auth::is_deployable_secret(
        jwt_secret,
    )
}

impl AppConfig {
    /// Checks the settings `NODE_ENV`, `JWT_SECRET` and `BIND_ADDR`.
    pub fn from_values(
        environment: Option<&str>,
        jwt_secret: Option<&str>,
        bind_address: &str,
        release_build: bool,
    ) -> (r: Result<AppConfig, ConfigError>)
        ensures
            match r {
                Ok(config) => secret_accepted(
                    crate::text::optional_text(environment),
                    crate::text::optional_text(jwt_secret),
                    release_build,
                ) && crate::address::socket_address_of(crate::text::trimmed(bind_address@)) == Some(
                    config.bind_address,
                ) && config.is_production == (crate::auth::is_production(
                    crate::text::optional_text(environment),
                ) || release_build),
                Err(error) => if !secret_accepted(
                    crate::text::optional_text(environment),
                    crate::text::optional_text(jwt_secret),
                    release_build,
                ) {
                    error.text() == crate::auth::SECRET_REQUIRED@
                } else {
                    crate::address::socket_address_of(crate::text::trimmed(bind_address@)) is None
                        && error.text() == bad_address_message(bind_address@)
                },
            },
    {
        match validate_production_secret(environment, jwt_secret, release_build) {
            Ok(()) => {},
            Err(reason) => {
                return Err(ConfigError::new(reason.to_owned()));
            },
        }
        match parse_socket_address(trim(bind_address)) {
            Some(address) => Ok(
                AppConfig {
                    bind_address: address,
                    is_production: is_production_environment(environment) || release_build,
                },
            ),
            None => {
                let mut message: String = "invalid BIND_ADDR ".to_owned();
                message.append(quoted(bind_address).as_str());
                message.append(": invalid socket address syntax");
                Err(ConfigError::new(message))
            },
        }
    }

    /// Checks the settings as the environment holds them: a missing
    /// `BIND_ADDR` stands for the default address.
    pub fn from_env(
        environment: Option<&str>,
        jwt_secret: Option<&str>,
        bind_address: Option<&str>,
        release_build: bool,
    ) -> (r: Result<AppConfig, ConfigError>)
        ensures
            ({
                let address = match bind_address {
                    Some(value) => value@,
                    None => DEFAULT_BIND_ADDRESS@,
                };
                let accepted = secret_accepted(
                    crate::text::optional_text(environment),
                    crate::text::optional_text(jwt_secret),
                    release_build,
                );
                match r {
                    Ok(config) => accepted && crate::address::socket_address_of(
                        crate::text::trimmed(address),
                    ) == Some(config.bind_address) && config.is_production == (
                    crate::auth::is_production(crate::text::optional_text(environment))
                        || release_build),
                    Err(error) => if !accepted {
                        error.text() == crate::auth::SECRET_REQUIRED@
                    } else {
                        crate::address::socket_address_of(crate::text::trimmed(address)) is None
                            && error.text() == bad_address_message(address)
                    },
                }
            }),
    {
        match bind_address {
            Some(value) => AppConfig::from_values(environment, jwt_secret, value, release_build),
            None => AppConfig::from_values(
                environment,
                jwt_secret,
                DEFAULT_BIND_ADDRESS,
                release_build,
            ),
        }
    }
}

/// An error says the message that it was made with.
proof fn law_errors_say_their_message(error: ConfigError)
    ensures
        error.text() == error.message@,
{
}

} // verus!
