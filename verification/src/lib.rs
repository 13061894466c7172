//! The rules of the DevBit backend: accounts, sessions, avatars and presence.
pub mod account;
pub mod account_laws;
pub mod address;
pub mod address_laws;
pub mod auth;
pub mod auth_laws;
pub mod avatar;
pub mod avatar_laws;
pub mod claims;
pub mod clock;
pub mod config;
pub mod crypto;
pub mod headers;
pub mod limiter_laws;
pub mod message;
pub mod message_laws;
pub mod outbound;
pub mod password;
pub mod password_laws;
pub mod presence;
pub mod presence_laws;
pub mod rate_limit;
pub mod rate_limit_laws;
pub mod receipt;
pub mod server;
pub mod session;
pub mod session_laws;
pub mod status;
pub mod text;
pub mod text_laws;
pub mod token;
pub mod token_laws;
pub mod verification;
pub mod ws;
pub mod ws_laws;
