//! The messages that clients and the server exchange, and their JSON notation.
use crate::text::signed_decimal_text;
use vstd::prelude::*;
use vstd::string::StringExecFns;

verus! {

/// A message of a client.
#[derive(Debug)]
pub enum ClientMessage {
    Auth { token: String },
    Ping,
    Subscribe { channel: String },
    Unsubscribe { channel: String },
}

/// A message of the server.
#[derive(Debug)]
pub enum ServerMessage {
    Pong,
    AuthOk { user_id: i32 },
    AuthError { reason: String },
    UserOnline { user_id: i32 },
    UserOffline { user_id: i32 },
    Subscribed { channel: String },
}

/// What a message of the server says.
#[verifier::ext_equal]
pub enum ServerMessageView {
    Pong,
    AuthOk { user_id: i32 },
    AuthError { reason: Seq<char> },
    UserOnline { user_id: i32 },
    UserOffline { user_id: i32 },
    Subscribed { channel: Seq<char> },
}

impl View for ServerMessage {
    type V = ServerMessageView;

    open spec fn view(&self) -> ServerMessageView {
        match self {
            ServerMessage::Pong => ServerMessageView::Pong,
            ServerMessage::AuthOk { user_id } => ServerMessageView::AuthOk { user_id: *user_id },
            ServerMessage::AuthError { reason } => ServerMessageView::AuthError { reason: reason@ },
            ServerMessage::UserOnline { user_id } => ServerMessageView::UserOnline {
                user_id: *user_id,
            },
            ServerMessage::UserOffline { user_id } => ServerMessageView::UserOffline {
                user_id: *user_id,
            },
            ServerMessage::Subscribed { channel } => ServerMessageView::Subscribed {
                channel: channel@,
            },
        }
    }
}

/// A hexadecimal digit in lower case.
pub open spec fn hex_digit(n: nat) -> char {
    if n < 10 {
        (('0' as u32) + n) as char
    } else {
        (('a' as u32) + (n - 10)) as char
    }
}

/// A character inside a JSON string: quotes, backslashes and control
/// characters are escaped, all others stand for themselves.
pub open spec fn json_char(c: char) -> Seq<char> {
    let code = c as u32;
    if c == '"' {
        seq!['\\', '"']
    } else if c == '\\' {
        seq!['\\', '\\']
    } else if code == 8 {
        seq!['\\', 'b']
    } else if code == 9 {
        seq!['\\', 't']
    } else if code == 10 {
        seq!['\\', 'n']
    } else if code == 12 {
        seq!['\\', 'f']
    } else if code == 13 {
        seq!['\\', 'r']
    } else if code < 32 {
        seq!['\\', 'u', '0', '0', hex_digit((code / 16) as nat), hex_digit((code % 16) as nat)]
    } else {
        seq![c]
    }
}

/// The characters of a text inside a JSON string.
pub open spec fn json_chars(text: Seq<char>) -> Seq<char>
    decreases text.len(),
{
    if text.len() == 0 {
        Seq::empty()
    } else {
        json_chars(text.drop_last()) + json_char(text.last())
    }
}

/// The JSON string for a text.
pub open spec fn json_string(text: Seq<char>) -> Seq<char> {
    seq!['"'] + json_chars(text) + seq!['"']
}

/// Calls `serde_json::to_string` on a text, which cannot fail. The contract
/// claims that the outcome is the JSON string for the text, with the short
/// escapes where JSON has them and `\u00` escapes for the other control
/// characters.
#[verifier::external_body]
fn json_text(text: &str) -> (r: String)
    ensures
        r@ == json_string(text@),
{
    serde_json::to_string(text).unwrap_or_default()
}

/// A JSON object with a type and one more field.
pub open spec fn tagged(front: Seq<char>, value: Seq<char>) -> Seq<char> {
    front + value + "}"@
}

/// The JSON notation of a message of the server.
pub open spec fn server_json(message: ServerMessageView) -> Seq<char> {
    match message {
        ServerMessageView::Pong => "{\"type\":\"pong\"}"@,
        ServerMessageView::AuthOk { user_id } => tagged(
            "{\"type\":\"auth_ok\",\"user_id\":"@,
            crate::text::signed_decimal(user_id as int),
        ),
        ServerMessageView::AuthError { reason } => tagged(
            "{\"type\":\"auth_error\",\"reason\":"@,
            json_string(reason),
        ),
        ServerMessageView::UserOnline { user_id } => tagged(
            "{\"type\":\"user_online\",\"user_id\":"@,
            crate::text::signed_decimal(user_id as int),
        ),
        ServerMessageView::UserOffline { user_id } => tagged(
            "{\"type\":\"user_offline\",\"user_id\":"@,
            crate::text::signed_decimal(user_id as int),
        ),
        ServerMessageView::Subscribed { channel } => tagged(
            "{\"type\":\"subscribed\",\"channel\":"@,
            json_string(channel),
        ),
    }
}

fn tagged_text(front: &str, value: &str) -> (r: String)
    ensures
        r@ == tagged(front@, value@),
{
    let mut text: String = front.to_owned();
    text.append(value);
    text.append("}");
    text
}

impl ServerMessage {
    /// The JSON notation of the message.
    pub fn to_json(&self) -> (r: String)
        ensures
            r@ == server_json(self@),
    {
        match self {
            ServerMessage::Pong => "{\"type\":\"pong\"}".to_owned(),
            ServerMessage::AuthOk { user_id } => tagged_text(
                "{\"type\":\"auth_ok\",\"user_id\":",
                signed_decimal_text(*user_id).as_str(),
            ),
            ServerMessage::AuthError { reason } => tagged_text(
                "{\"type\":\"auth_error\",\"reason\":",
                json_text(reason.as_str()).as_str(),
            ),
            ServerMessage::UserOnline { user_id } => tagged_text(
                "{\"type\":\"user_online\",\"user_id\":",
                signed_decimal_text(*user_id).as_str(),
            ),
            ServerMessage::UserOffline { user_id } => tagged_text(
                "{\"type\":\"user_offline\",\"user_id\":",
                signed_decimal_text(*user_id).as_str(),
            ),
            ServerMessage::Subscribed { channel } => tagged_text(
                "{\"type\":\"subscribed\",\"channel\":",
                json_text(channel.as_str()).as_str(),
            ),
        }
    }
}

/// Why a first message other than an authentication is refused.
pub const AUTH_MUST_BE_FIRST: &'static str = "Authentication must be the first message";

/// Why a second authentication is refused.
pub const ALREADY_AUTHENTICATED: &'static str = "Already authenticated";

/// Why text that is no message is refused.
pub const INVALID_MESSAGE: &'static str = "Invalid message";

/// Why what a client sent is refused, where it is: an authentication must come
/// first and only once. `None` stands for text that is no message.
pub open spec fn refusal(message: Option<ClientMessage>, authenticated: bool) -> Option<Seq<char>> {
    match message {
        None => if authenticated {
            Some(INVALID_MESSAGE@)
        } else {
            Some(AUTH_MUST_BE_FIRST@)
        },
        Some(ClientMessage::Auth { .. }) => if authenticated {
            Some(ALREADY_AUTHENTICATED@)
        } else {
            None
        },
        Some(_) => if authenticated {
            None
        } else {
            Some(AUTH_MUST_BE_FIRST@)
        },
    }
}

/// Admits a message of a client in its turn. `None` stands for text that is no
/// message.
pub fn parse_application_message(message: Option<ClientMessage>, authenticated: bool) -> (r: Result<
    ClientMessage,
    &'static str,
>)
    ensures
        match r {
            Ok(admitted) => refusal(message, authenticated) is None && message == Some(admitted),
            Err(reason) => refusal(message, authenticated) == Some(reason@),
        },
{
    match message {
        None => if authenticated {
            Err(INVALID_MESSAGE)
        } else {
            Err(AUTH_MUST_BE_FIRST)
        },
        Some(ClientMessage::Auth { token }) => if authenticated {
            Err(ALREADY_AUTHENTICATED)
        } else {
            Ok(ClientMessage::Auth { token })
        },
        Some(other) => if authenticated {
            Ok(other)
        } else {
            Err(AUTH_MUST_BE_FIRST)
        },
    }
}

} // verus!
