//! What holds of the messages and of their notation.
use crate::message::ClientMessage;
use crate::message::ServerMessage;
use vstd::prelude::*;

verus! {

/// Each message of the server is written as a JSON object with its type and,
/// where it has one, its user or its text.
pub proof fn law_messages_are_written_out(message: ServerMessage)
    ensures
        crate::message::server_json(message@) == (match message {
            ServerMessage::Pong => "{\"type\":\"pong\"}"@,
            ServerMessage::AuthOk { user_id } => "{\"type\":\"auth_ok\",\"user_id\":"@
                + crate::text::signed_decimal(user_id as int) + seq!['}'],
            ServerMessage::AuthError { reason } => "{\"type\":\"auth_error\",\"reason\":"@ + seq![
                '"',
            ] + crate::message::json_chars(reason@) + seq!['"', '}'],
            ServerMessage::UserOnline { user_id } => "{\"type\":\"user_online\",\"user_id\":"@
                + crate::text::signed_decimal(user_id as int) + seq!['}'],
            ServerMessage::UserOffline { user_id } => "{\"type\":\"user_offline\",\"user_id\":"@
                + crate::text::signed_decimal(user_id as int) + seq!['}'],
            ServerMessage::Subscribed { channel } => "{\"type\":\"subscribed\",\"channel\":"@ + seq![
                '"',
            ] + crate::message::json_chars(channel@) + seq!['"', '}'],
        }),
{
    reveal_strlit("}");
    assert("}"@ =~= seq!['}']);
    match message {
        ServerMessage::AuthError { reason } => {
            let front = "{\"type\":\"auth_error\",\"reason\":"@;
            assert(front + (seq!['"'] + crate::message::json_chars(reason@) + seq!['"']) + seq![
                '}',
            ] =~= front + seq!['"'] + crate::message::json_chars(reason@) + seq!['"', '}']);
        },
        ServerMessage::Subscribed { channel } => {
            let front = "{\"type\":\"subscribed\",\"channel\":"@;
            assert(front + (seq!['"'] + crate::message::json_chars(channel@) + seq!['"']) + seq![
                '}',
            ] =~= front + seq!['"'] + crate::message::json_chars(channel@) + seq!['"', '}']);
        },
        _ => {},
    }
}

/// Inside a JSON string a quote and a backslash follow a backslash, the
/// control characters are written as escapes, and every other character stands
/// for itself.
pub proof fn law_json_escapes(c: char)
    ensures
        crate::message::json_char(c) == (if c == '"' || c == '\\' {
            seq!['\\', c]
        } else if c == '\u{8}' {
            seq!['\\', 'b']
        } else if c == '\t' {
            seq!['\\', 't']
        } else if c == '\n' {
            seq!['\\', 'n']
        } else if c == '\u{c}' {
            seq!['\\', 'f']
        } else if c == '\r' {
            seq!['\\', 'r']
        } else if c as u32 <= 31 {
            seq![
                '\\',
                'u',
                '0',
                '0',
                "0123456789abcdef"@[(c as u32) as int / 16],
                "0123456789abcdef"@[(c as u32) as int % 16],
            ]
        } else {
            seq![c]
        }),
{
    law_hexadecimal_digits(((c as u32) / 16) as nat);
    law_hexadecimal_digits(((c as u32) % 16) as nat);
}

/// The sixteen hexadecimal digits in their order.
pub proof fn law_hexadecimal_digits(n: nat)
    ensures
        n < 16 ==> crate::message::hex_digit(n) == "0123456789abcdef"@[n as int],
{
    reveal_strlit("0123456789abcdef");
    if n < 16 {
        let digits = "0123456789abcdef"@;
        assert(digits[0] == '0' && digits[1] == '1' && digits[2] == '2' && digits[3] == '3');
        assert(digits[4] == '4' && digits[5] == '5' && digits[6] == '6' && digits[7] == '7');
        assert(digits[8] == '8' && digits[9] == '9' && digits[10] == 'a' && digits[11] == 'b');
        assert(digits[12] == 'c' && digits[13] == 'd' && digits[14] == 'e' && digits[15] == 'f');
    }
}

/// A text is escaped character by character, in order, between quotes.
pub proof fn law_json_strings_are_quoted(a: Seq<char>, b: Seq<char>, c: char)
    ensures
        crate::message::json_chars(Seq::empty()) == Seq::<char>::empty(),
        crate::message::json_chars(seq![c]) == crate::message::json_char(c),
        crate::message::json_chars(a + b) == crate::message::json_chars(a)
            + crate::message::json_chars(b),
        crate::message::json_string(a) == seq!['"'] + crate::message::json_chars(a) + seq!['"'],
    decreases b.len(),
{
    assert(seq![c].drop_last() =~= Seq::<char>::empty());
    assert(crate::message::json_chars(seq![c].drop_last()) =~= Seq::<char>::empty());
    assert(crate::message::json_chars(seq![c]) =~= crate::message::json_char(c));
    if b.len() == 0 {
        assert(a + b =~= a);
        assert(crate::message::json_chars(a + b) =~= crate::message::json_chars(a)
            + crate::message::json_chars(b));
    } else {
        law_json_strings_are_quoted(a, b.drop_last(), c);
        assert((a + b).drop_last() =~= a + b.drop_last());
        assert((a + b).last() == b.last());
        assert(crate::message::json_chars(a + b) =~= crate::message::json_chars(a)
            + crate::message::json_chars(b));
    }
}

/// An authentication is admitted only from a client that is not yet known, any
/// other message only from one that is; the client is told why it is refused.
pub proof fn law_messages_are_admitted_in_turn(message: Option<ClientMessage>)
    ensures
        message is None ==> crate::message::refusal(message, true) == Some("Invalid message"@),
        message is None ==> crate::message::refusal(message, false) == Some(
            "Authentication must be the first message"@,
        ),
        (message is Some && message->0 is Auth) ==> crate::message::refusal(message, true) == Some(
            "Already authenticated"@,
        ) && crate::message::refusal(message, false) is None,
        (message is Some && !(message->0 is Auth)) ==> crate::message::refusal(message, true)
            is None && crate::message::refusal(message, false) == Some(
            "Authentication must be the first message"@,
        ),
{
}

proof fn lemma_tagged_is_injective(front: Seq<char>, a: int, b: int)
    requires
        front + crate::text::signed_decimal(a) + seq!['}'] == front + crate::text::signed_decimal(b)
            + seq!['}'],
    ensures
        a == b,
{
    let text_a = crate::text::signed_decimal(a);
    let text_b = crate::text::signed_decimal(b);
    let whole_a = front + text_a + seq!['}'];
    let whole_b = front + text_b + seq!['}'];
    assert(whole_a.len() == front.len() + text_a.len() + 1);
    assert(whole_b.len() == front.len() + text_b.len() + 1);
    assert(whole_a.subrange(front.len() as int, whole_a.len() - 1) =~= text_a);
    assert(whole_b.subrange(front.len() as int, whole_b.len() - 1) =~= text_b);
    crate::text_laws::law_signed_notation(0, a, b);
}

/// The announcement that a user is online is the JSON object of that type with
/// the number of this user, and of no other.
pub proof fn law_online_names_the_user(user_id: i32, other: i32)
    ensures
        crate::ws::online_text(user_id) == "{\"type\":\"user_online\",\"user_id\":"@
            + crate::text::signed_decimal(user_id as int) + seq!['}'],
        crate::ws::online_text(user_id) == crate::ws::online_text(other) ==> user_id == other,
{
    law_messages_are_written_out(ServerMessage::UserOnline { user_id });
    law_messages_are_written_out(ServerMessage::UserOnline { user_id: other });
    if crate::ws::online_text(user_id) == crate::ws::online_text(other) {
        lemma_tagged_is_injective(
            "{\"type\":\"user_online\",\"user_id\":"@,
            user_id as int,
            other as int,
        );
    }
}

/// The announcement that a user is offline is the JSON object of that type with
/// the number of this user, and of no other.
pub proof fn law_offline_names_the_user(user_id: i32, other: i32)
    ensures
        crate::ws::offline_text(user_id) == "{\"type\":\"user_offline\",\"user_id\":"@
            + crate::text::signed_decimal(user_id as int) + seq!['}'],
        crate::ws::offline_text(user_id) == crate::ws::offline_text(other) ==> user_id == other,
{
    law_messages_are_written_out(ServerMessage::UserOffline { user_id });
    law_messages_are_written_out(ServerMessage::UserOffline { user_id: other });
    if crate::ws::offline_text(user_id) == crate::ws::offline_text(other) {
        lemma_tagged_is_injective(
            "{\"type\":\"user_offline\",\"user_id\":"@,
            user_id as int,
            other as int,
        );
    }
}

/// The confirmation to a connection is the JSON object of that type with the
/// number of its user, and of no other.
pub proof fn law_confirmations_name_the_user(user_id: i32, other: i32)
    ensures
        crate::ws::confirmation_text(user_id) == "{\"type\":\"auth_ok\",\"user_id\":"@
            + crate::text::signed_decimal(user_id as int) + seq!['}'],
        crate::ws::confirmation_text(user_id) == crate::ws::confirmation_text(other) ==> user_id
            == other,
{
    law_messages_are_written_out(ServerMessage::AuthOk { user_id });
    law_messages_are_written_out(ServerMessage::AuthOk { user_id: other });
    if crate::ws::confirmation_text(user_id) == crate::ws::confirmation_text(other) {
        lemma_tagged_is_injective(
            "{\"type\":\"auth_ok\",\"user_id\":"@,
            user_id as int,
            other as int,
        );
    }
}

} // verus!
