//! What holds of accounts, verification codes, routes and statuses.
use crate::account::CreateUserRequest;
use crate::account::Login;
use crate::account::User;
use crate::account::UserRow;
use crate::server::Endpoint;
use crate::server::Limit;
use crate::server::LogLevel;
use crate::server::Method;
use crate::status::Status;
use crate::verification::Mail;
use crate::verification::PendingCode;
use crate::verification::SendCodeResponse;
use crate::ws::Departure;
use crate::ws::WsState;
use vstd::prelude::*;

verus! {

// ---------------------------------------------------------------------------
// Accounts.
// ---------------------------------------------------------------------------
/// An address is compared without the white space around it and in lower case:
/// the letters between the white space are all that counts.
pub proof fn law_addresses_are_compared_bare(left: Seq<char>, email: Seq<char>, right: Seq<char>)
    requires
        crate::text_laws::is_blank(left),
        crate::text_laws::is_tight(email),
        crate::text_laws::is_blank(right),
    ensures
        crate::account::normalized_email(left + email + right) == crate::text::lowercased(email),
        crate::account::normalized_email(left + email + right) == crate::account::normalized_email(
            email,
        ),
{
    let none = Seq::<char>::empty();
    crate::text_laws::law_trimming_keeps_the_core(left, email, right);
    crate::text_laws::law_trimming_keeps_the_core(none, email, none);
    assert(none + email + none =~= email);
}

/// A password has one to 1024 bytes in UTF-8.
pub proof fn law_passwords_have_up_to_a_kibibyte(password: Seq<char>)
    ensures
        crate::account::is_acceptable_password(password) <==> password.len() != 0
            && vstd::utf8::encode_utf8(password).len() <= 1024,
{
}

/// A registration needs a name and an address with something other than white
/// space in them, and a password of acceptable length.
pub proof fn law_registrations_need_all_of_it(request: CreateUserRequest)
    ensures
        crate::account::is_acceptable_registration(request) <==> !crate::text_laws::is_blank(
            request.name@,
        ) && !crate::text_laws::is_blank(request.email@) && request.password@.len() != 0
            && vstd::utf8::encode_utf8(request.password@).len() <= 1024,
{
    crate::text_laws::lemma_blank_trims_to_nothing(request.name@);
    crate::text_laws::lemma_blank_trims_to_nothing(request.email@);
}

/// Clients are told of a user what is stored, under the same names, and the
/// mark of an administrator for the users one and two.
pub proof fn law_users_are_told_as_stored(user: User, row: UserRow)
    requires
        crate::account::tells(user, row),
    ensures
        user.id == row.id,
        user.name@ == row.name@,
        user.email@ == row.email@,
        user.avatar_url is Some == row.avatar_url is Some,
        user.avatar_url is Some ==> user.avatar_url->0@ == row.avatar_url->0@,
        user.is_admin <==> (row.id == 1 || row.id == 2),
{
}

/// An upgrade is lost only where there was one and it was not stored.
pub proof fn law_upgrades_may_be_lost(login: Login, upgrade_stored: bool)
    ensures
        login.upgraded_hash is None ==> !crate::account::upgrade_lost(login, upgrade_stored),
        login.upgraded_hash is Some ==> crate::account::upgrade_lost(login, false)
            && !crate::account::upgrade_lost(login, true),
{
}

/// The token of a login is the one that is made of the user's number, address
/// and expiry under the secret, and it names that user until that expiry.
pub proof fn law_tokens_are_issued_for_the_user(
    row: UserRow,
    secret: Seq<char>,
    token: Option<Seq<char>>,
    expires_at: usize,
)
    requires
        crate::account::issued(row, secret, token, expires_at),
    ensures
        token == crate::token::jwt_encoded(row.id, row.email@, expires_at, secret),
        token is Some ==> crate::token::is_signed(token->0, secret) && crate::token::claims_of(
            token->0,
        ) is Some && crate::token::claims_of(token->0)->0.sub == row.id && crate::token::claims_of(
            token->0,
        )->0.exp == expires_at,
{
}

/// The end of a session without a user changes nothing; with a user who is not
/// connected neither; and a user who is connected is told to close at every
/// connection, before the others are told that the user is offline.
pub proof fn law_sessions_end_for_their_user(
    before: WsState,
    after: WsState,
    user_id: Option<i32>,
    departure: Option<Departure>,
    i: int,
)
    requires
        crate::account::signed_out(before, after, user_id, departure),
    ensures
        departure is Some <==> user_id is Some && before.connections().contains_key(user_id->0),
        departure is None ==> after.connections() == before.connections() && after.history()
            == before.history(),
        departure is Some ==> after.history().len() >= before.history().len()
            + before.connections()[user_id->0].len(),
        departure is Some && 0 <= i < before.connections()[user_id->0].len()
            ==> after.history()[before.history().len() + i] == crate::receipt::Offer::Signal(
            before.connections()[user_id->0][i].1,
            true,
        ),
        departure is Some && before.history().len() + before.connections()[user_id->0].len() <= i
            < after.history().len() ==> crate::ws_laws::is_text_offer(
            after.history()[i],
            "{\"type\":\"user_offline\",\"user_id\":"@ + crate::text::signed_decimal(
                user_id->0 as int,
            ) + seq!['}'],
        ),
{
    if departure is Some {
        let user = user_id->0;
        let left = departure->0;
        let start = before.history().len();
        crate::message_laws::law_offline_names_the_user(user, user);
        assert(crate::ws::signal_offers(left.signals@).len() == before.connections()[user].len());
        assert(after.history().len() >= start + before.connections()[user].len());
        let other: i32 = if user == 0 { 1 } else { 0 };
        if 0 <= i < before.connections()[user].len() {
            crate::ws_laws::law_disconnected_users_are_gone(
                before,
                after,
                user,
                left,
                other,
                start + i,
            );
        }
        if start + before.connections()[user].len() <= i < after.history().len() {
            crate::ws_laws::law_disconnected_users_are_gone(before, after, user, left, other, i);
        }
    }
}

// ---------------------------------------------------------------------------
// Verification codes.
// ---------------------------------------------------------------------------
/// The codes are the numbers of six digits.
pub proof fn law_codes_are_the_numbers_of_six_digits(number: u32)
    ensures
        crate::verification::SMALLEST_CODE <= number <= crate::verification::GREATEST_CODE
            <==> crate::text::decimal(number as nat).len() == 6,
        crate::verification::SMALLEST_CODE == 100_000,
        crate::verification::GREATEST_CODE == 999_999,
{
    lemma_decimal_lengths(number as nat);
}

proof fn lemma_decimal_lengths(n: nat)
    ensures
        crate::text::decimal(n).len() > 0,
        n < 10 <==> crate::text::decimal(n).len() == 1,
        10 <= n < 100 <==> crate::text::decimal(n).len() == 2,
        100 <= n < 1_000 <==> crate::text::decimal(n).len() == 3,
        1_000 <= n < 10_000 <==> crate::text::decimal(n).len() == 4,
        10_000 <= n < 100_000 <==> crate::text::decimal(n).len() == 5,
        100_000 <= n < 1_000_000 <==> crate::text::decimal(n).len() == 6,
    decreases n,
{
    if n >= 10 {
        lemma_decimal_lengths(n / 10);
    }
}

/// Mail is sent from the configured account as it is, unless none is configured
/// or it is blank.
pub proof fn law_the_configured_account_sends(username: Seq<char>)
    ensures
        crate::text_laws::is_blank(username) ==> crate::verification::sender_of(Some(username))
            is None,
        !crate::text_laws::is_blank(username) ==> crate::verification::sender_of(Some(username))
            == Some(username),
        crate::verification::sender_of(None) is None,
{
    crate::text_laws::lemma_blank_trims_to_nothing(username);
}

/// What is no mailbox is refused as a bad request; where the code can be neither
/// sent nor shown, the service is unavailable; all else is accepted.
pub proof fn law_codes_need_a_way_to_their_owner(
    mailbox: bool,
    username: Option<Seq<char>>,
    shown: bool,
)
    ensures
        match crate::verification::refusal_of(mailbox, username, shown) {
            Some(Status::BadRequest) => !mailbox,
            Some(Status::ServiceUnavailable) => mailbox && !shown && (username is None
                || crate::text_laws::is_blank(username->0)),
            Some(_) => false,
            None => mailbox && (shown || (username is Some && !crate::text_laws::is_blank(
                username->0,
            ))),
        },
{
    if username is Some {
        crate::text_laws::lemma_blank_trims_to_nothing(username->0);
    }
}

/// A pending code holds the digits of the number that was drawn, for the
/// address that asked, and remembers how it is to reach its owner.
pub proof fn law_pending_codes_hold_the_number(
    pending: PendingCode,
    email: Seq<char>,
    number: u32,
    username: Option<Seq<char>>,
    shown: bool,
)
    requires
        crate::verification::holds(pending, email, number, username, shown),
    ensures
        pending.email@ == email,
        crate::text::digits_value(pending.code@) == number,
        crate::text::decimal(number as nat) == pending.code@,
        pending.shown == shown,
        pending.sender is Some <==> username is Some && !crate::text_laws::is_blank(username->0),
        pending.sender is Some ==> pending.sender->0@ == username->0,
{
    crate::text::lemma_decimal_round_trip(number as nat);
    if username is Some {
        crate::text_laws::lemma_blank_trims_to_nothing(username->0);
    }
}

/// An answer says what became of the code and that it is valid for six hundred
/// seconds, and holds the code itself exactly where it may be shown.
pub proof fn law_answers_tell_of_the_code(
    response: SendCodeResponse,
    message: Seq<char>,
    pending: PendingCode,
)
    requires
        crate::verification::answers(response, message, pending),
    ensures
        response.message@ == message,
        response.expires_in_seconds == 600,
        response.development_code is Some <==> pending.shown,
        pending.shown ==> response.development_code->0@ == pending.code@,
        crate::verification::CODE_SHOWN@ == "Verification code generated for development."@,
        crate::verification::CODE_SENT@ == "Verification code sent. Please check your email."@,
{
}

/// The port of the mail server is the configured number, where it fits sixteen
/// bits, and 465 otherwise; the server is the configured one, where there is
/// one.
pub proof fn law_mail_servers_have_a_port(
    number: nat,
    text: Seq<char>,
    server: Seq<char>,
)
    ensures
        number <= 65_535 ==> crate::verification::port_of(Some(crate::text::decimal(number)))
            == number,
        number > 65_535 ==> crate::verification::port_of(Some(crate::text::decimal(number)))
            == 465,
        crate::text::decimal_number(text, 65_535) is None ==> crate::verification::port_of(
            Some(text),
        ) == 465,
        crate::text::decimal_number(text, 65_535) is Some ==> crate::verification::port_of(
            Some(text),
        ) == crate::text::decimal_number(text, 65_535)->0,
        crate::verification::port_of(None) == 465,
        crate::verification::server_of(Some(server)) == server,
        crate::verification::server_of(None) == "smtp.qq.com"@,
{
    crate::text_laws::law_numbers_are_read(text, number, 65_535);
}

/// A mail goes from the account of the code to its address, and says which code
/// it is and how long it is valid.
pub proof fn law_mails_bring_the_code(
    mail: Mail,
    pending: PendingCode,
    password: Seq<char>,
    server: Option<Seq<char>>,
    port: Option<Seq<char>>,
)
    requires
        crate::verification::brings(mail, pending, password, server, port),
    ensures
        pending.sender is Some,
        mail.sender@ == pending.sender->0@,
        mail.recipient@ == pending.email@,
        mail.sender_name@ == "devbit"@,
        mail.recipient_name@ == "client"@,
        mail.subject@ == "devbit verification code"@,
        mail.body@ == "[devbit] Verification code: "@ + pending.code@
            + ". It expires in 10 minutes."@,
        mail.server@ == crate::verification::server_of(server),
        mail.port == crate::verification::port_of(port),
        mail.password@ == password,
{
}

// ---------------------------------------------------------------------------
// Routes.
// ---------------------------------------------------------------------------
/// Where each endpoint is found, how it is asked, and how often.
pub proof fn law_endpoints_have_their_route(endpoint: Endpoint)
    ensures
        (
            crate::server::path_of(endpoint),
            crate::server::method_of(endpoint),
            crate::server::limit_of(endpoint),
        ) == (match endpoint {
            Endpoint::SendCode => ("/register/send_code"@, Method::Post, Limit::Strict),
            Endpoint::Register => ("/register"@, Method::Post, Limit::Strict),
            Endpoint::Login => ("/login"@, Method::Post, Limit::Strict),
            Endpoint::CurrentUser => ("/me"@, Method::Get, Limit::General),
            Endpoint::UploadAvatar => ("/me/avatar"@, Method::Post, Limit::General),
            Endpoint::Logout => ("/logout"@, Method::Post, Limit::General),
            Endpoint::ServeAvatar => ("/avatars/{filename}"@, Method::Get, Limit::General),
            Endpoint::Health => ("/health"@, Method::Get, Limit::Unlimited),
            Endpoint::WebSocket => ("/ws"@, Method::Get, Limit::Unlimited),
        }),
        crate::server::API_PREFIX@ == "/api"@,
{
}

/// A strict limit admits five requests of a client in a minute, the general one
/// ten.
pub proof fn law_limits_count_a_minute()
    ensures
        crate::server::STRICT_REQUESTS == 5,
        crate::server::GENERAL_REQUESTS == 10,
        crate::server::WINDOW_SECONDS * crate::clock::NANOS_PER_SECOND == 60_000_000_000,
        crate::clock::NANOS_PER_SECOND == 1_000_000_000,
        crate::server::NANOS_PER_MILLI == 1_000_000,
{
}

/// Server errors are logged as errors, client errors as warnings, and all else
/// as information.
pub proof fn law_statuses_are_logged_by_class(status: u16)
    ensures
        crate::server::level_of(status) == LogLevel::Error <==> status > 499,
        crate::server::level_of(status) == LogLevel::Warn <==> 399 < status < 500,
        crate::server::level_of(status) == LogLevel::Info <==> status < 400,
{
}

/// A refusal carries the number that HTTP gives its status.
pub proof fn law_statuses_have_their_number(status: Status)
    ensures
        status.number() == (match status {
            Status::BadRequest => 400u16,
            Status::Unauthorized => 401,
            Status::NotFound => 404,
            Status::Conflict => 409,
            Status::PayloadTooLarge => 413,
            Status::UnsupportedMediaType => 415,
            Status::TooManyRequests => 429,
            Status::InternalServerError => 500,
            Status::BadGateway => 502,
            Status::ServiceUnavailable => 503,
        }),
{
}

/// A number that 64 bits can hold is told as it is, a greater one as the
/// greatest that they can.
pub proof fn law_numbers_are_cut_to_64_bits(n: nat)
    ensures
        n <= 0xffff_ffff_ffff_ffff ==> crate::server::saturated(n) == n,
        n > 0xffff_ffff_ffff_ffff ==> crate::server::saturated(n) == 0xffff_ffff_ffff_ffff,
{
}

} // verus!
