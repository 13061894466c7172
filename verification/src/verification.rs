//! Verification codes: who gets one, and how it is sent.
//!
//! A request for a code is a chain of steps, as those on accounts are.
use crate::account::normalize_email;
use crate::crypto::random_number;
use crate::crypto::Draw;
use crate::status::Status;
use crate::text::decimal_text;
use crate::text::parse_decimal;
use crate::text::text_or;
use crate::text::trim;
use lettre::message::Mailbox;
use lettre::Address;
use vstd::prelude::*;
use vstd::string::StringExecFns;

verus! {

/// How many seconds a code is valid.
pub const VERIFICATION_CODE_EXPIRES_SECONDS: u32 = 600;

/// The smallest code.
pub const SMALLEST_CODE: u32 = 100_000;

/// The greatest code.
pub const GREATEST_CODE: u32 = 999_999;

/// The mail server where none is configured.
pub const DEFAULT_SMTP_SERVER: &'static str = "smtp.qq.com";

/// The port of the mail server where none is configured.
pub const DEFAULT_SMTP_PORT: u16 = 465;

/// The name of the sender of a mail.
pub const SENDER_NAME: &'static str = "devbit";

/// The name of the recipient of a mail.
pub const RECIPIENT_NAME: &'static str = "client";

/// The subject of a mail.
pub const MAIL_SUBJECT: &'static str = "devbit verification code";

/// What stands before the code in a mail.
pub const MAIL_OPENING: &'static str = "[devbit] Verification code: ";

/// What follows the code in a mail.
pub const MAIL_CLOSING: &'static str = ". It expires in 10 minutes.";

/// The answer where a code is shown in place of being sent.
pub const CODE_SHOWN: &'static str = "Verification code generated for development.";

/// The answer where a code was sent.
pub const CODE_SENT: &'static str = "Verification code sent. Please check your email.";

/// A request for a code.
#[derive(Debug)]
pub struct SendCodeRequest {
    pub email: String,
}

/// A code that is to be stored for an address.
#[derive(Debug)]
pub struct PendingCode {
    pub email: String,
    pub code: String,
    /// The account that sends mail, where there is one.
    pub sender: Option<String>,
    /// Whether the answer shows the code.
    pub shown: bool,
}

/// A mail, and the server that takes it.
#[derive(Debug)]
pub struct Mail {
    pub sender_name: &'static str,
    pub sender: String,
    pub recipient_name: &'static str,
    pub recipient: String,
    pub subject: &'static str,
    pub body: String,
    pub server: String,
    pub port: u16,
    pub password: String,
}

/// What to do once a code is stored.
#[derive(Debug)]
pub enum CodeStep {
    Answer(SendCodeResponse),
    Send(Mail),
}

/// What became of a mail.
#[derive(Clone, Copy, Debug, PartialEq, Eq, Structural)]
pub enum MailOutcome {
    Sent,
    /// The mail or the connection could not be set up.
    NotSetUp,
    /// The server did not take the mail.
    NotTaken,
}

/// The answer to a request for a code.
#[derive(Debug)]
pub struct SendCodeResponse {
    pub message: &'static str,
    pub expires_in_seconds: u32,
    pub development_code: Option<String>,
}

// ---------------------------------------------------------------------------
// Outside functions.
// ---------------------------------------------------------------------------
/// The texts that parse as a `lettre::message::Mailbox`.
pub uninterp spec fn is_mailbox(text: Seq<char>) -> bool;

/// The texts that parse as a `lettre::Address`.
pub uninterp spec fn is_address(text: Seq<char>) -> bool;

/// Calls `str::parse` for a `lettre::message::Mailbox`: an address, with or
/// without a display name. The contract claims that the outcome depends on the
/// text alone.
#[verifier::external_body]
fn parses_as_mailbox(text: &str) -> (r: bool)
    ensures
        r == is_mailbox(text@),
{
    text.parse::<Mailbox>().is_ok()
}

/// Calls `str::parse` for a `lettre::Address`: an address without a display
/// name. The contract claims that the outcome depends on the text alone.
#[verifier::external_body]
fn parses_as_address(text: &str) -> (r: bool)
    ensures
        r == is_address(text@),
{
    text.parse::<Address>().is_ok()
}

// ---------------------------------------------------------------------------
// Specifications.
// ---------------------------------------------------------------------------
/// The account that sends mail: the configured one, unless it is blank.
pub open spec fn sender_of(username: Option<Seq<char>>) -> Option<Seq<char>> {
    match username {
        Some(value) => if crate::text::trimmed(value).len() > 0 {
            Some(value)
        } else {
            None
        },
        None => None,
    }
}

/// With which status a request is refused at once: the address has to be a
/// mailbox, and there has to be a way for the code to reach its owner.
pub open spec fn refusal_of(mailbox: bool, username: Option<Seq<char>>, shown: bool) -> Option<
    Status,
> {
    if !mailbox {
        Some(Status::BadRequest)
    } else if sender_of(username) is None && !shown {
        Some(Status::ServiceUnavailable)
    } else {
        None
    }
}

/// A pending code holds these.
pub open spec fn holds(
    pending: PendingCode,
    email: Seq<char>,
    number: u32,
    username: Option<Seq<char>>,
    shown: bool,
) -> bool {
    &&& pending.email@ == email
    &&& pending.code@ == crate::text::decimal(number as nat)
    &&& crate::text::optional_string(pending.sender) == sender_of(username)
    &&& pending.shown == shown
}

/// An answer about a code.
pub open spec fn answers(
    response: SendCodeResponse,
    message: Seq<char>,
    pending: PendingCode,
) -> bool {
    &&& response.message@ == message
    &&& response.expires_in_seconds == VERIFICATION_CODE_EXPIRES_SECONDS
    &&& crate::text::optional_string(response.development_code) == if pending.shown {
        Some(pending.code@)
    } else {
        None
    }
}

/// The configured port, where it is a number that fits.
pub open spec fn port_of(configured: Option<Seq<char>>) -> u16 {
    match configured {
        Some(text) => match crate::text::decimal_number(text, u16::MAX as nat) {
            Some(port) => port as u16,
            None => DEFAULT_SMTP_PORT,
        },
        None => DEFAULT_SMTP_PORT,
    }
}

/// The configured server, where there is one.
pub open spec fn server_of(configured: Option<Seq<char>>) -> Seq<char> {
    match configured {
        Some(server) => server,
        None => DEFAULT_SMTP_SERVER@,
    }
}

/// A mail brings a code to its address.
pub open spec fn brings(
    mail: Mail,
    pending: PendingCode,
    password: Seq<char>,
    server: Option<Seq<char>>,
    port: Option<Seq<char>>,
) -> bool {
    &&& mail.sender_name@ == SENDER_NAME@
    &&& Some(mail.sender@) == crate::text::optional_string(pending.sender)
    &&& mail.recipient_name@ == RECIPIENT_NAME@
    &&& mail.recipient@ == pending.email@
    &&& mail.subject@ == MAIL_SUBJECT@
    &&& mail.body@ == MAIL_OPENING@ + pending.code@ + MAIL_CLOSING@
    &&& mail.server@ == server_of(server)
    &&& mail.port == port_of(port)
    &&& mail.password@ == password
}

// ---------------------------------------------------------------------------
// The steps.
// ---------------------------------------------------------------------------
fn usable_sender(username: Option<&str>) -> (r: Option<String>)
    ensures
        crate::text::optional_string(r) == sender_of(crate::text::optional_text(username)),
{
    match username {
        Some(value) => if trim(value).is_empty() {
            None
        } else {
            Some(value.to_owned())
        },
        None => None,
    }
}

/// Whether a request is refused at once, given whether its address is a
/// mailbox.
pub fn screen_code_request(mailbox: bool, username: Option<&str>, shown: bool) -> (r: Option<
    Status,
>)
    ensures
        r == refusal_of(mailbox, crate::text::optional_text(username), shown),
{
    if !mailbox {
        Some(Status::BadRequest)
    } else if usable_sender(username).is_none() && !shown {
        Some(Status::ServiceUnavailable)
    } else {
        None
    }
}

/// The code for an address, given the number that was drawn for it.
pub fn pending_code(email: String, number: u32, username: Option<&str>, shown: bool) -> (r:
    PendingCode)
    ensures
        holds(r, email@, number, crate::text::optional_text(username), shown),
{
    PendingCode {
        email,
        code: decimal_text(number as u64),
        sender: usable_sender(username),
        shown,
    }
}

/// Starts a request: the codes of the address are to be replaced by the one
/// given. `username` is the account that sends mail, where one is configured.
pub fn begin_code_request(request: &SendCodeRequest, username: Option<&str>, shown: bool) -> (r:
    Result<PendingCode, Status>)
    ensures
        match r {
            Ok(pending) => refusal_of(
                is_mailbox(crate::account::normalized_email(request.email@)),
                crate::text::optional_text(username),
                shown,
            ) is None && (crate::text::is_ascii_text(crate::text::trimmed(request.email@))
                ==> pending.email@ == crate::text::ascii_lowered(
                crate::text::trimmed(request.email@),
            )) && exists|draw: Draw|
                draw.low() == SMALLEST_CODE && draw.high() == GREATEST_CODE && SMALLEST_CODE
                    <= draw.number() <= GREATEST_CODE && #[trigger] holds(
                    pending,
                    crate::account::normalized_email(request.email@),
                    draw.number(),
                    crate::text::optional_text(username),
                    shown,
                ),
            Err(status) => refusal_of(
                is_mailbox(crate::account::normalized_email(request.email@)),
                crate::text::optional_text(username),
                shown,
            ) == Some(status),
        },
{
    let email: String = normalize_email(request.email.as_str());
    match screen_code_request(parses_as_mailbox(email.as_str()), username, shown) {
        Some(status) => Err(status),
        None => {
            let draw: Draw = random_number(SMALLEST_CODE, GREATEST_CODE);
            Ok(pending_code(email, draw.value(), username, shown))
        },
    }
}

fn code_answer(message: &'static str, pending: &PendingCode) -> (r: SendCodeResponse)
    ensures
        answers(r, message@, *pending),
{
    let development_code: Option<String> = if pending.shown {
        Some(pending.code.as_str().to_owned())
    } else {
        None
    };
    SendCodeResponse {
        message,
        expires_in_seconds: VERIFICATION_CODE_EXPIRES_SECONDS,
        development_code,
    }
}

fn smtp_port(configured: Option<&str>) -> (r: u16)
    ensures
        r == port_of(crate::text::optional_text(configured)),
{
    match configured {
        Some(text) => match parse_decimal(text, u16::MAX as u64) {
            Some(port) => port as u16,
            None => DEFAULT_SMTP_PORT,
        },
        None => DEFAULT_SMTP_PORT,
    }
}

/// The mail that brings a code to its address, given whether the addresses of
/// the sender and of the recipient can be written to.
pub fn compose_mail(
    pending: &PendingCode,
    sender: &str,
    password: Option<&str>,
    server: Option<&str>,
    port: Option<&str>,
    sender_is_address: bool,
    recipient_is_address: bool,
) -> (r: Result<Mail, Status>)
    requires
        crate::text::optional_string(pending.sender) == Some(sender@),
    ensures
        match r {
            Ok(mail) => password is Some && sender_is_address && recipient_is_address && brings(
                mail,
                *pending,
                password->0@,
                crate::text::optional_text(server),
                crate::text::optional_text(port),
            ),
            Err(status) => if password is None || !sender_is_address {
                status == Status::InternalServerError
            } else {
                !recipient_is_address && status == Status::BadRequest
            },
        },
{
    match password {
        None => Err(Status::InternalServerError),
        Some(password) => {
            if !sender_is_address {
                return Err(Status::InternalServerError);
            }
            if !recipient_is_address {
                return Err(Status::BadRequest);
            }
            let mut body: String = MAIL_OPENING.to_owned();
            body.append(pending.code.as_str());
            body.append(MAIL_CLOSING);
            Ok(
                Mail {
                    sender_name: SENDER_NAME,
                    sender: sender.to_owned(),
                    recipient_name: RECIPIENT_NAME,
                    recipient: pending.email.as_str().to_owned(),
                    subject: MAIL_SUBJECT,
                    body,
                    server: text_or(server, DEFAULT_SMTP_SERVER).to_owned(),
                    port: smtp_port(port),
                    password: password.to_owned(),
                },
            )
        },
    }
}

/// Goes on once the code was stored, or was not: without a sender the code is
/// shown, else it is sent. The settings of the mail server are those that are
/// configured.
pub fn code_stored(
    pending: &PendingCode,
    stored: bool,
    password: Option<&str>,
    server: Option<&str>,
    port: Option<&str>,
) -> (r: Result<CodeStep, Status>)
    ensures
        match r {
            Ok(CodeStep::Answer(response)) => stored && pending.sender is None && answers(
                response,
                CODE_SHOWN@,
                *pending,
            ),
            Ok(CodeStep::Send(mail)) => stored && pending.sender is Some && password is Some
                && is_address(pending.sender->0@) && is_address(pending.email@) && brings(
                mail,
                *pending,
                password->0@,
                crate::text::optional_text(server),
                crate::text::optional_text(port),
            ),
            Err(status) => if !stored {
                status == Status::InternalServerError
            } else {
                &&& pending.sender is Some
                &&& if password is None || !is_address(pending.sender->0@) {
                    status == Status::InternalServerError
                } else {
                    !is_address(pending.email@) && status == Status::BadRequest
                }
            },
        },
{
    if !stored {
        return Err(Status::InternalServerError);
    }
    match &pending.sender {
        None => Ok(CodeStep::Answer(code_answer(CODE_SHOWN, pending))),
        Some(sender) => {
            let sender_is_address: bool = parses_as_address(sender.as_str());
            let recipient_is_address: bool = parses_as_address(pending.email.as_str());
            match compose_mail(
                pending,
                sender.as_str(),
                password,
                server,
                port,
                sender_is_address,
                recipient_is_address,
            ) {
                Ok(mail) => Ok(CodeStep::Send(mail)),
                Err(status) => Err(status),
            }
        },
    }
}

/// Ends a request once its mail was handed over, or was not.
pub fn mail_handled(pending: &PendingCode, outcome: MailOutcome) -> (r: Result<
    SendCodeResponse,
    Status,
>)
    ensures
        match r {
            Ok(response) => outcome == MailOutcome::Sent && answers(response, CODE_SENT@, *pending),
            Err(status) => match outcome {
                MailOutcome::Sent => false,
                MailOutcome::NotSetUp => status == Status::InternalServerError,
                MailOutcome::NotTaken => status == Status::BadGateway,
            },
        },
{
    match outcome {
        MailOutcome::Sent => Ok(code_answer(CODE_SENT, pending)),
        MailOutcome::NotSetUp => Err(Status::InternalServerError),
        MailOutcome::NotTaken => Err(Status::BadGateway),
    }
}

// ---------------------------------------------------------------------------
// Laws.
// ---------------------------------------------------------------------------
/// Every code has six digits.
pub proof fn law_codes_have_six_digits(number: u32)
    requires
        SMALLEST_CODE <= number <= GREATEST_CODE,
    ensures
        crate::text::decimal(number as nat).len() == 6,
        crate::text::all_digits(crate::text::decimal(number as nat)),
{
    reveal_with_fuel(crate::text::decimal, 7);
    crate::text::lemma_decimal_round_trip(number as nat);
}

/// Where verification codes may not be shown, no answer holds one.
pub proof fn law_hidden_codes_are_never_answered(
    pending: PendingCode,
    response: SendCodeResponse,
    message: Seq<char>,
)
    requires
        !pending.shown,
        answers(response, message, pending),
    ensures
        response.development_code is None,
{
}

/// A code that was asked for can always reach its owner: it is shown, or there
/// is a sender for it.
pub proof fn law_accepted_codes_can_be_read(
    mailbox: bool,
    username: Option<Seq<char>>,
    shown: bool,
    pending: PendingCode,
    email: Seq<char>,
    number: u32,
)
    requires
        refusal_of(mailbox, username, shown) is None,
        holds(pending, email, number, username, shown),
    ensures
        pending.shown || pending.sender is Some,
{
}

} // verus!
