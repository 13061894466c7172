use axum::http::header;
use axum::http::HeaderMap;
use devbit::account::begin_login;
use devbit::account::begin_registration;
use devbit::account::continue_login;
use devbit::account::continue_registration;
use devbit::account::current_user;
use devbit::account::finish_login;
use devbit::account::finish_registration;
use devbit::account::login_response;
use devbit::account::logout;
use devbit::account::logout_user;
use devbit::account::normalize_email;
use devbit::account::require_user;
use devbit::account::CreateUserRequest;
use devbit::account::Login;
use devbit::account::LoginRequest;
use devbit::account::NewUser;
use devbit::account::UserRow;
use devbit::auth::generate_token;
use devbit::auth::user_id_from_token;
use devbit::auth::verify_password;
use devbit::outbound::Frame;
use devbit::password::hash_password_with_salt;
use devbit::status::Status;
use devbit::token::TokenError;
use devbit::verification::begin_code_request;
use devbit::verification::code_stored;
use devbit::verification::compose_mail;
use devbit::verification::mail_handled;
use devbit::verification::pending_code;
use devbit::verification::screen_code_request;
use devbit::verification::CodeStep;
use devbit::verification::MailOutcome;
use devbit::verification::PendingCode;
use devbit::verification::SendCodeRequest;
use devbit::ws::WsState;
use tokio::sync::mpsc;
use tokio::sync::watch;

fn registration() -> CreateUserRequest {
    CreateUserRequest {
        name: " Ada ".to_owned(),
        email: " Ada@Example.COM ".to_owned(),
        code: " 123456 ".to_owned(),
        password: " secret ".to_owned(),
    }
}

fn row(id: i32) -> UserRow {
    UserRow {
        id,
        name: "Ada".to_owned(),
        email: "ada@example.com".to_owned(),
        avatar_url: Some("/api/avatars/a.png".to_owned()),
    }
}

fn login_request(password: &str) -> LoginRequest {
    LoginRequest { email: " ADA@example.com".to_owned(), password: password.to_owned() }
}

fn code_request(email: &str) -> SendCodeRequest {
    SendCodeRequest { email: email.to_owned() }
}

fn pending(sender: Option<&str>, shown: bool) -> PendingCode {
    pending_code("ada@example.com".to_owned(), 123_456, sender, shown)
}

#[test]
fn addresses_are_trimmed_and_lowered() {
    assert_eq!(normalize_email("  ÄDA@Example.COM\t"), "äda@example.com");
    assert_eq!(normalize_email("   "), "");
}

#[test]
fn registrations_are_normalised() {
    let user = begin_registration(registration()).unwrap();
    assert_eq!(user.name, "Ada");
    assert_eq!(user.email, "ada@example.com");
    assert_eq!(user.code, "123456");
    assert_eq!(user.password, " secret ");
}

#[test]
fn incomplete_registrations_are_refused() {
    let refused = |request: CreateUserRequest| begin_registration(request).unwrap_err();
    assert_eq!(
        refused(CreateUserRequest { name: " ".to_owned(), ..registration() }),
        Status::BadRequest
    );
    assert_eq!(
        refused(CreateUserRequest { email: " ".to_owned(), ..registration() }),
        Status::BadRequest
    );
    assert_eq!(
        refused(CreateUserRequest { password: String::new(), ..registration() }),
        Status::BadRequest
    );
    assert_eq!(
        refused(CreateUserRequest { password: "é".repeat(513), ..registration() }),
        Status::BadRequest
    );
    assert!(begin_registration(CreateUserRequest { password: "é".repeat(512), ..registration() })
        .is_ok());
}

#[test]
fn registrations_need_a_code() {
    let pending = || begin_registration(registration()).unwrap();
    assert_eq!(
        continue_registration(pending(), None).unwrap_err(),
        Status::InternalServerError
    );
    assert_eq!(
        continue_registration(pending(), Some(false)).unwrap_err(),
        Status::Unauthorized
    );
    let user = continue_registration(pending(), Some(true)).unwrap();
    assert_eq!(user.name, "Ada");
    assert_eq!(user.email, "ada@example.com");
    assert!(verify_password(" secret ", &user.password_hash));
}

#[test]
fn registrations_end_with_the_id() {
    let user = || NewUser {
        name: "Ada".to_owned(),
        email: "ada@example.com".to_owned(),
        password_hash: "x".to_owned(),
    };
    assert_eq!(finish_registration(user(), None, true).unwrap_err(), Status::Conflict);
    assert_eq!(
        finish_registration(user(), Some(3), false).unwrap_err(),
        Status::InternalServerError
    );
    let response = finish_registration(user(), Some(3), true).unwrap();
    assert_eq!((response.id, response.name.as_str()), (3, "Ada"));
    assert_eq!(response.email, "ada@example.com");
}

#[test]
fn logins_need_a_password_of_acceptable_length() {
    assert_eq!(begin_login(&login_request("")).unwrap_err(), Status::BadRequest);
    assert_eq!(begin_login(&login_request(&"x".repeat(1025))).unwrap_err(), Status::BadRequest);
    assert_eq!(begin_login(&login_request(&"x".repeat(1024))).unwrap(), "ada@example.com");
}

#[test]
fn logins_need_the_password() {
    assert_eq!(continue_login("pw", None).unwrap_err(), Status::InternalServerError);
    assert_eq!(continue_login("pw", Some(None)).unwrap_err(), Status::Unauthorized);
    let stored = || Some(Some(("pw".to_owned(), row(7))));
    assert_eq!(continue_login("other", stored()).unwrap_err(), Status::Unauthorized);
    let login = continue_login("pw", stored()).unwrap();
    assert_eq!(login.user.id, 7);
    assert!(verify_password("pw", &login.upgraded_hash.unwrap()));

    let hash = hash_password_with_salt("pw", &[1; 16]);
    let login = continue_login("pw", Some(Some((hash, row(7))))).unwrap();
    assert!(login.upgraded_hash.is_none());
}

#[test]
fn logins_end_with_a_token() {
    let response =
        finish_login(Login { user: row(7), upgraded_hash: None }, false, Some("s")).unwrap();
    assert_eq!(user_id_from_token(&response.token, Some("s")), Some(7));
    assert_eq!(
        response.cookie,
        format!(
            "auth_token={}; Path=/; HttpOnly; Secure; SameSite=Strict; Max-Age=86400",
            response.token
        )
    );
    assert_eq!(response.user.id, 7);
    assert!(!response.user.is_admin);
    assert_eq!(response.user.avatar_url.as_deref(), Some("/api/avatars/a.png"));

    let upgraded = Login { user: row(7), upgraded_hash: Some("hash".to_owned()) };
    assert_eq!(finish_login(upgraded, false, None).unwrap_err(), Status::InternalServerError);
    assert_eq!(
        login_response(row(7), Err(TokenError)).unwrap_err(),
        Status::InternalServerError
    );
}

#[test]
fn the_current_user_is_told_with_the_administrator_mark() {
    assert_eq!(current_user(None).unwrap_err(), Status::InternalServerError);
    assert_eq!(current_user(Some(None)).unwrap_err(), Status::Unauthorized);
    let user = current_user(Some(Some(row(2)))).unwrap();
    assert_eq!((user.id, user.name.as_str(), user.is_admin), (2, "Ada", true));
    assert_eq!(user.email, "ada@example.com");
}

#[test]
fn requests_without_a_token_come_from_nobody() {
    let mut headers = HeaderMap::new();
    assert_eq!(require_user(&headers, None), Err(Status::Unauthorized));
    let token = generate_token(7, "seven@example.com", None).unwrap();
    headers.insert(header::AUTHORIZATION, format!("Bearer {token}").parse().unwrap());
    assert_eq!(require_user(&headers, None), Ok(7));
    assert_eq!(require_user(&headers, Some("other")), Err(Status::Unauthorized));
}

#[test]
fn logging_out_closes_every_connection() {
    let mut state = WsState::new();
    let (sender, _messages) = mpsc::channel::<Frame>(4);
    let (disconnect, watched) = watch::channel(false);
    state.register(7, sender, disconnect.clone());
    let nobody = logout_user(&mut state, None);
    assert!(nobody.success && nobody.departure.is_none());
    assert!(state.has_entry(7));

    let token = generate_token(7, "seven@example.com", None).unwrap();
    let mut headers = HeaderMap::new();
    headers.insert(header::AUTHORIZATION, format!("Bearer {token}").parse().unwrap());
    let response = logout(&mut state, &headers, None);
    assert!(response.success && response.departure.is_some());
    assert!(response.cookie.starts_with("auth_token=; Path=/"));
    assert!(*watched.borrow());
    assert!(!state.has_entry(7));
}

#[test]
fn codes_need_a_mailbox_and_a_way_to_the_owner() {
    assert_eq!(
        begin_code_request(&code_request("nobody"), Some("bot@example.com"), true).unwrap_err(),
        Status::BadRequest
    );
    assert_eq!(
        begin_code_request(&code_request("ada@example.com"), Some("  "), false).unwrap_err(),
        Status::ServiceUnavailable
    );
    assert_eq!(screen_code_request(false, None, false), Some(Status::BadRequest));
    assert_eq!(screen_code_request(true, None, false), Some(Status::ServiceUnavailable));
    assert_eq!(screen_code_request(true, None, true), None);
    assert_eq!(screen_code_request(true, Some("bot"), false), None);
}

#[test]
fn codes_have_six_digits() {
    for _ in 0..200 {
        let pending =
            begin_code_request(&code_request(" Ada@Example.com "), Some("bot@example.com"), false)
                .unwrap();
        assert_eq!(pending.email, "ada@example.com");
        assert_eq!(pending.code.len(), 6);
        assert!(pending.code.bytes().all(|byte| byte.is_ascii_digit()));
        assert!(!pending.code.starts_with('0'));
        assert_eq!(pending.sender.as_deref(), Some("bot@example.com"));
        assert!(!pending.shown);
    }
}

#[test]
fn codes_without_a_sender_are_shown() {
    assert_eq!(
        code_stored(&pending(None, true), false, None, None, None).unwrap_err(),
        Status::InternalServerError
    );
    let step = code_stored(&pending(None, true), true, None, None, None).unwrap();
    assert!(matches!(
        step,
        CodeStep::Answer(response)
            if response.message == "Verification code generated for development."
                && response.expires_in_seconds == 600
                && response.development_code.as_deref() == Some("123456")
    ));
}

#[test]
fn codes_are_sent_to_bare_addresses() {
    let sender = Some("bot@example.com");
    let stored = |pending: &PendingCode, password: Option<&str>| {
        code_stored(pending, true, password, None, Some("x"))
    };
    assert_eq!(
        stored(&pending(sender, false), None).unwrap_err(),
        Status::InternalServerError
    );
    assert_eq!(
        stored(&pending(Some("not an address"), false), Some("pw")).unwrap_err(),
        Status::InternalServerError
    );
    let named = pending_code("ada <ada@example.com>".to_owned(), 123_456, sender, false);
    assert_eq!(stored(&named, Some("pw")).unwrap_err(), Status::BadRequest);
    assert!(begin_code_request(&code_request("ada <ada@example.com>"), sender, false).is_ok());

    match stored(&pending(sender, false), Some("pw")).unwrap() {
        CodeStep::Send(mail) => {
            assert_eq!((mail.sender_name, mail.sender.as_str()), ("devbit", "bot@example.com"));
            assert_eq!(
                (mail.recipient_name, mail.recipient.as_str()),
                ("client", "ada@example.com")
            );
            assert_eq!(mail.subject, "devbit verification code");
            assert_eq!(
                mail.body,
                "[devbit] Verification code: 123456. It expires in 10 minutes."
            );
            assert_eq!((mail.server.as_str(), mail.port), ("smtp.qq.com", 465));
            assert_eq!(mail.password, "pw");
        }
        CodeStep::Answer(_) => panic!("the code is sent"),
    }
}

#[test]
fn the_mail_server_is_configured() {
    let port_for = |port: Option<&str>| {
        let pending = pending(Some("bot"), false);
        compose_mail(&pending, "bot", Some("pw"), Some("mail"), port, true, true).unwrap()
    };
    assert_eq!(port_for(Some("25")).port, 25);
    assert_eq!(port_for(Some("+25")).port, 25);
    assert_eq!(port_for(Some("65535")).port, 65535);
    assert_eq!(port_for(Some("65536")).port, 465);
    assert_eq!(port_for(Some(" 25")).port, 465);
    assert_eq!(port_for(Some("")).port, 465);
    assert_eq!(port_for(None).port, 465);
    assert_eq!(port_for(None).server, "mail");
}

#[test]
fn sent_codes_are_confirmed_and_hidden() {
    let response = mail_handled(&pending(Some("bot"), false), MailOutcome::Sent).unwrap();
    assert_eq!(response.message, "Verification code sent. Please check your email.");
    assert_eq!(response.expires_in_seconds, 600);
    assert_eq!(response.development_code, None);
    let response = mail_handled(&pending(Some("bot"), true), MailOutcome::Sent).unwrap();
    assert_eq!(response.development_code.as_deref(), Some("123456"));
    assert_eq!(
        mail_handled(&pending(Some("bot"), true), MailOutcome::NotSetUp).unwrap_err(),
        Status::InternalServerError
    );
    assert_eq!(
        mail_handled(&pending(Some("bot"), true), MailOutcome::NotTaken).unwrap_err(),
        Status::BadGateway
    );
}

#[test]
fn statuses_have_their_numbers() {
    let numbers = [
        (Status::BadRequest, 400),
        (Status::Unauthorized, 401),
        (Status::NotFound, 404),
        (Status::Conflict, 409),
        (Status::PayloadTooLarge, 413),
        (Status::UnsupportedMediaType, 415),
        (Status::TooManyRequests, 429),
        (Status::InternalServerError, 500),
        (Status::BadGateway, 502),
        (Status::ServiceUnavailable, 503),
    ];
    for (status, number) in numbers {
        assert_eq!(status.code(), number);
    }
}
