use axum::http::HeaderMap;
use devbit::account::UserRow;
use devbit::avatar::is_allowed_extension;
use devbit::avatar::is_avatar_field;
use devbit::avatar::last_extension;
use devbit::avatar::requested_path;
use devbit::avatar::serve_avatar;
use devbit::avatar::upload_extension;
use devbit::avatar::upload_response;
use devbit::avatar::Upload;
use devbit::avatar::MAX_AVATAR_SIZE;
use devbit::clock::Duration;
use devbit::clock::Instant;
use devbit::server::account_routes;
use devbit::server::add_security_headers;
use devbit::server::auth_routes;
use devbit::server::health;
use devbit::server::infrastructure_routes;
use devbit::server::latency_ms;
use devbit::server::limiter_for;
use devbit::server::log_level;
use devbit::server::Endpoint;
use devbit::server::Limit;
use devbit::server::LogLevel;
use devbit::server::Method;
use devbit::status::Status;

fn user_row(id: i32) -> UserRow {
    UserRow { id, name: "Ada".to_owned(), email: "ada@example.com".to_owned(), avatar_url: None }
}

#[test]
fn avatars_come_in_their_field() {
    assert!(is_avatar_field(Some("avatar")));
    assert!(!is_avatar_field(Some("Avatar")));
    assert!(!is_avatar_field(None));
}

#[test]
fn extensions_stand_behind_the_last_dot() {
    assert_eq!(last_extension("a.b.PNG"), "PNG");
    assert_eq!(last_extension("png"), "png");
    assert_eq!(last_extension("a."), "");
    assert!(is_allowed_extension("webp"));
    assert!(!is_allowed_extension("svg"));
}

#[test]
fn uploads_need_a_name_and_a_known_extension() {
    assert_eq!(upload_extension(None).unwrap_err(), Status::BadRequest);
    assert_eq!(upload_extension(Some("")).unwrap_err(), Status::BadRequest);
    assert_eq!(upload_extension(Some("a.svg")).unwrap_err(), Status::UnsupportedMediaType);
    assert_eq!(upload_extension(Some("a.tar.JPeG")).unwrap(), "jpeg");
    assert_eq!(upload_extension(Some("bild.ä.png")).unwrap(), "png");
    assert_eq!(Upload::begin(Some("a.exe")).unwrap_err(), Status::UnsupportedMediaType);
}

#[test]
fn uploads_get_names_of_their_own() {
    let first = Upload::begin(Some("me.PNG")).unwrap();
    let second = Upload::begin(Some("me.PNG")).unwrap();
    assert_ne!(first.name, second.name);
    assert_eq!(first.name.len(), 40);
    assert!(first.name.ends_with(".png"));
    let hyphens: Vec<usize> = first.name.match_indices('-').map(|(at, _)| at).collect();
    assert_eq!(hyphens, [8, 13, 18, 23]);
    assert_eq!(first.name, first.name.to_lowercase());
    assert!(requested_path(&first.name).is_ok());
    assert_eq!(last_extension(&first.name), "png");
}

#[test]
fn uploads_have_a_limit() {
    let mut upload = Upload::named("u", "png");
    assert_eq!(upload.receive(&vec![1; MAX_AVATAR_SIZE]), Ok(()));
    assert_eq!(upload.receive(&[]), Ok(()));
    assert_eq!(upload.receive(&[1]), Err(Status::PayloadTooLarge));
    assert_eq!(MAX_AVATAR_SIZE, 2 * 1024 * 1024);
    assert_eq!(Upload::named("u", "png").complete().unwrap_err(), Status::BadRequest);
}

#[test]
fn uploads_are_stored_in_place_of_the_old_avatar() {
    let upload = || {
        let mut upload = Upload::named("new", "gif");
        upload.receive(&[1, 2]).unwrap();
        upload.receive(&[3]).unwrap();
        upload.complete().unwrap()
    };
    let stored = upload().store(Some(Some("/api/avatars/old.png"))).unwrap();
    assert_eq!(stored.path, "uploads/avatars/new.gif");
    assert_eq!(stored.url, "/api/avatars/new.gif");
    assert_eq!(stored.data, [1, 2, 3]);
    assert_eq!(stored.replaced_path.as_deref(), Some("uploads/avatars/old.png"));
    let stored = upload().store(Some(Some("https://elsewhere/old.png"))).unwrap();
    assert_eq!(stored.replaced_path, None);
    assert_eq!(upload().store(Some(None)).unwrap().replaced_path, None);
    assert_eq!(upload().store(None).unwrap_err(), Status::InternalServerError);
}

#[test]
fn uploads_are_answered_with_the_user() {
    assert_eq!(upload_response(1, None, None).unwrap_err(), Status::BadRequest);
    assert_eq!(
        upload_response(1, Some(false), None).unwrap_err(),
        Status::InternalServerError
    );
    assert_eq!(
        upload_response(1, Some(true), None).unwrap_err(),
        Status::InternalServerError
    );
    let user = upload_response(1, Some(true), Some(user_row(1))).unwrap();
    assert_eq!((user.id, user.name.as_str(), user.is_admin), (1, "Ada", true));
}

#[test]
fn served_names_stay_in_the_directory() {
    for name in ["a/b.png", "..", "a..png", "a\\b.png", "../x"] {
        assert_eq!(requested_path(name).unwrap_err(), Status::NotFound, "{name}");
    }
    assert_eq!(requested_path("a.png").unwrap(), "uploads/avatars/a.png");
}

#[test]
fn served_avatars_have_a_content_type() {
    let response = serve_avatar("a.PNG", Some(vec![1])).unwrap();
    assert_eq!((response.content_type.as_str(), response.data), ("image/png", vec![1]));
    let response = serve_avatar("webp", Some(vec![])).unwrap();
    assert_eq!(response.content_type, "application/octet-stream");
    assert_eq!(serve_avatar("a.png", None).unwrap_err(), Status::NotFound);
}

#[test]
fn routes_have_two_addresses() {
    assert_eq!(Endpoint::SendCode.path(), "/register/send_code");
    assert_eq!(Endpoint::SendCode.api_path(), "/api/register/send_code");
    assert_eq!(Endpoint::ServeAvatar.api_path(), "/api/avatars/{filename}");
    assert_eq!(Endpoint::WebSocket.api_path(), "/api/ws");
    assert_eq!(Endpoint::Logout.method(), Method::Post);
    assert_eq!(Endpoint::CurrentUser.method(), Method::Get);
}

#[test]
fn no_two_routes_share_a_path() {
    let mut endpoints = auth_routes();
    endpoints.extend(account_routes());
    endpoints.extend(infrastructure_routes());
    let mut paths: Vec<String> = Vec::new();
    for endpoint in &endpoints {
        paths.push(endpoint.path().to_owned());
        paths.push(endpoint.api_path());
    }
    assert_eq!(paths.len(), 18);
    paths.sort();
    paths.dedup();
    assert_eq!(paths.len(), 18);
}

#[test]
fn limits_differ_by_route() {
    let start = Instant { nanos: 0 };
    assert_eq!(limiter_for(Limit::Strict, start).unwrap().max_requests(), 5);
    assert_eq!(limiter_for(Limit::General, start).unwrap().max_requests(), 10);
    assert!(limiter_for(Limit::Unlimited, start).is_none());
    assert_eq!(auth_routes(), [Endpoint::SendCode, Endpoint::Register, Endpoint::Login]);
}

#[test]
fn health_depends_on_the_database() {
    let start = Instant { nanos: 1_000_000_000 };
    let now = Instant { nanos: 63_999_999_999 };
    let report = health(true, start, now);
    assert_eq!((report.status, report.db, report.uptime_secs), ("ok", "ok", 62));
    let report = health(false, start, now);
    assert_eq!((report.status, report.db), ("degraded", "unreachable"));
}

#[test]
fn requests_are_logged_by_status() {
    assert_eq!(log_level(503), LogLevel::Error);
    assert_eq!(log_level(500), LogLevel::Error);
    assert_eq!(log_level(499), LogLevel::Warn);
    assert_eq!(log_level(400), LogLevel::Warn);
    assert_eq!(log_level(399), LogLevel::Info);
    assert_eq!(latency_ms(Duration { nanos: 1_999_999 }), 1);
    assert_eq!(latency_ms(Duration { nanos: u128::MAX }), u64::MAX);
}

#[test]
fn responses_are_secured() {
    let mut headers = HeaderMap::new();
    headers.insert("x-frame-options", "SAMEORIGIN".parse().unwrap());
    headers.append("x-frame-options", "ALLOWALL".parse().unwrap());
    headers.insert("content-type", "text/plain".parse().unwrap());
    assert!(add_security_headers(&mut headers));
    assert_eq!(headers.len(), 4);
    assert_eq!(headers["X-Content-Type-Options"], "nosniff");
    assert_eq!(headers["x-frame-options"], "DENY");
    assert_eq!(
        headers["strict-transport-security"],
        "max-age=63072000; includeSubDomains; preload"
    );
    assert_eq!(headers["content-type"], "text/plain");
}
