use axum::http::HeaderMap;
use devbit::address::parse_ip_address;
use devbit::address::IpAddress;
use devbit::clock::Duration;
use devbit::clock::Instant;
use devbit::rate_limit::client_from_values;
use devbit::rate_limit::client_ip;
use devbit::rate_limit::retry_after_seconds;
use devbit::rate_limit::screen_request;
use devbit::rate_limit::RateLimiter;
use devbit::status::Status;

const IP_ONE: IpAddress = IpAddress::V4(0xc000_0201);
const IP_TWO: IpAddress = IpAddress::V4(0xc000_0202);
const LOCALHOST_V4: IpAddress = IpAddress::V4(0x7f00_0001);
const LOCALHOST_V6: IpAddress = IpAddress::V6(1);

fn now() -> Instant {
    Instant { nanos: 1_000_000_000_000 }
}

fn after(start: Instant, span: Duration) -> Instant {
    Instant { nanos: start.nanos + span.nanos }
}

#[test]
fn strict_and_general_thresholds_are_independent() {
    let mut strict = RateLimiter::new(5, Duration::from_secs(60), now());
    let mut general = RateLimiter::new(10, Duration::from_secs(60), now());
    let now = now();

    for _ in 0..5 {
        assert!(strict.check_at(IP_ONE, now).is_ok());
    }
    assert!(strict.check_at(IP_ONE, now).is_err());

    for _ in 0..10 {
        assert!(general.check_at(IP_ONE, now).is_ok());
    }
    assert!(general.check_at(IP_ONE, now).is_err());
}

#[test]
fn requests_are_counted_separately_per_ip() {
    let mut limiter = RateLimiter::new(1, Duration::from_secs(60), now());
    let now = now();

    assert!(limiter.check_at(IP_ONE, now).is_ok());
    assert!(limiter.check_at(IP_ONE, now).is_err());
    assert!(limiter.check_at(IP_TWO, now).is_ok());
}

#[test]
fn expired_requests_leave_the_sliding_window() {
    let window = Duration::from_secs(60);
    let mut limiter = RateLimiter::new(1, window, now());
    let now = now();

    assert!(limiter.check_at(IP_ONE, now).is_ok());
    assert!(limiter.check_at(IP_ONE, after(now, window)).is_ok());
}

#[test]
fn global_sweep_removes_stale_ip_entries() {
    let window = Duration::from_secs(60);
    let mut limiter = RateLimiter::new(1, window, now());
    let now = now();
    limiter.check_at(IP_ONE, now).unwrap();

    limiter.check_at(IP_TWO, after(now, window)).unwrap();

    assert!(!limiter.remembers(IP_ONE));
    assert!(limiter.remembers(IP_TWO));
}

#[test]
fn retry_after_tracks_oldest_request_and_rounds_up() {
    let mut limiter = RateLimiter::new(1, Duration::from_secs(60), now());
    let now = now();
    limiter.check_at(IP_ONE, now).unwrap();

    let remaining = limiter
        .check_at(IP_ONE, after(now, Duration::from_millis(10_500)))
        .unwrap_err();
    assert_eq!(remaining, Duration::from_millis(49_500));
    assert_eq!(retry_after_seconds(remaining), 50);
}

#[test]
fn loopback_proxy_headers_supply_the_client_ip() {
    let mut headers = HeaderMap::new();
    headers.insert("x-real-ip", "198.51.100.8".parse().unwrap());
    headers.insert("x-forwarded-for", "198.51.100.9, 127.0.0.1".parse().unwrap());

    assert_eq!(
        client_ip(LOCALHOST_V4, &headers),
        parse_ip_address("198.51.100.8").unwrap()
    );

    headers.remove("x-real-ip");
    assert_eq!(
        client_ip(LOCALHOST_V6, &headers),
        parse_ip_address("127.0.0.1").unwrap()
    );
}

#[test]
fn forwarded_for_uses_the_proxy_appended_last_hop() {
    let mut headers = HeaderMap::new();
    headers.insert("x-forwarded-for", "198.51.100.9, 203.0.113.12".parse().unwrap());

    assert_eq!(
        client_ip(LOCALHOST_V4, &headers),
        parse_ip_address("203.0.113.12").unwrap()
    );
}

#[test]
fn non_loopback_peers_cannot_spoof_forwarded_headers() {
    let peer = parse_ip_address("203.0.113.25").unwrap();
    let mut headers = HeaderMap::new();
    headers.insert("x-real-ip", "198.51.100.8".parse().unwrap());
    headers.insert("x-forwarded-for", "198.51.100.9".parse().unwrap());

    assert_eq!(client_ip(peer, &headers), peer);
}

#[test]
fn malformed_proxy_headers_fall_back_to_the_peer() {
    let peer = LOCALHOST_V4;
    let mut headers = HeaderMap::new();
    headers.insert("x-real-ip", "not-an-ip".parse().unwrap());
    headers.insert("x-forwarded-for", "also-not-an-ip".parse().unwrap());

    assert_eq!(client_ip(peer, &headers), peer);
}

#[test]
fn a_bad_real_ip_leaves_it_to_the_forwarded_hops() {
    assert_eq!(
        client_from_values(LOCALHOST_V4, Some("nowhere"), Some(" 192.0.2.1 ")),
        IP_ONE
    );
    assert_eq!(client_from_values(LOCALHOST_V4, None, Some("192.0.2.1,")), LOCALHOST_V4);
    assert_eq!(client_from_values(LOCALHOST_V4, Some(" 192.0.2.1"), None), IP_ONE);
    assert_eq!(client_from_values(IpAddress::V4(0x7fff_ffff), Some("192.0.2.1"), None), IP_ONE);
}

#[test]
fn refused_requests_are_not_counted() {
    let mut limiter = RateLimiter::new(1, Duration::from_secs(60), now());
    assert!(limiter.check_at(IP_ONE, now()).is_ok());
    for second in 1..60 {
        let at = after(now(), Duration::from_secs(second));
        assert_eq!(limiter.check_at(IP_ONE, at), Err(Duration::from_secs(60 - second)));
    }
    assert!(limiter.check_at(IP_ONE, after(now(), Duration::from_secs(60))).is_ok());
    assert_eq!(limiter.max_requests(), 1);
}

#[test]
fn no_window_holds_more_than_the_limit() {
    let mut limiter = RateLimiter::new(3, Duration::from_secs(60), now());
    let mut admitted: Vec<u64> = Vec::new();
    for second in 0..300 {
        if limiter.check_at(IP_ONE, after(now(), Duration::from_secs(second))).is_ok() {
            admitted.push(second);
        }
    }
    for start in 0..240 {
        let held = admitted.iter().filter(|at| **at >= start && **at < start + 60).count();
        assert!(held <= 3);
    }
    assert_eq!(admitted.len(), 15);
}

#[test]
fn reported_seconds_are_at_least_one() {
    assert_eq!(retry_after_seconds(Duration::from_secs(0)), 1);
    assert_eq!(retry_after_seconds(Duration { nanos: 1 }), 1);
    assert_eq!(retry_after_seconds(Duration::from_secs(2)), 2);
    assert_eq!(retry_after_seconds(Duration { nanos: 2_000_000_001 }), 3);
    assert_eq!(retry_after_seconds(Duration { nanos: u128::MAX }), u64::MAX);
}

#[test]
fn refused_requests_are_answered_with_the_wait() {
    let mut limiter = RateLimiter::new(1, Duration::from_secs(60), now());
    let headers = HeaderMap::new();
    assert!(screen_request(&mut limiter, IP_ONE, &headers, now()).is_none());
    let later = after(now(), Duration::from_millis(500));
    let rejection = screen_request(&mut limiter, IP_ONE, &headers, later).unwrap();
    assert_eq!(rejection.status, Status::TooManyRequests);
    assert_eq!(rejection.status.code(), 429);
    assert_eq!(rejection.retry_after, 60);
    assert_eq!(rejection.error, "Too many requests. Try again later.");
}

#[test]
fn families_are_counted_separately() {
    let mut limiter = RateLimiter::new(1, Duration::from_secs(60), now());
    assert!(limiter.check_at(IpAddress::V4(7), now()).is_ok());
    assert!(limiter.check_at(IpAddress::V6(7), now()).is_ok());
    assert!(limiter.check_at(IpAddress::V6(7), now()).is_err());
    assert!(limiter.remembers(IpAddress::V6(7)));
    assert!(!limiter.remembers(IpAddress::V6(8)));
    let later = after(now(), Duration::from_secs(60));
    assert!(limiter.check_at(IpAddress::V4(9), later).is_ok());
    assert!(!limiter.remembers(IpAddress::V6(7)));
}
