use devbit::address::parse_ip_address;
use devbit::address::parse_socket_address;
use devbit::address::IpAddress;
use devbit::address::SocketAddress;
use devbit::auth;
use devbit::config::database_url;
use devbit::config::AppConfig;
use devbit::config::DEFAULT_BIND_ADDRESS;

fn notation(address: SocketAddress) -> String {
    match address.ip {
        IpAddress::V4(bits) => {
            let [a, b, c, d] = bits.to_be_bytes();
            format!("{a}.{b}.{c}.{d}:{}", address.port)
        }
        IpAddress::V6(bits) => format!("[{bits:x}]:{}", address.port),
    }
}

#[test]
fn development_uses_the_default_bind_address_without_a_secret() {
    let config = AppConfig::from_values(None, None, DEFAULT_BIND_ADDRESS, false).unwrap();

    assert_eq!(notation(config.bind_address), DEFAULT_BIND_ADDRESS);
    assert!(!config.is_production);
}

#[test]
fn production_requires_a_non_default_secret() {
    assert!(AppConfig::from_values(Some("production"), None, DEFAULT_BIND_ADDRESS, false).is_err());
    assert!(AppConfig::from_values(
        Some("production"),
        Some(auth::DEFAULT_JWT_SECRET),
        DEFAULT_BIND_ADDRESS,
        false,
    )
    .is_err());
    assert!(AppConfig::from_values(
        Some("production"),
        Some("deployment-specific-secret"),
        DEFAULT_BIND_ADDRESS,
        false,
    )
    .is_ok());
}

#[test]
fn invalid_bind_address_is_rejected_before_startup() {
    assert!(AppConfig::from_values(None, None, "localhost", false).is_err());
}

#[test]
fn release_build_requires_a_non_default_secret_without_node_env() {
    assert!(AppConfig::from_values(None, None, DEFAULT_BIND_ADDRESS, true).is_err());
    let config = AppConfig::from_values(
        None,
        Some("deployment-specific-secret"),
        DEFAULT_BIND_ADDRESS,
        true,
    )
    .unwrap();

    assert!(config.is_production);
}

#[test]
fn refusals_say_why() {
    let error = AppConfig::from_values(Some("production"), None, "localhost", false).unwrap_err();
    assert_eq!(
        error.message(),
        "JWT_SECRET must be set to a non-default value in production and release builds"
    );
    let error = AppConfig::from_values(None, None, "local\"host", false).unwrap_err();
    assert_eq!(
        error.message(),
        "invalid BIND_ADDR \"local\\\"host\": invalid socket address syntax"
    );
}

#[test]
fn a_missing_bind_address_stands_for_the_default() {
    let config = AppConfig::from_env(None, None, None, false).unwrap();
    assert_eq!(
        config.bind_address,
        SocketAddress { ip: IpAddress::V4(0x7f00_0001), port: 7878, scope_id: 0 }
    );
    let config = AppConfig::from_env(None, None, Some(" 0.0.0.0:80 "), false).unwrap();
    assert_eq!(
        config.bind_address,
        SocketAddress { ip: IpAddress::V4(0), port: 80, scope_id: 0 }
    );
    assert!(AppConfig::from_env(None, None, Some("0.0.0.0"), false).is_err());
}

#[test]
fn a_missing_database_stands_for_the_default() {
    assert_eq!(database_url(None), "postgres://postgres:@localhost:5432/users");
    assert_eq!(database_url(Some("postgres://db")), "postgres://db");
}

#[test]
fn addresses_are_read_as_their_bits() {
    assert_eq!(parse_ip_address("1.2.3.4"), Some(IpAddress::V4(0x0102_0304)));
    assert_eq!(parse_ip_address("::1"), Some(IpAddress::V6(1)));
    assert_eq!(
        parse_ip_address("2001:db8::ff00:42:8329"),
        Some(IpAddress::V6(0x2001_0db8_0000_0000_0000_ff00_0042_8329))
    );
    assert_eq!(
        parse_ip_address("::ffff:192.0.2.128"),
        Some(IpAddress::V6(0xffff_c000_0280))
    );
    assert_eq!(parse_ip_address("::"), Some(IpAddress::V6(0)));
}

#[test]
fn malformed_addresses_are_refused() {
    for text in [
        "", "1.2.3", "1.2.3.4.5", "1.2.3.256", "01.2.3.4", "1.2.3.4 ", "a.b.c.d", ":", ":::",
        "1::2::3", "12345::", "1:2:3:4:5:6:7", "1:2:3:4:5:6:7:8:9", "::1.2.3", "g::", "[::1]",
    ] {
        assert_eq!(parse_ip_address(text), None, "{text}");
    }
}

#[test]
fn sockets_have_a_port() {
    assert_eq!(
        parse_socket_address("[::1]:443"),
        Some(SocketAddress { ip: IpAddress::V6(1), port: 443, scope_id: 0 })
    );
    assert_eq!(
        parse_socket_address("[fe80::1%7]:443"),
        Some(SocketAddress { ip: IpAddress::V6(0xfe80 << 112 | 1), port: 443, scope_id: 7 })
    );
    assert_eq!(parse_socket_address("1.2.3.4:65536"), None);
    assert_eq!(parse_socket_address("1.2.3.4:"), None);
    assert_eq!(parse_socket_address("::1:443"), None);
    assert_eq!(parse_socket_address("[::1]"), None);
}
