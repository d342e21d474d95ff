//! Startup configuration: port validation and the all-or-nothing TLS pair.
use serve::config::{
    listen_address, parse_port, resolve_config, ConfigError, DEFAULT_PORT, MIN_PORT,
};

fn bytes(s: &str) -> Vec<u8> {
    s.as_bytes().to_vec()
}

#[test]
fn ports_in_range_parse() {
    assert_eq!(parse_port(&bytes("8000")), Ok(8000));
    assert_eq!(parse_port(&bytes("8080")), Ok(8080));
    assert_eq!(parse_port(&bytes("65535")), Ok(65535));
    assert_eq!(parse_port(&bytes("008080")), Ok(8080));
}

#[test]
fn ports_below_the_minimum_are_out_of_range() {
    assert_eq!(parse_port(&bytes("7999")), Err(ConfigError::PortOutOfRange));
    assert_eq!(parse_port(&bytes("0")), Err(ConfigError::PortOutOfRange));
    assert_eq!(MIN_PORT, 8000);
}

#[test]
fn malformed_ports_are_invalid() {
    assert_eq!(parse_port(&bytes("")), Err(ConfigError::PortInvalid));
    assert_eq!(parse_port(&bytes("80a0")), Err(ConfigError::PortInvalid));
    assert_eq!(parse_port(&bytes("-1")), Err(ConfigError::PortInvalid));
    assert_eq!(parse_port(&bytes("65536")), Err(ConfigError::PortInvalid));
    assert_eq!(parse_port(&bytes("999999999999")), Err(ConfigError::PortInvalid));
    assert_eq!(parse_port(&bytes(" 8080")), Err(ConfigError::PortInvalid));
}

#[test]
fn missing_port_takes_the_default() {
    let c = resolve_config(None, None, None).expect("default configuration resolves");
    assert_eq!(c.port, DEFAULT_PORT);
    assert!(c.tls.is_none());
}

#[test]
fn tls_pair_is_accepted_whole() {
    let c = resolve_config(
        Some(bytes("8443")),
        Some("cert.pem".to_string()),
        Some("key.pem".to_string()),
    )
    .expect("a full TLS pair resolves");
    assert_eq!(c.port, 8443);
    let tls = c.tls.expect("the pair is kept");
    assert_eq!(tls.cert, "cert.pem");
    assert_eq!(tls.key, "key.pem");
}

#[test]
fn half_a_tls_pair_is_a_startup_error() {
    let cert_only = resolve_config(None, Some("cert.pem".to_string()), None);
    assert!(matches!(cert_only, Err(ConfigError::TlsIncomplete)));
    let key_only = resolve_config(None, None, Some("key.pem".to_string()));
    assert!(matches!(key_only, Err(ConfigError::TlsIncomplete)));
}

#[test]
fn bad_port_is_reported_before_incomplete_tls() {
    let r = resolve_config(Some(bytes("nope")), Some("cert.pem".to_string()), None);
    assert!(matches!(r, Err(ConfigError::PortInvalid)));
}

#[test]
fn the_listen_address_is_all_interfaces() {
    assert_eq!(listen_address(), bytes("0.0.0.0"));
}
