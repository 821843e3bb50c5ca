use ironposh_client_core::connector::auth::{
    basic_auth_header_value, parse_negotiate_token, token_header_from,
    ActionReqired, SspiAuthenticator, SspiConfig, SspiStatus,
};
use ironposh_client_core::connector::connection_pool::tls_server_end_point_channel_bindings;
use ironposh_client_core::PwshCoreError;

#[test]
fn basic_header_encodes_credentials() {
    assert_eq!(basic_auth_header_value("user", "pass"), "Basic dXNlcjpwYXNz");
    assert_eq!(token_header_from(b"hello"), Some("Negotiate aGVsbG8=".to_string()));
    let good = vec![("WWW-Authenticate".to_string(), "Negotiate aGVsbG8=".to_string())];
    assert_eq!(parse_negotiate_token(&good), Some(b"hello".to_vec()));
    let padded = vec![("www-authenticate".to_string(), "negotiate  aGVsbG8=  ".to_string())];
    assert_eq!(parse_negotiate_token(&padded), Some(b"hello".to_vec()));
    let bad = vec![("WWW-Authenticate".to_string(), "Negotiate not base64!".to_string())];
    assert_eq!(parse_negotiate_token(&bad), None);
}

#[test]
fn negotiate_token_header() {
    assert_eq!(token_header_from(&[]), None);
    assert_eq!(token_header_from(&[1, 2, 3]), Some("Negotiate AQID".to_string()));
}

#[test]
fn negotiate_token_is_read_case_insensitively() {
    let headers = vec![
        ("Content-Type".to_string(), "text/xml".to_string()),
        ("WWW-AUTHENTICATE".to_string(), "Basic realm=x".to_string()),
        ("www-authenticate".to_string(), "negotiate  AQID ".to_string()),
    ];
    assert_eq!(parse_negotiate_token(&headers), Some(vec![1, 2, 3]));
    assert_eq!(parse_negotiate_token(&vec![]), None);
}

#[test]
fn sspi_target_gets_the_http_service_prefix() {
    assert_eq!(SspiConfig::new("host.example".to_string()).target_name, "HTTP/host.example");
    assert_eq!(SspiConfig::new("HTTP/host.example".to_string()).target_name, "HTTP/host.example");
}

#[test]
fn sspi_round_outcomes() {
    match SspiAuthenticator::process_initialized_sec_context(&[1, 2, 3], SspiStatus::ContinueNeeded) {
        Ok(ActionReqired::TryInitSecContextAgain { token }) => assert_eq!(token.0, "Negotiate AQID"),
        other => panic!("unexpected {other:?}"),
    }
    assert!(matches!(
        SspiAuthenticator::process_initialized_sec_context(&[], SspiStatus::ContinueNeeded),
        Err(PwshCoreError::Auth(_))
    ));
    assert!(matches!(
        SspiAuthenticator::process_initialized_sec_context(&[], SspiStatus::Complete),
        Ok(ActionReqired::Done { token: None })
    ));
    assert!(matches!(
        SspiAuthenticator::process_initialized_sec_context(&[7], SspiStatus::Other),
        Err(PwshCoreError::Auth(_))
    ));
}

#[test]
fn channel_bindings_hash_the_certificate() {
    let cb = tls_server_end_point_channel_bindings(b"certificate");
    // 32-byte SEC_CHANNEL_BINDINGS header with the application data at offset 32.
    assert_eq!(cb.len(), 32 + 21 + 32);
    assert_eq!(&cb[0..24], &[0u8; 24]);
    assert_eq!(&cb[24..28], &[53, 0, 0, 0]);
    assert_eq!(&cb[28..32], &[32, 0, 0, 0]);
    assert_eq!(&cb[32..53], b"tls-server-end-point:");
    let expected: [u8; 32] = [
        0x03, 0xd6, 0x6d, 0xd0, 0x88, 0x35, 0xc1, 0xca, 0x3f, 0x12, 0x8c, 0xce, 0xac, 0xd1, 0xf3, 0x1a,
        0xc9, 0x41, 0x63, 0x09, 0x6b, 0x20, 0xf4, 0x45, 0xae, 0x84, 0x28, 0x5b, 0xc0, 0x83, 0x2d, 0x72,
    ];
    assert_eq!(&cb[53..], &expected[..]);
}

#[test]
fn naming_a_target_twice_changes_nothing() {
    let once = SspiConfig::new("  host.example ".to_string()).target_name;
    assert_eq!(once, "HTTP/  host.example ");
    assert_eq!(SspiConfig::new(once.clone()).target_name, once);
    let spaced = SspiConfig::new("\u{3000}HTTP/host".to_string()).target_name;
    assert_eq!(spaced, "\u{3000}HTTP/host");
}
