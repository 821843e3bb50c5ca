use ironposh_client_core::connector::config::{AuthenticatorConfig, TlsOptions};
use ironposh_client_core::connector::http::ServerAddress;
use ironposh_client_core::connector::transport::{Scheme, TransportSecurity, WinRmConfig};

fn config_with_configuration_name(configuration_name: Option<String>) -> WinRmConfig {
    WinRmConfig {
        server: (ServerAddress::Ip("127.0.0.1".to_string()), 5985),
        transport: TransportSecurity::HttpInsecure,
        authentication: AuthenticatorConfig::Basic {
            username: "user".to_string(),
            password: "pass".to_string(),
        },
        tls: TlsOptions::default(),
        configuration_name,
    }
}

#[test]
fn tls_options_default_is_secure() {
    let tls = TlsOptions::default();
    assert!(!tls.accept_invalid_certs);
    assert!(!tls.accept_invalid_hostnames);
    assert!(tls.extra_ca_pem.is_none());
}

#[test]
fn shell_resource_uri_defaults_to_microsoft_powershell() {
    let config = config_with_configuration_name(None);
    assert_eq!(
        config.shell_resource_uri(),
        "http://schemas.microsoft.com/powershell/Microsoft.PowerShell"
    );
}

#[test]
fn shell_resource_uri_uses_configuration_name() {
    let config = config_with_configuration_name(Some("MyJEAEndpoint".to_owned()));
    assert_eq!(
        config.shell_resource_uri(),
        "http://schemas.microsoft.com/powershell/MyJEAEndpoint"
    );
}

#[test]
fn wsman_address_drops_leading_question_marks() {
    let config = config_with_configuration_name(None);
    assert_eq!(config.wsman_to(None), "http://127.0.0.1:5985/wsman");
    assert_eq!(config.wsman_to(Some("??a=b")), "http://127.0.0.1:5985/wsman?a=b");
    let mut https = config_with_configuration_name(None);
    https.transport = TransportSecurity::Https;
    https.server = (ServerAddress::Domain("host.example".to_string()), 5986);
    assert_eq!(https.wsman_to(Some("x")), "https://host.example:5986/wsman?x");
}

#[test]
fn transport_security_settings() {
    assert_eq!(TransportSecurity::Http.scheme(), Scheme::Http);
    assert_eq!(TransportSecurity::HttpInsecure.scheme(), Scheme::Http);
    assert_eq!(TransportSecurity::Https.scheme(), Scheme::Https);
    assert!(TransportSecurity::Http.requires_sspi_sealing());
    assert!(!TransportSecurity::Https.requires_sspi_sealing());
    assert!(!TransportSecurity::HttpInsecure.requires_sspi_sealing());
    assert!(TransportSecurity::Http.is_secure());
    assert!(TransportSecurity::Https.is_secure());
    assert!(!TransportSecurity::HttpInsecure.is_secure());
}
