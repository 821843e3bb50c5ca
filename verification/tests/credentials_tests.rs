use ironposh_client_core::connector::auth::{ActionReqired, SspiStatus};
use ironposh_client_core::connector::config::{AuthenticatorConfig, SspiAuthConfig, TlsOptions};
use ironposh_client_core::connector::connection_pool::{SecContextInited, TrySend};
use ironposh_client_core::connector::http::{HttpBody, HttpResponse, ServerAddress};
use ironposh_client_core::connector::sspi_context::{context_requirements, PackageKind, SspiContext, SspiPackage};
use ironposh_client_core::connector::transport::{TransportSecurity, WinRmConfig};
use ironposh_client_core::connector::Connector;
use ironposh_client_core::credentials::{ClientAuthIdentity, ClientUserName, UserNameFormat};
use ironposh_client_core::PwshCoreError;

fn identity() -> ClientAuthIdentity {
    ClientAuthIdentity::new(ClientUserName::new("administrator", None).unwrap(), "DevoLabs123!".to_string())
}

fn kind(c: &SspiContext) -> PackageKind {
    match c.package {
        SspiPackage::Ntlm { .. } => PackageKind::Ntlm,
        SspiPackage::Kerberos { .. } => PackageKind::Kerberos,
        SspiPackage::Negotiate { .. } => PackageKind::Negotiate,
    }
}

#[test]
fn upn_names_join_account_and_suffix() {
    let n = ClientUserName::new_upn("user", "example.com").unwrap();
    assert_eq!(n.inner(), "user@example.com");
    assert_eq!(n.format(), UserNameFormat::UserPrincipalName);
    assert_eq!(n.account_name(), "user");
    assert_eq!(n.domain_name(), Some("example.com"));
}

#[test]
fn upn_names_refuse_mixed_separators() {
    assert!(matches!(
        ClientUserName::new_upn("dom\\user", "example.com"),
        Err(PwshCoreError::UsernameError("failed to create UPN username"))
    ));
    assert!(ClientUserName::new_upn("user", "ex@ample").is_err());
}

#[test]
fn down_level_names_put_the_domain_first() {
    let n = ClientUserName::new_down_level_logon_name("user", "DOM").unwrap();
    assert_eq!(n.inner(), "DOM\\user");
    assert_eq!(n.format(), UserNameFormat::DownLevelLogonName);
    assert_eq!(n.account_name(), "user");
    assert_eq!(n.domain_name(), Some("DOM"));

    let bare = ClientUserName::new_down_level_logon_name("user", "").unwrap();
    assert_eq!(bare.inner(), "user");
    assert_eq!(bare.domain_name(), None);

    assert!(matches!(
        ClientUserName::new_down_level_logon_name("user@x", ""),
        Err(PwshCoreError::UsernameError("failed to create down-level logon name"))
    ));
}

#[test]
fn new_uses_the_domain_only_when_it_is_not_empty() {
    let with_domain = ClientUserName::new("user", Some("DOM")).unwrap();
    assert_eq!(with_domain.inner(), "DOM\\user");
    let parsed = ClientUserName::new("user@realm.local", Some("")).unwrap();
    assert_eq!(parsed.format(), UserNameFormat::UserPrincipalName);
    assert_eq!(parsed.account_name(), "user");
    assert_eq!(parsed.domain_name(), Some("realm.local"));
    let bare = ClientUserName::new("administrator", None).unwrap();
    assert_eq!(bare.inner(), "administrator");
    assert_eq!(bare.format(), UserNameFormat::DownLevelLogonName);
    assert_eq!(bare.domain_name(), None);
}

#[test]
fn parse_reads_both_formats() {
    let dl = ClientUserName::parse("CONTOSO\\alice").unwrap();
    assert_eq!(dl.format(), UserNameFormat::DownLevelLogonName);
    assert_eq!(dl.account_name(), "alice");
    assert_eq!(dl.domain_name(), Some("CONTOSO"));
    let upn = ClientUserName::parse("alice@contoso.com").unwrap();
    assert_eq!(upn.format(), UserNameFormat::UserPrincipalName);
    assert_eq!(upn.domain_name(), Some("contoso.com"));
    assert!(matches!(
        ClientUserName::parse("a\\b\\c"),
        Err(PwshCoreError::UsernameError("failed to parse username"))
    ));
}

#[test]
fn context_requirements_add_sealing_flags() {
    assert_eq!(context_requirements(false), 0x102);
    assert_eq!(context_requirements(true), 0x1_0112);
}

#[test]
fn ntlm_context_is_made_with_the_spn() {
    let ctx = SspiContext::new(SspiAuthConfig::NTLM { target: "server.example".to_string(), identity: identity() }).unwrap();
    assert_eq!(kind(&ctx), PackageKind::Ntlm);
    assert_eq!(ctx.sspi_auth_config.target_name, "HTTP/server.example");
    assert!(ctx.out.is_empty());
    assert!(ctx.inbuf.is_none());
}

#[test]
fn take_input_reads_the_negotiate_challenge() {
    let mut ctx = SspiContext::new(SspiAuthConfig::NTLM { target: "h".to_string(), identity: identity() }).unwrap();
    let challenge = HttpResponse {
        status_code: 401,
        headers: vec![("WWW-Authenticate".to_string(), "Negotiate AQID".to_string())],
        body: HttpBody::Empty,
        peer_cert_der: None,
    };
    ctx.take_input(Some(&challenge)).unwrap();
    assert_eq!(ctx.inbuf, Some(vec![1, 2, 3]));
    let bare = HttpResponse { status_code: 401, headers: vec![], body: HttpBody::Empty, peer_cert_der: None };
    assert!(matches!(ctx.take_input(Some(&bare)), Err(PwshCoreError::Auth("no Negotiate token"))));
    ctx.clear_for_next_round();
    assert!(ctx.inbuf.is_none());
    ctx.take_input(None).unwrap();
    assert!(ctx.inbuf.is_none());
}

#[test]
fn finish_round_hands_the_token_over() {
    let mut ctx = SspiContext::new(SspiAuthConfig::NTLM { target: "h".to_string(), identity: identity() }).unwrap();
    ctx.out = vec![1, 2, 3];
    match ctx.finish_round(SspiStatus::ContinueNeeded) {
        Ok(ActionReqired::TryInitSecContextAgain { token }) => assert_eq!(token.0, "Negotiate AQID"),
        _ => panic!("a token is expected"),
    }
    assert!(ctx.out.is_empty());
    assert!(matches!(ctx.finish_round(SspiStatus::Complete), Ok(ActionReqired::Done { token: None })));
}

fn ntlm_pool_config(transport: TransportSecurity) -> WinRmConfig {
    WinRmConfig {
        server: (ServerAddress::Ip("10.10.0.3".to_string()), 5985),
        transport,
        authentication: AuthenticatorConfig::Sspi(SspiAuthConfig::NTLM {
            target: "10.10.0.3".to_string(),
            identity: identity(),
        }),
        tls: TlsOptions::default(),
        configuration_name: None,
    }
}

#[test]
fn sspi_handshake_continues_on_the_same_connection() {
    let mut connector = Connector::new(&ntlm_pool_config(TransportSecurity::Http));
    let step = connector.start("<rsp:Shell/>").unwrap();
    let ts = match step {
        ironposh_client_core::connector::ConnectorStepResult::SendBack { try_send } => try_send,
        _ => panic!("expected SendBack"),
    };
    let mut seq = match ts {
        TrySend::AuthNeeded { auth_sequence } => auth_sequence,
        _ => panic!("SSPI needs a handshake"),
    };
    let conn = seq.conn_id;
    seq.prepare_round(None).unwrap();
    seq.auth_sequence.context.out = vec![0x4e, 0x54];
    match seq.process_sec_ctx_init(SspiStatus::ContinueNeeded).unwrap() {
        SecContextInited::Continue { request, sequence } => {
            assert_eq!(request.connection_id, conn);
            assert_eq!(sequence.conn_id, conn);
            let auth = request.request.headers.iter().find(|(k, _)| k == "Authorization").map(|(_, v)| v.clone());
            assert_eq!(auth.as_deref(), Some("Negotiate TlQ="));
            assert!(matches!(request.request.body, Some(HttpBody::Empty)));
        }
        _ => panic!("expected another leg"),
    }
}

#[test]
fn sspi_legs_carry_the_operation_over_tls() {
    let mut connector = Connector::new(&ntlm_pool_config(TransportSecurity::Https));
    let step = connector.start("<rsp:Shell/>").unwrap();
    let ts = match step {
        ironposh_client_core::connector::ConnectorStepResult::SendBack { try_send } => try_send,
        _ => panic!("expected SendBack"),
    };
    let seq = match ts {
        TrySend::AuthNeeded { auth_sequence } => auth_sequence,
        _ => panic!("SSPI needs a handshake"),
    };
    let mut seq = seq;
    seq.auth_sequence.context.out = vec![1];
    match seq.process_sec_ctx_init(SspiStatus::ContinueNeeded).unwrap() {
        SecContextInited::Continue { request, .. } => {
            assert!(matches!(request.request.body, Some(HttpBody::Xml(ref x)) if x == "<rsp:Shell/>"));
        }
        _ => panic!("expected another leg"),
    }
}

#[test]
fn a_round_without_a_known_status_fails() {
    let mut connector = Connector::new(&ntlm_pool_config(TransportSecurity::HttpInsecure));
    let ts = match connector.start("<x/>").unwrap() {
        ironposh_client_core::connector::ConnectorStepResult::SendBack { try_send } => try_send,
        _ => panic!("expected SendBack"),
    };
    let seq = match ts {
        TrySend::AuthNeeded { auth_sequence } => auth_sequence,
        _ => panic!("SSPI needs a handshake"),
    };
    assert!(matches!(seq.process_sec_ctx_init(SspiStatus::Other), Err(PwshCoreError::Auth(_))));
}

#[test]
fn parse_splits_at_the_first_backslash_and_the_last_at() {
    let mixed = ClientUserName::parse("MicrosoftAccount\\user@example.com").unwrap();
    assert_eq!(mixed.format(), UserNameFormat::DownLevelLogonName);
    assert_eq!(mixed.domain_name(), Some("MicrosoftAccount"));
    assert_eq!(mixed.account_name(), "user@example.com");
    let qualified = ClientUserName::parse(".\\AzureAD\\user@example.com").unwrap();
    assert_eq!(qualified.inner(), "AzureAD\\user@example.com");
    assert_eq!(qualified.domain_name(), Some("AzureAD"));
    let local = ClientUserName::parse(".\\alice").unwrap();
    assert_eq!(local.domain_name(), Some("."));
    assert_eq!(local.account_name(), "alice");
    let upn = ClientUserName::parse("a@b@contoso.com").unwrap();
    assert_eq!(upn.format(), UserNameFormat::UserPrincipalName);
    assert_eq!(upn.account_name(), "a@b");
    assert_eq!(upn.domain_name(), Some("contoso.com"));
    let no_domain = ClientUserName::parse("\\alice").unwrap();
    assert_eq!(no_domain.inner(), "alice");
    assert_eq!(no_domain.domain_name(), None);
    assert!(matches!(
        ClientUserName::parse("\\\\alice"),
        Err(PwshCoreError::UsernameError("failed to parse username"))
    ));
    let bare = ClientUserName::parse("alice").unwrap();
    assert_eq!(bare.format(), UserNameFormat::DownLevelLogonName);
    assert_eq!(bare.account_name(), "alice");
    assert_eq!(bare.domain_name(), None);
}
