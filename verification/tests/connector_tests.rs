use ironposh_client_core::connector::config::{AuthenticatorConfig, TlsOptions};
use ironposh_client_core::connector::connection_pool::{
    AuthSequenceConfig, ConnectionId, ConnectionPool, ConnectionPoolAccept, ConnectionPoolConfig, TrySend, TrySendExt,
};
use ironposh_client_core::connector::http::{HttpBody, HttpResponse, HttpResponseTargeted, ServerAddress};
use ironposh_client_core::connector::transport::{TransportSecurity, WinRmConfig};
use ironposh_client_core::connector::{Connector, ConnectorResponse, ConnectorStepResult};
use ironposh_client_core::runspace_pool::enums::RunspacePoolState;
use ironposh_client_core::runspace_pool::lifecycle::{ConnectMessage, RunspacePool};
use ironposh_client_core::PwshCoreError;

fn test_config() -> WinRmConfig {
    WinRmConfig {
        server: (ServerAddress::Ip("10.10.0.3".to_string()), 5985),
        transport: TransportSecurity::HttpInsecure,
        authentication: AuthenticatorConfig::Basic {
            username: "administrator".to_string(),
            password: "password".to_string(),
        },
        tls: TlsOptions::default(),
        configuration_name: None,
    }
}

fn response(ts: &TrySend, xml: &str) -> HttpResponseTargeted {
    HttpResponseTargeted::new(
        HttpResponse { status_code: 200, headers: vec![], body: HttpBody::Xml(xml.to_string()), peer_cert_der: None },
        ts.get_connection_id(),
        None,
    )
}

fn sent(step: ConnectorStepResult) -> TrySend {
    match step {
        ConnectorStepResult::SendBack { try_send } => try_send,
        ConnectorStepResult::Connected { .. } => panic!("expected SendBack"),
    }
}

fn body_of(r: ConnectorResponse) -> String {
    match r {
        ConnectorResponse::Body { xml } => xml,
        ConnectorResponse::SendBack { .. } => panic!("expected a body"),
    }
}

#[test]
fn idle_step_emits_shell_create() {
    let mut connector = Connector::new(&test_config());
    let step = connector.start("<rsp:Shell/>").expect("Idle step must succeed");
    assert_eq!(step.name(), "SendBack");
    assert_eq!(step.priority(), 1);
    match sent(step) {
        TrySend::JustSend { request, conn_id } => {
            assert_eq!(conn_id.inner(), 1);
            assert_eq!(request.url, "http://10.10.0.3:5985/wsman?PSVersion=7.4.11");
            assert!(matches!(request.body, Some(HttpBody::Xml(ref x)) if x == "<rsp:Shell/>"));
        }
        _ => panic!("Basic authentication sends at once"),
    }
}

#[test]
fn handshake_reaches_connected() {
    let mut connector = Connector::new(&test_config());
    let create = sent(connector.start("<rsp:Shell/>").unwrap());
    let created = body_of(connector.accept(response(&create, "<rsp:ShellCreated/>")).unwrap());
    assert_eq!(created, "<rsp:ShellCreated/>");

    let mut pool = RunspacePool::new(1);
    pool.open().unwrap();
    let receive = sent(connector.shell_ready(pool, "<rsp:Receive/>").unwrap());
    let _ = body_of(connector.accept(response(&receive, "<rsp:ReceiveResponse/>")).unwrap());
    let receive = sent(connector.receive_cycle(RunspacePoolState::NegotiationSent, Some("<rsp:Receive/>".to_string())).unwrap());
    let _ = body_of(connector.accept(response(&receive, "<rsp:ReceiveResponse/>")).unwrap());
    match connector.receive_cycle(RunspacePoolState::Opened, Some("<rsp:Receive/>".to_string())).unwrap() {
        ConnectorStepResult::Connected { active_session, send_this_one_async_or_you_stuck } => {
            assert_eq!(active_session.runspace_pool_state(), RunspacePoolState::Opened);
            assert!(matches!(send_this_one_async_or_you_stuck, TrySend::JustSend { .. }));
        }
        ConnectorStepResult::SendBack { .. } => panic!("expected Connected"),
    }
    // A connected connector takes no more steps.
    assert!(matches!(connector.start("<x/>"), Err(PwshCoreError::InvalidState(_))));
}

#[test]
fn connect_mode_emits_wsman_connect() {
    let mut connector = Connector::new_connect(&test_config(), 0x2D6534D06B1240E3B773CBA26459CFA8);
    let ts = sent(connector.start("<rsp:Connect/>").unwrap());
    assert_eq!(ts.get_connection_id().inner(), 1);
}

#[test]
fn connect_mode_reaches_connected() {
    let mut connector = Connector::new_connect(&test_config(), 7);
    let connect = sent(connector.start("<rsp:Connect/>").unwrap());
    let _ = body_of(connector.accept(response(&connect, "<rsp:ConnectResponse/>")).unwrap());
    let mut pool = RunspacePool::new(7);
    pool.connect().unwrap();
    pool.accept_connect_messages(&vec![
        ConnectMessage::SessionCapability,
        ConnectMessage::RunspacePoolInitData { min_runspaces: 1, max_runspaces: 1 },
    ])
    .unwrap();
    match connector.shell_ready(pool, "<rsp:Receive/>").unwrap() {
        ConnectorStepResult::Connected { active_session, .. } => {
            assert_eq!(active_session.runspace_pool_state(), RunspacePoolState::Opened);
        }
        ConnectorStepResult::SendBack { .. } => panic!("expected Connected"),
    }
}

#[test]
fn receive_cycle_needs_a_receive_response() {
    let mut connector = Connector::new(&test_config());
    let create = sent(connector.start("<rsp:Shell/>").unwrap());
    let _ = connector.accept(response(&create, "<a/>")).unwrap();
    let mut pool = RunspacePool::new(1);
    pool.open().unwrap();
    let _ = connector.shell_ready(pool, "<rsp:Receive/>").unwrap();
    assert!(matches!(
        connector.receive_cycle(RunspacePoolState::NegotiationSent, None),
        Err(PwshCoreError::InvalidState(_))
    ));
    // The failed step leaves the connector idle: it may start over.
    assert!(connector.start("<rsp:Shell/>").is_ok());
}

#[test]
fn steps_out_of_order_are_invalid() {
    let mut connector = Connector::new(&test_config());
    let pool = RunspacePool::new(1);
    assert!(matches!(connector.shell_ready(pool, "<x/>"), Err(PwshCoreError::InvalidState(_))));
    assert!(matches!(
        connector.receive_cycle(RunspacePoolState::Opened, Some(String::new())),
        Err(PwshCoreError::InvalidState(_))
    ));
}

#[test]
fn answered_connection_carries_the_next_request() {
    let cfg = test_config();
    let mut pool = ConnectionPool::new(
        ConnectionPoolConfig::from_config(&cfg),
        AuthSequenceConfig::new(cfg.authentication.clone(), false),
    );
    let first = pool.send("<a/>").unwrap();
    let id = first.get_connection_id();
    let answer = HttpResponseTargeted::new(
        HttpResponse { status_code: 200, headers: vec![], body: HttpBody::Xml("<ok/>".to_string()), peer_cert_der: None },
        id,
        None,
    );
    assert!(matches!(pool.accept(answer).unwrap(), ConnectionPoolAccept::Body(ref b) if b == "<ok/>"));
    let second = pool.send("<b/>").unwrap();
    assert!(matches!(second, TrySend::JustSend { .. }));
    assert_eq!(second.get_connection_id(), id);
}

#[test]
fn just_send_unwraps_to_its_request_and_connection() {
    let cfg = test_config();
    let mut pool = ConnectionPool::new(
        ConnectionPoolConfig::from_config(&cfg),
        AuthSequenceConfig::new(cfg.authentication.clone(), false),
    );
    let ts = pool.send("<a/>").unwrap();
    let id = ts.get_connection_id();
    let out = ts.expect_just_send();
    assert_eq!(out.conn_id, id);
    assert!(matches!(out.request.body, Some(HttpBody::Xml(ref x)) if x == "<a/>"));
}

#[test]
fn connector_awaits_the_shell_until_it_is_ready() {
    let mut connector = Connector::new(&test_config());
    assert!(!connector.awaits_shell());
    let create = sent(connector.start("<rsp:Shell/>").unwrap());
    assert!(connector.awaits_shell());
    let _ = body_of(connector.accept(response(&create, "<rsp:ShellCreated/>")).unwrap());
    assert!(connector.awaits_shell());
    let mut pool = RunspacePool::new(1);
    pool.open().unwrap();
    let _ = connector.shell_ready(pool, "<rsp:Receive/>").unwrap();
    assert!(!connector.awaits_shell());
}

#[test]
fn server_address_prefers_the_ip_form() {
    assert!(matches!(
        ServerAddress::parse("127.0.0.1", Some("127.0.0.1".to_string())),
        Ok(ServerAddress::Ip(ref ip)) if ip == "127.0.0.1"
    ));
    assert!(matches!(
        ServerAddress::parse("winrm.example.com", None),
        Ok(ServerAddress::Domain(ref d)) if d == "winrm.example.com"
    ));
    assert!(matches!(
        ServerAddress::parse("  \t", None),
        Err(PwshCoreError::InvalidServerAddress("server address cannot be empty"))
    ));
    assert!(matches!(ServerAddress::parse("", None), Err(PwshCoreError::InvalidServerAddress(_))));
}

#[test]
fn responses_on_unknown_or_idle_connections_are_refused() {
    let cfg = test_config();
    let mut pool = ConnectionPool::new(
        ConnectionPoolConfig::from_config(&cfg),
        AuthSequenceConfig::new(cfg.authentication.clone(), false),
    );
    let ok = |id: ConnectionId| {
        HttpResponseTargeted::new(
            HttpResponse { status_code: 200, headers: vec![], body: HttpBody::Xml("<ok/>".to_string()), peer_cert_der: None },
            id,
            None,
        )
    };
    assert!(matches!(
        pool.accept(ok(ConnectionId::test_new(999))),
        Err(PwshCoreError::InvalidState("Unknown connection"))
    ));
    let first = pool.send("<a/>").unwrap();
    let id = first.get_connection_id();
    assert!(matches!(pool.accept(ok(id)).unwrap(), ConnectionPoolAccept::Body(_)));
    assert!(matches!(pool.accept(ok(id)), Err(PwshCoreError::InvalidState("Connection was idle"))));
}

#[test]
fn reused_basic_connection_carries_the_basic_header() {
    let cfg = test_config();
    let mut pool = ConnectionPool::new(
        ConnectionPoolConfig::from_config(&cfg),
        AuthSequenceConfig::new(cfg.authentication.clone(), false),
    );
    let first = pool.send("<a/>").unwrap();
    let id = first.get_connection_id();
    assert_eq!(id.inner(), 1);
    let answer = HttpResponseTargeted::new(
        HttpResponse { status_code: 200, headers: vec![], body: HttpBody::Xml("<ok/>".to_string()), peer_cert_der: None },
        id,
        None,
    );
    pool.accept(answer).unwrap();
    let out = pool.send("<b/>").unwrap().expect_just_send();
    assert_eq!(out.conn_id.inner(), 1);
    assert!(out
        .request
        .headers
        .iter()
        .any(|(k, v)| k == "Authorization" && v == "Basic YWRtaW5pc3RyYXRvcjpwYXNzd29yZA=="));
    assert!(matches!(out.request.body, Some(HttpBody::Xml(ref x)) if x == "<b/>"));
    // Without an idle connection a new one is opened, with the next id.
    let third = pool.send("<c/>").unwrap();
    assert_eq!(third.get_connection_id().inner(), 2);
}
