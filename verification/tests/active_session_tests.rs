use ironposh_client_core::connector::active_session::{
    sort_outputs, ActiveSession, ActiveSessionOutput, ResponseStep, TransportErrorDisposition, UserEvent,
    UserOperation,
};
use ironposh_client_core::connector::config::AuthenticatorConfig;
use ironposh_client_core::connector::connection_pool::{
    AuthSequenceConfig, ConnectionId, ConnectionPool, ConnectionPoolConfig, TrySend,
};
use ironposh_client_core::connector::http::{HttpBody, HttpResponse, HttpResponseTargeted, ServerAddress};
use ironposh_client_core::connector::transport::Scheme;
use ironposh_client_core::host::call::{HostCallScope, HostResponse as HostAnswer, Submission};
use ironposh_client_core::powershell::PipelineHandle;
use ironposh_client_core::runspace_pool::enums::RunspacePoolState;
use ironposh_client_core::runspace_pool::incoming::AcceptResponsResult;
use ironposh_client_core::runspace_pool::lifecycle::{ResponseEnvelope, RunspacePool, SoapFaultInfo};
use ironposh_client_core::PwshCoreError;

const SHELL_ID: &str = "2D6534D0-6B12-40E3-B773-CBA26459CFA8";
const ACTION_BASE: &str = "http://schemas.microsoft.com/wbem/wsman/1/windows/shell/";

fn establish_active_session() -> ActiveSession {
    let mut pool = RunspacePool::new(0x2D6534D06B1240E3B773CBA26459CFA8);
    pool.set_shell_id(SHELL_ID.to_string());
    pool.state = RunspacePoolState::Opened;
    let cfg = ConnectionPoolConfig {
        server: ServerAddress::Ip("127.0.0.1".to_string()),
        port: 5985,
        scheme: Scheme::Http,
    };
    let auth = AuthSequenceConfig::new(
        AuthenticatorConfig::Basic { username: "user".to_string(), password: "pass".to_string() },
        false,
    );
    ActiveSession::new(pool, ConnectionPool::new(cfg, auth))
}

fn sent_conn(out: &ActiveSessionOutput) -> ConnectionId {
    match out {
        ActiveSessionOutput::SendBack(v) => v[0].get_connection_id(),
        _ => panic!("expected SendBack"),
    }
}

fn xml_response(conn_id: ConnectionId, xml: &str) -> HttpResponseTargeted {
    HttpResponseTargeted::new(
        HttpResponse {
            status_code: 200,
            headers: vec![],
            body: HttpBody::Xml(xml.to_string()),
            peer_cert_der: None,
        },
        conn_id,
        None,
    )
}

fn shell_response(action: &str) -> ResponseEnvelope {
    ResponseEnvelope {
        action: Some(format!("{ACTION_BASE}{action}")),
        fault: None,
        has_disconnect_response: action == "DisconnectResponse",
        has_reconnect_response: action == "ReconnectResponse",
    }
}

fn fault_envelope() -> ResponseEnvelope {
    ResponseEnvelope {
        action: Some("http://schemas.dmtf.org/wbem/wsman/1/wsman/fault".to_string()),
        fault: Some(SoapFaultInfo { code: Some("s:Sender".to_string()), reason: Some("schema".to_string()) }),
        has_disconnect_response: false,
        has_reconnect_response: false,
    }
}

fn disconnect(session: &mut ActiveSession) -> ConnectionId {
    let out = session
        .accept_client_operation(UserOperation::Disconnect { disconnect_xml: "<rsp:Disconnect/>".to_string() })
        .expect("accept Disconnect operation");
    sent_conn(&out)
}

fn reconnect(session: &mut ActiveSession) -> ConnectionId {
    let out = session
        .accept_client_operation(UserOperation::Reconnect { reconnect_xml: "<rsp:Reconnect/>".to_string() })
        .expect("accept Reconnect operation");
    sent_conn(&out)
}

/// Runs a response through the connection pool and, while a disconnect or
/// reconnect is in flight, hands the envelope the message layer read from it.
fn respond(session: &mut ActiveSession, conn: ConnectionId, env: &ResponseEnvelope) -> Vec<ActiveSessionOutput> {
    match session.accept_server_response(xml_response(conn, "<s:Envelope/>")).expect("response accepted") {
        ResponseStep::Outputs(v) => v,
        ResponseStep::WhileDisconnecting { conn_id, .. } => {
            session.accept_response_while_disconnecting(env, conn_id).expect("disconnect step")
        }
        ResponseStep::WhileConnecting { conn_id, .. } => {
            session.accept_response_while_connecting(env, conn_id).expect("reconnect step")
        }
        ResponseStep::Psrp { .. } => panic!("unexpected PSRP traffic"),
    }
}

#[test]
fn transport_error_on_dying_receive_is_tolerated_during_disconnect() {
    let mut session = establish_active_session();
    let receive = session.fire_receive("<rsp:Receive/>").unwrap().get_connection_id();
    let disconnect_conn = disconnect(&mut session);
    assert_ne!(receive.inner(), disconnect_conn.inner());
    assert_eq!(session.handle_transport_error(receive), TransportErrorDisposition::Tolerated);
    assert_eq!(session.runspace_pool_state(), RunspacePoolState::Disconnecting);
}

#[test]
fn transport_error_on_disconnect_connection_aborts_disconnect() {
    let mut session = establish_active_session();
    let disconnect_conn = disconnect(&mut session);
    assert_eq!(
        session.handle_transport_error(disconnect_conn),
        TransportErrorDisposition::DisconnectAborted
    );
    assert_eq!(session.runspace_pool_state(), RunspacePoolState::Opened);
}

#[test]
fn transport_error_on_reconnect_connection_aborts_reconnect() {
    let mut session = establish_active_session();
    let disconnect_conn = disconnect(&mut session);
    respond(&mut session, disconnect_conn, &shell_response("DisconnectResponse"));
    assert_eq!(session.runspace_pool_state(), RunspacePoolState::Disconnected);
    let reconnect_conn = reconnect(&mut session);
    assert_eq!(session.runspace_pool_state(), RunspacePoolState::Connecting);
    assert_eq!(
        session.handle_transport_error(reconnect_conn),
        TransportErrorDisposition::ReconnectAborted
    );
    assert_eq!(session.runspace_pool_state(), RunspacePoolState::Disconnected);
}

#[test]
fn transport_error_in_normal_state_is_fatal() {
    let mut session = establish_active_session();
    let receive = session.fire_receive("<rsp:Receive/>").unwrap().get_connection_id();
    assert_eq!(session.handle_transport_error(receive), TransportErrorDisposition::Fatal);
    assert_eq!(session.runspace_pool_state(), RunspacePoolState::Opened);
}

#[test]
fn mistimed_disconnect_reconnect_is_nonfatal() {
    let mut session = establish_active_session();
    let out = session
        .accept_client_operation(UserOperation::Reconnect { reconnect_xml: String::new() })
        .expect("mistimed Reconnect must be non-fatal");
    assert!(matches!(out, ActiveSessionOutput::Ignore));
    assert_eq!(session.runspace_pool_state(), RunspacePoolState::Opened);

    disconnect(&mut session);
    let out = session
        .accept_client_operation(UserOperation::Disconnect { disconnect_xml: String::new() })
        .expect("mistimed Disconnect must be non-fatal");
    assert!(matches!(out, ActiveSessionOutput::Ignore));
    assert_eq!(session.runspace_pool_state(), RunspacePoolState::Disconnecting);
}

#[test]
fn faulted_disconnect_reverts_pool_to_opened() {
    let mut session = establish_active_session();
    let conn_id = disconnect(&mut session);
    assert_eq!(session.runspace_pool_state(), RunspacePoolState::Disconnecting);

    let outputs = respond(&mut session, conn_id, &fault_envelope());
    assert_eq!(session.runspace_pool_state(), RunspacePoolState::Opened);
    assert!(
        outputs.iter().any(|o| matches!(o, ActiveSessionOutput::PendingReceive { .. })),
        "the receive loop must be re-armed"
    );
}

#[test]
fn fault_on_other_connection_while_disconnecting_is_tolerated() {
    let mut session = establish_active_session();
    let out = session
        .accept_client_operation(UserOperation::InvokeWithSpec { uuid: 77, invoke_xml: "<rsp:Command/>".to_string() })
        .expect("invoke pipeline");
    let pipeline_conn_id = sent_conn(&out);
    let disconnect_conn_id = disconnect(&mut session);
    assert_ne!(pipeline_conn_id.inner(), disconnect_conn_id.inner());

    let outputs = respond(&mut session, pipeline_conn_id, &fault_envelope());
    assert_eq!(outputs.len(), 1);
    assert!(matches!(outputs[0], ActiveSessionOutput::Ignore));
    assert_eq!(session.runspace_pool_state(), RunspacePoolState::Disconnecting);

    respond(&mut session, disconnect_conn_id, &shell_response("DisconnectResponse"));
    assert_eq!(session.runspace_pool_state(), RunspacePoolState::Disconnected);
}

#[test]
fn disconnect_reconnect_through_active_session() {
    let mut session = establish_active_session();
    let conn = disconnect(&mut session);
    let outs = respond(&mut session, conn, &shell_response("DisconnectResponse"));
    assert!(matches!(outs[..], [ActiveSessionOutput::OperationSuccess]));
    assert_eq!(session.runspace_pool_state(), RunspacePoolState::Disconnected);

    let conn = reconnect(&mut session);
    let outs = respond(&mut session, conn, &shell_response("ReconnectResponse"));
    assert_eq!(session.runspace_pool_state(), RunspacePoolState::Opened);
    assert_eq!(outs.len(), 2);
    assert!(matches!(outs[0], ActiveSessionOutput::OperationSuccess));
    match &outs[1] {
        ActiveSessionOutput::PendingReceive { desired_streams } => {
            assert_eq!(desired_streams.len(), 1);
            assert_eq!(desired_streams[0].command_id, None);
        }
        _ => panic!("expected PendingReceive"),
    }
    assert_eq!(session.shell_id().as_deref(), Some(SHELL_ID));
}

#[test]
fn reconnect_resumes_active_pipeline_streams() {
    let mut session = establish_active_session();
    session
        .accept_client_operation(UserOperation::InvokeWithSpec { uuid: 5, invoke_xml: "<rsp:Command/>".to_string() })
        .expect("invoke pipeline");
    let conn = disconnect(&mut session);
    respond(&mut session, conn, &shell_response("DisconnectResponse"));
    let conn = reconnect(&mut session);
    let outs = respond(&mut session, conn, &shell_response("ReconnectResponse"));
    assert_eq!(session.runspace_pool_state(), RunspacePoolState::Opened);
    match &outs[1] {
        ActiveSessionOutput::PendingReceive { desired_streams } => {
            let ids: Vec<Option<u128>> = desired_streams.iter().map(|s| s.command_id).collect();
            assert_eq!(ids, vec![Some(5)]);
        }
        _ => panic!("expected PendingReceive"),
    }
}

#[test]
fn invoke_is_refused_unless_opened() {
    let mut session = establish_active_session();
    disconnect(&mut session);
    let out = session
        .accept_client_operation(UserOperation::InvokeWithSpec { uuid: 9, invoke_xml: "<x/>".to_string() })
        .unwrap();
    match out {
        ActiveSessionOutput::UserEvent(UserEvent::PipelineFinished { pipeline }) => assert_eq!(pipeline.id, 9),
        _ => panic!("expected PipelineFinished"),
    }
}

#[test]
fn kill_of_unknown_pipeline_is_ignored() {
    let mut session = establish_active_session();
    let out = session
        .accept_client_operation(UserOperation::KillPipeline {
            pipeline: PipelineHandle::new(3),
            kill_xml: "<rsp:Signal/>".to_string(),
        })
        .unwrap();
    assert!(matches!(out, ActiveSessionOutput::Ignore));
    session
        .accept_client_operation(UserOperation::InvokeWithSpec { uuid: 3, invoke_xml: "<x/>".to_string() })
        .unwrap();
    let out = session
        .accept_client_operation(UserOperation::KillPipeline {
            pipeline: PipelineHandle::new(3),
            kill_xml: "<rsp:Signal/>".to_string(),
        })
        .unwrap();
    assert!(matches!(out, ActiveSessionOutput::SendBack(ref v) if v.len() == 1));
}

#[test]
fn host_answers_follow_their_scope() {
    let mut session = establish_active_session();
    let void = session
        .accept_client_operation(UserOperation::SubmitHostResponse {
            submission: Submission::NoSend,
            scope: HostCallScope::RunspacePool,
            call_id: 1,
            response_xml: String::new(),
        })
        .unwrap();
    assert!(matches!(void, ActiveSessionOutput::OperationSuccess));
    let answer = HostAnswer {
        call_id: 2,
        method_id: 11,
        method_name: "11".to_string(),
        method_result: Some("<S>line</S>".to_string()),
    };
    let out = session
        .accept_client_operation(UserOperation::SubmitHostResponse {
            submission: Submission::Send(answer),
            scope: HostCallScope::Pipeline { command_id: 12 },
            call_id: 2,
            response_xml: "<rsp:Send/>".to_string(),
        })
        .unwrap();
    match out {
        ActiveSessionOutput::SendAndThenReceive { then_receive_streams, .. } => {
            assert_eq!(then_receive_streams.len(), 1);
            assert_eq!(then_receive_streams[0].command_id, Some(12));
            assert_eq!(then_receive_streams[0].name, "stdout");
        }
        _ => panic!("expected SendAndThenReceive"),
    }
    let out = session
        .accept_client_operation(UserOperation::CancelHostCall {
            scope: HostCallScope::RunspacePool,
            call_id: 3,
            reason: None,
            response_xml: "<rsp:Send/>".to_string(),
        })
        .unwrap();
    assert!(matches!(out, ActiveSessionOutput::SendAndThenReceive { ref then_receive_streams, .. } if then_receive_streams[0].command_id.is_none()));
}

#[test]
fn retired_straggler_is_ignored_in_any_state() {
    let mut session = establish_active_session();
    let receive = session.fire_receive("<rsp:Receive/>").unwrap().get_connection_id();
    session.retire_connections(vec![receive]);
    match session.accept_server_response(xml_response(receive, "<late/>")).unwrap() {
        ResponseStep::Outputs(v) => assert!(matches!(v[..], [ActiveSessionOutput::Ignore])),
        _ => panic!("expected the straggler to be ignored"),
    }
    // Once consumed, the same connection is no longer retired.
    assert_eq!(session.handle_transport_error(receive), TransportErrorDisposition::Fatal);
}

#[test]
fn plain_traffic_goes_to_the_psrp_layer() {
    let mut session = establish_active_session();
    let receive = session.fire_receive("<rsp:Receive/>").unwrap().get_connection_id();
    match session.accept_server_response(xml_response(receive, "<body/>")).unwrap() {
        ResponseStep::Psrp { xml_body } => assert_eq!(xml_body, "<body/>"),
        _ => panic!("expected PSRP traffic"),
    }
}

#[test]
fn psrp_results_are_ordered_by_priority() {
    let mut session = establish_active_session();
    let results = vec![
        AcceptResponsResult::PipelineOutput { output: "a".to_string(), handle: PipelineHandle::new(1) },
        AcceptResponsResult::ReceiveResponse { desired_streams: vec![] },
        AcceptResponsResult::PipelineFinished(PipelineHandle::new(1)),
    ];
    let outs = session.accept_psrp_results(results).unwrap();
    let prios: Vec<u8> = outs.iter().map(|o| o.priority()).collect();
    assert_eq!(prios, vec![2, 4, 4]);
    assert!(matches!(&outs[1], ActiveSessionOutput::UserEvent(UserEvent::PipelineOutput { .. })));
    assert!(matches!(&outs[2], ActiveSessionOutput::UserEvent(UserEvent::PipelineFinished { .. })));
}

#[test]
fn sort_is_stable_by_priority() {
    let outs = vec![
        ActiveSessionOutput::Ignore,
        ActiveSessionOutput::UserEvent(UserEvent::PipelineCreated { pipeline: PipelineHandle::new(1) }),
        ActiveSessionOutput::OperationSuccess,
        ActiveSessionOutput::SendBackError(PwshCoreError::InternalError("x".to_string())),
        ActiveSessionOutput::UserEvent(UserEvent::PipelineCreated { pipeline: PipelineHandle::new(2) }),
        ActiveSessionOutput::PendingReceive { desired_streams: vec![] },
    ];
    let sorted = sort_outputs(outs);
    let prios: Vec<u8> = sorted.iter().map(|o| o.priority()).collect();
    assert_eq!(prios, vec![2, 3, 4, 4, 5, 6]);
    match (&sorted[2], &sorted[3]) {
        (
            ActiveSessionOutput::UserEvent(UserEvent::PipelineCreated { pipeline: a }),
            ActiveSessionOutput::UserEvent(UserEvent::PipelineCreated { pipeline: b }),
        ) => assert_eq!((a.id, b.id), (1, 2)),
        _ => panic!("unexpected order"),
    }
}

#[test]
fn operation_names() {
    assert_eq!(UserOperation::Disconnect { disconnect_xml: String::new() }.operation_type(), "Disconnect");
    assert_eq!(
        UserOperation::KillPipeline { pipeline: PipelineHandle::new(1), kill_xml: String::new() }.operation_type(),
        "KillPipeline"
    );
    let ev = UserEvent::ErrorRecord { error_record: "e".to_string(), handle: PipelineHandle::new(4) };
    assert_eq!(ev.pipeline_id(), 4);
}

#[test]
fn basic_auth_request_reaches_the_pool() {
    let mut session = establish_active_session();
    let ts = session.fire_receive("<rsp:Receive/>").unwrap();
    match ts {
        TrySend::JustSend { request, .. } => {
            let auth = request.headers.iter().find(|(k, _)| k == "Authorization").map(|(_, v)| v.clone());
            assert_eq!(auth.as_deref(), Some("Basic dXNlcjpwYXNz"));
            assert_eq!(request.url, "http://127.0.0.1:5985/wsman?PSVersion=7.4.11");
        }
        _ => panic!("expected JustSend"),
    }
}
