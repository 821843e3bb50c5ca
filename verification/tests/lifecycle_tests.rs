use ironposh_client_core::runspace_pool::enums::{PsInvocationState, RunspacePoolState};
use ironposh_client_core::runspace_pool::incoming::{AcceptResponsResult, FaultKind};
use ironposh_client_core::runspace_pool::lifecycle::{
    ConnectMessage, PipelineEntry, ResponseEnvelope, RunspacePool, SoapFaultInfo,
};
use ironposh_client_core::PwshCoreError;

const SHELL_ID: &str = "2D6534D0-6B12-40E3-B773-CBA26459CFA8";
const ACTION_BASE: &str = "http://schemas.microsoft.com/wbem/wsman/1/windows/shell/";

fn test_pool(state: RunspacePoolState) -> RunspacePool {
    let mut pool = RunspacePool::new(0x2D6534D06B1240E3B773CBA26459CFA8);
    pool.set_shell_id(SHELL_ID.to_string());
    pool.state = state;
    pool
}

/// A response envelope with the given action whose body holds the given element.
fn response_envelope(action: &str, body_element: &str) -> ResponseEnvelope {
    ResponseEnvelope {
        action: Some(format!("{ACTION_BASE}{action}")),
        fault: None,
        has_disconnect_response: body_element == "<rsp:DisconnectResponse/>",
        has_reconnect_response: body_element == "<rsp:ReconnectResponse/>",
    }
}

/// A response envelope with the given action and an empty body, as real servers send.
fn empty_body_response_envelope(action: &str) -> ResponseEnvelope {
    ResponseEnvelope {
        action: Some(format!("{ACTION_BASE}{action}")),
        fault: None,
        has_disconnect_response: false,
        has_reconnect_response: false,
    }
}

/// A schema validation fault.
fn fault_envelope() -> ResponseEnvelope {
    ResponseEnvelope {
        action: Some("http://schemas.dmtf.org/wbem/wsman/1/wsman/fault".to_string()),
        fault: Some(SoapFaultInfo {
            code: Some("s:Sender".to_string()),
            reason: Some(
                "The SOAP XML in the message does not match the corresponding XML schema definition."
                    .to_string(),
            ),
        }),
        has_disconnect_response: false,
        has_reconnect_response: false,
    }
}

fn schema_fault() -> FaultKind {
    FaultKind::Other {
        code: Some("s:Sender".to_string()),
        reason: Some(
            "The SOAP XML in the message does not match the corresponding XML schema definition."
                .to_string(),
        ),
    }
}

#[test]
fn fire_disconnect_requires_opened_state() {
    let mut pool = test_pool(RunspacePoolState::BeforeOpen);
    let result = pool.fire_disconnect();
    assert!(
        matches!(result, Err(PwshCoreError::InvalidState(_))),
        "fire_disconnect must fail outside Opened state, got: {result:?}"
    );
    assert_eq!(pool.state, RunspacePoolState::BeforeOpen);
}

#[test]
fn fire_reconnect_requires_disconnected_state() {
    let mut pool = test_pool(RunspacePoolState::Opened);
    let result = pool.fire_reconnect();
    assert!(
        matches!(result, Err(PwshCoreError::InvalidState(_))),
        "fire_reconnect must fail outside Disconnected state, got: {result:?}"
    );
    assert_eq!(pool.state, RunspacePoolState::Opened);
}

#[test]
fn accept_disconnect_response_requires_disconnecting_state() {
    let mut pool = test_pool(RunspacePoolState::Opened);
    let xml = response_envelope("DisconnectResponse", "<rsp:DisconnectResponse/>");
    let result = pool.accept_disconnect_response(&xml);
    assert!(
        matches!(result, Err(PwshCoreError::InvalidState(_))),
        "accept_disconnect_response must fail outside Disconnecting state, got: {result:?}"
    );
}

#[test]
fn disconnect_then_reconnect_roundtrip() {
    let mut pool = test_pool(RunspacePoolState::Opened);

    pool.fire_disconnect().expect("fire_disconnect");
    assert_eq!(pool.state, RunspacePoolState::Disconnecting);

    let disconnect_response = response_envelope("DisconnectResponse", "<rsp:DisconnectResponse/>");
    pool.accept_disconnect_response(&disconnect_response).expect("accept_disconnect_response");
    assert_eq!(pool.state, RunspacePoolState::Disconnected);

    pool.fire_reconnect().expect("fire_reconnect");
    assert_eq!(pool.state, RunspacePoolState::Connecting);
    assert_eq!(pool.shell_id(), Some(SHELL_ID));

    let reconnect_response = response_envelope("ReconnectResponse", "<rsp:ReconnectResponse/>");
    pool.accept_reconnect_response(&reconnect_response).expect("accept_reconnect_response");
    assert_eq!(pool.state, RunspacePoolState::Opened);
}

#[test]
fn accept_disconnect_response_accepts_empty_body_with_action_header() {
    let mut pool = test_pool(RunspacePoolState::Opened);
    pool.fire_disconnect().expect("fire_disconnect");

    pool.accept_disconnect_response(&empty_body_response_envelope("DisconnectResponse"))
        .expect("real-server DisconnectResponse (empty body + action header) must be accepted");
    assert_eq!(pool.state, RunspacePoolState::Disconnected);
}

#[test]
fn accept_reconnect_response_accepts_empty_body_with_action_header() {
    let mut pool = test_pool(RunspacePoolState::Disconnected);
    pool.fire_reconnect().expect("fire_reconnect");

    pool.accept_reconnect_response(&empty_body_response_envelope("ReconnectResponse"))
        .expect("real-server ReconnectResponse (empty body + action header) must be accepted");
    assert_eq!(pool.state, RunspacePoolState::Opened);
}

#[test]
fn accept_disconnect_response_rejects_unrelated_action_with_empty_body() {
    let mut pool = test_pool(RunspacePoolState::Opened);
    pool.fire_disconnect().expect("fire_disconnect");

    let result = pool.accept_disconnect_response(&empty_body_response_envelope("ReceiveResponse"));
    assert!(
        matches!(result, Err(PwshCoreError::InvalidResponse(_))),
        "unrelated traffic must stay rejected so the tolerance logic can ignore it, got: {result:?}"
    );
    assert_eq!(pool.state, RunspacePoolState::Disconnecting);
}

#[test]
fn abort_reconnect_reverts_connecting_to_disconnected() {
    let mut pool = test_pool(RunspacePoolState::Disconnected);
    pool.fire_reconnect().expect("fire_reconnect");
    assert_eq!(pool.state, RunspacePoolState::Connecting);

    pool.abort_reconnect();
    assert_eq!(pool.state, RunspacePoolState::Disconnected);
}

#[test]
fn abort_reconnect_outside_connecting_is_ignored() {
    let mut pool = test_pool(RunspacePoolState::Opened);
    pool.abort_reconnect();
    assert_eq!(
        pool.state,
        RunspacePoolState::Opened,
        "abort_reconnect must not touch the state outside Connecting"
    );
}

#[test]
fn accept_disconnect_response_surfaces_fault() {
    let mut pool = test_pool(RunspacePoolState::Opened);
    pool.fire_disconnect().expect("fire_disconnect");

    let result = pool.accept_disconnect_response(&fault_envelope());
    assert!(
        matches!(result, Err(PwshCoreError::SoapFault { .. })),
        "a WSMan fault must surface as SoapFault, got: {result:?}"
    );
}

#[test]
fn non_timeout_fault_while_pipeline_stopping_finishes_it() {
    let mut pool = test_pool(RunspacePoolState::Opened);
    let id = uuid::Uuid::new_v4().as_u128();
    pool.pipelines.push(PipelineEntry { id, state: PsInvocationState::Stopping });

    let results = pool
        .accept_fault(&schema_fault())
        .expect("a fault answering a Stopping pipeline must not kill the session");

    assert!(
        results.iter().any(|r| matches!(r, AcceptResponsResult::PipelineFinished(h) if h.id == id)),
        "the stopping pipeline should be reported finished, got: {results:?}"
    );
    assert!(pool.pipelines.is_empty(), "the stopping pipeline should be removed from the pool");
}

#[test]
fn non_timeout_fault_without_stopping_pipeline_stays_fatal() {
    let mut pool = test_pool(RunspacePoolState::Opened);
    let result = pool.accept_fault(&schema_fault());
    assert!(
        matches!(result, Err(PwshCoreError::SoapFault { .. })),
        "a fault unrelated to a stopping pipeline must still be fatal, got: {result:?}"
    );
}

#[test]
fn fault_error_carries_code_and_reason() {
    let mut pool = test_pool(RunspacePoolState::Opened);
    match pool.accept_fault(&FaultKind::Other { code: None, reason: Some("gone".to_string()) }) {
        Err(PwshCoreError::SoapFault { code, reason }) => {
            assert_eq!(code, "unknown");
            assert_eq!(reason, "gone");
        }
        other => panic!("expected a SoapFault, got {other:?}"),
    }
}

#[test]
fn timeout_fault_receives_again_on_active_streams() {
    let mut pool = test_pool(RunspacePoolState::Opened);
    pool.pipelines.push(PipelineEntry { id: 5, state: PsInvocationState::Running });
    let results = pool.accept_fault(&FaultKind::Timeout).unwrap();
    assert_eq!(results.len(), 1);
    match &results[0] {
        AcceptResponsResult::ReceiveResponse { desired_streams } => {
            assert_eq!(desired_streams.len(), 1);
            assert_eq!(desired_streams[0].command_id, Some(5));
            assert_eq!(desired_streams[0].name, "stdout");
        }
        other => panic!("expected a ReceiveResponse, got {other:?}"),
    }
    assert_eq!(pool.pipelines.len(), 1);
}

#[test]
fn invalid_selectors_finishes_every_pipeline() {
    let mut pool = test_pool(RunspacePoolState::Opened);
    pool.pipelines.push(PipelineEntry { id: 1, state: PsInvocationState::Running });
    pool.pipelines.push(PipelineEntry { id: 2, state: PsInvocationState::Stopping });
    let results = pool.accept_fault(&FaultKind::InvalidSelectors).unwrap();
    assert_eq!(results.len(), 3);
    assert!(matches!(&results[0], AcceptResponsResult::PipelineFinished(h) if h.id == 1));
    assert!(matches!(&results[1], AcceptResponsResult::PipelineFinished(h) if h.id == 2));
    match &results[2] {
        AcceptResponsResult::ReceiveResponse { desired_streams } => {
            assert_eq!(desired_streams.len(), 1);
            assert_eq!(desired_streams[0].command_id, None);
        }
        other => panic!("expected a ReceiveResponse, got {other:?}"),
    }
    assert!(pool.pipelines.is_empty());
}

#[test]
fn kill_pipeline_marks_stopping_unless_finished() {
    let mut pool = test_pool(RunspacePoolState::Opened);
    pool.init_pipeline(9).unwrap();
    assert!(matches!(pool.init_pipeline(9), Err(PwshCoreError::InvalidState(_))));
    pool.kill_pipeline(9).unwrap();
    assert_eq!(pool.pipeline_state(9), Some(PsInvocationState::Stopping));
    pool.set_pipeline_state(9, PsInvocationState::Completed).unwrap();
    assert!(matches!(pool.kill_pipeline(9), Err(PwshCoreError::InvalidState(_))));
    assert!(matches!(pool.kill_pipeline(10), Err(PwshCoreError::InvalidState(_))));
}

#[test]
fn command_response_starts_the_pipeline() {
    let mut pool = test_pool(RunspacePoolState::Opened);
    pool.init_pipeline(3).unwrap();
    let results = pool.accept_command_response(3).unwrap();
    assert_eq!(pool.pipeline_state(3), Some(PsInvocationState::Running));
    assert_eq!(results.len(), 2);
    assert!(matches!(&results[0], AcceptResponsResult::ReceiveResponse { desired_streams } if desired_streams[0].command_id == Some(3)));
    assert!(matches!(&results[1], AcceptResponsResult::PipelineCreated(h) if h.id == 3));
    assert!(matches!(pool.accept_command_response(4), Err(PwshCoreError::InvalidResponse(_))));
}

#[test]
fn signal_response_finishes_a_known_pipeline() {
    let mut pool = test_pool(RunspacePoolState::Opened);
    pool.init_pipeline(3).unwrap();
    assert!(pool.accept_signal_response(None).is_empty());
    assert!(pool.accept_signal_response(Some(4)).is_empty());
    let results = pool.accept_signal_response(Some(3));
    assert_eq!(results.len(), 1);
    assert!(matches!(&results[0], AcceptResponsResult::PipelineFinished(h) if h.id == 3));
    assert!(pool.pipelines.is_empty());
}

#[test]
fn receive_streams_ask_for_next_receive_on_live_pipelines() {
    let mut pool = test_pool(RunspacePoolState::Opened);
    pool.init_pipeline(1).unwrap();
    pool.init_pipeline(2).unwrap();
    pool.desired_stream_is_pooling = true;
    let results = pool.accept_receive_streams(&vec![Some(2), Some(1), Some(2), Some(7)], Some(1), vec![]);
    // Pipeline 1 reported done; the next Receive is on pipeline 2 only.
    assert_eq!(results.len(), 2);
    assert!(matches!(&results[0], AcceptResponsResult::PipelineFinished(h) if h.id == 1));
    match &results[1] {
        AcceptResponsResult::ReceiveResponse { desired_streams } => {
            let ids: Vec<Option<u128>> = desired_streams.iter().map(|s| s.command_id).collect();
            assert_eq!(ids, vec![Some(2)]);
        }
        other => panic!("expected a ReceiveResponse, got {other:?}"),
    }
    assert!(pool.desired_stream_is_pooling);
}

#[test]
fn receive_streams_repoll_the_pool_stream_once() {
    let mut pool = test_pool(RunspacePoolState::Opened);
    pool.desired_stream_is_pooling = true;
    // The pool's own stream answered: poll it again.
    let results = pool.accept_receive_streams(&vec![None], None, vec![]);
    assert_eq!(results.len(), 1);
    assert!(pool.desired_stream_is_pooling);
    // An empty answer while the pool stream is already polled asks for nothing.
    let results = pool.accept_receive_streams(&vec![], None, vec![]);
    assert!(results.is_empty());
}

#[test]
fn receive_streams_leave_the_receive_to_a_scheduled_send() {
    let mut pool = test_pool(RunspacePoolState::Opened);
    let handled = vec![AcceptResponsResult::SendThenReceive {
        send_xml: "<key/>".to_string(),
        desired_streams: vec![],
    }];
    let results = pool.accept_receive_streams(&vec![None], None, handled);
    assert_eq!(results.len(), 1);
    assert!(matches!(&results[0], AcceptResponsResult::SendThenReceive { .. }));
}

#[test]
fn connect_messages_open_the_pool() {
    let mut pool = test_pool(RunspacePoolState::Connecting);
    let msgs = vec![
        ConnectMessage::SessionCapability,
        ConnectMessage::ApplicationPrivateData,
        ConnectMessage::RunspacePoolInitData { min_runspaces: 1, max_runspaces: 4 },
        ConnectMessage::Other,
    ];
    pool.accept_connect_messages(&msgs).unwrap();
    assert_eq!(pool.state, RunspacePoolState::Opened);
    assert!(pool.desired_stream_is_pooling);
    assert_eq!((pool.min_runspaces, pool.max_runspaces), (1, 4));
}

#[test]
fn connect_messages_need_capability_and_sane_sizing() {
    let mut pool = test_pool(RunspacePoolState::Connecting);
    let missing_cap = vec![ConnectMessage::RunspacePoolInitData { min_runspaces: 1, max_runspaces: 1 }];
    assert!(matches!(pool.accept_connect_messages(&missing_cap), Err(PwshCoreError::InvalidResponse(_))));
    let missing_init = vec![ConnectMessage::SessionCapability];
    assert!(matches!(pool.accept_connect_messages(&missing_init), Err(PwshCoreError::InvalidResponse(_))));
    let inverted = vec![
        ConnectMessage::SessionCapability,
        ConnectMessage::RunspacePoolInitData { min_runspaces: 5, max_runspaces: 2 },
    ];
    assert!(matches!(pool.accept_connect_messages(&inverted), Err(PwshCoreError::InvalidResponse(_))));
    let negative = vec![
        ConnectMessage::SessionCapability,
        ConnectMessage::RunspacePoolInitData { min_runspaces: -1, max_runspaces: 2 },
    ];
    assert!(matches!(pool.accept_connect_messages(&negative), Err(PwshCoreError::InvalidResponse(_))));
    assert_eq!(pool.state, RunspacePoolState::Connecting);
}

#[test]
fn stopping_pipelines_are_listed_in_order() {
    let mut pool = test_pool(RunspacePoolState::Opened);
    assert!(pool.stopping_pipelines_for_fault().is_none());
    pool.pipelines.push(PipelineEntry { id: 4, state: PsInvocationState::Stopping });
    pool.pipelines.push(PipelineEntry { id: 5, state: PsInvocationState::Running });
    pool.pipelines.push(PipelineEntry { id: 6, state: PsInvocationState::Stopping });
    assert_eq!(pool.stopping_pipelines_for_fault(), Some(vec![4, 6]));
}

#[test]
fn runspacepool_state_message_sets_the_state() {
    let mut pool = test_pool(RunspacePoolState::NegotiationSent);
    pool.handle_runspacepool_state(2).unwrap();
    assert_eq!(pool.state, RunspacePoolState::Opened);
    assert!(matches!(pool.handle_runspacepool_state(10), Err(PwshCoreError::InvalidResponse(_))));
    assert_eq!(pool.state, RunspacePoolState::Opened);
}

#[test]
fn pipeline_state_message_needs_a_known_command() {
    let mut pool = test_pool(RunspacePoolState::Opened);
    pool.init_pipeline(7).unwrap();
    pool.handle_pipeline_state(Some(7), PsInvocationState::Completed).unwrap();
    assert_eq!(pool.pipeline_state(7), Some(PsInvocationState::Completed));
    assert!(matches!(
        pool.handle_pipeline_state(None, PsInvocationState::Running),
        Err(PwshCoreError::InvalidResponse(ref m)) if m == "Expected command_id to be Some"
    ));
    assert!(matches!(
        pool.handle_pipeline_state(Some(8), PsInvocationState::Running),
        Err(PwshCoreError::InvalidResponse(ref m)) if m == "Pipeline not found for command_id"
    ));
}

#[test]
fn pipeline_ids_are_checked_for_repeats() {
    let mut pool = RunspacePool::new(1);
    assert!(pool.has_unique_pipeline_ids());
    pool.pipelines.push(PipelineEntry { id: 5, state: PsInvocationState::Running });
    pool.pipelines.push(PipelineEntry { id: 6, state: PsInvocationState::Running });
    assert!(pool.has_unique_pipeline_ids());
    pool.pipelines.push(PipelineEntry { id: 5, state: PsInvocationState::Stopping });
    assert!(!pool.has_unique_pipeline_ids());
}
