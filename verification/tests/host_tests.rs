use ironposh_client_core::host::call::{
    needs_session_key, HostCall, HostCallScope, Method, Submission, Transport,
};
use ironposh_client_core::host::conversions::{should_send_host_response, RemoteHostMethodId};
use ironposh_client_core::host::error::HostError;
use ironposh_client_core::host::methods::FieldDescription;
use ironposh_client_core::runspace_pool::incoming::{AcceptResponsResult, GateDecision, HostCallGate};
use uuid::Uuid;

fn field(parameter_type: &str) -> FieldDescription {
    FieldDescription {
        name: "f".to_string(),
        label: String::new(),
        help_message: String::new(),
        is_mandatory: false,
        parameter_type: parameter_type.to_string(),
    }
}

#[test]
fn test_from_pipeline_host_call() {
    let scope = HostCallScope::Pipeline { command_id: Uuid::new_v4().as_u128() };
    let host_call = HostCall::try_from_pipeline(scope, 11, 1, vec![]).unwrap();

    assert_eq!(host_call.method, RemoteHostMethodId::ReadLine);
    assert_eq!(host_call.call_id(), 1);
    assert_eq!(host_call.method_name(), "ReadLine");
    assert_eq!(host_call.method_id(), 11);
    assert_eq!(host_call.scope(), scope);
}

#[test]
fn test_from_pipeline_host_call_with_parameters() {
    let scope = HostCallScope::RunspacePool;
    let host_call = HostCall::try_from_pipeline(scope, 16, 42, vec![]).unwrap();

    assert_eq!(host_call.method, RemoteHostMethodId::WriteLine2);
    assert_eq!(host_call.call_id(), 42);
    assert_eq!(host_call.method_name(), "WriteLine2");
    assert_eq!(host_call.method_id(), 16);
    assert_eq!(host_call.scope(), scope);
}

#[test]
fn test_invalid_method_id_rejected_on_parse() {
    let result = HostCall::try_from_pipeline(HostCallScope::RunspacePool, 999, 1, vec![]);
    assert_eq!(result.unwrap_err(), HostError::NotImplemented);
    assert_eq!(RemoteHostMethodId::try_from(0).unwrap_err(), HostError::NotImplemented);
    assert_eq!(RemoteHostMethodId::try_from(57).unwrap_err(), HostError::NotImplemented);
}

#[test]
fn test_from_pipeline_host_call_set_should_exit() {
    let scope = HostCallScope::RunspacePool;
    let host_call = HostCall::try_from_pipeline(scope, 6, 123, vec![]).unwrap();

    assert_eq!(host_call.method, RemoteHostMethodId::SetShouldExit);
    assert_eq!(host_call.call_id(), 123);
    assert_eq!(host_call.method_name(), "SetShouldExit");
    assert_eq!(host_call.method_id(), 6);
    assert_eq!(host_call.scope(), scope);
    assert!(!host_call.should_send_response());
}

#[test]
fn method_ids_round_trip() {
    for id in 1..=56 {
        let m = RemoteHostMethodId::try_from(id).unwrap();
        assert_eq!(m.value(), id);
        assert_eq!(m.id(), id);
    }
    assert_eq!(RemoteHostMethodId::PromptForChoiceMultipleSelection.name(), "PromptForChoiceMultipleSelection");
}

#[test]
fn only_value_returning_methods_answer() {
    assert!(should_send_host_response(RemoteHostMethodId::GetName));
    assert!(should_send_host_response(RemoteHostMethodId::ReadLineAsSecureString));
    assert!(should_send_host_response(RemoteHostMethodId::GetBufferContents));
    assert!(!should_send_host_response(RemoteHostMethodId::Write1));
    assert!(!should_send_host_response(RemoteHostMethodId::SetCursorPosition));
    assert!(!should_send_host_response(RemoteHostMethodId::PopRunspace));
    assert!(RemoteHostMethodId::Prompt.should_send_response());
    let answering = (1..=56)
        .filter(|id| should_send_host_response(RemoteHostMethodId::try_from(*id).unwrap()))
        .count();
    assert_eq!(answering, 27);
}

#[test]
fn secure_string_calls_need_the_session_key() {
    let call = |id: i32, fields: Vec<FieldDescription>| {
        HostCall::try_from_pipeline(HostCallScope::RunspacePool, id, 1, fields).unwrap()
    };
    assert!(needs_session_key(&call(12, vec![])));
    assert!(needs_session_key(&call(24, vec![])));
    assert!(needs_session_key(&call(25, vec![])));
    assert!(!needs_session_key(&call(11, vec![])));
    assert!(!needs_session_key(&call(23, vec![field("System.String")])));
    assert!(needs_session_key(&call(
        23,
        vec![field("System.String"), field("System.Security.SecureString")]
    )));
    // Only a Prompt looks at its fields.
    assert!(!needs_session_key(&call(26, vec![field("System.Security.SecureString")])));
}

#[test]
fn transport_answers_value_methods_only() {
    let t = Transport::new(HostCallScope::RunspacePool, 7, RemoteHostMethodId::GetName, ());
    let (params, result) = t.into_parts();
    assert_eq!(params, ());
    assert_eq!(result.scope(), HostCallScope::RunspacePool);
    match result.accept_result("host".to_string()) {
        Submission::Send(resp) => {
            assert_eq!(resp.call_id, 7);
            assert_eq!(resp.method_id, 1);
            assert_eq!(resp.method_name, "1");
            assert_eq!(resp.method_result, "host");
        }
        Submission::NoSend => panic!("GetName must be answered"),
    }
    let t = Transport::new(HostCallScope::RunspacePool, 8, RemoteHostMethodId::WriteLine2, "x".to_string());
    let (_, result) = t.into_parts();
    assert!(matches!(result.accept_result(()), Submission::NoSend));
    let t = Transport::new(HostCallScope::RunspacePool, 9, RemoteHostMethodId::PromptForChoiceMultipleSelection, ());
    let (_, result) = t.into_parts();
    match result.accept_result(vec![1, 2]) {
        Submission::Send(resp) => assert_eq!(resp.method_name, "56"),
        Submission::NoSend => panic!("PromptForChoiceMultipleSelection must be answered"),
    }
}

#[test]
fn deferred_host_calls_are_released_in_order() {
    let mut queue = HostCallGate::new();
    let secure = |call_id: i64| HostCall::try_from_pipeline(HostCallScope::RunspacePool, 12, call_id, vec![]).unwrap();
    assert!(matches!(queue.accept_host_call(secure(1)), GateDecision::DeferredStartKeyExchange));
    assert!(matches!(queue.accept_host_call(secure(2)), GateDecision::Deferred));
    let plain = HostCall::try_from_pipeline(HostCallScope::RunspacePool, 1, 3, vec![]).unwrap();
    assert!(matches!(queue.accept_host_call(plain), GateDecision::Dispatch(ref hc) if hc.call_id == 3));
    let released = queue.session_key_established();
    let ids: Vec<i64> = released
        .iter()
        .map(|r| match r {
            AcceptResponsResult::HostCall(hc) => hc.call_id,
            other => panic!("unexpected {other:?}"),
        })
        .collect();
    assert_eq!(ids, vec![1, 2]);
    assert!(matches!(queue.accept_host_call(secure(4)), GateDecision::Dispatch(_)));
}
