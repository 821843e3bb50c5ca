use ironposh_client_core::connector::active_session::{ActiveSessionOutput, UserEvent, UserOperation};
use ironposh_client_core::connector::connection_pool::{ConnectionId, TrySend};
use ironposh_client_core::connector::http::{HttpRequest, Method};
use ironposh_client_core::host::call::{HostCall, HostCallScope, Submission};
use ironposh_client_core::host::conversions::RemoteHostMethodId;
use ironposh_client_core::powershell::PipelineHandle;
use ironposh_client_core::runspace_pool::streams::DesiredStream;
use ironposh_client_core::session::scheduler::{ReceiveScheduler, TargetId};
use ironposh_client_core::session::serial::{
    merge_speculative_streams, HostResponse, Promotion, SendPriority, SessionCore,
};
use ironposh_client_core::PwshCoreError;
use uuid::Uuid;

/// A request already bound to connection `conn_id`.
fn dummy_try_send(conn_id: u32) -> TrySend {
    TrySend::JustSend {
        request: HttpRequest {
            method: Method::Post,
            url: "http://test/wsman".to_string(),
            headers: vec![],
            body: None,
            cookie: None,
        },
        conn_id: ConnectionId::test_new(conn_id),
    }
}

/// A core with an empty work queue.
fn core_idle() -> SessionCore {
    let mut core = SessionCore::new(dummy_try_send(1));
    let _ = core.work_queue.pop_front();
    core
}

fn pipeline_stream(id: u128) -> DesiredStream {
    DesiredStream::test_new("stdout", Some(id))
}

fn runspace_stream() -> DesiredStream {
    DesiredStream::test_new("stdout", None)
}

fn dummy_host_call(call_id: i64) -> HostCall {
    HostCall {
        scope: HostCallScope::RunspacePool,
        call_id,
        method: RemoteHostMethodId::GetName,
        prompt_fields: vec![],
    }
}

fn promoted_conn(p: Promotion) -> Option<u32> {
    match p {
        Promotion::Send(ts) => Some(ts.get_connection_id().inner()),
        _ => None,
    }
}

fn new_id() -> u128 {
    Uuid::new_v4().as_u128()
}

fn invoke_op() -> UserOperation {
    UserOperation::InvokeWithSpec { uuid: new_id(), invoke_xml: "<invoke/>".to_string() }
}

#[test]
fn work_queue_items_promoted_before_receives() {
    let mut core = SessionCore::new(dummy_try_send(1));
    core.demanded_streams.push_back(pipeline_stream(new_id()));

    let promoted = core.promote_next_request(0);
    assert_eq!(promoted_conn(promoted), Some(1), "should promote from work_queue");
    assert_eq!(core.demanded_streams.len(), 1);
}

#[test]
fn demanded_streams_promoted_before_speculative() {
    let mut core = core_idle();
    let id = new_id();
    core.demanded_streams.push_back(pipeline_stream(id));
    core.speculative_streams.push(pipeline_stream(new_id()));

    let promoted = core.promote_next_request(0);
    match promoted {
        Promotion::Receive { stream, target } => {
            assert_eq!(stream.command_id, Some(id));
            assert_eq!(target, TargetId::Pipeline(id));
        }
        _ => panic!("expected a demanded Receive"),
    }
    assert_eq!(core.speculative_streams.len(), 1);
    assert_eq!(core.in_flight_receive_target, Some(TargetId::Pipeline(id)));
}

#[test]
fn speculative_runspace_pool_only_returns_none() {
    let mut core = core_idle();
    core.speculative_streams.push(runspace_stream());

    let promoted = core.promote_next_request(0);
    assert!(matches!(promoted, Promotion::Idle));
    assert_eq!(core.speculative_streams.len(), 1);
}

#[test]
fn speculative_pipeline_stream_promoted() {
    let mut core = core_idle();
    let id = new_id();
    core.speculative_streams.push(pipeline_stream(id));

    let promoted = core.promote_next_request(0);
    assert!(matches!(promoted, Promotion::Receive { target: TargetId::Pipeline(t), .. } if t == id));
    assert!(core.speculative_streams.is_empty());
}

#[test]
fn host_call_active_blocks_receive_promotion() {
    let mut core = core_idle();
    core.demanded_streams.push_back(pipeline_stream(new_id()));
    core.host_call_active = true;

    let promoted = core.promote_next_request(0);
    assert!(matches!(promoted, Promotion::Idle));
    assert_eq!(core.demanded_streams.len(), 1);
}

#[test]
fn pending_host_calls_block_receive_promotion() {
    let mut core = core_idle();
    core.demanded_streams.push_back(pipeline_stream(new_id()));
    core.pending_host_calls.push_back(dummy_host_call(1));

    let promoted = core.promote_next_request(0);
    assert!(matches!(promoted, Promotion::Idle));
}

#[test]
fn route_send_back_normal_appends() {
    let mut core = core_idle();
    core.work_queue.push_back(dummy_try_send(1));

    let output = ActiveSessionOutput::SendBack(vec![dummy_try_send(2)]);
    core.route_output(output, SendPriority::Normal).unwrap();

    assert_eq!(core.work_queue.len(), 2);
    assert_eq!(core.work_queue[0].get_connection_id().inner(), 1);
    assert_eq!(core.work_queue[1].get_connection_id().inner(), 2);
}

#[test]
fn route_send_back_front_prepends() {
    let mut core = core_idle();
    core.work_queue.push_back(dummy_try_send(1));

    let output = ActiveSessionOutput::SendBack(vec![dummy_try_send(2)]);
    core.route_output(output, SendPriority::Front).unwrap();

    assert_eq!(core.work_queue.len(), 2);
    assert_eq!(core.work_queue[0].get_connection_id().inner(), 2);
    assert_eq!(core.work_queue[1].get_connection_id().inner(), 1);
}

#[test]
fn route_send_back_front_keeps_order_of_several() {
    let mut core = core_idle();
    core.work_queue.push_back(dummy_try_send(1));
    let output = ActiveSessionOutput::SendBack(vec![dummy_try_send(2), dummy_try_send(3)]);
    core.route_output(output, SendPriority::Front).unwrap();
    let ids: Vec<u32> = core.work_queue.iter().map(|t| t.get_connection_id().inner()).collect();
    assert_eq!(ids, vec![2, 3, 1]);
}

#[test]
fn route_send_and_then_receive_populates_both_queues() {
    let mut core = core_idle();
    let id = new_id();

    let output = ActiveSessionOutput::SendAndThenReceive {
        send_request: dummy_try_send(3),
        then_receive_streams: vec![pipeline_stream(id)],
    };
    core.route_output(output, SendPriority::Normal).unwrap();

    assert_eq!(core.work_queue.len(), 1);
    assert_eq!(core.demanded_streams.len(), 1);
}

#[test]
fn route_pending_receive_deduplicates() {
    let mut core = core_idle();
    let stream = pipeline_stream(new_id());

    core.route_output(
        ActiveSessionOutput::PendingReceive { desired_streams: vec![stream.clone()] },
        SendPriority::Normal,
    )
    .unwrap();
    core.route_output(
        ActiveSessionOutput::PendingReceive { desired_streams: vec![stream] },
        SendPriority::Normal,
    )
    .unwrap();

    assert_eq!(core.speculative_streams.len(), 1, "streams should be deduplicated");
}

#[test]
fn route_user_event_pipeline_finished_notifies_scheduler() {
    let mut core = core_idle();
    let id = new_id();

    let event = UserEvent::PipelineFinished { pipeline: PipelineHandle::new(id) };
    core.route_output(ActiveSessionOutput::UserEvent(event), SendPriority::Normal).unwrap();

    let target = TargetId::Pipeline(id);
    assert!(
        !core.scheduler.is_allowed_target(target, 0),
        "scheduler should block finished pipeline"
    );
    assert_eq!(core.pending_user_events.len(), 1);
}

#[test]
fn route_send_back_error_returns_err() {
    let mut core = core_idle();
    let output =
        ActiveSessionOutput::SendBackError(PwshCoreError::InternalError("test error".to_string()));
    let result = core.route_output(output, SendPriority::Normal);
    assert!(result.is_err());
}

#[test]
fn route_host_call_queued() {
    let mut core = core_idle();
    let hc = dummy_host_call(42);
    core.route_output(ActiveSessionOutput::HostCall(hc), SendPriority::Normal).unwrap();

    assert_eq!(core.pending_host_calls.len(), 1);
    assert_eq!(core.pending_host_calls[0].call_id(), 42);
}

#[test]
fn poll_host_call_returns_none_when_active() {
    let mut core = core_idle();
    core.pending_host_calls.push_back(dummy_host_call(1));
    core.host_call_active = true;

    assert!(core.poll_host_call().is_none());
}

#[test]
fn poll_host_call_sets_active_flag() {
    let mut core = core_idle();
    core.pending_host_calls.push_back(dummy_host_call(1));

    assert!(!core.host_call_active);
    let hc = core.poll_host_call();
    assert!(hc.is_some());
    assert!(core.host_call_active);
}

#[test]
fn buffer_host_response_clears_active_flag() {
    let mut core = core_idle();
    core.host_call_active = true;

    core.buffer_host_response(HostResponse {
        call_id: 1,
        scope: HostCallScope::RunspacePool,
        submission: Submission::NoSend,
        response_xml: String::new(),
    });

    assert!(!core.host_call_active);
    assert_eq!(core.pending_user_ops.len(), 1);
}

#[test]
fn buffer_kill_pipeline_goes_to_front() {
    let mut core = core_idle();
    let id2 = new_id();

    core.buffer_user_op(invoke_op(), 0);
    core.buffer_user_op(
        UserOperation::KillPipeline { pipeline: PipelineHandle::new(id2), kill_xml: String::new() },
        0,
    );

    assert!(matches!(core.pending_user_ops.front(), Some(UserOperation::KillPipeline { .. })));
}

#[test]
fn process_buffered_op_skips_when_work_queue_nonempty() {
    let mut core = SessionCore::new(dummy_try_send(1));
    core.pending_user_ops.push_back(invoke_op());

    let taken = core.process_one_buffered_op(0);
    assert!(taken.is_none());
    assert_eq!(core.pending_user_ops.len(), 1);
}

#[test]
fn process_buffered_op_allows_kill_even_with_work_queue() {
    let mut core = SessionCore::new(dummy_try_send(1));
    let id = new_id();
    core.pending_user_ops.push_back(UserOperation::KillPipeline {
        pipeline: PipelineHandle::new(id),
        kill_xml: String::new(),
    });

    let (op, priority) = core.process_one_buffered_op(0).expect("kill is processed");
    assert!(matches!(op, UserOperation::KillPipeline { .. }));
    assert_eq!(priority, SendPriority::Front);
    assert_eq!(core.pending_user_ops.len(), 0);
    // The active session answers the kill with a signal request, which goes first.
    core.route_output(ActiveSessionOutput::SendBack(vec![dummy_try_send(99)]), priority).unwrap();
    assert_eq!(core.work_queue[0].get_connection_id().inner(), 99);
}

#[test]
fn drain_user_events_empties_buffer() {
    let mut core = core_idle();
    core.pending_user_events.push(UserEvent::PipelineCreated { pipeline: PipelineHandle::new(new_id()) });

    let events = core.drain_user_events();
    assert_eq!(events.len(), 1);
    let events2 = core.drain_user_events();
    assert!(events2.is_empty());
}

#[test]
fn finished_demanded_stream_is_dropped_without_wakeup() {
    let mut core = core_idle();
    let id = new_id();
    core.scheduler.note_pipeline_finished(id, 0);
    core.demanded_streams.push_back(pipeline_stream(id));

    let promoted = core.promote_next_request(0);
    assert!(matches!(promoted, Promotion::Idle));
    assert!(core.demanded_streams.is_empty());
    assert!(core.next_wakeup_at_ms.is_none());
}

#[test]
fn finished_streams_before_a_live_one_are_skipped() {
    let mut core = core_idle();
    let done = new_id();
    let live = new_id();
    core.scheduler.note_pipeline_finished(done, 0);
    core.demanded_streams.push_back(pipeline_stream(done));
    core.demanded_streams.push_back(pipeline_stream(live));
    core.demanded_streams.push_back(runspace_stream());

    let promoted = core.promote_next_request(0);
    assert!(matches!(promoted, Promotion::Receive { target: TargetId::Pipeline(t), .. } if t == live));
    assert_eq!(core.demanded_streams.len(), 1);
}

#[test]
fn accept_response_notes_empty_poll_and_routes_outputs() {
    let mut core = core_idle();
    let id = new_id();
    core.in_flight_receive_target = Some(TargetId::Pipeline(id));
    let outputs = vec![ActiveSessionOutput::PendingReceive { desired_streams: vec![pipeline_stream(id)] }];
    core.accept_response(outputs, 0).unwrap();
    assert!(core.in_flight_receive_target.is_none());
    assert_eq!(core.scheduler.receive_hold_ms(TargetId::Pipeline(id), 0), 500);
    assert_eq!(core.speculative_streams.len(), 1);
}

#[test]
fn accept_response_with_data_resets_hold() {
    let mut core = core_idle();
    let id = new_id();
    let target = TargetId::Pipeline(id);
    core.scheduler.note_receive_timeout(target, 0);
    core.in_flight_receive_target = Some(target);
    let outputs = vec![ActiveSessionOutput::UserEvent(UserEvent::PipelineOutput {
        pipeline: PipelineHandle::new(id),
        output: "hello".to_string(),
    })];
    core.accept_response(outputs, 0).unwrap();
    assert_eq!(core.scheduler.receive_hold_ms(target, 0), 250);
    assert_eq!(core.pending_user_events.len(), 1);
}

#[test]
fn accept_response_stops_at_first_error() {
    let mut core = core_idle();
    let outputs = vec![
        ActiveSessionOutput::SendBack(vec![dummy_try_send(5)]),
        ActiveSessionOutput::SendBackError(PwshCoreError::InternalError("boom".to_string())),
        ActiveSessionOutput::SendBack(vec![dummy_try_send(6)]),
    ];
    assert!(core.accept_response(outputs, 0).is_err());
    assert_eq!(core.work_queue.len(), 1);
    assert_eq!(core.work_queue[0].get_connection_id().inner(), 5);
}

#[test]
fn observing_a_kill_caps_the_pipeline_hold() {
    let mut core = core_idle();
    let id = new_id();
    let target = TargetId::Pipeline(id);
    for _ in 0..3 {
        core.scheduler.note_receive_timeout(target, 0);
    }
    let kill = UserOperation::KillPipeline { pipeline: PipelineHandle::new(id), kill_xml: String::new() };
    core.accept_user_op(&kill, ActiveSessionOutput::SendBack(vec![dummy_try_send(8)]), 0).unwrap();
    assert_eq!(core.work_queue[0].get_connection_id().inner(), 8);
    assert_eq!(core.scheduler.receive_hold_ms(target, 0), 250);
    for _ in 0..3 {
        core.scheduler.note_receive_timeout(target, 0);
    }
    assert_eq!(core.scheduler.receive_hold_ms(target, 0), 500);
}

#[test]
fn accept_host_response_clears_active_flag_and_routes() {
    let mut core = core_idle();
    core.host_call_active = true;
    let out = ActiveSessionOutput::SendAndThenReceive {
        send_request: dummy_try_send(4),
        then_receive_streams: DesiredStream::runspace_pool_streams(),
    };
    core.accept_host_response(out).unwrap();
    assert!(!core.host_call_active);
    assert_eq!(core.work_queue.len(), 1);
    assert_eq!(core.demanded_streams.len(), 1);
}

#[test]
fn merge_keeps_first_copies_in_order() {
    let mut existing = vec![pipeline_stream(1), runspace_stream()];
    merge_speculative_streams(
        &mut existing,
        vec![pipeline_stream(2), pipeline_stream(1), pipeline_stream(2), runspace_stream()],
    );
    let ids: Vec<Option<u128>> = existing.iter().map(|s| s.command_id).collect();
    assert_eq!(ids, vec![Some(1), None, Some(2)]);
}

#[test]
fn next_wakeup_is_measured_from_now() {
    let mut core = core_idle();
    core.next_wakeup_at_ms = Some(1_000);
    assert_eq!(core.next_wakeup_in_ms(400), Some(600));
    assert_eq!(core.next_wakeup_in_ms(2_000), Some(0));
    core.next_wakeup_at_ms = None;
    assert_eq!(core.next_wakeup_in_ms(0), None);
}
