use ironposh_client_core::runspace_pool::streams::DesiredStream;
use ironposh_client_core::session::scheduler::{DefaultReceiveScheduler, ReceiveScheduler, TargetId};
use uuid::Uuid;

#[test]
fn cancel_requested_does_not_permanently_block_pipeline_stream() {
    let mut sched = DefaultReceiveScheduler::new();
    let id = Uuid::new_v4().as_u128();
    let target = TargetId::Pipeline(id);

    assert!(sched.is_allowed_target(target, 0));
    sched.note_cancel_requested(id, 1000);
    assert!(sched.is_allowed_target(target, 1000));
}

#[test]
fn hold_doubles_per_empty_poll_and_caps_at_one_second() {
    let mut sched = DefaultReceiveScheduler::new();
    let id = Uuid::new_v4().as_u128();
    let target = TargetId::Pipeline(id);

    assert_eq!(sched.receive_hold_ms(target, 0), 250);
    sched.note_receive_timeout(target, 0);
    assert_eq!(sched.receive_hold_ms(target, 0), 500);
    sched.note_receive_timeout(target, 0);
    assert_eq!(sched.receive_hold_ms(target, 0), 1_000);
    sched.note_receive_timeout(target, 0);
    sched.note_receive_timeout(target, 0);
    assert_eq!(sched.receive_hold_ms(target, 0), 1_000);
}

#[test]
fn progress_resets_hold_to_base() {
    let mut sched = DefaultReceiveScheduler::new();
    let id = Uuid::new_v4().as_u128();
    let target = TargetId::Pipeline(id);

    sched.note_receive_timeout(target, 0);
    sched.note_receive_timeout(target, 0);
    assert_eq!(sched.receive_hold_ms(target, 0), 1_000);
    sched.note_receive_progress(target, 0);
    assert_eq!(sched.receive_hold_ms(target, 0), 250);
}

#[test]
fn recent_activity_caps_hold_at_quarter_second() {
    let mut sched = DefaultReceiveScheduler::new();
    let id = Uuid::new_v4().as_u128();
    let target = TargetId::Pipeline(id);

    sched.note_receive_timeout(target, 0);
    sched.note_receive_timeout(target, 0);
    assert_eq!(sched.receive_hold_ms(target, 10_000), 1_000);

    sched.note_user_activity(10_000);
    assert_eq!(sched.receive_hold_ms(target, 12_000), 250);
    assert_eq!(sched.receive_hold_ms(target, 13_001), 1_000);
}

#[test]
fn cancel_requested_caps_hold_at_half_second() {
    let mut sched = DefaultReceiveScheduler::new();
    let id = Uuid::new_v4().as_u128();
    let target = TargetId::Pipeline(id);

    sched.note_receive_timeout(target, 0);
    sched.note_receive_timeout(target, 0);
    sched.note_cancel_requested(id, 1_000);
    assert_eq!(sched.receive_hold_ms(target, 1_000), 250);
    sched.note_receive_timeout(target, 1_000);
    sched.note_receive_timeout(target, 1_000);
    sched.note_receive_timeout(target, 1_000);
    assert_eq!(sched.receive_hold_ms(target, 1_000), 500);
}

#[test]
fn next_eligible_is_none_for_finished_targets() {
    let mut sched = DefaultReceiveScheduler::new();
    let id = Uuid::new_v4().as_u128();
    let target = TargetId::Pipeline(id);

    assert_eq!(sched.next_eligible_at_ms(target), Some(0));
    assert!(sched.is_allowed_target(target, 0));
    sched.note_pipeline_finished(id, 1_000);
    assert_eq!(sched.next_eligible_at_ms(target), None);
    assert!(!sched.is_allowed_target(target, 1_000));
}

#[test]
fn finished_pipeline_stays_finished_after_other_notes() {
    let mut sched = DefaultReceiveScheduler::new();
    let target = TargetId::Pipeline(7);
    sched.note_pipeline_finished(7, 0);
    sched.note_receive_timeout(target, 1);
    sched.note_receive_progress(target, 2);
    sched.note_cancel_requested(7, 3);
    sched.note_user_activity(4);
    assert!(!sched.is_allowed_target(target, 5));
    assert_eq!(sched.next_eligible_at_ms(target), None);
    // The pool target is unaffected.
    assert!(sched.is_allowed_target(TargetId::RunspacePool, 5));
}

#[test]
fn hold_stays_between_base_and_maximum() {
    let mut sched = DefaultReceiveScheduler::new();
    let target = TargetId::RunspacePool;
    for _ in 0..40 {
        sched.note_receive_timeout(target, 0);
        let hold = sched.receive_hold_ms(target, 0);
        assert!((250..=1_000).contains(&hold));
    }
    assert_eq!(sched.receive_hold_ms(target, 0), 1_000);
}

#[test]
fn activity_window_boundary_is_inclusive() {
    let mut sched = DefaultReceiveScheduler::new();
    let target = TargetId::Pipeline(1);
    sched.note_receive_timeout(target, 0);
    sched.note_user_activity(5_000);
    assert_eq!(sched.receive_hold_ms(target, 8_000), 250);
    assert_eq!(sched.receive_hold_ms(target, 8_001), 500);
    // A clock that went backwards counts as no time elapsed.
    assert_eq!(sched.receive_hold_ms(target, 1_000), 250);
}

#[test]
fn target_of_stream_follows_command_id() {
    let pool = DesiredStream::test_new("stdout", None);
    let pipe = DesiredStream::test_new("stdout", Some(42));
    assert_eq!(TargetId::from_stream(&pool), TargetId::RunspacePool);
    assert_eq!(TargetId::from_stream(&pipe), TargetId::Pipeline(42));
}
