use rivulet_core::reconnect::{
    target_index_from_sink_name, RetryPolicy, SinkBusEvent, StreamingReconnectSupervisor,
};
use rivulet_core::stream::StreamTargetState;
use rivulet_core::time::Duration;

#[test]
fn backoff_is_exponential_and_bounded() {
    let p = RetryPolicy::new(5, Duration::from_secs(1), Duration::from_secs(3));
    assert_eq!(p.backoff(1), Duration::from_secs(1));
    assert_eq!(p.backoff(2), Duration::from_secs(2));
    assert_eq!(p.backoff(3), Duration::from_secs(3));
}

#[test]
fn targets_are_isolated_during_retries() {
    let mut s = StreamingReconnectSupervisor::new(
        vec!["healthy".into(), "broken".into()],
        RetryPolicy::default(),
    );
    s.mark_live("healthy");
    assert_eq!(s.mark_failed("broken"), Some(true));
    assert_eq!(s.targets()[0].state, StreamTargetState::Live);
    assert_eq!(s.retryable_targets(), vec!["broken"]);
}

#[test]
fn successful_reconnect_resets_attempts() {
    let mut s = StreamingReconnectSupervisor::new(vec!["target".into()], RetryPolicy::default());
    s.mark_failed("target");
    s.mark_live("target");
    assert_eq!(s.targets()[0].attempts, 0);
}

#[test]
fn bus_events_only_fail_named_target() {
    let mut s = StreamingReconnectSupervisor::new(
        vec!["one".into(), "two".into()],
        RetryPolicy::default(),
    );
    assert_eq!(s.handle_bus_event("one", SinkBusEvent::Error), Some(true));
    assert_eq!(s.targets()[1].state, StreamTargetState::Offline);
    assert_eq!(s.handle_bus_event("two", SinkBusEvent::Warning), None);
}

#[test]
fn state_change_marks_live() {
    let mut s = StreamingReconnectSupervisor::new(vec!["target".into()], RetryPolicy::default());
    s.mark_failed("target");
    assert_eq!(
        s.handle_bus_event("target", SinkBusEvent::StateChanged),
        Some(true)
    );
    assert_eq!(s.targets()[0].state, StreamTargetState::Live);
}

#[test]
fn retry_stops_after_limit() {
    let mut s = StreamingReconnectSupervisor::new(
        vec!["target".into()],
        RetryPolicy::new(2, Duration::from_secs(1), Duration::from_secs(10)),
    );
    assert_eq!(s.mark_failed("target"), Some(true));
    assert_eq!(s.mark_failed("target"), Some(true));
    assert_eq!(s.mark_failed("target"), Some(false));
}

#[test]
fn due_retry_claims_elapsed_target() {
    let mut s = StreamingReconnectSupervisor::new(
        vec!["target".into()],
        RetryPolicy::new(3, Duration::from_secs(1), Duration::from_secs(3)),
    );
    s.mark_failed("target");
    assert!(s.due_retries(Duration::from_millis(500)).is_empty());
    assert_eq!(s.due_retries(Duration::from_secs(1)), vec!["target"]);
    assert_eq!(s.targets()[0].state, StreamTargetState::Connecting);
}

#[test]
fn duplicate_failures_do_not_schedule_duplicate_retries() {
    let mut supervisor =
        StreamingReconnectSupervisor::new(vec!["target".into()], RetryPolicy::default());
    assert_eq!(supervisor.mark_failed_once("target"), Some(true));
    assert_eq!(supervisor.mark_failed_once("target"), Some(false));
    assert_eq!(supervisor.targets()[0].attempts, 1);
}

#[test]
fn sink_name_resolution_is_strict_and_target_local() {
    assert_eq!(target_index_from_sink_name("stream_sink_2"), Some(2));
    assert_eq!(target_index_from_sink_name("stream_sink_x"), None);
    assert_eq!(target_index_from_sink_name("other_sink_2"), None);
}
