use rivulet_core::health::{StreamHealthStatus, StreamStats};
use rivulet_core::stream::AdaptiveBitrate;
use rivulet_core::stream_runtime::{AdaptiveBitrateController, BitrateChange, DelaySupervisor};
use rivulet_core::time::Duration;

#[test]
fn telemetry_update_uses_observed_health_status() {
    let policy = AdaptiveBitrate::new(1000, 3000, 500);
    let mut controller = AdaptiveBitrateController::new(Duration::zero(), 1);
    let mut bitrate = 2000;
    let mut telemetry = StreamStats::offline();
    telemetry.status = StreamHealthStatus::Poor;
    assert!(controller.update_from_telemetry(
        policy,
        &mut bitrate,
        &telemetry,
        Duration::from_secs(1)
    ));
    assert_eq!(bitrate, 1500);
    assert_eq!(
        controller.last_change(),
        Some(BitrateChange {
            from_kbps: 2000,
            to_kbps: 1500,
            status: StreamHealthStatus::Poor,
        })
    );
}

#[test]
fn bitrate_change_diagnostics_are_empty_until_a_change() {
    let mut controller = AdaptiveBitrateController::new(Duration::zero(), 1);
    let policy = AdaptiveBitrate::new(1000, 3000, 500);
    let mut bitrate = 2000;
    assert!(!controller.update(
        policy,
        &mut bitrate,
        StreamHealthStatus::Warning,
        Duration::zero()
    ));
    assert_eq!(controller.last_change(), None);
}

#[test]
fn bitrate_controller_requires_stable_samples_and_cooldown() {
    let policy = AdaptiveBitrate::new(1000, 3000, 500);
    let mut controller = AdaptiveBitrateController::new(Duration::from_secs(5), 2);
    let mut bitrate = 2000;
    assert!(!controller.update(policy, &mut bitrate, StreamHealthStatus::Poor, Duration::zero()));
    assert!(controller.update(
        policy,
        &mut bitrate,
        StreamHealthStatus::Poor,
        Duration::from_secs(1)
    ));
    assert_eq!(bitrate, 1500);
    assert!(!controller.update(
        policy,
        &mut bitrate,
        StreamHealthStatus::Good,
        Duration::from_secs(2)
    ));
    assert!(controller.update(
        policy,
        &mut bitrate,
        StreamHealthStatus::Good,
        Duration::from_secs(7)
    ));
    assert_eq!(bitrate, 2000);
}

#[test]
fn delay_supervisor_preserves_and_bounds_buffer_on_reconnect() {
    let mut delay = DelaySupervisor::new(Duration::from_secs(10), Duration::from_secs(15));
    delay.push(Duration::from_secs(20));
    assert_eq!(delay.buffered(), Duration::from_secs(15));
    assert_eq!(delay.dropped(), 1);
    delay.on_disconnect();
    assert_eq!(delay.on_reconnect(), Duration::from_secs(10));
    delay.consume(Duration::from_secs(4));
    assert_eq!(delay.buffered(), Duration::from_secs(6));
    let fill = delay.buffered().as_nanos() as f64 / delay.max_buffer().as_nanos() as f64;
    assert!(fill > 0.0);
    delay.consume(Duration::from_secs(10));
    assert_eq!(delay.underflows(), 1);
}

#[test]
fn bitrate_controller_never_changes_twice_within_cooldown() {
    let policy = AdaptiveBitrate::new(1000, 3000, 500);
    let mut controller = AdaptiveBitrateController::new(Duration::from_secs(10), 1);
    let mut bitrate = 2500;
    assert!(controller.update(policy, &mut bitrate, StreamHealthStatus::Poor, Duration::from_secs(1)));
    assert_eq!(bitrate, 2000);
    assert!(!controller.update(policy, &mut bitrate, StreamHealthStatus::Poor, Duration::from_secs(5)));
    assert_eq!(bitrate, 2000);
    assert!(controller.update(policy, &mut bitrate, StreamHealthStatus::Poor, Duration::from_secs(11)));
    assert_eq!(bitrate, 1500);
}

#[test]
fn delay_supervisor_raises_capacity_to_the_configured_delay() {
    let mut delay = DelaySupervisor::new(Duration::from_secs(10), Duration::from_secs(4));
    assert_eq!(delay.max_buffer(), Duration::from_secs(10));
    assert_eq!(delay.configured(), Duration::from_secs(10));
    delay.record_underflow();
    assert_eq!(delay.underflows(), 1);
}
