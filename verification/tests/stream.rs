use rivulet_core::health::StreamHealthStatus;
use rivulet_core::stream::{
    parse_ingest_endpoint, parse_whip_response, AdaptiveBitrate, MultistreamSettings,
    MultitrackVideo, PrivateTestStream, PrivateTestStreamState, StreamConnectionResult,
    StreamDelay, StreamPlatform, StreamPreset, StreamSettings, StreamTarget, StreamTargetState,
    VodTrack, WhipMediaSession, WhipMediaState, WhipSettings,
};
use rivulet_core::time::Duration;

#[test]
fn private_test_stream_counts_down_and_auto_stops() {
    let mut test = PrivateTestStream::new(3, Duration::from_secs(10));
    assert_eq!(test.state(), PrivateTestStreamState::Idle);
    test.start();
    test.tick(Duration::from_secs(2));
    assert_eq!(test.state(), PrivateTestStreamState::Countdown);
    test.tick(Duration::from_secs(1));
    assert_eq!(test.state(), PrivateTestStreamState::Running);
    test.tick(Duration::from_secs(10));
    assert_eq!(test.state(), PrivateTestStreamState::Completed);
}

#[test]
fn private_test_stream_manual_stop_is_idempotent() {
    let mut test = PrivateTestStream::new(0, Duration::from_secs(10));
    test.start();
    test.stop();
    test.stop();
    assert_eq!(test.state(), PrivateTestStreamState::Completed);
}

#[test]
fn ingest_endpoint_parser_uses_platform_ports_without_exposing_key() {
    assert_eq!(
        parse_ingest_endpoint("rtmps://live.example/app/key"),
        Ok(("live.example".into(), 443, true))
    );
    assert_eq!(
        parse_ingest_endpoint("rtmp://localhost:1935/live/key"),
        Ok(("localhost".into(), 1935, false))
    );
    assert!(parse_ingest_endpoint("https://example/live").is_err());
    assert!(parse_ingest_endpoint("rtmps:///key").is_err());
}

#[test]
fn delay_is_bounded_and_disabled_for_zero() {
    assert_eq!(StreamDelay::new(Duration::zero()).latency_ms(), 0);
    assert_eq!(StreamDelay::new(Duration::from_secs(600)).latency_ms(), 300_000);
}

#[test]
fn multitrack_video_clamps_to_supported_range() {
    assert_eq!(MultitrackVideo::new(0).effective_tracks(), 1);
    assert_eq!(MultitrackVideo::new(9).effective_tracks(), 4);
    assert_eq!(MultitrackVideo::new(3).effective_tracks(), 3);
}

#[test]
fn presets_have_stable_bitrates() {
    assert_eq!(StreamPreset::Low.bitrate_kbps(), Some(2500));
    assert_eq!(StreamPreset::Standard.bitrate_kbps(), Some(4500));
    assert_eq!(StreamPreset::High.bitrate_kbps(), Some(6000));
    assert_eq!(StreamPreset::Custom.bitrate_kbps(), None);
}

#[test]
fn masked_key_never_contains_secret() {
    let s = StreamSettings::twitch("secret-key-123");
    assert!(!s.masked_key().contains("secret-key-123"));
}

#[test]
fn connection_result_distinguishes_validation_and_transport_failures() {
    assert!(matches!(
        StreamSettings::twitch("").connection_result(None),
        StreamConnectionResult::Rejected(_)
    ));
    assert!(matches!(
        StreamSettings::twitch("key").connection_result(Some("timeout")),
        StreamConnectionResult::Failed(message) if message == "timeout"
    ));
    assert!(StreamSettings::twitch("key").connection_result(None).is_success());
}

#[test]
fn platform_test_defaults_are_explicit_and_kick_requires_dashboard_url() {
    assert_eq!(
        StreamPlatform::Twitch.default_ingest_url(),
        Some("rtmps://live.twitch.tv/app")
    );
    assert_eq!(
        StreamPlatform::YouTube.default_ingest_url(),
        Some("rtmps://a.rtmp.youtube.com/live2")
    );
    assert!(StreamPlatform::Kick.default_ingest_url().is_none());
    assert!(StreamPlatform::Kick.requires_manual_ingest_url());
    assert!(!StreamPlatform::Twitch.requires_manual_ingest_url());
    assert!(StreamSettings::for_test_stream(StreamPlatform::Twitch, "key")
        .validate()
        .is_ok());
    assert!(StreamSettings::for_test_stream(StreamPlatform::Kick, "key")
        .validate()
        .is_err());
}

#[test]
fn validation_rejects_empty_or_insecure_preset() {
    assert!(StreamSettings::twitch("").validate().is_err());
    assert!(StreamSettings::new(StreamPlatform::Twitch, "rtmp://host/app", "key")
        .validate()
        .is_err());
    assert!(StreamSettings::custom("rtmp://host/app", "key").validate().is_ok());
}

#[test]
fn adaptive_bitrate_moves_inside_bounds() {
    let p = AdaptiveBitrate::new(1500, 3000, 500);
    assert_eq!(p.next_bitrate(2000, StreamHealthStatus::Poor), 1500);
    assert_eq!(p.next_bitrate(2500, StreamHealthStatus::Good), 3000);
}

#[test]
fn adaptive_reconfiguration_updates_only_when_policy_changes() {
    let policy = AdaptiveBitrate::new(1500, 3000, 500);
    let mut current = 2500;
    assert!(policy.reconfigure_live_encoder(&mut current, StreamHealthStatus::Poor));
    assert_eq!(current, 2000);
    assert!(!policy.reconfigure_live_encoder(&mut current, StreamHealthStatus::Warning));
    assert_eq!(current, 2000);
}

#[test]
fn adaptive_bitrate_disabled_is_stable() {
    let p = AdaptiveBitrate {
        enabled: false,
        ..Default::default()
    };
    assert_eq!(p.next_bitrate(42000, StreamHealthStatus::Poor), 42000);
}

#[test]
fn whip_settings_enforce_secure_endpoints_and_bounded_timeout() {
    assert!(WhipSettings::new("https://sfu.example/whip")
        .with_timeout(Duration::from_secs(1))
        .validate()
        .is_ok());
    assert_eq!(
        WhipSettings::new("https://sfu.example/whip")
            .with_timeout(Duration::from_secs(1))
            .connect_timeout,
        Duration::from_secs(2)
    );
    assert!(WhipSettings::new("http://remote.example/whip").validate().is_err());
    assert!(WhipSettings::new("http://127.0.0.1:8889/whip").validate().is_ok());
}

#[test]
fn whip_response_requires_successful_sdp_content() {
    let response = parse_whip_response(
        201,
        Some("application/sdp; charset=utf-8"),
        Some("https://sfu.example/resource/1"),
        "v=0\r\no=- 1 1 IN IP4 0.0.0.0\r\n",
    )
    .unwrap();
    assert_eq!(
        response.resource_url.as_deref(),
        Some("https://sfu.example/resource/1")
    );
    assert!(response.answer_sdp.starts_with("v=0"));
    assert!(parse_whip_response(401, Some("application/sdp"), None, "v=0").is_err());
    assert!(parse_whip_response(503, Some("application/sdp"), None, "v=0").is_err());
    assert!(parse_whip_response(201, Some("text/plain"), None, "v=0").is_err());
    assert!(parse_whip_response(201, Some("application/sdp"), None, "").is_err());
}

#[test]
fn whip_credentials_are_never_part_of_the_redacted_endpoint() {
    let settings =
        WhipSettings::new("https://sfu.example/whip").with_bearer_token("super-secret-token");
    assert!(settings.has_token());
    assert!(!settings.redacted_endpoint().contains("super-secret-token"));
}

#[test]
fn whip_trickle_ice_is_explicitly_configurable() {
    assert!(!WhipSettings::new("https://sfu.example/whip").trickle_ice);
    assert!(
        WhipSettings::new("https://sfu.example/whip")
            .with_trickle_ice(true)
            .trickle_ice
    );
}

#[test]
fn multistream_sink_fragments_and_retry_selection_are_independent() {
    let mut settings = MultistreamSettings::default();
    settings
        .add_target(StreamTarget::new(
            "one",
            StreamSettings::custom("rtmp://one/live", "k1"),
        ))
        .unwrap();
    settings
        .add_target(StreamTarget::new(
            "two",
            StreamSettings::custom("rtmp://two/live", "k2"),
        ))
        .unwrap();
    let fragments = settings.sink_fragments().unwrap();
    assert_eq!(fragments.len(), 2);
    assert!(fragments[0].contains("rtmp://one/live/k1"));
    let retry = MultistreamSettings::retryable_targets(&[
        ("one".into(), StreamTargetState::Live),
        ("two".into(), StreamTargetState::Failed),
    ]);
    assert_eq!(retry, vec!["two"]);
}

#[test]
fn reconnect_delay_preserves_configured_latency() {
    assert_eq!(
        StreamDelay::new(Duration::from_secs(4)).reconnect_delay(),
        Duration::from_secs(4)
    );
    assert_eq!(StreamDelay::default().reconnect_delay(), Duration::zero());
}

#[test]
fn multistream_targets_are_validated_and_limited() {
    let mut settings = MultistreamSettings::default();
    for index in 0..MultistreamSettings::MAX_TARGETS {
        settings
            .add_target(StreamTarget::new(
                &format!("target-{index}"),
                StreamSettings::custom("rtmp://localhost/live", &format!("key-{index}")),
            ))
            .unwrap();
    }
    assert!(settings
        .add_target(StreamTarget::new(
            "overflow",
            StreamSettings::custom("rtmp://localhost/live", "overflow")
        ))
        .is_err());
    assert_eq!(settings.target_names().len(), MultistreamSettings::MAX_TARGETS);
    assert!(settings.validate_all().is_ok());
}

#[test]
fn multistream_targets_isolate_duplicate_names_and_removal() {
    let target = StreamTarget::new("Twitch", StreamSettings::twitch("secret-twitch-key"));
    let mut settings = MultistreamSettings::default();
    settings.add_target(target.clone()).unwrap();
    assert!(settings.add_target(target).is_err());
    assert_eq!(settings.remove_target("Twitch").unwrap().masked_key(), "se••••");
    assert!(settings.validate_all().is_err());
}

#[test]
fn multistream_target_validation_rejects_invalid_target_without_mutating_state() {
    let mut settings = MultistreamSettings::default();
    let invalid = StreamTarget::new("", StreamSettings::twitch("key"));
    assert!(settings.add_target(invalid).is_err());
    assert!(settings.targets.is_empty());
}

#[test]
fn existing_location_behavior_is_preserved() {
    let s = StreamSettings::youtube("key")
        .with_preset(StreamPreset::High)
        .with_delay(StreamDelay::new(Duration::from_secs(3)))
        .with_multitrack_video(MultitrackVideo::new(2));
    assert_eq!(s.location(), "rtmps://a.rtmp.youtube.com/live2/key");
    assert_eq!(s.delay.latency_ms(), 3000);
    assert_eq!(s.multitrack_video.effective_tracks(), 2);
}

#[test]
fn whip_session_negotiation_lifecycle_is_deterministic() {
    let mut session = WhipMediaSession::new(
        WhipSettings::new("http://127.0.0.1:9/whip").with_timeout(Duration::from_secs(2)),
    );
    assert_eq!(session.state, WhipMediaState::Idle);

    let offer = session.create_offer_sdp().expect("offer builds");
    assert!(offer.contains("H264/90000"));
    assert!(offer.contains("opus/48000/2"));

    let previous = session.apply_answer("v=0\r\no=- 1 1 IN IP4 0.0.0.0\r\n");
    assert_eq!(previous, WhipMediaState::Idle);
    assert_eq!(session.state, WhipMediaState::Live);
    assert!(session.answer_sdp.as_deref().unwrap().starts_with("v=0"));

    session.apply_answer("");
    assert!(matches!(session.state, WhipMediaState::Failed(_)));

    session.shutdown().unwrap();
    assert_eq!(session.state, WhipMediaState::Idle);
}

#[test]
fn whip_session_shutdown_without_resource_is_a_noop() {
    let mut session = WhipMediaSession::new(WhipSettings::new("http://127.0.0.1:9/whip"));
    session.shutdown().unwrap();
    assert_eq!(session.state, WhipMediaState::Idle);
    assert!(session.answer_sdp.is_none());
}

#[test]
fn whip_offer_is_deterministic_and_redaction_safe() {
    let session = WhipMediaSession::new(WhipSettings::new("https://sfu.example/whip"));
    let a = session.create_offer_sdp().unwrap();
    let b = session.create_offer_sdp().unwrap();
    assert_eq!(a, b);
    assert!(!a.to_lowercase().contains("bearer"));
    assert!(!a.to_lowercase().contains("token"));
}

#[test]
fn vod_track_is_inactive_by_default_and_only_active_when_recorded() {
    assert!(!VodTrack::default().active());
    assert!(VodTrack::default().twitch_ivod_flag().is_none());

    let enabled = VodTrack::new(true);
    assert!(enabled.active());
    assert_eq!(enabled.twitch_ivod_flag(), Some("ivod"));

    let muted = VodTrack::new(true).with_recorded(false);
    assert!(!muted.active());
    assert!(muted.twitch_ivod_flag().is_none());
}

#[test]
fn vod_track_is_part_of_stream_settings_and_exposed_on_preset() {
    let settings = StreamSettings::twitch("key").with_vod_track(VodTrack::new(true));
    assert!(settings.vod_track.active());

    let plain = StreamSettings::twitch("key");
    assert!(!plain.vod_track.active());
    assert_eq!(plain.location(), "rtmps://live.twitch.tv/app/key");
}

#[test]
fn vod_track_never_appears_in_masked_or_redacted_output() {
    let settings =
        StreamSettings::custom("rtmp://host/live", "secret-key").with_vod_track(VodTrack::new(true));
    assert_eq!(settings.masked_key(), "se••••");
    assert!(!settings.location().contains("ivod"));
}
