use rivulet_core::engine::{
    retry_frame_push, AudioTrack, RivuletEngine, AUDIO_CHANNELS, AUDIO_SAMPLE_RATE, FRAME_PUSH_RETRIES,
};
use rivulet_core::health::StreamHealthStatus;
use rivulet_core::ndi::NdiOutput;
use rivulet_core::preset::RecordingPreset;
use rivulet_core::reconnect::{ReconnectCommand, SinkBusEvent};
use rivulet_core::stream::{AdaptiveBitrate, MultistreamSettings, StreamSettings, StreamTarget, StreamTargetState};
use rivulet_core::time::Duration;

fn two_targets() -> MultistreamSettings {
    let mut settings = MultistreamSettings::default();
    settings
        .add_target(StreamTarget::new("Twitch", StreamSettings::twitch("key")))
        .unwrap();
    settings
        .add_target(StreamTarget::new("YouTube", StreamSettings::youtube("key")))
        .unwrap();
    settings
}

#[test]
fn audio_toggle_is_disabled_by_default() {
    let engine = RivuletEngine::default();
    assert!(!engine.audio_enabled());
}

#[test]
fn audio_toggle_can_be_enabled_and_disabled() {
    let mut engine = RivuletEngine::default();
    engine.set_audio_enabled(true);
    assert!(engine.audio_enabled());
    engine.set_audio_enabled(false);
    assert!(!engine.audio_enabled());
}

#[test]
fn audio_tracks_are_enabled_by_default_and_toggleable() {
    let mut engine = RivuletEngine::default();
    assert!(engine.audio_track_enabled(AudioTrack::System));
    assert!(engine.audio_track_enabled(AudioTrack::Microphone));
    engine.set_audio_track_enabled(AudioTrack::Microphone, false);
    assert!(engine.audio_track_enabled(AudioTrack::System));
    assert!(!engine.audio_track_enabled(AudioTrack::Microphone));
}

#[test]
fn engine_errors_are_recorded_and_consumed_once() {
    let mut engine = RivuletEngine::default();
    assert!(engine.take_error().is_none(), "no error before a failure");
    engine.start_streaming();
    let err = engine.take_error().expect("failure must be recorded");
    assert!(err.contains("No stream targets"), "unexpected message: {err}");
    assert!(engine.take_error().is_none(), "error must be consumed exactly once");
}

#[test]
fn engine_is_not_streaming_by_default() {
    let engine = RivuletEngine::default();
    assert!(!engine.is_streaming());
}

#[test]
fn stream_settings_can_be_cleared() {
    let mut engine = RivuletEngine::default();
    engine.set_stream_settings(Some(StreamSettings::twitch("k")));
    assert!(engine.is_streaming());
    engine.set_stream_settings(None);
    assert!(!engine.is_streaming());
}

#[test]
fn dual_output_detected_when_stream_and_path_configured() {
    let mut engine = RivuletEngine::default();
    engine.set_stream_settings(Some(StreamSettings::twitch("k")));
    assert!(!engine.is_dual_output(), "streaming alone is not dual output");
    engine.start_local_recording("rivulet_dual_detect.mp4".to_owned());
    assert!(engine.is_dual_output(), "stream + recording = dual output");
    engine.set_stream_settings(None);
    assert!(!engine.is_dual_output(), "recording alone is not dual output");
}

#[test]
fn overlay_enabled_is_false_by_default() {
    let engine = RivuletEngine::default();
    assert!(!engine.overlay_enabled());
}

#[test]
fn set_overlay_enabled_toggles_flag() {
    let mut engine = RivuletEngine::default();
    engine.set_overlay_enabled(true);
    assert!(engine.overlay_enabled());
    engine.set_overlay_enabled(false);
    assert!(!engine.overlay_enabled());
}

#[test]
fn replay_buffer_is_disabled_by_default() {
    let engine = RivuletEngine::default();
    assert!(!engine.replay_enabled());
    assert_eq!(engine.replay_duration(), None);
    assert_eq!(engine.replay_retained_secs(), None);
}

#[test]
fn replay_duration_can_be_enabled_updated_and_disabled() {
    let mut engine = RivuletEngine::default();
    engine.set_replay_duration(Duration::from_secs(30));
    assert!(engine.replay_enabled());
    assert_eq!(engine.replay_duration(), Some(Duration::from_secs(30)));
    engine.set_replay_duration(Duration::from_secs(60));
    assert_eq!(engine.replay_duration(), Some(Duration::from_secs(60)));
    engine.disable_replay();
    assert!(!engine.replay_enabled());
    assert_eq!(engine.replay_duration(), None);
}

#[test]
fn saving_replay_while_disabled_fails_cleanly() {
    let engine = RivuletEngine::default();
    let err = engine.replay_snapshot().unwrap_err();
    assert!(err.contains("disabled"));
}

#[test]
fn set_ndi_output_rejects_invalid_names_without_mutating_state() {
    let mut engine = RivuletEngine::default();
    assert_eq!(
        engine.set_ndi_output(Some(NdiOutput::new("", true))),
        Err("NDI source name must not be empty")
    );
    assert!(engine.ndi_output().is_none(), "an invalid configuration must not be stored");
    assert_eq!(engine.set_ndi_output(Some(NdiOutput::new("valid", true))), Ok(()));
    assert_eq!(engine.ndi_output().map(|o| o.name.as_str()), Some("valid"));
}

#[test]
fn stop_recording_with_disabled_cloud_does_not_upload() {
    let mut engine = RivuletEngine::default();
    engine.start_local_recording("rivulet_no_cloud_upload.mp4".to_owned());
    engine.stop_recording();
    assert!(!engine.is_recording());
}

#[test]
fn stop_recording_clears_the_replay_ring() {
    let mut engine = RivuletEngine::default();
    engine.set_replay_duration(Duration::from_secs(30));
    engine.start_local_recording("rivulet_replay_clear.mp4".to_owned());
    assert!(engine.capture_replay_video(Some(0), Some(0), false, vec![0], None));
    assert!(engine.capture_replay_audio(0, Some(0), Some(0), vec![0], None));
    assert!(engine.capture_replay_video(Some(2_000_000_000), None, true, vec![1], None));
    assert_eq!(engine.replay_retained_secs(), Some(2));
    let finished = engine.stop_recording();
    assert_eq!(finished.as_deref(), Some("rivulet_replay_clear.mp4"));
    assert!(engine.replay_enabled());
    assert_eq!(engine.replay_retained_secs(), Some(0));
    let snapshot = engine.replay_snapshot().unwrap();
    assert!(snapshot.video.is_empty());
    assert!(snapshot.audio_tracks.is_empty());
}

#[test]
fn engine_defaults_match_the_audio_input_and_encoder_settings() {
    assert_eq!(AUDIO_SAMPLE_RATE, 48_000);
    assert_eq!(AUDIO_CHANNELS, 2);
    let engine = RivuletEngine::new();
    assert_eq!(engine.video_bitrate(), 5_000);
    assert_eq!(engine.preset(), RecordingPreset::original());
    assert!(!engine.is_recording());
    assert!(engine.last_bitrate_change().is_none());
    assert!(engine.stream_target_states().is_empty());
}

#[test]
fn preset_bitrate_overrides_the_video_bitrate() {
    let mut engine = RivuletEngine::default();
    engine.set_video_bitrate(8_000);
    assert_eq!(engine.video_bitrate(), 8_000);
    engine.set_preset(RecordingPreset::p720p30());
    assert_eq!(engine.video_bitrate(), RecordingPreset::p720p30().bitrate_kbps.unwrap());
    engine.set_video_bitrate(4_200);
    engine.set_preset(RecordingPreset::original());
    assert_eq!(engine.video_bitrate(), 4_200);
    assert_eq!(engine.preset(), RecordingPreset::original());
}

#[test]
fn starting_twice_keeps_the_first_session() {
    let mut engine = RivuletEngine::default();
    engine.set_stream_settings(Some(StreamSettings::twitch("k")));
    engine.start_streaming();
    assert!(engine.is_recording());
    assert!(engine.take_error().is_none());
    engine.start_local_recording("late.mp4".to_owned());
    assert!(!engine.is_dual_output(), "a running session is not changed");
    assert_eq!(engine.stop_recording(), None);
    assert!(!engine.is_recording());
    assert_eq!(engine.stop_recording(), None, "stopping again does nothing");
}

#[test]
fn track_frames_are_ignored_in_mixed_mode() {
    let mut engine = RivuletEngine::default();
    engine.set_audio_enabled(true);
    assert!(!engine.accepts_track_audio());
    assert!(engine.accepts_mixed_audio());
    engine.set_separate_audio_tracks(true);
    assert!(engine.accepts_track_audio());
    assert!(!engine.accepts_mixed_audio());
    engine.set_stream_settings(Some(StreamSettings::twitch("k")));
    assert!(!engine.accepts_track_audio(), "streams carry one mixed track");
    assert!(engine.accepts_mixed_audio());
    engine.set_audio_enabled(false);
    assert!(!engine.accepts_mixed_audio());
}

#[test]
fn multistream_targets_start_connecting_in_order() {
    let mut engine = RivuletEngine::default();
    engine.set_multistream_settings(Some(two_targets()));
    let states = engine.stream_targets_with_states();
    assert_eq!(states.len(), 2);
    assert_eq!(states[0].0, "Twitch");
    assert_eq!(states[1].0, "YouTube");
    assert_eq!(states[0].1, StreamTargetState::Connecting);
    assert_eq!(states[1].1, StreamTargetState::Connecting);
    engine.set_multistream_settings(None);
    assert!(engine.stream_targets_with_states().is_empty());
    assert!(engine.stream_target_states().is_empty());
}

#[test]
fn target_failure_is_isolated_and_scheduled_once() {
    let mut engine = RivuletEngine::default();
    engine.set_multistream_settings(Some(two_targets()));
    assert!(engine.handle_stream_target_live("Twitch"));
    assert!(engine.handle_stream_target_live("YouTube"));
    assert!(engine.handle_stream_target_failure("YouTube"));
    assert_eq!(
        engine.stream_target_states(),
        &[StreamTargetState::Live, StreamTargetState::Failed][..]
    );
    assert_eq!(engine.retry_backoff("YouTube"), Some(Duration::from_secs(1)));
    assert_eq!(engine.retryable_stream_targets(), vec!["YouTube"]);
    assert!(
        !engine.handle_stream_target_failure("YouTube"),
        "a duplicate failure report schedules no second retry"
    );
    assert!(!engine.handle_stream_target_failure("Unknown"));
    assert_eq!(engine.retry_backoff("Unknown"), None);
    assert!(engine.poll_stream_reconnects(Duration::from_millis(500)).is_empty());
    assert_eq!(
        engine.poll_stream_reconnects(Duration::from_secs(1)),
        vec!["YouTube".to_owned()]
    );
    assert!(engine.poll_stream_reconnects(Duration::from_secs(2)).is_empty());
    assert!(engine.handle_stream_target_live("YouTube"));
    assert_eq!(
        engine.stream_target_states(),
        &[StreamTargetState::Live, StreamTargetState::Live][..]
    );
    assert!(engine.retryable_stream_targets().is_empty());
}

#[test]
fn failures_without_supervision_are_not_retried() {
    let mut engine = RivuletEngine::default();
    assert!(!engine.handle_stream_target_failure("Twitch"));
    assert!(!engine.handle_stream_target_live("Twitch"));
    assert!(engine.poll_stream_reconnects(Duration::from_secs(60)).is_empty());
    assert!(engine.retryable_stream_targets().is_empty());
    assert_eq!(engine.retry_backoff("Twitch"), None);
}

#[test]
fn stopping_ends_reconnect_supervision_but_keeps_target_states() {
    let mut engine = RivuletEngine::default();
    engine.set_multistream_settings(Some(two_targets()));
    engine.set_stream_settings(None);
    assert!(engine.stream_target_states().is_empty());
    engine.set_multistream_settings(Some(two_targets()));
    engine.set_stream_settings(Some(StreamSettings::twitch("k")));
    engine.set_multistream_settings(Some(two_targets()));
    engine.start_streaming();
    assert!(engine.handle_stream_target_failure("Twitch"));
    engine.stop_recording();
    assert!(!engine.handle_stream_target_failure("YouTube"), "no supervision after stop");
    assert_eq!(
        engine.stream_target_states(),
        &[StreamTargetState::Failed, StreamTargetState::Failed][..]
    );
}

#[test]
fn reconnect_commands_resolve_to_target_positions() {
    let mut engine = RivuletEngine::default();
    let command = ReconnectCommand::RebuildBranch("YouTube".to_owned());
    assert_eq!(engine.resolve_reconnect_command(&command), None);
    engine.set_multistream_settings(Some(two_targets()));
    assert_eq!(engine.resolve_reconnect_command(&command), Some(1));
    assert_eq!(
        engine.resolve_reconnect_command(&ReconnectCommand::RebuildBranch("Twitch".to_owned())),
        Some(0)
    );
    assert_eq!(
        engine.resolve_reconnect_command(&ReconnectCommand::RebuildBranch("Kick".to_owned())),
        None
    );
    assert_eq!(engine.resolve_reconnect_command(&ReconnectCommand::Shutdown), None);
}

#[test]
fn stream_bitrate_follows_health_under_the_stream_policy() {
    let mut engine = RivuletEngine::default();
    assert!(!engine.update_stream_bitrate_from_health(StreamHealthStatus::Poor, Duration::from_secs(10)));
    assert!(!engine.reconfigure_stream_bitrate(StreamHealthStatus::Poor));
    let mut settings = StreamSettings::twitch("k");
    settings.adaptive_bitrate = AdaptiveBitrate::new(1_000, 6_000, 500);
    engine.set_stream_settings(Some(settings));
    assert!(engine.reconfigure_stream_bitrate(StreamHealthStatus::Poor));
    assert_eq!(engine.video_bitrate(), 4_500);
    assert!(!engine.update_stream_bitrate_from_health(StreamHealthStatus::Poor, Duration::from_secs(10)));
    assert_eq!(engine.video_bitrate(), 4_500, "one sample is not enough");
    assert!(engine.update_stream_bitrate_from_health(StreamHealthStatus::Poor, Duration::from_secs(11)));
    assert_eq!(engine.video_bitrate(), 4_000);
    let change = engine.last_bitrate_change().unwrap();
    assert_eq!(change.from_kbps, 4_500);
    assert_eq!(change.to_kbps, 4_000);
}

#[test]
fn replay_capture_files_times_and_caps() {
    let mut engine = RivuletEngine::default();
    assert!(!engine.capture_replay_video(Some(1), Some(1), false, vec![1], None));
    engine.set_replay_duration(Duration::from_secs(30));
    assert!(engine.capture_replay_video(
        Some(5_000_000_000),
        None,
        false,
        vec![7],
        Some("video/x-h264".to_owned())
    ));
    assert!(engine.capture_replay_video(
        Some(6_000_000_000),
        Some(5_500_000_000),
        true,
        vec![8],
        Some("video/other".to_owned())
    ));
    assert!(engine.capture_replay_audio(1, Some(5_000_000_000), None, vec![9], Some("audio/mpeg".to_owned())));
    let snapshot = engine.replay_snapshot().unwrap();
    assert_eq!(snapshot.video_caps.as_deref(), Some("video/x-h264"));
    assert_eq!(snapshot.video.len(), 2);
    assert_eq!(snapshot.video[0].pts_ns, 0);
    assert!(snapshot.video[0].keyframe);
    assert!(!snapshot.video[1].keyframe);
    assert_eq!(snapshot.video[1].dts_ns, 500_000_000);
    assert_eq!(snapshot.audio_tracks.len(), 2);
    assert!(snapshot.audio_tracks[0].is_empty());
    assert_eq!(snapshot.audio_caps[1].as_deref(), Some("audio/mpeg"));
}

#[test]
fn sink_bus_events_reach_the_target_of_that_sink() {
    let mut engine = RivuletEngine::default();
    assert!(!engine.handle_sink_bus_event("stream_sink_0", SinkBusEvent::Error));
    engine.set_multistream_settings(Some(two_targets()));
    assert!(engine.handle_sink_bus_event("stream_sink_0", SinkBusEvent::StateChanged));
    assert!(engine.handle_sink_bus_event("stream_sink_1", SinkBusEvent::StateChanged));
    assert!(!engine.handle_sink_bus_event("stream_sink_1", SinkBusEvent::Warning));
    assert!(engine.handle_sink_bus_event("stream_sink_1", SinkBusEvent::Eos));
    assert_eq!(
        engine.stream_target_states(),
        &[StreamTargetState::Live, StreamTargetState::Failed][..]
    );
    assert!(!engine.handle_sink_bus_event("stream_sink_7", SinkBusEvent::Error));
    assert!(!engine.handle_sink_bus_event("video_enc", SinkBusEvent::Error));
    assert_eq!(engine.retryable_stream_targets(), vec!["YouTube"]);
}

#[test]
fn failed_frame_pushes_retry_three_times_then_end_the_session() {
    assert_eq!(FRAME_PUSH_RETRIES, 3);
    assert!(retry_frame_push(0, true));
    assert!(retry_frame_push(2, true));
    assert!(!retry_frame_push(3, true));
    assert!(!retry_frame_push(0, false));
    let mut engine = RivuletEngine::default();
    engine.start_local_recording("clip.mp4".to_owned());
    assert_eq!(engine.frame_push_failed("flushing"), Some("clip.mp4".to_owned()));
    assert!(!engine.is_recording());
    assert_eq!(
        engine.take_error().as_deref(),
        Some("Could not push a frame into the recording pipeline: flushing")
    );
}
