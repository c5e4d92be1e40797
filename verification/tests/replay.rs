use rivulet_core::replay::{remux_audio_caps, remux_description, remux_video_caps, ReplayBuffer, ReplaySegment, ReplaySnapshot};
use rivulet_core::time::Duration;

fn seg(pts_ns: u64, keyframe: bool) -> ReplaySegment {
    ReplaySegment::new(pts_ns, pts_ns, vec![1, 2, 3], keyframe)
}

#[test]
fn new_buffer_is_empty_with_configured_duration() {
    let buffer = ReplayBuffer::new(Duration::from_secs(30));
    assert!(buffer.is_empty());
    assert_eq!(buffer.duration(), Duration::from_secs(30));
    assert_eq!(buffer.retained_ns(), 0);
}

#[test]
fn eviction_keeps_only_the_last_duration() {
    let mut buffer = ReplayBuffer::new(Duration::from_secs(10));
    for i in 0..12 {
        buffer.push_video(i * 1_000_000_000, i * 1_000_000_000, vec![0], i == 0);
    }
    assert_eq!(buffer.video().len(), 11);
    assert_eq!(buffer.video().front().unwrap().pts_ns, 1_000_000_000);
    assert_eq!(buffer.video().back().unwrap().pts_ns, 11_000_000_000);
    assert_eq!(buffer.retained_ns(), 10_000_000_000);
}

#[test]
fn out_of_order_pts_does_not_break_eviction() {
    let mut buffer = ReplayBuffer::new(Duration::from_secs(5));
    buffer.push_video(1_000_000_000, 0, vec![0], true);
    buffer.push_video(900_000_000, 1_000_000_000, vec![0], false);
    buffer.push_video(6_000_000_000, 2_000_000_000, vec![0], false);
    assert_eq!(buffer.video().len(), 3);
    buffer.push_video(11_000_000_000, 8_000_000_000, vec![0], true);
    assert_eq!(buffer.video().len(), 1);
    assert_eq!(buffer.video().front().unwrap().pts_ns, 11_000_000_000);
    assert_eq!(buffer.retained_ns(), 0);
}

#[test]
fn audio_tracks_are_evicted_independently() {
    let mut buffer = ReplayBuffer::new(Duration::from_secs(5));
    for i in 0..6 {
        buffer.push_audio(0, i * 1_000_000_000, i * 1_000_000_000, vec![0]);
    }
    buffer.push_audio(1, 0, 0, vec![0]);
    let snap = buffer.snapshot();
    assert_eq!(snap.audio_tracks[0].len(), 6);
    assert_eq!(snap.audio_tracks[1].len(), 1);
    assert!(!buffer.is_empty());
}

#[test]
fn set_duration_evicts_immediately() {
    let mut buffer = ReplayBuffer::new(Duration::from_secs(60));
    for i in 0..10 {
        buffer.push_video(i * 1_000_000_000, i * 1_000_000_000, vec![0], i == 0);
    }
    buffer.set_duration(Duration::from_secs(2));
    assert_eq!(buffer.video().len(), 3);
    assert_eq!(buffer.duration(), Duration::from_secs(2));
}

#[test]
fn clear_removes_everything_including_caps() {
    let mut buffer = ReplayBuffer::new(Duration::from_secs(30));
    buffer.set_video_caps("video/x-h264".to_string());
    buffer.push_video(0, 0, vec![0], true);
    buffer.push_audio(0, 0, 0, vec![0]);
    buffer.set_audio_caps(0, "audio/mpeg".to_string());
    buffer.clear();
    assert!(buffer.is_empty());
    assert!(buffer.video_caps().is_none());
    assert!(buffer.audio_caps(0).is_none());
    assert_eq!(buffer.retained_ns(), 0);
}

#[test]
fn caps_are_sticky() {
    let mut buffer = ReplayBuffer::new(Duration::from_secs(30));
    buffer.set_video_caps("video/x-h264, stream-format=(string)avc".to_string());
    buffer.set_video_caps("video/x-h264, stream-format=(string)byte-stream".to_string());
    assert_eq!(buffer.video_caps(), Some("video/x-h264, stream-format=(string)avc"));
    buffer.set_audio_caps(2, "audio/a".to_string());
    buffer.set_audio_caps(2, "audio/b".to_string());
    assert_eq!(buffer.audio_caps(2), Some("audio/a"));
    assert_eq!(buffer.audio_caps(0), None);
}

#[test]
fn snapshot_starts_at_keyframe_and_shifts_timestamps() {
    let mut buffer = ReplayBuffer::new(Duration::from_secs(30));
    buffer.set_video_caps("video/x-h264".to_string());
    buffer.push_video(1_500_000_000, 1_500_000_000, vec![1], false);
    buffer.push_video(2_000_000_000, 2_000_000_000, vec![2], true);
    buffer.push_video(3_000_000_000, 3_000_000_000, vec![3], false);
    buffer.push_audio(0, 1_000_000_000, 1_000_000_000, vec![9]);
    buffer.push_audio(0, 2_000_000_000, 2_000_000_000, vec![8]);

    let snap = buffer.snapshot();
    assert_eq!(snap.video.len(), 2);
    assert_eq!(snap.video[0].data, vec![2]);
    assert!(snap.video[0].keyframe);
    assert_eq!(snap.video[0].pts_ns, 0);
    assert_eq!(snap.video[1].pts_ns, 1_000_000_000);
    assert_eq!(snap.audio_tracks[0][0].pts_ns, 0);
    assert_eq!(snap.audio_tracks[0][1].pts_ns, 1_000_000_000);
    assert_eq!(snap.video_caps.as_deref(), Some("video/x-h264"));
}

#[test]
fn snapshot_without_any_keyframe_drops_all_video() {
    let mut buffer = ReplayBuffer::new(Duration::from_secs(30));
    buffer.push_video(0, 0, vec![1], false);
    buffer.push_video(1_000_000_000, 1_000_000_000, vec![2], false);
    let snap = buffer.snapshot();
    assert!(snap.video.is_empty());
    assert!(snap.is_empty());
}

#[test]
fn empty_snapshot_save_fails_cleanly() {
    let snap = ReplaySnapshot::empty();
    let err = remux_description(&snap, "unused.mp4").unwrap_err();
    assert!(err.contains("empty"));
}

#[test]
fn remux_description_names_every_nonempty_track() {
    let snap = ReplaySnapshot {
        video: vec![seg(0, true)],
        video_caps: None,
        audio_tracks: vec![vec![seg(0, false)], vec![], vec![seg(5, false)]],
        audio_caps: vec![None, None, None],
    };
    let desc = remux_description(&snap, "C:\\clips\\a.mp4").unwrap();
    assert_eq!(
        desc,
        "appsrc name=rv_vsrc format=time is-live=false do-timestamp=false ! h264parse ! replay_mux. \
         appsrc name=rv_asrc0 format=time is-live=false do-timestamp=false ! aacparse ! replay_mux. \
         appsrc name=rv_asrc2 format=time is-live=false do-timestamp=false ! aacparse ! replay_mux. \
         mp4mux name=replay_mux ! filesink name=replay_file location=\"C:\\\\clips\\\\a.mp4\""
    );
}

#[test]
fn normalize_keeps_relative_spacing_per_track() {
    let mut snap = ReplaySnapshot {
        video: vec![seg(10, false), seg(20, true), seg(35, false)],
        video_caps: None,
        audio_tracks: vec![vec![seg(7, false), seg(9, false)]],
        audio_caps: vec![None],
    };
    snap.normalize();
    let pts: Vec<u64> = snap.video.iter().map(|s| s.pts_ns).collect();
    assert_eq!(pts, vec![0, 15]);
    let apts: Vec<u64> = snap.audio_tracks[0].iter().map(|s| s.pts_ns).collect();
    assert_eq!(apts, vec![0, 2]);
}

#[test]
fn escape_location_doubles_backslashes() {
    let escaped = rivulet_core::replay::escape_location("C:\\Users\\Temp\\out.mp4");
    assert_eq!(escaped, "C:\\\\Users\\\\Temp\\\\out.mp4");
}

#[test]
fn remux_sources_fall_back_to_default_caps() {
    let mut snap = ReplaySnapshot {
        video: vec![seg(0, true)],
        video_caps: None,
        audio_tracks: vec![vec![seg(0, false)], vec![seg(0, false)]],
        audio_caps: vec![Some("audio/mpeg, rate=(int)48000".to_owned()), None],
    };
    assert_eq!(remux_video_caps(&snap), "video/x-h264");
    assert_eq!(remux_audio_caps(&snap, 0), "audio/mpeg, rate=(int)48000");
    assert_eq!(
        remux_audio_caps(&snap, 1),
        "audio/mpeg, mpegversion=(int)4, stream-format=(string)raw"
    );
    assert_eq!(
        remux_audio_caps(&snap, 5),
        "audio/mpeg, mpegversion=(int)4, stream-format=(string)raw"
    );
    snap.video_caps = Some("video/x-h264, codec_data=(buffer)01".to_owned());
    assert_eq!(remux_video_caps(&snap), "video/x-h264, codec_data=(buffer)01");
}
