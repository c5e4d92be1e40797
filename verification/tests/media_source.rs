use rivulet_core::media_source::{
    format_duration, media_type_of_lowercase, position_display, MediaType, PlaybackMode,
};
use rivulet_core::time::Duration;

#[test]
fn media_type_labels() {
    assert_eq!(MediaType::Video.label(), "Video");
    assert_eq!(MediaType::Audio.label(), "Audio");
    assert_eq!(MediaType::Image.label(), "Image");
}

#[test]
fn media_type_from_extension_video() {
    assert_eq!(MediaType::from_extension("mp4"), Some(MediaType::Video));
    assert_eq!(MediaType::from_extension("mkv"), Some(MediaType::Video));
    assert_eq!(MediaType::from_extension("webm"), Some(MediaType::Video));
    assert_eq!(MediaType::from_extension("MP4"), Some(MediaType::Video));
}

#[test]
fn media_type_from_extension_audio() {
    assert_eq!(MediaType::from_extension("mp3"), Some(MediaType::Audio));
    assert_eq!(MediaType::from_extension("wav"), Some(MediaType::Audio));
    assert_eq!(MediaType::from_extension("flac"), Some(MediaType::Audio));
}

#[test]
fn media_type_from_extension_image() {
    assert_eq!(MediaType::from_extension("png"), Some(MediaType::Image));
    assert_eq!(MediaType::from_extension("jpg"), Some(MediaType::Image));
    assert_eq!(MediaType::from_extension("gif"), Some(MediaType::Image));
}

#[test]
fn media_type_from_extension_unknown() {
    assert_eq!(MediaType::from_extension("xyz"), None);
    assert_eq!(MediaType::from_extension("txt"), None);
}

#[test]
fn playback_mode_labels() {
    assert_eq!(PlaybackMode::Once.label(), "Once");
    assert_eq!(PlaybackMode::Loop.label(), "Loop");
    assert_eq!(PlaybackMode::Freeze.label(), "Freeze");
}

#[test]
fn playback_mode_default_is_once() {
    assert_eq!(PlaybackMode::default(), PlaybackMode::Once);
}

#[test]
fn format_duration_zero() {
    assert_eq!(format_duration(Duration::zero()), "00:00");
}

#[test]
fn format_duration_minutes() {
    assert_eq!(format_duration(Duration::from_secs(125)), "02:05");
}

#[test]
fn format_duration_hours() {
    assert_eq!(format_duration(Duration::from_secs(3661)), "01:01:01");
}

#[test]
fn format_duration_keeps_long_hours_whole() {
    assert_eq!(format_duration(Duration::from_secs(100 * 3600 + 59)), "100:00:59");
    assert_eq!(format_duration(Duration::from_millis(59_999)), "00:59");
}

#[test]
fn position_display_no_duration() {
    assert_eq!(position_display(Duration::from_secs(90), None), "01:30");
}

#[test]
fn position_display_with_duration() {
    assert_eq!(
        position_display(Duration::from_secs(90), Some(Duration::from_secs(300))),
        "01:30/05:00"
    );
}

#[test]
fn lowercase_extension_table_covers_every_family() {
    for ext in ["mp4", "mkv", "webm", "avi", "mov", "wmv", "flv", "ts"] {
        assert_eq!(media_type_of_lowercase(ext), Some(MediaType::Video), "{ext}");
    }
    for ext in ["mp3", "wav", "flac", "aac", "ogg", "opus", "wma"] {
        assert_eq!(media_type_of_lowercase(ext), Some(MediaType::Audio), "{ext}");
    }
    for ext in ["png", "jpg", "jpeg", "gif", "bmp", "webp", "tiff"] {
        assert_eq!(media_type_of_lowercase(ext), Some(MediaType::Image), "{ext}");
    }
    assert_eq!(media_type_of_lowercase("MP4"), None);
    assert_eq!(MediaType::from_extension("JPEG"), Some(MediaType::Image));
}
