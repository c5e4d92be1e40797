use rivulet_core::rate_limit::RateLimitConfig;
use rivulet_core::source::SourceKind;
use rivulet_core::text_source::{FontWeight, ScrollDirection, TextAlign};
use rivulet_core::transition::TransitionKind;

#[test]
fn source_kind_label_returns_correct_string() {
    assert_eq!(SourceKind::Image.label(), "Image");
    assert_eq!(SourceKind::Text.label(), "Text");
    assert_eq!(SourceKind::Webcam.label(), "Webcam");
    assert_eq!(SourceKind::Browser.label(), "Browser");
    assert_eq!(SourceKind::Media.label(), "Media");
    assert_eq!(SourceKind::Color.label(), "Color");
    assert_eq!(SourceKind::GameCapture.label(), "Game Capture");
    assert_eq!(SourceKind::ScreenCapture.label(), "Screen Capture");
    assert_eq!(SourceKind::Audio.label(), "Audio");
}

#[test]
fn source_kind_all_variants_are_unique() {
    let kinds = [
        SourceKind::Image,
        SourceKind::Text,
        SourceKind::Webcam,
        SourceKind::Browser,
        SourceKind::Media,
        SourceKind::Color,
        SourceKind::GameCapture,
        SourceKind::ScreenCapture,
        SourceKind::Audio,
    ];
    let distinct_labels: Vec<&str> = kinds.iter().map(|k| k.label()).collect();
    assert_eq!(distinct_labels.len(), 9);
}

#[test]
fn font_weight_labels() {
    assert_eq!(FontWeight::Light.label(), "Light");
    assert_eq!(FontWeight::Normal.label(), "Normal");
    assert_eq!(FontWeight::Bold.label(), "Bold");
    assert_eq!(FontWeight::ExtraBold.label(), "Extra Bold");
}

#[test]
fn font_weight_default_is_normal() {
    assert_eq!(FontWeight::default(), FontWeight::Normal);
}

#[test]
fn text_align_labels() {
    assert_eq!(TextAlign::Left.label(), "Left");
    assert_eq!(TextAlign::Center.label(), "Center");
    assert_eq!(TextAlign::Right.label(), "Right");
}

#[test]
fn text_align_default_is_left() {
    assert_eq!(TextAlign::default(), TextAlign::Left);
}

#[test]
fn scroll_direction_labels() {
    assert_eq!(ScrollDirection::NoScroll.label(), "None");
    assert_eq!(ScrollDirection::Up.label(), "Scroll Up");
    assert_eq!(ScrollDirection::Down.label(), "Scroll Down");
    assert_eq!(ScrollDirection::Left.label(), "Scroll Left");
    assert_eq!(ScrollDirection::Right.label(), "Scroll Right");
}

#[test]
fn scroll_direction_default_is_none() {
    assert_eq!(ScrollDirection::default(), ScrollDirection::NoScroll);
}

#[test]
fn transition_kinds_are_listed_and_labelled() {
    assert_eq!(TransitionKind::all(), [TransitionKind::Cut, TransitionKind::Fade]);
    assert_eq!(TransitionKind::Cut.label(), "Cut");
    assert_eq!(TransitionKind::Fade.label(), "Fade");
    assert_eq!(TransitionKind::default(), TransitionKind::Cut);
}

#[test]
fn rate_limit_defaults_follow_platform_rules() {
    assert_eq!(RateLimitConfig::twitch_default(), RateLimitConfig { capacity: 20, window_secs: 30 });
    assert_eq!(RateLimitConfig::kick_default(), RateLimitConfig { capacity: 10, window_secs: 30 });
    assert_eq!(RateLimitConfig::youtube_default(), RateLimitConfig { capacity: 1, window_secs: 86_400 });
    assert_eq!(RateLimitConfig::default(), RateLimitConfig::twitch_default());
}

/// Tokens regained per second under `config` (the refill rate the token
/// bucket applies).
fn refill_per_sec(config: &RateLimitConfig) -> f64 {
    config.capacity as f64 / config.window_secs.max(1) as f64
}

#[test]
fn twitch_default_is_20_per_30_seconds() {
    let config = RateLimitConfig::twitch_default();
    assert_eq!((config.capacity, config.window_secs), (20, 30));
    assert!((refill_per_sec(&config) - 20.0 / 30.0).abs() < 1e-9);
    assert_eq!(RateLimitConfig::default(), config);
}

#[test]
fn kick_default_is_conservative() {
    let config = RateLimitConfig::kick_default();
    assert_eq!((config.capacity, config.window_secs), (10, 30));
    assert!(
        refill_per_sec(&config) < refill_per_sec(&RateLimitConfig::twitch_default()),
        "Kick must throttle harder than Twitch (undocumented limits)"
    );
}

#[test]
fn youtube_default_is_quota_bounded() {
    let config = RateLimitConfig::youtube_default();
    assert_eq!(config.capacity, 1, "YouTube sends must be serialized");
    let per_day = refill_per_sec(&config) * 86_400.0;
    assert!(
        (per_day - 1.0).abs() < 1e-9,
        "one token per day at the documented ~50-sends quota budget"
    );
}
