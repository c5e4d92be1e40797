use rivulet_core::sdp::SdpOffer;
use rivulet_core::srt::{ContributionProtocol, ContributionSettings};
use rivulet_core::time::Duration;

#[test]
fn offer_contains_h264_and_opus_sections() {
    let offer = SdpOffer::h264_opus("https://sfu.example/whip").to_sdp().unwrap();
    assert!(offer.contains("v=0"));
    assert!(offer.contains("m=video"));
    assert!(offer.contains("H264/90000"));
    assert!(offer.contains("m=audio"));
    assert!(offer.contains("opus/48000/2"));
    assert!(offer.contains("a=group:BUNDLE 0 1"));
}

#[test]
fn offer_is_deterministic_for_same_endpoint() {
    let a = SdpOffer::h264_opus("https://sfu.example/whip").to_sdp().unwrap();
    let b = SdpOffer::h264_opus("https://sfu.example/whip").to_sdp().unwrap();
    assert_eq!(a, b);
}

#[test]
fn offer_never_contains_the_bearer_token_or_password() {
    let offer = SdpOffer::h264_opus("https://sfu.example/whip").to_sdp().unwrap();
    assert!(!offer.contains("secret"));
    assert!(!offer.contains("password"));
    assert!(!offer.contains("token"));
}

#[test]
fn validates_protocol_scheme_and_latency_bounds() {
    let settings = ContributionSettings::new(ContributionProtocol::Srt, "srt://127.0.0.1:9000")
        .with_latency(Duration::from_millis(1));
    assert!(settings.validate().is_ok());
    assert_eq!(settings.latency, Duration::from_millis(20));
    assert!(ContributionSettings::new(ContributionProtocol::Rist, "srt://host")
        .validate()
        .is_err());
}

#[test]
fn validates_srt_passphrase_without_logging_it() {
    let settings = ContributionSettings::new(ContributionProtocol::Srt, "srt://host:9000")
        .with_passphrase("top-secret-phrase");
    assert!(settings.validate().is_ok());
    assert!(settings.has_passphrase());
    assert!(!settings.redacted_endpoint().contains("top-secret"));
    assert!(ContributionSettings::new(ContributionProtocol::Srt, "srt://host")
        .with_passphrase("short")
        .validate()
        .is_err());
}

#[test]
fn produces_protocol_specific_sink_fragment() {
    assert!(ContributionSettings::new(ContributionProtocol::Srt, "srt://host")
        .pipeline_sink_fragment()
        .starts_with("srtsink"));
    assert!(ContributionSettings::new(ContributionProtocol::Rist, "rist://host")
        .pipeline_sink_fragment()
        .starts_with("ristsink"));
}
