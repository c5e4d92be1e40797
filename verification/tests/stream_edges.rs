use rivulet_core::srt::{ContributionProtocol, ContributionSettings};
use rivulet_core::stream::{
    probe_target, StreamTarget, TargetPluginStatus, CredentialStoreError, StreamKeyStore, StreamProbeResult, StreamSettings, WhipSession,
    WhipSettings,
};
use rivulet_core::time::Duration;

#[test]
fn reachability_probe_rejects_invalid_url_without_network_access() {
    assert!(matches!(
        probe_target("https://invalid", Duration::from_secs(1)),
        Err(StreamProbeResult::Rejected(_))
    ));
    let result = probe_target("https://example.com/live", Duration::from_secs(5));
    assert_eq!(
        result,
        Err(StreamProbeResult::Rejected(
            "ingest URL must use rtmp:// or rtmps://".to_owned()
        ))
    );
    let twitch = StreamSettings::twitch("key");
    assert!(twitch.validate().is_ok());
    assert!(probe_target(&twitch.ingest_url, Duration::from_secs(1)).is_ok());
}

#[test]
fn probe_target_clamps_the_timeout_and_keeps_host_and_port() {
    let (host, port, timeout) =
        probe_target("rtmps://live.example.com/app", Duration::from_millis(200)).unwrap();
    assert_eq!((host.as_str(), port), ("live.example.com", 443));
    assert_eq!(timeout.as_secs(), 1);
    let (_, port, timeout) =
        probe_target("rtmp://[::1]:1936/app", Duration::from_secs(90)).unwrap();
    assert_eq!(port, 1936);
    assert_eq!(timeout.as_secs(), 30);
    let (_, _, timeout) = probe_target("rtmp://host/app", Duration::from_secs(7)).unwrap();
    assert_eq!(timeout.as_secs(), 7);
}

#[test]
fn whip_offer_headers_carry_sdp_types_and_the_token() {
    let settings = WhipSettings::new("https://whip.example.com/endpoint");
    let headers = settings.offer_headers("v=0").unwrap();
    assert_eq!(
        headers,
        vec![
            ("Content-Type", "application/sdp".to_owned()),
            ("Accept", "application/sdp".to_owned()),
        ]
    );
    let with_token = settings.clone().with_bearer_token("secret");
    let headers = with_token.offer_headers("v=0").unwrap();
    assert_eq!(headers[2], ("Authorization", "Bearer secret".to_owned()));
    let empty_token = settings.clone().with_bearer_token("");
    assert_eq!(empty_token.offer_headers("v=0").unwrap().len(), 2);
}

#[test]
fn whip_offer_is_refused_for_bad_settings_or_an_empty_offer() {
    let settings = WhipSettings::new("https://whip.example.com/endpoint");
    assert_eq!(settings.offer_headers("  \n"), Err("WHIP offer SDP is empty"));
    let insecure = WhipSettings::new("http://whip.example.com/endpoint");
    assert_eq!(
        insecure.offer_headers("v=0"),
        Err("WHIP endpoint must use https:// unless it is loopback development HTTP")
    );
}

#[test]
fn whip_delete_goes_to_the_resource() {
    let absolute = WhipSession {
        resource_url: Some("https://cdn.example.com/resource/1".to_owned()),
        answer_sdp: "v=0".to_owned(),
    };
    assert_eq!(
        absolute.delete_target("https://whip.example.com"),
        Some("https://cdn.example.com/resource/1".to_owned())
    );
    let relative = WhipSession {
        resource_url: Some("/resource/2".to_owned()),
        answer_sdp: "v=0".to_owned(),
    };
    assert_eq!(
        relative.delete_target("https://whip.example.com"),
        Some("https://whip.example.com/resource/2".to_owned())
    );
    let none = WhipSession {
        resource_url: None,
        answer_sdp: "v=0".to_owned(),
    };
    assert_eq!(none.delete_target("https://whip.example.com"), None);
}

#[test]
fn missing_stream_keys_are_not_errors() {
    assert_eq!(
        StreamKeyStore::load_result(Ok("key".to_owned())),
        Ok(Some("key".to_owned()))
    );
    assert_eq!(
        StreamKeyStore::load_result(Err(CredentialStoreError::NoEntry)),
        Ok(None)
    );
    assert_eq!(
        StreamKeyStore::load_result(Err(CredentialStoreError::Failed("locked".to_owned()))),
        Err("locked".to_owned())
    );
    assert_eq!(StreamKeyStore::delete_result(Err(CredentialStoreError::NoEntry)), Ok(()));
    assert_eq!(StreamKeyStore::delete_result(Ok(())), Ok(()));
    assert_eq!(
        StreamKeyStore::delete_result(Err(CredentialStoreError::Failed("denied".to_owned()))),
        Err("denied".to_owned())
    );
    assert_eq!(StreamKeyStore::default().service(), "Rivulet");
}

#[test]
fn contribution_targets_refresh_plugin_status_without_affecting_rtmp() {
    let mut rtmp = StreamTarget::new("rtmp", StreamSettings::custom("rtmp://host/live", "key"));
    rtmp.refresh_plugin_status(true);
    assert_eq!(rtmp.plugin_status, TargetPluginStatus::NotApplicable);
    for available in [true, false] {
        let mut srt = StreamTarget::new("srt", StreamSettings::custom("rtmp://host/live", "key"))
            .with_contribution(ContributionSettings::new(
                ContributionProtocol::Srt,
                "srt://host:9000",
            ));
        srt.refresh_plugin_status(available);
        assert!(matches!(
            srt.plugin_status,
            TargetPluginStatus::Available | TargetPluginStatus::Unavailable
        ));
        assert_eq!(
            srt.plugin_status,
            if available {
                TargetPluginStatus::Available
            } else {
                TargetPluginStatus::Unavailable
            }
        );
    }
}
