use rivulet_core::plugin_manifest::{
    ApiVersion, PluginCapabilities, PluginCompatibility, PluginInfo, PluginKind, PluginManifest,
    PluginResources, PluginType,
};
use rivulet_core::plugin_registry::{
    collect_bundles, default_install_root, join_name, text_less, BundleProbe, CapabilityDecision,
    PluginApprovals, PluginRecord,
};

fn manifest_with_id(id: &str) -> PluginManifest {
    PluginManifest {
        plugin: PluginInfo {
            id: id.into(),
            version: "1.0.0".into(),
            api_version: ApiVersion {
                min: "1.0".into(),
                max: None,
            },
            name: "Test".into(),
            description: String::new(),
            author: String::new(),
            license: String::new(),
            homepage: String::new(),
            type_info: PluginType {
                kind: PluginKind::UiPanel,
                entry_point: "plugin.wasm".into(),
                sandbox: "wasm".into(),
            },
            capabilities: PluginCapabilities {
                ui: true,
                ..PluginCapabilities::default()
            },
            resources: PluginResources::default(),
            compatibility: PluginCompatibility::default(),
        },
    }
}

fn caps_of(ui: bool, audio_in: bool, secrets: bool, capture: bool) -> PluginCapabilities {
    PluginCapabilities {
        ui,
        audio_in,
        secrets,
        capture,
        ..PluginCapabilities::default()
    }
}

#[test]
fn forget_removes_all_decisions() {
    let mut approvals = PluginApprovals::default();
    approvals.approve("com.example.demo", "ui");
    approvals.set_enabled("com.example.demo", true);
    approvals.forget("com.example.demo");
    assert!(approvals.record("com.example.demo").is_none());
}

#[test]
fn approvals_record_decisions_per_capability() {
    let mut approvals = PluginApprovals::default();
    approvals.approve("com.example.demo", "ui");
    approvals.deny("com.example.demo", "audio_in");
    approvals.set_enabled("com.example.demo", true);
    let record = approvals.record("com.example.demo").unwrap();
    assert_eq!(record.decision("ui"), Some(CapabilityDecision::Approved));
    assert_eq!(record.decision("audio_in"), Some(CapabilityDecision::Denied));
    assert_eq!(record.decision("video_in"), None);
    assert!(record.enabled());
    approvals.deny("com.example.demo", "ui");
    assert_eq!(
        approvals.record("com.example.demo").unwrap().decision("ui"),
        Some(CapabilityDecision::Denied)
    );
}

#[test]
fn sensitive_capabilities_stay_denied_for_wasm_even_when_approved() {
    let caps = caps_of(true, false, true, true);
    let mut approvals = PluginApprovals::default();
    approvals.approve("com.example.demo", "secrets");
    approvals.approve("com.example.demo", "capture");
    approvals.approve("com.example.demo", "ui");
    assert!(!approvals.effective_grant("com.example.demo", &caps, "secrets", true));
    assert!(!approvals.effective_grant("com.example.demo", &caps, "capture", true));
    assert!(approvals.effective_grant("com.example.demo", &caps, "ui", true));
    assert!(approvals.effective_grant("com.example.demo", &caps, "secrets", false));
}

#[test]
fn effective_grant_requires_explicit_user_decision_per_plugin() {
    let caps = caps_of(true, true, false, false);
    let mut approvals = PluginApprovals::default();
    assert!(!approvals.effective_grant("com.example.demo", &caps, "ui", true));
    approvals.approve("com.other.plugin", "ui");
    assert!(!approvals.effective_grant("com.example.demo", &caps, "ui", true));
    approvals.deny("com.example.demo", "ui");
    assert!(!approvals.effective_grant("com.example.demo", &caps, "ui", true));
    approvals.approve("com.example.demo", "ui");
    assert!(approvals.effective_grant("com.example.demo", &caps, "ui", true));
    assert!(!approvals.effective_grant("com.example.demo", &caps, "video_out", true));
}

#[test]
fn fully_decided_requires_every_requested_capability() {
    let demo_caps = caps_of(true, true, false, false);
    let mut approvals = PluginApprovals::default();
    assert!(!approvals.fully_decided("com.example.demo", &demo_caps));
    approvals.approve("com.example.demo", "ui");
    assert!(!approvals.fully_decided("com.example.demo", &demo_caps));
    approvals.deny("com.example.demo", "audio_in");
    assert!(approvals.fully_decided("com.example.demo", &demo_caps));
    let empty_caps = PluginCapabilities::default();
    assert!(!approvals.fully_decided("com.example.demo", &empty_caps));
}

#[test]
fn default_decision_is_denied() {
    let record = PluginRecord::default();
    assert_eq!(record.decision("ui"), None, "no decision recorded yet");
    assert!(!record.enabled());
    assert_eq!(CapabilityDecision::default(), CapabilityDecision::Denied);
}

#[test]
fn record_mut_creates_and_updates_one_record() {
    let mut approvals = PluginApprovals::default();
    {
        let record = approvals.record_mut("com.example.demo");
        assert!(!record.enabled());
        record.set_enabled(true);
        record.decide("chat", CapabilityDecision::Approved);
    }
    let record = approvals.record("com.example.demo").unwrap();
    assert!(record.enabled());
    assert_eq!(record.decision("chat"), Some(CapabilityDecision::Approved));
    assert!(approvals.record("com.example.other").is_none());
}

#[test]
fn default_install_root_appends_plugins() {
    assert_eq!(default_install_root("/home/u/.config/rivulet"), "/home/u/.config/rivulet/plugins");
    assert_eq!(default_install_root("/data/"), "/data/plugins");
    assert_eq!(default_install_root(""), "plugins");
}

#[test]
fn scan_install_root_finds_valid_bundles_and_reports_broken() {
    let root = "/tmp/rivulet/plugins";
    let good = format!("{root}/com.example.good");
    let probes = vec![
        BundleProbe {
            dir: good.clone(),
            manifest: Some(Ok(manifest_with_id("com.example.good"))),
            binary_exists: true,
        },
        BundleProbe {
            dir: format!("{root}/com.example.nobin"),
            manifest: Some(Ok(manifest_with_id("com.example.nobin"))),
            binary_exists: false,
        },
        BundleProbe {
            dir: format!("{root}/com.example.bad"),
            manifest: Some(Err("failed to parse manifest: expected `]`".to_owned())),
            binary_exists: false,
        },
        BundleProbe {
            dir: format!("{root}/unrelated"),
            manifest: None,
            binary_exists: false,
        },
    ];
    let (found, broken) = collect_bundles(probes);
    assert_eq!(found.len(), 1, "one valid bundle: {found:?}");
    assert_eq!(found[0].id(), "com.example.good");
    assert_eq!(found[0].binary_path, format!("{good}/plugin.wasm"));
    assert_eq!(found[0].bundle_dir, good);
    assert_eq!(broken.len(), 2, "nobin + bad manifest reported: {broken:?}");
    assert!(broken
        .iter()
        .any(|b| !b.contains("com.example.good") && b.contains("plugin.wasm missing")));
    assert_eq!(broken[0], "com.example.nobin: plugin.wasm missing");
    assert_eq!(
        broken[1],
        "/tmp/rivulet/plugins/com.example.bad: failed to parse manifest: expected `]`"
    );
}

#[test]
fn scan_missing_root_is_empty_not_error() {
    let (found, broken) = collect_bundles(Vec::new());
    assert!(found.is_empty());
    assert!(broken.is_empty());
}

#[test]
fn collected_bundles_are_sorted_by_id_and_stable() {
    let ids = ["dev.b", "com.z", "dev.a", "com.z", "com.a"];
    let probes = ids
        .iter()
        .enumerate()
        .map(|(i, id)| BundleProbe {
            dir: format!("/p/{i}"),
            manifest: Some(Ok(manifest_with_id(id))),
            binary_exists: true,
        })
        .collect();
    let (found, broken) = collect_bundles(probes);
    assert!(broken.is_empty());
    let order: Vec<(&str, &str)> = found
        .iter()
        .map(|d| (d.id(), d.bundle_dir.as_str()))
        .collect();
    assert_eq!(
        order,
        vec![
            ("com.a", "/p/4"),
            ("com.z", "/p/1"),
            ("com.z", "/p/3"),
            ("dev.a", "/p/2"),
            ("dev.b", "/p/0"),
        ]
    );
}

#[test]
fn text_order_and_path_joining() {
    assert!(text_less("com.a", "com.b"));
    assert!(text_less("com", "com.a"));
    assert!(!text_less("com.a", "com"));
    assert!(!text_less("same", "same"));
    assert!(text_less("Z", "a"));
    assert_eq!(join_name("/data/", "plugins"), "/data/plugins");
    assert_eq!(join_name("/data", "plugins"), "/data/plugins");
    assert_eq!(join_name("", "plugins"), "plugins");
}

#[test]
fn plugin_ids_come_in_ascending_order() {
    let mut approvals = PluginApprovals::default();
    approvals.approve("org.zeta.tool", "ui");
    approvals.set_enabled("com.alpha.demo", true);
    approvals.deny("com.beta.viz", "audio_in");
    approvals.approve("com.alpha.demo", "ui");
    assert_eq!(
        approvals.plugin_ids(),
        vec!["com.alpha.demo".to_owned(), "com.beta.viz".to_owned(), "org.zeta.tool".to_owned()]
    );
}
