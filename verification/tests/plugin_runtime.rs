use rivulet_core::plugin_manifest::{
    ApiVersion, PluginCapabilities, PluginCompatibility, PluginInfo, PluginKind, PluginManifest,
    PluginResources, PluginType,
};
use rivulet_core::plugin_runtime::{
    plugin_log_level, PluginLogLevel,
    classify_failure, config_copy_len, fuel_budget, init_outcome, load_status_description, missing_export,
    process_output_len, validation_skip, CallFailure, Entry, LifecycleCall, PluginConfig, PluginLifecycle,
    PluginState, RuntimeError, SkipReason, HOST_API_VERSION,
};

fn test_manifest() -> PluginManifest {
    PluginManifest {
        plugin: PluginInfo {
            id: "com.example.test-plugin".into(),
            version: "1.0.0".into(),
            api_version: ApiVersion {
                min: "1.0".into(),
                max: None,
            },
            name: "Test Plugin".into(),
            description: String::new(),
            author: String::new(),
            license: String::new(),
            homepage: String::new(),
            type_info: PluginType {
                kind: PluginKind::VideoFilter,
                entry_point: "plugin.wasm".into(),
                sandbox: "wasm".into(),
            },
            capabilities: PluginCapabilities::default(),
            resources: PluginResources::default(),
            compatibility: PluginCompatibility::default(),
        },
    }
}

/// Runs a call through the lifecycle with the answer the plugin gives.
fn call(
    lifecycle: &mut PluginLifecycle,
    which: LifecycleCall,
    answer: Result<i32, RuntimeError>,
) -> Result<(), RuntimeError> {
    match lifecycle.enter(which, 1) {
        Entry::Settled => Ok(()),
        Entry::Refused(e) => Err(e),
        Entry::Invoke => lifecycle.finish(which, answer),
    }
}

fn initialized() -> PluginLifecycle {
    let mut lifecycle = PluginLifecycle::new();
    assert_eq!(lifecycle.state(), PluginState::Loaded);
    lifecycle.finish_init(&init_outcome(Ok(0)));
    lifecycle
}

#[test]
fn runtime_error_display() {
    let e = RuntimeError::CompileError("bad module".into());
    assert!(e.message().contains("bad module"));

    let e = RuntimeError::Timeout("plugin_process");
    assert!(e.message().contains("plugin_process"));

    let e = RuntimeError::Trap("out of bounds".into());
    assert!(e.message().contains("out of bounds"));

    let e = RuntimeError::MissingExport("plugin_init".into());
    assert!(e.message().contains("plugin_init"));

    let e = RuntimeError::LifecycleError {
        function: "plugin_activate",
        code: -1,
    };
    assert!(e.message().contains("plugin_activate"));
    assert!(e.message().contains("-1"));
    assert_eq!(e.message(), "plugin_activate returned error code -1");
}

#[test]
fn skip_reason_display() {
    let r = SkipReason::ManifestParse("bad toml".into());
    assert!(r.message().contains("bad toml"));

    let r = SkipReason::InitFailed(-1);
    assert!(r.message().contains("init failed"));
    assert_eq!(r.message(), "init failed (code -1)");

    let r = SkipReason::InitTimeout;
    assert!(r.message().contains("timed out"));

    let r = SkipReason::InitTrap("unreachable".into());
    assert!(r.message().contains("trap"));
}

#[test]
fn full_lifecycle_moves_through_the_states() {
    let mut lifecycle = initialized();
    assert_eq!(lifecycle.state(), PluginState::Initialized);
    call(&mut lifecycle, LifecycleCall::Activate, Ok(0)).unwrap();
    assert_eq!(lifecycle.state(), PluginState::Active);
    call(&mut lifecycle, LifecycleCall::Process, Ok(1)).unwrap();
    assert_eq!(lifecycle.state(), PluginState::Active);
    call(&mut lifecycle, LifecycleCall::Deactivate, Ok(0)).unwrap();
    assert_eq!(lifecycle.state(), PluginState::Inactive);
    call(&mut lifecycle, LifecycleCall::Activate, Ok(0)).unwrap();
    assert_eq!(lifecycle.state(), PluginState::Active);
    call(&mut lifecycle, LifecycleCall::Unload, Ok(0)).unwrap();
    assert_eq!(lifecycle.state(), PluginState::Unloaded);
    assert_eq!(lifecycle.enter(LifecycleCall::Unload, 0), Entry::Settled);
}

#[test]
fn second_activation_invokes_nothing() {
    let mut lifecycle = initialized();
    call(&mut lifecycle, LifecycleCall::Activate, Ok(0)).unwrap();
    assert_eq!(lifecycle.enter(LifecycleCall::Activate, 0), Entry::Settled);
    assert_eq!(lifecycle.state(), PluginState::Active);
}

#[test]
fn processing_needs_an_active_plugin_and_a_fitting_input() {
    let mut lifecycle = initialized();
    match lifecycle.enter(LifecycleCall::Process, 1) {
        Entry::Refused(RuntimeError::InvalidState(m)) => {
            assert_eq!(m, "plugin_process called from Initialized")
        }
        other => panic!("unexpected {other:?}"),
    }
    assert_eq!(lifecycle.state(), PluginState::Initialized);
    call(&mut lifecycle, LifecycleCall::Activate, Ok(0)).unwrap();
    assert_eq!(lifecycle.enter(LifecycleCall::Process, 4095), Entry::Invoke);
    assert_eq!(
        lifecycle.enter(LifecycleCall::Process, 4096),
        Entry::Refused(RuntimeError::InvalidState(
            "plugin_process input exceeds scratch buffer".into()
        ))
    );
}

#[test]
fn error_codes_demote_or_unload() {
    let mut lifecycle = initialized();
    let err = call(&mut lifecycle, LifecycleCall::Activate, Ok(3)).unwrap_err();
    assert_eq!(
        err,
        RuntimeError::LifecycleError {
            function: "plugin_activate",
            code: 3
        }
    );
    assert_eq!(lifecycle.state(), PluginState::Inactive);

    call(&mut lifecycle, LifecycleCall::Activate, Ok(0)).unwrap();
    let err = call(&mut lifecycle, LifecycleCall::Process, Ok(-2)).unwrap_err();
    assert!(matches!(
        err,
        RuntimeError::LifecycleError {
            function: "plugin_process",
            ..
        }
    ));
    assert_eq!(lifecycle.state(), PluginState::Inactive);

    call(&mut lifecycle, LifecycleCall::Activate, Ok(0)).unwrap();
    let err = call(&mut lifecycle, LifecycleCall::Deactivate, Ok(1)).unwrap_err();
    assert!(matches!(
        err,
        RuntimeError::LifecycleError {
            function: "plugin_deactivate",
            ..
        }
    ));
    assert_eq!(lifecycle.state(), PluginState::Unloaded);
    assert!(matches!(
        lifecycle.enter(LifecycleCall::Activate, 0),
        Entry::Refused(RuntimeError::InvalidState(_))
    ));
}

#[test]
fn engine_failures_leave_the_state_alone() {
    let mut lifecycle = initialized();
    call(&mut lifecycle, LifecycleCall::Activate, Ok(0)).unwrap();
    let timeout = classify_failure(CallFailure::OutOfFuel, "plugin_process");
    assert_eq!(timeout, RuntimeError::Timeout("plugin_process"));
    let err = call(&mut lifecycle, LifecycleCall::Process, Err(timeout.clone())).unwrap_err();
    assert_eq!(err, timeout);
    assert_eq!(lifecycle.state(), PluginState::Active);
    assert_eq!(
        classify_failure(CallFailure::Trapped("unreachable".into()), "plugin_init"),
        RuntimeError::Trap("unreachable".into())
    );
    assert_eq!(
        classify_failure(CallFailure::Interrupted, "plugin_init"),
        RuntimeError::Timeout("plugin_init")
    );
}

#[test]
fn deactivation_needs_an_active_plugin() {
    let lifecycle = initialized();
    match lifecycle.enter(LifecycleCall::Deactivate, 0) {
        Entry::Refused(RuntimeError::InvalidState(m)) => {
            assert_eq!(m, "plugin_deactivate called from Initialized")
        }
        other => panic!("unexpected {other:?}"),
    }
}

#[test]
fn init_answers_decide_loading() {
    assert_eq!(init_outcome(Ok(0)), Ok(()));
    assert_eq!(init_outcome(Ok(-1)), Err(SkipReason::InitFailed(-1)));
    assert_eq!(
        init_outcome(Err(RuntimeError::Timeout("plugin_init"))),
        Err(SkipReason::InitTimeout)
    );
    let missing = missing_export("plugin_init");
    assert_eq!(
        missing,
        RuntimeError::MissingExport("plugin_init export not found in WASM module".into())
    );
    assert_eq!(
        init_outcome(Err(RuntimeError::Trap("unreachable".into()))),
        Err(SkipReason::InitTrap("WASM trap: unreachable".into()))
    );
    let mut lifecycle = PluginLifecycle::new();
    lifecycle.finish_init(&init_outcome(Ok(7)));
    assert_eq!(lifecycle.state(), PluginState::Skipped);
    assert_eq!(HOST_API_VERSION, 1 << 16);
}

#[test]
fn status_descriptions_name_the_plugin_or_unknown() {
    assert_eq!(
        load_status_description(Some("Test Plugin"), None),
        "Test Plugin loaded successfully"
    );
    let text = load_status_description(None, Some(&SkipReason::InitTimeout));
    assert!(text.contains("unknown"));
    assert!(text.contains("timed out"));
}

#[test]
fn budgets_and_output_sizes() {
    assert_eq!(fuel_budget(Some(1_000_000), 50), 1_000_000);
    assert_eq!(fuel_budget(None, 50), 100_000_000);
    assert_eq!(process_output_len(1), 1);
    assert_eq!(process_output_len(0x1000), 0x1000);
    assert_eq!(process_output_len(i32::MAX), 0x1000);
}

#[test]
fn invalid_manifests_are_skipped_with_the_validation_message() {
    assert_eq!(validation_skip(&test_manifest()), None);
    let mut m = test_manifest();
    m.plugin.id = String::new();
    assert_eq!(
        validation_skip(&m),
        Some(SkipReason::ManifestValidation(
            "missing required field: plugin.id".into()
        ))
    );
}

#[test]
fn host_config_write_read_roundtrip() {
    let mut config = PluginConfig::new();
    assert_eq!(config.read("theme"), None);
    config.write("theme".to_owned(), "dark".to_owned());
    config.write("size".to_owned(), "12".to_owned());
    assert_eq!(config.read("theme"), Some("dark"));
    config.write("theme".to_owned(), "light".to_owned());
    assert_eq!(config.read("theme"), Some("light"));
    assert_eq!(config.read("size"), Some("12"));
    assert_eq!(config_copy_len(5, 3), 3);
    assert_eq!(config_copy_len(2, 8), 2);
}

#[test]
fn plugin_log_levels_map_to_severities() {
    assert_eq!(plugin_log_level(0), PluginLogLevel::Error);
    assert_eq!(plugin_log_level(1), PluginLogLevel::Warn);
    assert_eq!(plugin_log_level(2), PluginLogLevel::Info);
    assert_eq!(plugin_log_level(3), PluginLogLevel::Debug);
    assert_eq!(plugin_log_level(4), PluginLogLevel::Trace);
    assert_eq!(plugin_log_level(u32::MAX), PluginLogLevel::Trace);
}
