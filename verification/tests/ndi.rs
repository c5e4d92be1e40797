use rivulet_core::ndi::NdiOutput;

#[test]
fn ndi_output_is_off_by_default() {
    let output = NdiOutput::default();
    assert!(!output.active);
    assert_eq!(output.name, "Rivulet");
}

#[test]
fn ndi_output_validates_name() {
    assert!(NdiOutput::new("Studio Feed", true).validate().is_ok());
    let fragment = NdiOutput::new("Studio Feed", true)
        .validated_pipeline_sink_fragment()
        .unwrap();
    assert!(fragment.contains("Studio Feed"));
    assert!(fragment.starts_with("ndisink"));
    assert!(NdiOutput::new("", true).validate().is_err());
    let too_long: String = "n".repeat(NdiOutput::MAX_NAME_LEN + 1);
    assert!(NdiOutput::new(&too_long, true).validate().is_err());
}

#[test]
fn ndi_output_escapes_quotes_to_prevent_pipeline_breakout() {
    let output = NdiOutput::new("main \" ; rm -rf /", true);
    let fragment = output.validated_pipeline_sink_fragment().unwrap();
    assert!(
        fragment.contains("\\\""),
        "NDI fragment must backslash-escape an embedded quote: {fragment}"
    );
    let quotes = fragment.matches('\"').count();
    let escaped = fragment.matches("\\\"").count();
    assert_eq!(quotes - escaped, 2, "exactly the two enclosing quotes: {fragment}");
}

#[test]
fn ndi_output_fragment_contains_group_when_set() {
    let fragment = NdiOutput::new("Rivulet Main", true)
        .with_group("streams")
        .validated_pipeline_sink_fragment()
        .unwrap();
    assert!(fragment.contains("streams"));
}

#[test]
fn ndi_fragment_is_exact_and_escapes_backslashes() {
    let fragment = NdiOutput::new("  a\\b  ", false)
        .with_group("g\"1")
        .validated_pipeline_sink_fragment()
        .unwrap();
    assert_eq!(fragment, "ndisink ndi-name=\"a\\\\b\" ndi-groups=\"g\\\"1\" ");
}

#[test]
fn ndi_errors_name_the_broken_field() {
    assert_eq!(
        NdiOutput::new("   ", true).validate(),
        Err("NDI source name must not be empty")
    );
    assert_eq!(
        NdiOutput::new(&"ä".repeat(81), true).validate(),
        Err("NDI source name is too long")
    );
    assert!(NdiOutput::new(&"ä".repeat(80), true).validate().is_ok());
    assert_eq!(
        NdiOutput::new("ok", true).with_group("").validate(),
        Err("NDI group must not be empty when set")
    );
}

#[test]
fn ndi_publishes_only_when_active_and_available() {
    assert!(NdiOutput::new("x", true).should_publish(true));
    assert!(!NdiOutput::new("x", true).should_publish(false));
    assert!(!NdiOutput::new("x", false).should_publish(true));
    assert_eq!(NdiOutput::default().sink_element_name(), "ndisink");
}
