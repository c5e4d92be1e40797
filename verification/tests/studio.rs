use rivulet_core::studio::StudioMode;
use uuid::Uuid;

fn scene() -> Uuid {
    Uuid::new_v4()
}

#[test]
fn enabling_uses_current_scene_for_both_roles() {
    let current = scene();
    let mut studio = StudioMode::new();
    studio.set_enabled(true, Some(current));

    assert!(studio.enabled());
    assert_eq!(studio.preview(), Some(current));
    assert_eq!(studio.program(), Some(current));
    assert!(!studio.can_take());
}

#[test]
fn preview_selection_does_not_change_program() {
    let program = scene();
    let preview = scene();
    let mut studio = StudioMode::new();
    studio.set_enabled(true, Some(program));
    studio.set_preview(Some(preview));

    assert_eq!(studio.preview(), Some(preview));
    assert_eq!(studio.program(), Some(program));
    assert!(studio.can_take());
}

#[test]
fn take_promotes_preview_and_preserves_transition_endpoints() {
    let program = scene();
    let preview = scene();
    let mut studio = StudioMode::new();
    studio.set_enabled(true, Some(program));
    studio.set_preview(Some(preview));

    let cut = studio.take().expect("preview should be takeable");

    assert_eq!(studio.program(), Some(preview));
    assert_eq!(cut.from, Some(program));
    assert_eq!(cut.to, preview);
}

#[test]
fn take_is_idempotent_until_a_new_preview_is_selected() {
    let program = scene();
    let preview = scene();
    let mut studio = StudioMode::new();
    studio.set_enabled(true, Some(program));
    studio.set_preview(Some(preview));

    assert!(studio.take().is_some());
    assert!(studio.take().is_none());
}

#[test]
fn removing_a_scene_clears_its_studio_roles() {
    let program = scene();
    let preview = scene();
    let mut studio = StudioMode::new();
    studio.set_enabled(true, Some(program));
    studio.set_preview(Some(preview));

    studio.remove_scene(preview);
    assert_eq!(studio.preview(), Some(program));
    studio.remove_scene(program);
    assert_eq!(studio.preview(), None);
    assert_eq!(studio.program(), None);
}

#[test]
fn disabling_clears_roles_and_prevents_take() {
    let program = scene();
    let mut studio = StudioMode::new();
    studio.set_enabled(true, Some(program));
    studio.set_enabled(false, Some(program));

    assert!(!studio.enabled());
    assert_eq!(studio.preview(), None);
    assert_eq!(studio.program(), None);
    assert!(!studio.can_take());
}

#[test]
fn preview_selection_is_ignored_when_disabled() {
    let preview = scene();
    let mut studio = StudioMode::new();
    studio.set_preview(Some(preview));

    assert_eq!(studio.preview(), None);
    assert_eq!(studio.program(), None);
}

#[test]
fn a_new_preview_can_be_taken_after_a_take() {
    let program = scene();
    let first = scene();
    let second = scene();
    let mut studio = StudioMode::new();
    studio.set_enabled(true, Some(program));
    studio.set_preview(Some(first));
    assert!(studio.take().is_some());
    studio.set_preview(Some(second));
    let cut = studio.take().expect("a different preview is takeable");
    assert_eq!(cut.from, Some(first));
    assert_eq!(cut.to, second);
    assert_eq!(studio.program(), Some(second));
}

#[test]
fn take_without_program_reports_no_source_scene() {
    let preview = scene();
    let mut studio = StudioMode::new();
    studio.set_enabled(true, None);
    studio.set_preview(Some(preview));
    let cut = studio.take().expect("preview differs from an empty program");
    assert_eq!(cut.from, None);
    assert_eq!(cut.to, preview);
}
