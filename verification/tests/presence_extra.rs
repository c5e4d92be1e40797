use rivulet_core::i18n::Locale;
use rivulet_core::presence::{PresenceActivity, PresenceStatus};

#[test]
fn whitespace_only_game_name_is_dropped() {
    let status =
        PresenceStatus::for_activity_localized(PresenceActivity::Paused, Locale::De, Some("   "));
    assert_eq!(status.details, "Rivulet · Pausiert");
    assert!(status.state.is_empty());
    assert_eq!(Locale::En.tr("no_such_key"), "no_such_key");
}
