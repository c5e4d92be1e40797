use rivulet_core::i18n::Locale;
use rivulet_core::presence::{PresenceActivity, PresenceStatus};


    #[test]
    fn status_always_identifies_rivulet() {
        for activity in [
            PresenceActivity::Idle,
            PresenceActivity::Recording,
            PresenceActivity::Streaming,
            PresenceActivity::RecordingAndStreaming,
            PresenceActivity::Paused,
            PresenceActivity::Error,
        ] {
            let status = PresenceStatus::for_activity(activity);
            assert_eq!(status.application, "Rivulet");
            // The composed title line always leads with the app word so small
            // hover cards read as Rivulet; the localized status label follows
            // it and the game slot (`state`) stays empty without a game.
            assert!(status.details.starts_with("Rivulet · "));
            assert!(status.details.contains(activity.fallback_label()));
            assert!(status.state.is_empty());
        }
    }

    #[test]
    fn composed_title_line_is_localized_per_locale() {
        // The dynamic first line is "Rivulet · <localized label>": the app
        // word and separator are language-neutral, the status word comes from
        // the locale tables, so every state reads correctly in DE and EN.
        for activity in PresenceActivity::all() {
            let en = PresenceStatus::for_activity_localized(activity, Locale::En, None);
            let de = PresenceStatus::for_activity_localized(activity, Locale::De, None);
            let en_label = Locale::En.tr(activity.i18n_key());
            let de_label = Locale::De.tr(activity.i18n_key());
            assert_eq!(en.details, format!("Rivulet · {en_label}"));
            assert_eq!(de.details, format!("Rivulet · {de_label}"));
            assert!(
                en.details != de.details,
                "localized labels must differ where the locale differs: {activity:?}"
            );
            assert!(en.state.is_empty() && de.state.is_empty());
        }
    }

    #[test]
    fn recording_and_streaming_are_distinguished() {
        assert_ne!(
            PresenceStatus::for_activity(PresenceActivity::Recording),
            PresenceStatus::for_activity(PresenceActivity::Streaming)
        );
        assert_eq!(
            PresenceStatus::for_activity(PresenceActivity::RecordingAndStreaming).details,
            "Rivulet · Recording + streaming"
        );
    }

    #[test]
    fn localized_status_contains_game_name_without_sensitive_data() {
        let status = PresenceStatus::for_activity_localized(
            PresenceActivity::Streaming,
            Locale::De,
            Some("Elden Ring"),
        );
        // Line layout: `details` carries the composed title line (first card
        // line, app word + localized status), `state` the game name (second
        // line).
        assert_eq!(status.details, "Rivulet · Streamt");
        assert_eq!(status.state, "Elden Ring");
        assert!(!status.details.contains("rtmp"));
        assert!(!status.details.contains("/"));
    }

    #[test]
    fn without_game_name_state_stays_empty() {
        let status = PresenceStatus::for_activity_localized(
            PresenceActivity::Recording,
            Locale::En,
            None,
        );
        assert_eq!(status.details, "Rivulet · Recording");
        assert!(status.state.is_empty());
    }

    #[test]
    fn payload_contains_no_sensitive_runtime_data() {
        let status = PresenceStatus::for_activity(PresenceActivity::Streaming);
        // Without a game name only the status label is on the wire.
        assert!(!status.details.contains("rtmp"));
        assert!(!status.details.contains("key"));
        assert!(!status.details.contains("/") && !status.details.contains("\\"));
        assert!(status.state.is_empty());
    }

    #[test]
    fn all_states_have_distinct_tooltips_in_both_locales() {
        // Every state in the legend needs a tooltip in both locales; the
        // i18n parity test additionally guarantees both tables agree on keys.
        let mut keys = Vec::new();
        for activity in PresenceActivity::all() {
            let key = activity.tooltip_i18n_key();
            assert!(key.starts_with("presence_tooltip_"), "bad key: {key}");
            assert!(
                !Locale::En.tr(key).is_empty() && Locale::En.tr(key) != key,
                "missing EN tooltip for {key}"
            );
            assert!(
                !Locale::De.tr(key).is_empty() && Locale::De.tr(key) != key,
                "missing DE tooltip for {key}"
            );
            keys.push(key);
        }
        keys.sort_unstable();
        keys.dedup();
        assert_eq!(keys.len(), 6, "legend must cover all six states exactly");
    }

    #[test]
    fn all_states_cover_every_activity_variant() {
        // The legend is the source of truth for display order; it must not
        // silently drop a variant when a new activity is added.
        for variant in [
            PresenceActivity::Idle,
            PresenceActivity::Recording,
            PresenceActivity::Streaming,
            PresenceActivity::RecordingAndStreaming,
            PresenceActivity::Paused,
            PresenceActivity::Error,
        ] {
            assert!(
                PresenceActivity::all().contains(&variant),
                "legend missing {variant:?}"
            );
        }
    }
