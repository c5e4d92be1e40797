//! Product activity status for optional external presence integrations.
//!
//! This module only builds a status payload. It does not connect to any
//! presence service or transmit anything; platform adapters can consume the
//! payload later.
use vstd::prelude::*;

use crate::i18n::{tr_spec, Locale};
use crate::text::{all_ws, is_blank, owned};

verus! {

/// Current high-level activity shown to a presence provider.
#[derive(Debug, Clone, Copy, PartialEq, Eq, Structural)]
pub enum PresenceActivity {
    Idle,
    Recording,
    Streaming,
    RecordingAndStreaming,
    Paused,
    Error,
}

/// The locale-table key of an activity's label.
pub open spec fn key_spec(a: PresenceActivity) -> Seq<char> {
    match a {
        PresenceActivity::Idle => "presence_ready"@,
        PresenceActivity::Recording => "presence_recording"@,
        PresenceActivity::Streaming => "presence_streaming"@,
        PresenceActivity::RecordingAndStreaming => "presence_recording_streaming"@,
        PresenceActivity::Paused => "presence_paused"@,
        PresenceActivity::Error => "presence_error"@,
    }
}

/// The English label of an activity.
pub open spec fn fallback_spec(a: PresenceActivity) -> Seq<char> {
    match a {
        PresenceActivity::Idle => "Ready"@,
        PresenceActivity::Recording => "Recording"@,
        PresenceActivity::Streaming => "Streaming"@,
        PresenceActivity::RecordingAndStreaming => "Recording + streaming"@,
        PresenceActivity::Paused => "Paused"@,
        PresenceActivity::Error => "Error"@,
    }
}

/// The locale-table key of an activity's tooltip.
pub open spec fn tooltip_key_spec(a: PresenceActivity) -> Seq<char> {
    match a {
        PresenceActivity::Idle => "presence_tooltip_ready"@,
        PresenceActivity::Recording => "presence_tooltip_recording"@,
        PresenceActivity::Streaming => "presence_tooltip_streaming"@,
        PresenceActivity::RecordingAndStreaming => "presence_tooltip_recording_streaming"@,
        PresenceActivity::Paused => "presence_tooltip_paused"@,
        PresenceActivity::Error => "presence_tooltip_error"@,
    }
}

impl PresenceActivity {
    /// Stable i18n key consumed by the locale tables.
    pub fn i18n_key(self) -> (r: &'static str)
        ensures
            r@ == key_spec(self),
    {
        match self {
            PresenceActivity::Idle => "presence_ready",
            PresenceActivity::Recording => "presence_recording",
            PresenceActivity::Streaming => "presence_streaming",
            PresenceActivity::RecordingAndStreaming => "presence_recording_streaming",
            PresenceActivity::Paused => "presence_paused",
            PresenceActivity::Error => "presence_error",
        }
    }

    /// English fallback for integrations that do not have a locale.
    pub fn fallback_label(self) -> (r: &'static str)
        ensures
            r@ == fallback_spec(self),
    {
        match self {
            PresenceActivity::Idle => "Ready",
            PresenceActivity::Recording => "Recording",
            PresenceActivity::Streaming => "Streaming",
            PresenceActivity::RecordingAndStreaming => "Recording + streaming",
            PresenceActivity::Paused => "Paused",
            PresenceActivity::Error => "Error",
        }
    }

    /// The English label.
    pub fn label(self) -> (r: &'static str)
        ensures
            r@ == fallback_spec(self),
    {
        self.fallback_label()
    }

    /// All states in display (and priority) order, used by the status legend
    /// in the Stream view.
    pub fn all() -> (r: [PresenceActivity; 6])
        ensures
            r@ == seq![
                PresenceActivity::Error,
                PresenceActivity::RecordingAndStreaming,
                PresenceActivity::Paused,
                PresenceActivity::Recording,
                PresenceActivity::Streaming,
                PresenceActivity::Idle,
            ],
            forall|a: PresenceActivity| r@.contains(a),
    {
        let r = [
            PresenceActivity::Error,
            PresenceActivity::RecordingAndStreaming,
            PresenceActivity::Paused,
            PresenceActivity::Recording,
            PresenceActivity::Streaming,
            PresenceActivity::Idle,
        ];
        proof {
            assert forall|a: PresenceActivity| r@.contains(a) by {
                match a {
                    PresenceActivity::Error => assert(r@[0] == a),
                    PresenceActivity::RecordingAndStreaming => assert(r@[1] == a),
                    PresenceActivity::Paused => assert(r@[2] == a),
                    PresenceActivity::Recording => assert(r@[3] == a),
                    PresenceActivity::Streaming => assert(r@[4] == a),
                    PresenceActivity::Idle => assert(r@[5] == a),
                }
            }
        }
        r
    }

    /// Stable i18n key for the tooltip that explains when this state appears
    /// and what it means. Both locales translate every key.
    pub fn tooltip_i18n_key(self) -> (r: &'static str)
        ensures
            r@ == tooltip_key_spec(self),
    {
        match self {
            PresenceActivity::Idle => "presence_tooltip_ready",
            PresenceActivity::Recording => "presence_tooltip_recording",
            PresenceActivity::Streaming => "presence_tooltip_streaming",
            PresenceActivity::RecordingAndStreaming => "presence_tooltip_recording_streaming",
            PresenceActivity::Paused => "presence_tooltip_paused",
            PresenceActivity::Error => "presence_tooltip_error",
        }
    }
}

/// A privacy-safe activity payload suitable for a rich-presence card.
#[derive(Debug, Clone, PartialEq, Eq)]
pub struct PresenceStatus {
    pub application: &'static str,
    pub details: String,
    pub state: String,
}

/// The composed first card line: the app word, a separator and the
/// localized status label.
pub open spec fn details_spec(activity: PresenceActivity, locale: Locale) -> Seq<char> {
    "Rivulet · "@ + tr_spec(locale, key_spec(activity))
}

/// The second card line: the game name, or nothing when none (or only
/// whitespace) was given.
pub open spec fn state_spec(game_name: Option<&str>) -> Seq<char> {
    match game_name {
        Some(g) => if all_ws(g@) { Seq::empty() } else { g@ },
        None => Seq::empty(),
    }
}

impl PresenceStatus {
    /// Build an English fallback status without sensitive runtime data.
    pub fn for_activity(activity: PresenceActivity) -> (r: Self)
        ensures
            r.application@ == "Rivulet"@,
            r.details@ == details_spec(activity, Locale::En),
            r.state@ == Seq::<char>::empty(),
    {
        PresenceStatus::for_activity_localized(activity, Locale::En, None)
    }

    /// Build a localized status and optionally include the current game name.
    /// The game name is user-selected metadata; callers must not pass window
    /// titles or other untrusted sensitive data.
    ///
    /// The presence is split into two lines: the composed title line
    /// (`details`, e.g. "Rivulet · Recording") and the game name (`state`,
    /// when a game source is selected). The app word is included in
    /// `details` so small hover cards that do not render the application
    /// title still read as Rivulet.
    pub fn for_activity_localized(activity: PresenceActivity, locale: Locale, game_name: Option<&str>) -> (r: Self)
        ensures
            r.application@ == "Rivulet"@,
            r.details@ == details_spec(activity, locale),
            r.state@ == state_spec(game_name),
    {
        let label = locale.tr(activity.i18n_key());
        let mut details = owned("Rivulet · ");
        details.append(label);
        let state = match game_name {
            Some(game) => if is_blank(game) {
                String::new()
            } else {
                owned(game)
            },
            None => String::new(),
        };
        PresenceStatus { application: "Rivulet", details, state }
    }
}

/// Every activity's English label is its fallback label, its German label
/// differs from the English one, and both locales translate its tooltip
/// (to a text that is not the key itself).
pub proof fn lemma_presence_texts_localized(a: PresenceActivity)
    ensures
        tr_spec(Locale::En, key_spec(a)) == fallback_spec(a),
        tr_spec(Locale::En, key_spec(a)) != tr_spec(Locale::De, key_spec(a)),
        tr_spec(Locale::En, tooltip_key_spec(a)) != tooltip_key_spec(a),
        tr_spec(Locale::De, tooltip_key_spec(a)) != tooltip_key_spec(a),
        tr_spec(Locale::En, tooltip_key_spec(a)).len() > 0,
        tr_spec(Locale::De, tooltip_key_spec(a)).len() > 0,
{
    assert("presence_ready"@.len() == 14) by {
        reveal_strlit("presence_ready");
    }
    assert("presence_recording"@.len() == 18) by {
        reveal_strlit("presence_recording");
    }
    assert("presence_streaming"@.len() == 18) by {
        reveal_strlit("presence_streaming");
    }
    assert("presence_recording_streaming"@.len() == 28) by {
        reveal_strlit("presence_recording_streaming");
    }
    assert("presence_paused"@.len() == 15) by {
        reveal_strlit("presence_paused");
    }
    assert("presence_error"@.len() == 14) by {
        reveal_strlit("presence_error");
    }
    assert("presence_tooltip_ready"@.len() == 22) by {
        reveal_strlit("presence_tooltip_ready");
    }
    assert("presence_tooltip_recording"@.len() == 26) by {
        reveal_strlit("presence_tooltip_recording");
    }
    assert("presence_tooltip_streaming"@.len() == 26) by {
        reveal_strlit("presence_tooltip_streaming");
    }
    assert("presence_tooltip_recording_streaming"@.len() == 36) by {
        reveal_strlit("presence_tooltip_recording_streaming");
    }
    assert("presence_tooltip_paused"@.len() == 23) by {
        reveal_strlit("presence_tooltip_paused");
    }
    assert("presence_tooltip_error"@.len() == 22) by {
        reveal_strlit("presence_tooltip_error");
    }
    assert("Ready"@.len() == 5) by {
        reveal_strlit("Ready");
    }
    assert("Bereit"@.len() == 6) by {
        reveal_strlit("Bereit");
    }
    assert("Recording"@.len() == 9) by {
        reveal_strlit("Recording");
    }
    assert("Aufnahme"@.len() == 8) by {
        reveal_strlit("Aufnahme");
    }
    assert("Streaming"@.len() == 9) by {
        reveal_strlit("Streaming");
    }
    assert("Streamt"@.len() == 7) by {
        reveal_strlit("Streamt");
    }
    assert("Recording + streaming"@.len() == 21) by {
        reveal_strlit("Recording + streaming");
    }
    assert("Aufnahme + Stream"@.len() == 17) by {
        reveal_strlit("Aufnahme + Stream");
    }
    assert("Paused"@.len() == 6) by {
        reveal_strlit("Paused");
    }
    assert("Pausiert"@.len() == 8) by {
        reveal_strlit("Pausiert");
    }
    assert("Error"@.len() == 5) by {
        reveal_strlit("Error");
    }
    assert("Fehler"@.len() == 6) by {
        reveal_strlit("Fehler");
    }
    assert("Nothing is being recorded or streamed."@.len() == 38) by {
        reveal_strlit("Nothing is being recorded or streamed.");
    }
    assert("Es wird weder aufgenommen noch gestreamt."@.len() == 41) by {
        reveal_strlit("Es wird weder aufgenommen noch gestreamt.");
    }
    assert("A local recording is running."@.len() == 29) by {
        reveal_strlit("A local recording is running.");
    }
    assert("Eine lokale Aufnahme läuft."@.len() == 27) by {
        reveal_strlit("Eine lokale Aufnahme läuft.");
    }
    assert("A live stream is running."@.len() == 25) by {
        reveal_strlit("A live stream is running.");
    }
    assert("Ein Livestream läuft."@.len() == 21) by {
        reveal_strlit("Ein Livestream läuft.");
    }
    assert("Recording and streaming at the same time."@.len() == 41) by {
        reveal_strlit("Recording and streaming at the same time.");
    }
    assert("Aufnahme und Stream laufen gleichzeitig."@.len() == 40) by {
        reveal_strlit("Aufnahme und Stream laufen gleichzeitig.");
    }
    assert("The recording is paused."@.len() == 24) by {
        reveal_strlit("The recording is paused.");
    }
    assert("Die Aufnahme ist pausiert."@.len() == 26) by {
        reveal_strlit("Die Aufnahme ist pausiert.");
    }
    assert("An error stopped recording or streaming."@.len() == 40) by {
        reveal_strlit("An error stopped recording or streaming.");
    }
    assert("Ein Fehler hat Aufnahme oder Stream gestoppt."@.len() == 45) by {
        reveal_strlit("Ein Fehler hat Aufnahme oder Stream gestoppt.");
    }
    // Keys of equal length differ at a known position.
    assert("presence_ready"@ != "presence_error"@) by {
        reveal_strlit("presence_ready");
        reveal_strlit("presence_error");
        assert("presence_ready"@[9] != "presence_error"@[9]);
    }
    assert("presence_recording"@ != "presence_streaming"@) by {
        reveal_strlit("presence_recording");
        reveal_strlit("presence_streaming");
        assert("presence_recording"@[9] != "presence_streaming"@[9]);
    }
    assert("presence_tooltip_ready"@ != "presence_tooltip_error"@) by {
        reveal_strlit("presence_tooltip_ready");
        reveal_strlit("presence_tooltip_error");
        assert("presence_tooltip_ready"@[17] != "presence_tooltip_error"@[17]);
    }
    assert("presence_tooltip_recording"@ != "presence_tooltip_streaming"@) by {
        reveal_strlit("presence_tooltip_recording");
        reveal_strlit("presence_tooltip_streaming");
        assert("presence_tooltip_recording"@[17] != "presence_tooltip_streaming"@[17]);
    }
    match a {
        PresenceActivity::Idle => {
            assert(tr_spec(Locale::En, key_spec(a)) == "Ready"@);
        },
        PresenceActivity::Recording => {
            assert(tr_spec(Locale::En, key_spec(a)) == "Recording"@);
        },
        PresenceActivity::Streaming => {
            assert(tr_spec(Locale::En, key_spec(a)) == "Streaming"@);
        },
        PresenceActivity::RecordingAndStreaming => {
            assert(tr_spec(Locale::En, key_spec(a)) == "Recording + streaming"@);
        },
        PresenceActivity::Paused => {
            assert(tr_spec(Locale::En, key_spec(a)) == "Paused"@);
        },
        PresenceActivity::Error => {
            assert(tr_spec(Locale::En, key_spec(a)) == "Error"@);
        },
    }
}

} // verus!
