//! User-facing languages and the translation table for the status texts
//! that the core library composes itself.
use vstd::prelude::*;

use crate::text::str_eq;

verus! {

/// A user-interface language.
#[derive(Debug, Clone, Copy, PartialEq, Eq, Structural)]
pub enum Locale {
    /// English.
    En,
    /// German.
    De,
}

/// One row of the translation table: the English and the German text.
pub open spec fn row(l: Locale, en: Seq<char>, de: Seq<char>) -> Seq<char> {
    match l {
        Locale::En => en,
        Locale::De => de,
    }
}

/// The text of `key` in `l`; a key without a translation stands for itself.
pub open spec fn tr_spec(l: Locale, key: Seq<char>) -> Seq<char> {
    if key == "presence_ready"@ {
        row(l, "Ready"@, "Bereit"@)
    } else if key == "presence_recording"@ {
        row(l, "Recording"@, "Aufnahme"@)
    } else if key == "presence_streaming"@ {
        row(l, "Streaming"@, "Streamt"@)
    } else if key == "presence_recording_streaming"@ {
        row(l, "Recording + streaming"@, "Aufnahme + Stream"@)
    } else if key == "presence_paused"@ {
        row(l, "Paused"@, "Pausiert"@)
    } else if key == "presence_error"@ {
        row(l, "Error"@, "Fehler"@)
    } else if key == "presence_tooltip_ready"@ {
        row(l, "Nothing is being recorded or streamed."@, "Es wird weder aufgenommen noch gestreamt."@)
    } else if key == "presence_tooltip_recording"@ {
        row(l, "A local recording is running."@, "Eine lokale Aufnahme läuft."@)
    } else if key == "presence_tooltip_streaming"@ {
        row(l, "A live stream is running."@, "Ein Livestream läuft."@)
    } else if key == "presence_tooltip_recording_streaming"@ {
        row(l, "Recording and streaming at the same time."@, "Aufnahme und Stream laufen gleichzeitig."@)
    } else if key == "presence_tooltip_paused"@ {
        row(l, "The recording is paused."@, "Die Aufnahme ist pausiert."@)
    } else if key == "presence_tooltip_error"@ {
        row(l, "An error stopped recording or streaming."@, "Ein Fehler hat Aufnahme oder Stream gestoppt."@)
    } else {
        key
    }
}

impl Locale {
    /// The text of `key` in this language, or `key` itself when the table
    /// has no entry for it.
    pub fn tr<'a>(self, key: &'a str) -> (r: &'a str)
        ensures
            r@ == tr_spec(self, key@),
    {
        let en = match self {
            Locale::En => true,
            Locale::De => false,
        };
        if str_eq(key, "presence_ready") {
            if en { "Ready" } else { "Bereit" }
        } else if str_eq(key, "presence_recording") {
            if en { "Recording" } else { "Aufnahme" }
        } else if str_eq(key, "presence_streaming") {
            if en { "Streaming" } else { "Streamt" }
        } else if str_eq(key, "presence_recording_streaming") {
            if en { "Recording + streaming" } else { "Aufnahme + Stream" }
        } else if str_eq(key, "presence_paused") {
            if en { "Paused" } else { "Pausiert" }
        } else if str_eq(key, "presence_error") {
            if en { "Error" } else { "Fehler" }
        } else if str_eq(key, "presence_tooltip_ready") {
            if en { "Nothing is being recorded or streamed." } else { "Es wird weder aufgenommen noch gestreamt." }
        } else if str_eq(key, "presence_tooltip_recording") {
            if en { "A local recording is running." } else { "Eine lokale Aufnahme läuft." }
        } else if str_eq(key, "presence_tooltip_streaming") {
            if en { "A live stream is running." } else { "Ein Livestream läuft." }
        } else if str_eq(key, "presence_tooltip_recording_streaming") {
            if en { "Recording and streaming at the same time." } else { "Aufnahme und Stream laufen gleichzeitig." }
        } else if str_eq(key, "presence_tooltip_paused") {
            if en { "The recording is paused." } else { "Die Aufnahme ist pausiert." }
        } else if str_eq(key, "presence_tooltip_error") {
            if en { "An error stopped recording or streaming." } else { "Ein Fehler hat Aufnahme oder Stream gestoppt." }
        } else {
            key
        }
    }
}

} // verus!
