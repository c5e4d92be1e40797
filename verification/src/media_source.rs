//! Media file types, playback modes and the clock texts of media sources.
use vstd::prelude::*;

use crate::text::{append_decimal, decimal, str_eq, to_lowercase, unicode_lowercase};
use crate::time::{Duration, NANOS_PER_SEC};

verus! {

/// Supported media file types for playback.
#[derive(Debug, Clone, Copy, PartialEq, Eq, Structural)]
pub enum MediaType {
    /// Video file (MP4, MKV, WebM, AVI, MOV).
    Video,
    /// Audio file (MP3, WAV, FLAC, AAC, OGG).
    Audio,
    /// Image file used as video source (PNG, JPEG, GIF, BMP, WebP).
    Image,
}

/// The media type of an already lowercased file extension.
pub open spec fn media_type_spec(ext: Seq<char>) -> Option<MediaType> {
    if ext == "mp4"@ || ext == "mkv"@ || ext == "webm"@ || ext == "avi"@ || ext == "mov"@
        || ext == "wmv"@ || ext == "flv"@ || ext == "ts"@ {
        Some(MediaType::Video)
    } else if ext == "mp3"@ || ext == "wav"@ || ext == "flac"@ || ext == "aac"@ || ext == "ogg"@
        || ext == "opus"@ || ext == "wma"@ {
        Some(MediaType::Audio)
    } else if ext == "png"@ || ext == "jpg"@ || ext == "jpeg"@ || ext == "gif"@ || ext == "bmp"@
        || ext == "webp"@ || ext == "tiff"@ {
        Some(MediaType::Image)
    } else {
        None
    }
}

/// The media type of a lowercase extension (`mp4`, `flac`, `png`, …).
pub fn media_type_of_lowercase(ext: &str) -> (r: Option<MediaType>)
    ensures
        r == media_type_spec(ext@),
{
    if str_eq(ext, "mp4") || str_eq(ext, "mkv") || str_eq(ext, "webm") || str_eq(ext, "avi")
        || str_eq(ext, "mov") || str_eq(ext, "wmv") || str_eq(ext, "flv") || str_eq(ext, "ts") {
        Some(MediaType::Video)
    } else if str_eq(ext, "mp3") || str_eq(ext, "wav") || str_eq(ext, "flac") || str_eq(ext, "aac")
        || str_eq(ext, "ogg") || str_eq(ext, "opus") || str_eq(ext, "wma") {
        Some(MediaType::Audio)
    } else if str_eq(ext, "png") || str_eq(ext, "jpg") || str_eq(ext, "jpeg") || str_eq(ext, "gif")
        || str_eq(ext, "bmp") || str_eq(ext, "webp") || str_eq(ext, "tiff") {
        Some(MediaType::Image)
    } else {
        None
    }
}

impl MediaType {
    /// Display name of the type.
    pub fn label(&self) -> (r: &'static str)
        ensures
            r@ == match *self {
                MediaType::Video => "Video"@,
                MediaType::Audio => "Audio"@,
                MediaType::Image => "Image"@,
            },
    {
        match self {
            MediaType::Video => "Video",
            MediaType::Audio => "Audio",
            MediaType::Image => "Image",
        }
    }

    /// Guess the media type from a file extension, in any letter case.
    pub fn from_extension(ext: &str) -> (r: Option<Self>)
        ensures
            r == media_type_spec(unicode_lowercase(ext@)),
    {
        let lower = to_lowercase(ext);
        media_type_of_lowercase(lower.as_str())
    }
}

/// Playback mode for media sources.
#[derive(Debug, Clone, Copy, PartialEq, Eq, Structural)]
pub enum PlaybackMode {
    /// Play once and stop.
    Once,
    /// Loop indefinitely.
    Loop,
    /// Play once, then pause on the last frame (video) or silence (audio).
    Freeze,
}

impl Default for PlaybackMode {
    fn default() -> (r: Self)
        ensures
            r == PlaybackMode::Once,
    {
        PlaybackMode::Once
    }
}

impl PlaybackMode {
    /// Display name of the mode.
    pub fn label(&self) -> (r: &'static str)
        ensures
            r@ == match *self {
                PlaybackMode::Once => "Once"@,
                PlaybackMode::Loop => "Loop"@,
                PlaybackMode::Freeze => "Freeze"@,
            },
    {
        match self {
            PlaybackMode::Once => "Once",
            PlaybackMode::Loop => "Loop",
            PlaybackMode::Freeze => "Freeze",
        }
    }
}

/// `n` in decimal, padded with a leading zero to at least two digits.
pub open spec fn pad2(n: nat) -> Seq<char> {
    if n < 10 { "0"@ + decimal(n) } else { decimal(n) }
}

/// A span of `secs` whole seconds as `MM:SS`, or `HH:MM:SS` from one hour on.
pub open spec fn clock_spec(secs: nat) -> Seq<char> {
    let hours = secs / 3600;
    let mins = (secs % 3600) / 60;
    let s = secs % 60;
    if hours > 0 {
        pad2(hours) + ":"@ + pad2(mins) + ":"@ + pad2(s)
    } else {
        pad2(mins) + ":"@ + pad2(s)
    }
}

fn append_pad2(out: &mut String, n: u64)
    ensures
        final(out)@ == old(out)@ + pad2(n as nat),
{
    if n < 10 {
        out.append("0");
    }
    append_decimal(out, n);
}

/// The whole seconds of `dur` as `MM:SS`, or `HH:MM:SS` from one hour on.
pub fn format_duration(dur: Duration) -> (r: String)
    ensures
        r@ == clock_spec(dur.spec_nanos() / (NANOS_PER_SEC as nat)),
{
    let total = dur.as_secs();
    let hours = total / 3600;
    let mins = (total % 3600) / 60;
    let secs = total % 60;
    let mut out = String::new();
    if hours > 0 {
        append_pad2(&mut out, hours);
        out.append(":");
    }
    append_pad2(&mut out, mins);
    out.append(":");
    append_pad2(&mut out, secs);
    proof {
        if hours > 0 {
            assert(out@ =~= pad2(hours as nat) + ":"@ + pad2(mins as nat) + ":"@ + pad2(secs as nat));
        } else {
            assert(out@ =~= pad2(mins as nat) + ":"@ + pad2(secs as nat));
        }
    }
    out
}

/// The playback position as a clock text, followed by `/` and the total
/// length when that is known.
pub fn position_display(position: Duration, duration: Option<Duration>) -> (r: String)
    ensures
        r@ == match duration {
            Some(d) => clock_spec(position.spec_nanos() / (NANOS_PER_SEC as nat)) + "/"@ + clock_spec(
                d.spec_nanos() / (NANOS_PER_SEC as nat),
            ),
            None => clock_spec(position.spec_nanos() / (NANOS_PER_SEC as nat)),
        },
{
    let mut pos = format_duration(position);
    match duration {
        Some(d) => {
            pos.append("/");
            let total = format_duration(d);
            pos.append(total.as_str());
            pos
        },
        None => pos,
    }
}

} // verus!
