//! Recording presets that bundle resolution, FPS, and bitrate into a single
//! selectable configuration. Each preset targets a common recording scenario
//! (e.g. 1080p60 for high-quality game capture, 720p30 for lightweight
//! tutorials).
use vstd::prelude::*;

use crate::text::{append_decimal, decimal, join, join_with, owned};

verus! {

/// A predefined recording configuration.
#[derive(Debug, Clone, Copy, PartialEq, Eq)]
pub struct RecordingPreset {
    /// Human-readable label shown in the UI.
    pub label: &'static str,
    /// Target width in pixels. `None` means "use source resolution".
    pub width: Option<u32>,
    /// Target height in pixels. `None` means "use source resolution".
    pub height: Option<u32>,
    /// Target frame rate. `None` means "use source FPS" (30 fps fallback).
    pub fps: Option<u32>,
    /// Target bitrate in kbit/s. `None` means "use engine default" (5000).
    pub bitrate_kbps: Option<u32>,
}

/// A preset with the given label and settings.
pub open spec fn preset(label: &'static str, width: Option<u32>, height: Option<u32>, fps: Option<u32>, bitrate_kbps: Option<u32>) -> RecordingPreset {
    RecordingPreset { label, width, height, fps, bitrate_kbps }
}

/// The `key=value` caps fields a preset sets, in order: width, height,
/// frame rate.
pub open spec fn caps_parts(p: RecordingPreset) -> Seq<Seq<char>> {
    let w = match p.width {
        Some(w) => seq!["width="@ + decimal(w as nat)],
        None => Seq::empty(),
    };
    let h = match p.height {
        Some(h) => seq!["height="@ + decimal(h as nat)],
        None => Seq::empty(),
    };
    let f = match p.fps {
        Some(f) => seq!["framerate="@ + decimal(f as nat) + "/1"@],
        None => Seq::empty(),
    };
    w + h + f
}

/// Whether the preset changes resolution or FPS from the source.
pub open spec fn transforms(p: RecordingPreset) -> bool {
    p.width.is_some() || p.height.is_some() || p.fps.is_some()
}

/// The raw-video caps a transforming preset asks for.
pub open spec fn caps_spec(p: RecordingPreset) -> Option<Seq<char>> {
    if transforms(p) {
        Some("video/x-raw,"@ + join_with(caps_parts(p), ","@))
    } else {
        None
    }
}

/// The scaling and rate-conversion pipeline fragment, empty for a preset
/// that keeps the source.
pub open spec fn transform_spec(p: RecordingPreset) -> Seq<char> {
    match caps_spec(p) {
        Some(caps) => "! videoscale ! videorate ! "@ + caps + " "@,
        None => Seq::empty(),
    }
}

/// `"Original"`: no transformation, source resolution and FPS.
pub open spec fn spec_original() -> RecordingPreset {
    preset("Original", None, None, None, None)
}

/// `"Custom"`: stand-in for user-defined settings.
pub open spec fn spec_custom() -> RecordingPreset {
    preset("Custom", None, None, None, None)
}

/// `"1080p60"`: 1920 × 1080 at 60 fps, 8000 kbit/s.
pub open spec fn spec_p1080p60() -> RecordingPreset {
    preset("1080p60", Some(1920), Some(1080), Some(60), Some(8000))
}

/// `"1080p30"`: 1920 × 1080 at 30 fps, 5000 kbit/s.
pub open spec fn spec_p1080p30() -> RecordingPreset {
    preset("1080p30", Some(1920), Some(1080), Some(30), Some(5000))
}

/// `"720p60"`: 1280 × 720 at 60 fps, 4500 kbit/s.
pub open spec fn spec_p720p60() -> RecordingPreset {
    preset("720p60", Some(1280), Some(720), Some(60), Some(4500))
}

/// `"720p30"`: 1280 × 720 at 30 fps, 2500 kbit/s.
pub open spec fn spec_p720p30() -> RecordingPreset {
    preset("720p30", Some(1280), Some(720), Some(30), Some(2500))
}

/// `"480p30"`: 640 × 480 at 30 fps, 1500 kbit/s.
pub open spec fn spec_p480p30() -> RecordingPreset {
    preset("480p30", Some(640), Some(480), Some(30), Some(1500))
}

/// The built-in presets in display order.
pub open spec fn spec_all() -> Seq<RecordingPreset> {
    seq![
        spec_original(),
        spec_p1080p60(),
        spec_p1080p30(),
        spec_p720p60(),
        spec_p720p30(),
        spec_p480p30(),
    ]
}

/// The "Original" preset (module-level name).
pub fn original() -> (r: RecordingPreset)
    ensures
        r == spec_original(),
{
    RecordingPreset { label: "Original", width: None, height: None, fps: None, bitrate_kbps: None }
}

/// The "Custom" preset (user-defined settings).
pub fn custom() -> (r: RecordingPreset)
    ensures
        r == spec_custom(),
{
    RecordingPreset { label: "Custom", width: None, height: None, fps: None, bitrate_kbps: None }
}

impl Default for RecordingPreset {
    fn default() -> (r: Self)
        ensures
            r == spec_original(),
    {
        original()
    }
}

impl RecordingPreset {
    /// No transformation: source resolution and FPS.
    pub fn original() -> (r: Self)
        ensures
            r == spec_original(),
    {
        original()
    }

    /// 1920 × 1080 at 60 fps, 8000 kbit/s.
    pub fn p1080p60() -> (r: Self)
        ensures
            r == spec_p1080p60(),
    {
        RecordingPreset { label: "1080p60", width: Some(1920), height: Some(1080), fps: Some(60), bitrate_kbps: Some(8000) }
    }

    /// 1920 × 1080 at 30 fps, 5000 kbit/s.
    pub fn p1080p30() -> (r: Self)
        ensures
            r == spec_p1080p30(),
    {
        RecordingPreset { label: "1080p30", width: Some(1920), height: Some(1080), fps: Some(30), bitrate_kbps: Some(5000) }
    }

    /// 1280 × 720 at 60 fps, 4500 kbit/s.
    pub fn p720p60() -> (r: Self)
        ensures
            r == spec_p720p60(),
    {
        RecordingPreset { label: "720p60", width: Some(1280), height: Some(720), fps: Some(60), bitrate_kbps: Some(4500) }
    }

    /// 1280 × 720 at 30 fps, 2500 kbit/s.
    pub fn p720p30() -> (r: Self)
        ensures
            r == spec_p720p30(),
    {
        RecordingPreset { label: "720p30", width: Some(1280), height: Some(720), fps: Some(30), bitrate_kbps: Some(2500) }
    }

    /// 640 × 480 at 30 fps, 1500 kbit/s.
    pub fn p480p30() -> (r: Self)
        ensures
            r == spec_p480p30(),
    {
        RecordingPreset { label: "480p30", width: Some(640), height: Some(480), fps: Some(30), bitrate_kbps: Some(1500) }
    }

    /// All built-in presets in display order; their labels are pairwise
    /// distinct and every bitrate lies in `1..=50_000` kbit/s.
    pub fn all() -> (r: Vec<RecordingPreset>)
        ensures
            r@ == spec_all(),
            forall|i: int, j: int| 0 <= i < j < r@.len() ==> r@[i].label@ != r@[j].label@,
            forall|i: int| 0 <= i < r@.len() ==> ((#[trigger] r@[i]).bitrate_kbps matches Some(b) ==> 0 < b <= 50_000),
    {
        let v = vec![
            RecordingPreset::original(),
            RecordingPreset::p1080p60(),
            RecordingPreset::p1080p30(),
            RecordingPreset::p720p60(),
            RecordingPreset::p720p30(),
            RecordingPreset::p480p30(),
        ];
        proof {
            reveal_strlit("Original");
            reveal_strlit("1080p60");
            reveal_strlit("1080p30");
            reveal_strlit("720p60");
            reveal_strlit("720p30");
            reveal_strlit("480p30");
            assert(v@ =~= spec_all());
            assert("1080p60"@[5] != "1080p30"@[5]);
            assert("720p60"@[4] != "720p30"@[4]);
            assert("720p60"@[0] != "480p30"@[0]);
            assert("720p30"@[0] != "480p30"@[0]);
            assert forall|i: int, j: int| 0 <= i < j < v@.len() implies v@[i].label@ != v@[j].label@ by {
                if i == 0 {
                    assert(v@[i].label@.len() == 8);
                } else if i <= 2 {
                    assert(v@[i].label@.len() == 7);
                }
            }
        }
        v
    }

    /// Effective width: preset value or fallback to source.
    pub fn effective_width(self, source_width: u32) -> (r: u32)
        ensures
            r == match self.width { Some(w) => w, None => source_width },
    {
        match self.width {
            Some(w) => w,
            None => source_width,
        }
    }

    /// Effective height: preset value or fallback to source.
    pub fn effective_height(self, source_height: u32) -> (r: u32)
        ensures
            r == match self.height { Some(h) => h, None => source_height },
    {
        match self.height {
            Some(h) => h,
            None => source_height,
        }
    }

    /// Effective FPS: preset value or fallback.
    pub fn effective_fps(self, fallback_fps: u32) -> (r: u32)
        ensures
            r == match self.fps { Some(f) => f, None => fallback_fps },
    {
        match self.fps {
            Some(f) => f,
            None => fallback_fps,
        }
    }

    /// Effective bitrate: preset value or fallback to engine default.
    pub fn effective_bitrate_kbps(self, fallback_kbps: u32) -> (r: u32)
        ensures
            r == match self.bitrate_kbps { Some(b) => b, None => fallback_kbps },
    {
        match self.bitrate_kbps {
            Some(b) => b,
            None => fallback_kbps,
        }
    }

    /// Whether the preset changes resolution or FPS from the source.
    pub fn transforms_video(self) -> (r: bool)
        ensures
            r == transforms(self),
    {
        self.width.is_some() || self.height.is_some() || self.fps.is_some()
    }

    /// The raw-video caps for this preset (`video/x-raw,width=..,height=..,
    /// framerate=../1`, with only the fields the preset sets), or `None`
    /// when no transformation is needed.
    pub fn caps_fragment(self) -> (r: Option<String>)
        ensures
            match r {
                Some(s) => caps_spec(self) == Some(s@),
                None => caps_spec(self) is None,
            },
    {
        if !self.transforms_video() {
            return None;
        }
        let mut parts: Vec<String> = Vec::new();
        let ghost mut expect: Seq<Seq<char>> = Seq::empty();
        if let Some(w) = self.width {
            let mut part = owned("width=");
            append_decimal(&mut part, w as u64);
            parts.push(part);
            proof {
                expect = expect.push("width="@ + decimal(w as nat));
            }
        }
        if let Some(h) = self.height {
            let mut part = owned("height=");
            append_decimal(&mut part, h as u64);
            parts.push(part);
            proof {
                expect = expect.push("height="@ + decimal(h as nat));
            }
        }
        if let Some(f) = self.fps {
            let mut part = owned("framerate=");
            append_decimal(&mut part, f as u64);
            part.append("/1");
            parts.push(part);
            proof {
                expect = expect.push("framerate="@ + decimal(f as nat) + "/1"@);
            }
        }
        proof {
            assert(parts@.map_values(|p: String| p@) =~= expect);
            assert(expect =~= caps_parts(self));
        }
        let body = join(&parts, ",");
        let mut out = owned("video/x-raw,");
        out.append(body.as_str());
        Some(out)
    }

    /// The `! videoscale ! videorate ! <caps> ` pipeline fragment, or an
    /// empty string when the preset matches the source.
    pub fn transform_fragment(self) -> (r: String)
        ensures
            r@ == transform_spec(self),
    {
        match self.caps_fragment() {
            Some(caps) => {
                let mut out = owned("! videoscale ! videorate ! ");
                out.append(caps.as_str());
                out.append(" ");
                out
            },
            None => String::new(),
        }
    }
}

} // verus!
