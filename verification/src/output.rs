//! Output settings and the file recording output.
use vstd::prelude::*;

use crate::text::owned;

verus! {

/// Output settings for recording/streaming.
#[derive(Debug, Clone, PartialEq, Eq)]
pub struct OutputSettings {
    pub width: u32,
    pub height: u32,
    pub fps: u32,
    pub bitrate: u32,
    pub encoder: String,
}

impl Default for OutputSettings {
    fn default() -> (r: Self)
        ensures
            r.width == 1920 && r.height == 1080 && r.fps == 30 && r.bitrate == 5000,
            r.encoder@ == "h264"@,
    {
        OutputSettings { width: 1920, height: 1080, fps: 30, bitrate: 5000, encoder: owned("h264") }
    }
}

/// A file output in mathematical form.
pub struct FileOutputView {
    pub file_path: Seq<char>,
    pub settings: OutputSettings,
    pub active: bool,
}

/// File recording output: where it records, with which settings, and
/// whether it is running.
#[derive(Debug)]
pub struct FileOutput {
    pub file_path: String,
    pub settings: OutputSettings,
    active: bool,
}

impl View for FileOutput {
    type V = FileOutputView;

    closed spec fn view(&self) -> FileOutputView {
        FileOutputView { file_path: self.file_path@, settings: self.settings, active: self.active }
    }
}

impl FileOutput {
    /// An inactive output recording to `file_path`.
    pub fn new(file_path: &str, settings: OutputSettings) -> (r: Self)
        ensures
            r@ == (FileOutputView { file_path: file_path@, settings, active: false }),
    {
        FileOutput { file_path: owned(file_path), settings, active: false }
    }

    /// Start recording.
    pub fn start(&mut self)
        ensures
            final(self)@ == (FileOutputView { active: true, ..old(self)@ }),
    {
        self.active = true;
    }

    /// Stop recording.
    pub fn stop(&mut self)
        ensures
            final(self)@ == (FileOutputView { active: false, ..old(self)@ }),
    {
        self.active = false;
    }

    /// Whether the output is recording.
    pub fn is_active(&self) -> (r: bool)
        ensures
            r == self@.active,
    {
        self.active
    }

    /// The output's settings.
    pub fn get_settings(&self) -> (r: &OutputSettings)
        ensures
            *r == self@.settings,
    {
        &self.settings
    }
}

} // verus!
