//! Plugin manifest model and validator.
//!
//! The `rivulet-plugin.toml` manifest is the sole source of truth for plugin
//! identity, capabilities, and compatibility. Validation errors are fatal —
//! the plugin is loaded as `Skipped` with the error reason logged. No
//! fallback or partial loading.
use vstd::prelude::*;

use crate::text::{
    all_ws, append_decimal, decimal, has_char, has_prefix, is_blank, owned, parse_u64_max,
    parse_unsigned, split_char, split_seq, starts_with, str_eq, utf8_len, contains_char,
};

verus! {

// ── Error type ──────────────────────────────────────────────────────────────

/// Errors produced during manifest parsing or validation.
#[derive(Debug, Clone, PartialEq, Eq)]
pub enum ManifestError {
    /// The TOML content could not be parsed.
    ParseError(String),
    /// A required field is missing.
    MissingField(&'static str),
    /// A field value is invalid (e.g. empty name, bad semver).
    InvalidField(&'static str, String),
    /// The manifest references a capability that requires special handling.
    SensitiveCapability(String),
    /// Resource limits exceed hard caps.
    ResourceLimitExceeded(String),
}

/// The variant of a [`ManifestError`].
#[derive(Debug, Clone, Copy, PartialEq, Eq, Structural)]
pub enum ErrorKind {
    Parse,
    Missing,
    Invalid,
    Sensitive,
    Resource,
}

impl ManifestError {
    /// The error as its variant, the field it names (empty when none) and
    /// its detail text (empty when none).
    pub open spec fn spec_parts(&self) -> (ErrorKind, Seq<char>, Seq<char>) {
        match self {
            ManifestError::ParseError(m) => (ErrorKind::Parse, Seq::empty(), m@),
            ManifestError::MissingField(f) => (ErrorKind::Missing, f@, Seq::empty()),
            ManifestError::InvalidField(f, m) => (ErrorKind::Invalid, f@, m@),
            ManifestError::SensitiveCapability(c) => (ErrorKind::Sensitive, Seq::empty(), c@),
            ManifestError::ResourceLimitExceeded(m) => (ErrorKind::Resource, Seq::empty(), m@),
        }
    }

    /// The human-readable description of the error.
    pub open spec fn spec_message(&self) -> Seq<char> {
        match self {
            ManifestError::ParseError(m) => "manifest parse error: "@ + m@,
            ManifestError::MissingField(f) => "missing required field: "@ + f@,
            ManifestError::InvalidField(f, m) => "invalid value for "@ + f@ + ": "@ + m@,
            ManifestError::SensitiveCapability(c) => "sensitive capability requires explicit approval: "@ + c@,
            ManifestError::ResourceLimitExceeded(m) => "resource limit exceeded: "@ + m@,
        }
    }

    /// The human-readable description of the error.
    pub fn message(&self) -> (r: String)
        ensures
            r@ == self.spec_message(),
    {
        match self {
            ManifestError::ParseError(msg) => {
                let mut out = owned("manifest parse error: ");
                out.append(msg.as_str());
                out
            },
            ManifestError::MissingField(field) => {
                let mut out = owned("missing required field: ");
                out.append(field);
                out
            },
            ManifestError::InvalidField(field, reason) => {
                let mut out = owned("invalid value for ");
                out.append(field);
                out.append(": ");
                out.append(reason.as_str());
                out
            },
            ManifestError::SensitiveCapability(cap) => {
                let mut out = owned("sensitive capability requires explicit approval: ");
                out.append(cap.as_str());
                out
            },
            ManifestError::ResourceLimitExceeded(msg) => {
                let mut out = owned("resource limit exceeded: ");
                out.append(msg.as_str());
                out
            },
        }
    }
}

// ── Plugin kind ─────────────────────────────────────────────────────────────

/// The type of plugin — determines its integration point.
#[derive(Debug, Clone, Copy, PartialEq, Eq, Structural)]
pub enum PluginKind {
    /// Adds a sidebar view, dock panel, or settings page.
    UiPanel,
    /// Processes audio samples (effect, analyzer, VST3 wrapper).
    AudioEffect,
    /// Modifies frames before encoding (overlay, color grading, AI upscale).
    VideoFilter,
    /// Connects to external services (chat bots, alerts).
    Integration,
}

impl PluginKind {
    /// The manifest spelling of the kind.
    pub fn as_str(self) -> (r: &'static str)
        ensures
            r@ == match self {
                PluginKind::UiPanel => "ui_panel"@,
                PluginKind::AudioEffect => "audio_effect"@,
                PluginKind::VideoFilter => "video_filter"@,
                PluginKind::Integration => "integration"@,
            },
    {
        match self {
            PluginKind::UiPanel => "ui_panel",
            PluginKind::AudioEffect => "audio_effect",
            PluginKind::VideoFilter => "video_filter",
            PluginKind::Integration => "integration",
        }
    }
}

// ── Capability model ────────────────────────────────────────────────────────

/// Capabilities requested by a plugin. All default to false/empty (default
/// denial).
#[derive(Debug, Clone, PartialEq, Eq)]
pub struct PluginCapabilities {
    /// Render to a GUI panel.
    pub ui: bool,
    /// Read audio samples.
    pub audio_in: bool,
    /// Write audio samples.
    pub audio_out: bool,
    /// Read video frames.
    pub video_in: bool,
    /// Write video frames.
    pub video_out: bool,
    /// Allowed hostnames (empty = no network).
    pub network: Vec<String>,
    /// Allowed directories (empty = no filesystem).
    pub filesystem: Vec<String>,
    /// Access to stored credentials (always denied for WASM).
    pub secrets: bool,
    /// Access to capture sources.
    pub capture: bool,
    /// Read/write chat messages.
    pub chat: bool,
    /// Trigger or modify alerts.
    pub alerts: bool,
}

/// `[label]` when `on`, nothing otherwise.
pub open spec fn flag(on: bool, label: Seq<char>) -> Seq<Seq<char>> {
    if on { seq![label] } else { Seq::empty() }
}

/// Labels of the requested capabilities, in declaration order.
pub open spec fn requested_spec(c: PluginCapabilities) -> Seq<Seq<char>> {
    flag(c.ui, "ui"@) + flag(c.audio_in, "audio_in"@) + flag(c.audio_out, "audio_out"@) + flag(
        c.video_in,
        "video_in"@,
    ) + flag(c.video_out, "video_out"@) + flag(c.network@.len() > 0, "network"@) + flag(
        c.filesystem@.len() > 0,
        "filesystem"@,
    ) + flag(c.secrets, "secrets"@) + flag(c.capture, "capture"@) + flag(c.chat, "chat"@) + flag(
        c.alerts,
        "alerts"@,
    )
}

impl Default for PluginCapabilities {
    fn default() -> (r: Self)
        ensures
            !r.ui && !r.audio_in && !r.audio_out && !r.video_in && !r.video_out,
            r.network@.len() == 0 && r.filesystem@.len() == 0,
            !r.secrets && !r.capture && !r.chat && !r.alerts,
    {
        PluginCapabilities {
            ui: false,
            audio_in: false,
            audio_out: false,
            video_in: false,
            video_out: false,
            network: Vec::new(),
            filesystem: Vec::new(),
            secrets: false,
            capture: false,
            chat: false,
            alerts: false,
        }
    }
}

fn push_if(caps: &mut Vec<&'static str>, on: bool, label: &'static str)
    ensures
        final(caps)@.map_values(|s: &str| s@) == old(caps)@.map_values(|s: &str| s@) + flag(on, label@),
{
    let ghost before = caps@.map_values(|s: &str| s@);
    if on {
        caps.push(label);
        proof {
            assert(caps@.map_values(|s: &str| s@) =~= before + flag(on, label@));
        }
    } else {
        proof {
            assert(caps@.map_values(|s: &str| s@) =~= before + flag(on, label@));
        }
    }
}

impl PluginCapabilities {
    /// Returns true if any sensitive capability (secrets, capture) is
    /// requested.
    pub fn has_sensitive(&self) -> (r: bool)
        ensures
            r == (self.secrets || self.capture),
    {
        self.secrets || self.capture
    }

    /// List all requested capabilities as labels, in declaration order.
    pub fn requested(&self) -> (r: Vec<&'static str>)
        ensures
            r@.map_values(|s: &str| s@) == requested_spec(*self),
    {
        let mut caps: Vec<&'static str> = Vec::new();
        push_if(&mut caps, self.ui, "ui");
        push_if(&mut caps, self.audio_in, "audio_in");
        push_if(&mut caps, self.audio_out, "audio_out");
        push_if(&mut caps, self.video_in, "video_in");
        push_if(&mut caps, self.video_out, "video_out");
        push_if(&mut caps, self.network.len() > 0, "network");
        push_if(&mut caps, self.filesystem.len() > 0, "filesystem");
        push_if(&mut caps, self.secrets, "secrets");
        push_if(&mut caps, self.capture, "capture");
        push_if(&mut caps, self.chat, "chat");
        push_if(&mut caps, self.alerts, "alerts");
        proof {
            assert(caps@.map_values(|s: &str| s@) =~= requested_spec(*self));
        }
        caps
    }
}

// ── Resource limits ─────────────────────────────────────────────────────────

/// Resource limits for a plugin, enforced by the plugin runtime.
#[derive(Debug, Clone, Copy, PartialEq, Eq, Structural)]
pub struct PluginResources {
    /// WASM linear memory limit in MB. Hard cap: 512.
    pub max_memory_mb: u32,
    /// Max CPU time per frame/process call in milliseconds. Hard cap: 200.
    pub max_cpu_ms: u32,
    /// Max wall-clock time for init/process in milliseconds.
    pub timeout_ms: u32,
    /// Max file I/O per operation in MB.
    pub max_file_size_mb: u32,
}

impl Default for PluginResources {
    fn default() -> (r: Self)
        ensures
            r == (PluginResources { max_memory_mb: 128, max_cpu_ms: 50, timeout_ms: 5000, max_file_size_mb: 10 }),
    {
        PluginResources { max_memory_mb: 128, max_cpu_ms: 50, timeout_ms: 5000, max_file_size_mb: 10 }
    }
}

// ── Compatibility ───────────────────────────────────────────────────────────

/// Host version and platform compatibility filters.
#[derive(Debug, Clone, PartialEq, Eq)]
pub struct PluginCompatibility {
    /// Minimum Rivulet version (semver).
    pub min_host_version: Option<String>,
    /// Maximum Rivulet version (semver, optional).
    pub max_host_version: Option<String>,
    /// Platform filter. Empty = all platforms.
    pub platforms: Vec<String>,
    /// Required GStreamer plugins (for the video filter kind).
    pub gstreamer_plugins: Vec<String>,
}

impl Default for PluginCompatibility {
    fn default() -> (r: Self)
        ensures
            r.min_host_version.is_none() && r.max_host_version.is_none(),
            r.platforms@.len() == 0 && r.gstreamer_plugins@.len() == 0,
    {
        PluginCompatibility {
            min_host_version: None,
            max_host_version: None,
            platforms: Vec::new(),
            gstreamer_plugins: Vec::new(),
        }
    }
}

// ── Plugin type section ─────────────────────────────────────────────────────

/// The `[plugin.type]` section — determines kind and entry point.
#[derive(Debug, Clone, PartialEq, Eq)]
pub struct PluginType {
    /// The plugin category.
    pub kind: PluginKind,
    /// Entry point filename (e.g. `plugin.wasm`, `plugin.vst3`, `plugin.dly`).
    pub entry_point: String,
    /// Sandbox mode (`wasm` when the manifest names none).
    pub sandbox: String,
}

// ── API version range ───────────────────────────────────────────────────────

/// The `[plugin.api_version]` section — version range for host API
/// compatibility.
#[derive(Debug, Clone, PartialEq, Eq)]
pub struct ApiVersion {
    /// Minimum host API version (major.minor).
    pub min: String,
    /// Maximum host API version (major.minor, optional).
    pub max: Option<String>,
}

// ── Top-level manifest ──────────────────────────────────────────────────────

/// The complete `rivulet-plugin.toml` manifest.
#[derive(Debug, Clone, PartialEq, Eq)]
pub struct PluginManifest {
    /// The `[plugin]` section.
    pub plugin: PluginInfo,
}

/// Plugin identity and metadata.
#[derive(Debug, Clone, PartialEq, Eq)]
pub struct PluginInfo {
    /// Reverse-DNS ID (e.g. `com.example.my-plugin`).
    pub id: String,
    /// Semver version.
    pub version: String,
    /// Host API compatibility version.
    pub api_version: ApiVersion,
    /// Human-readable display name.
    pub name: String,
    /// Short description.
    pub description: String,
    /// Author name or handle.
    pub author: String,
    /// License identifier (SPDX).
    pub license: String,
    /// Project homepage URL.
    pub homepage: String,
    /// Plugin type and entry point.
    pub type_info: PluginType,
    /// Requested capabilities.
    pub capabilities: PluginCapabilities,
    /// Resource limits.
    pub resources: PluginResources,
    /// Compatibility filters.
    pub compatibility: PluginCompatibility,
}

// ── Constants ───────────────────────────────────────────────────────────────

/// Maximum plugin ID length (bytes).
pub const MAX_ID_LEN: usize = 128;

/// Maximum plugin name length (bytes).
pub const MAX_NAME_LEN: usize = 120;

/// Maximum description length (bytes).
pub const MAX_DESCRIPTION_LEN: usize = 2000;

/// Hard cap: maximum memory in MB.
pub const HARD_MAX_MEMORY_MB: u32 = 512;

/// Hard cap: maximum CPU time per call in ms.
pub const HARD_MAX_CPU_MS: u32 = 200;

// ── Validation rules ────────────────────────────────────────────────────────

/// `c` may appear in a reverse-DNS id.
pub open spec fn id_char_ok(c: char) -> bool {
    ('0' <= c <= '9') || ('a' <= c <= 'z') || ('A' <= c <= 'Z') || c == '.' || c == '-'
}

/// Every piece parses as an unsigned 64-bit integer.
pub open spec fn all_u64(parts: Seq<Seq<char>>) -> bool {
    forall|i: int| 0 <= i < parts.len() ==> parse_unsigned(#[trigger] parts[i], u64::MAX as nat).is_some()
}

/// `X.Y.Z` with three unsigned integers.
pub open spec fn semver_ok(s: Seq<char>) -> bool {
    split_seq(s, '.').len() == 3 && all_u64(split_seq(s, '.'))
}

/// `X.Y` or `X.Y.Z` with unsigned integers.
pub open spec fn semver_range_ok(s: Seq<char>) -> bool {
    2 <= split_seq(s, '.').len() <= 3 && all_u64(split_seq(s, '.'))
}

/// The problem with one declared filesystem path, if any: empty, or
/// neither rooted (`/`, `\`) nor drive-qualified (holding a `:`).
pub open spec fn path_error(p: Seq<char>) -> Option<Seq<char>> {
    if all_ws(p) {
        Some("path must not be empty"@)
    } else if !has_prefix(p, "/"@) && !has_prefix(p, "\\"@) && !has_char(p, ':') {
        Some("'"@ + p + "' should be an absolute path"@)
    } else {
        None
    }
}

/// The first path problem among `ps[i..]`.
pub open spec fn first_path_error(ps: Seq<String>, i: int) -> Option<Seq<char>>
    decreases ps.len() - i,
{
    if i >= ps.len() {
        None
    } else if path_error(ps[i]@).is_some() {
        path_error(ps[i]@)
    } else {
        first_path_error(ps, i + 1)
    }
}

/// A platform the manifest may name.
pub open spec fn platform_ok(p: Seq<char>) -> bool {
    p == "windows"@ || p == "linux"@ || p == "macos"@
}

/// The first unknown platform among `ps[i..]`.
pub open spec fn first_bad_platform(ps: Seq<String>, i: int) -> Option<Seq<char>>
    decreases ps.len() - i,
{
    if i >= ps.len() {
        None
    } else if !platform_ok(ps[i]@) {
        Some(ps[i]@)
    } else {
        first_bad_platform(ps, i + 1)
    }
}

/// `(kind, field, detail)` of an error.
pub open spec fn err(kind: ErrorKind, field: Seq<char>, detail: Seq<char>) -> Option<(ErrorKind, Seq<char>, Seq<char>)> {
    Some((kind, field, detail))
}

/// `length <n> exceeds maximum <max>`.
pub open spec fn too_long(n: nat, max: nat) -> Seq<char> {
    "length "@ + decimal(n) + " exceeds maximum "@ + decimal(max)
}

/// Problems with the identity part: id, version and API range.
pub open spec fn identity_error(p: PluginInfo) -> Option<(ErrorKind, Seq<char>, Seq<char>)> {
    let id = p.id@;
    if all_ws(id) {
        err(ErrorKind::Missing, "plugin.id"@, Seq::empty())
    } else if utf8_len(id) > 128 {
        err(ErrorKind::Invalid, "plugin.id"@, too_long(utf8_len(id), 128))
    } else if exists|i: int| 0 <= i < id.len() && !id_char_ok(#[trigger] id[i]) {
        err(ErrorKind::Invalid, "plugin.id"@, "must be reverse-DNS (alphanumeric, dots, hyphens only)"@)
    } else if id[0] == '.' || id.last() == '.' || id[0] == '-' || id.last() == '-' {
        err(ErrorKind::Invalid, "plugin.id"@, "must not start or end with a dot or hyphen"@)
    } else if !has_char(id, '.') {
        err(ErrorKind::Invalid, "plugin.id"@, "must contain at least one dot (reverse-DNS format)"@)
    } else if all_ws(p.version@) {
        err(ErrorKind::Missing, "plugin.version"@, Seq::empty())
    } else if !semver_ok(p.version@) {
        err(ErrorKind::Invalid, "plugin.version"@, "'"@ + p.version@ + "' is not valid semver"@)
    } else if all_ws(p.api_version.min@) {
        err(ErrorKind::Missing, "plugin.api_version.min"@, Seq::empty())
    } else if !semver_range_ok(p.api_version.min@) {
        err(
            ErrorKind::Invalid,
            "plugin.api_version.min"@,
            "'"@ + p.api_version.min@ + "' is not a valid semver range"@,
        )
    } else {
        match p.api_version.max {
            Some(m) => if !semver_range_ok(m@) {
                err(ErrorKind::Invalid, "plugin.api_version.max"@, "'"@ + m@ + "' is not a valid semver range"@)
            } else {
                None
            },
            None => None,
        }
    }
}

/// Problems with the rest: name, description, type, capabilities,
/// resources and compatibility.
pub open spec fn body_error(p: PluginInfo) -> Option<(ErrorKind, Seq<char>, Seq<char>)> {
    let sandbox = p.type_info.sandbox@;
    if all_ws(p.name@) {
        err(ErrorKind::Missing, "plugin.name"@, Seq::empty())
    } else if utf8_len(p.name@) > 120 {
        err(ErrorKind::Invalid, "plugin.name"@, too_long(utf8_len(p.name@), 120))
    } else if utf8_len(p.description@) > 2000 {
        err(ErrorKind::Invalid, "plugin.description"@, too_long(utf8_len(p.description@), 2000))
    } else if all_ws(p.type_info.entry_point@) {
        err(ErrorKind::Missing, "plugin.type.entry_point"@, Seq::empty())
    } else if sandbox != "wasm"@ && sandbox != "native_dly"@ {
        err(
            ErrorKind::Invalid,
            "plugin.type.sandbox"@,
            "must be one of [\"wasm\", \"native_dly\"], got '"@ + sandbox + "'"@,
        )
    } else if exists|i: int| 0 <= i < p.capabilities.network@.len() && all_ws(#[trigger] p.capabilities.network@[i]@) {
        err(ErrorKind::Invalid, "plugin.capabilities.network"@, "hostname must not be empty"@)
    } else if first_path_error(p.capabilities.filesystem@, 0).is_some() {
        err(ErrorKind::Invalid, "plugin.capabilities.filesystem"@, first_path_error(p.capabilities.filesystem@, 0).unwrap())
    } else if p.resources.max_memory_mb > 512 {
        err(
            ErrorKind::Resource,
            Seq::empty(),
            "max_memory_mb="@ + decimal(p.resources.max_memory_mb as nat) + " exceeds hard cap 512"@,
        )
    } else if p.resources.max_cpu_ms > 200 {
        err(
            ErrorKind::Resource,
            Seq::empty(),
            "max_cpu_ms="@ + decimal(p.resources.max_cpu_ms as nat) + " exceeds hard cap 200"@,
        )
    } else {
        match first_bad_platform(p.compatibility.platforms@, 0) {
            Some(bad) => err(
                ErrorKind::Invalid,
                "plugin.compatibility.platforms"@,
                "unknown platform '"@ + bad + "', valid: [\"windows\", \"linux\", \"macos\"]"@,
            ),
            None => None,
        }
    }
}

/// The first rule the manifest breaks, in the order they are checked.
pub open spec fn manifest_error(m: PluginManifest) -> Option<(ErrorKind, Seq<char>, Seq<char>)> {
    if identity_error(m.plugin).is_some() {
        identity_error(m.plugin)
    } else {
        body_error(m.plugin)
    }
}

/// Simple semver check: X.Y.Z where X, Y, Z are non-negative integers.
fn all_parts_u64(parts: &Vec<String>) -> (r: bool)
    ensures
        r == all_u64(parts@.map_values(|p: String| p@)),
{
    let ghost ps = parts@.map_values(|p: String| p@);
    let n = parts.len();
    let mut i: usize = 0;
    while i < n
        invariant
            n == parts@.len(),
            ps == parts@.map_values(|p: String| p@),
            i <= n,
            forall|k: int| 0 <= k < i ==> parse_unsigned(#[trigger] ps[k], u64::MAX as nat).is_some(),
        decreases n - i,
    {
        if parse_u64_max(parts[i].as_str(), u64::MAX).is_none() {
            assert(ps[i as int] == parts@[i as int]@);
            return false;
        }
        i = i + 1;
    }
    true
}

/// Simple semver check: X.Y.Z where X, Y, Z are non-negative integers.
pub fn is_valid_semver(s: &str) -> (r: bool)
    ensures
        r == semver_ok(s@),
{
    let parts = split_char(s, '.');
    if parts.len() != 3 {
        return false;
    }
    all_parts_u64(&parts)
}

/// Simple semver-range check: accepts `X.Y` or `X.Y.Z` (no pre-release or
/// build metadata — the API version is intentionally simpler than full
/// semver).
pub fn is_valid_semver_range(s: &str) -> (r: bool)
    ensures
        r == semver_range_ok(s@),
{
    let parts = split_char(s, '.');
    if parts.len() < 2 || parts.len() > 3 {
        return false;
    }
    all_parts_u64(&parts)
}

fn quoted(before: &str, value: &str, after: &str) -> (r: String)
    ensures
        r@ == before@ + value@ + after@,
{
    let mut out = owned(before);
    out.append(value);
    out.append(after);
    out
}

fn length_message(n: usize, max: usize) -> (r: String)
    ensures
        r@ == too_long(n as nat, max as nat),
{
    let mut out = owned("length ");
    append_decimal(&mut out, n as u64);
    out.append(" exceeds maximum ");
    append_decimal(&mut out, max as u64);
    out
}

fn is_ascii_alphanumeric(c: char) -> (r: bool)
    ensures
        r == (('0' <= c <= '9') || ('a' <= c <= 'z') || ('A' <= c <= 'Z')),
{
    ('0' <= c && c <= '9') || ('a' <= c && c <= 'z') || ('A' <= c && c <= 'Z')
}

fn id_chars_ok(id: &str) -> (r: bool)
    ensures
        r == !(exists|i: int| 0 <= i < id@.len() && !id_char_ok(#[trigger] id@[i])),
{
    let n = id.unicode_len();
    let mut i: usize = 0;
    while i < n
        invariant
            n == id@.len(),
            i <= n,
            forall|k: int| 0 <= k < i ==> id_char_ok(#[trigger] id@[k]),
        decreases n - i,
    {
        let c = id.get_char(i);
        if !(is_ascii_alphanumeric(c) || c == '.' || c == '-') {
            return false;
        }
        i = i + 1;
    }
    true
}

fn path_problem(p: &str) -> (r: Option<String>)
    ensures
        match r {
            Some(m) => path_error(p@) == Some(m@),
            None => path_error(p@).is_none(),
        },
{
    if is_blank(p) {
        return Some(owned("path must not be empty"));
    }
    if !starts_with(p, "/") && !starts_with(p, "\\") {
        if !contains_char(p, ':') {
            return Some(quoted("'", p, "' should be an absolute path"));
        }
    }
    None
}

fn is_valid_platform(p: &str) -> (r: bool)
    ensures
        r == platform_ok(p@),
{
    str_eq(p, "windows") || str_eq(p, "linux") || str_eq(p, "macos")
}

impl PluginManifest {
    fn validate_identity(&self) -> (r: Result<(), ManifestError>)
        ensures
            match r {
                Ok(()) => identity_error(self.plugin).is_none(),
                Err(e) => identity_error(self.plugin) == Some(e.spec_parts()),
            },
    {
        let p = &self.plugin;
        let id = p.id.as_str();
        if is_blank(id) {
            return Err(ManifestError::MissingField("plugin.id"));
        }
        if id.len() > MAX_ID_LEN {
            return Err(ManifestError::InvalidField("plugin.id", length_message(id.len(), MAX_ID_LEN)));
        }
        if !id_chars_ok(id) {
            return Err(
                ManifestError::InvalidField(
                    "plugin.id",
                    owned("must be reverse-DNS (alphanumeric, dots, hyphens only)"),
                ),
            );
        }
        let n = id.unicode_len();
        let first = id.get_char(0);
        let last = id.get_char(n - 1);
        if first == '.' || last == '.' || first == '-' || last == '-' {
            return Err(
                ManifestError::InvalidField("plugin.id", owned("must not start or end with a dot or hyphen")),
            );
        }
        if !contains_char(id, '.') {
            return Err(
                ManifestError::InvalidField(
                    "plugin.id",
                    owned("must contain at least one dot (reverse-DNS format)"),
                ),
            );
        }
        if is_blank(p.version.as_str()) {
            return Err(ManifestError::MissingField("plugin.version"));
        }
        if !is_valid_semver(p.version.as_str()) {
            return Err(
                ManifestError::InvalidField(
                    "plugin.version",
                    quoted("'", p.version.as_str(), "' is not valid semver"),
                ),
            );
        }
        if is_blank(p.api_version.min.as_str()) {
            return Err(ManifestError::MissingField("plugin.api_version.min"));
        }
        if !is_valid_semver_range(p.api_version.min.as_str()) {
            return Err(
                ManifestError::InvalidField(
                    "plugin.api_version.min",
                    quoted("'", p.api_version.min.as_str(), "' is not a valid semver range"),
                ),
            );
        }
        match &p.api_version.max {
            Some(max) => {
                if !is_valid_semver_range(max.as_str()) {
                    return Err(
                        ManifestError::InvalidField(
                            "plugin.api_version.max",
                            quoted("'", max.as_str(), "' is not a valid semver range"),
                        ),
                    );
                }
            },
            None => {},
        }
        Ok(())
    }

    #[verifier::loop_isolation(false)]
    fn validate_body(&self) -> (r: Result<(), ManifestError>)
        ensures
            match r {
                Ok(()) => body_error(self.plugin).is_none(),
                Err(e) => body_error(self.plugin) == Some(e.spec_parts()),
            },
    {
        let p = &self.plugin;
        if is_blank(p.name.as_str()) {
            return Err(ManifestError::MissingField("plugin.name"));
        }
        if p.name.as_str().len() > MAX_NAME_LEN {
            return Err(
                ManifestError::InvalidField("plugin.name", length_message(p.name.as_str().len(), MAX_NAME_LEN)),
            );
        }
        if p.description.as_str().len() > MAX_DESCRIPTION_LEN {
            return Err(
                ManifestError::InvalidField(
                    "plugin.description",
                    length_message(p.description.as_str().len(), MAX_DESCRIPTION_LEN),
                ),
            );
        }
        if is_blank(p.type_info.entry_point.as_str()) {
            return Err(ManifestError::MissingField("plugin.type.entry_point"));
        }
        let sandbox = p.type_info.sandbox.as_str();
        if !str_eq(sandbox, "wasm") && !str_eq(sandbox, "native_dly") {
            return Err(
                ManifestError::InvalidField(
                    "plugin.type.sandbox",
                    quoted("must be one of [\"wasm\", \"native_dly\"], got '", sandbox, "'"),
                ),
            );
        }
        let hosts = &p.capabilities.network;
        let nh = hosts.len();
        let mut i: usize = 0;
        while i < nh
            invariant
                nh == hosts@.len(),
                i <= nh,
                forall|k: int| 0 <= k < i ==> !all_ws(#[trigger] hosts@[k]@),
            decreases nh - i,
        {
            if is_blank(hosts[i].as_str()) {
                return Err(
                    ManifestError::InvalidField("plugin.capabilities.network", owned("hostname must not be empty")),
                );
            }
            i = i + 1;
        }
        let paths = &p.capabilities.filesystem;
        let np = paths.len();
        let mut j: usize = 0;
        while j < np
            invariant
                np == paths@.len(),
                j <= np,
                first_path_error(paths@, j as int) == first_path_error(paths@, 0),
            decreases np - j,
        {
            match path_problem(paths[j].as_str()) {
                Some(m) => {
                    return Err(ManifestError::InvalidField("plugin.capabilities.filesystem", m));
                },
                None => {},
            }
            j = j + 1;
        }
        let r = &p.resources;
        if r.max_memory_mb > HARD_MAX_MEMORY_MB {
            let mut m = owned("max_memory_mb=");
            append_decimal(&mut m, r.max_memory_mb as u64);
            m.append(" exceeds hard cap 512");
            return Err(ManifestError::ResourceLimitExceeded(m));
        }
        if r.max_cpu_ms > HARD_MAX_CPU_MS {
            let mut m = owned("max_cpu_ms=");
            append_decimal(&mut m, r.max_cpu_ms as u64);
            m.append(" exceeds hard cap 200");
            return Err(ManifestError::ResourceLimitExceeded(m));
        }
        let platforms = &p.compatibility.platforms;
        let nq = platforms.len();
        let mut k: usize = 0;
        while k < nq
            invariant
                nq == platforms@.len(),
                k <= nq,
                first_bad_platform(platforms@, k as int) == first_bad_platform(platforms@, 0),
            decreases nq - k,
        {
            if !is_valid_platform(platforms[k].as_str()) {
                return Err(
                    ManifestError::InvalidField(
                        "plugin.compatibility.platforms",
                        quoted(
                            "unknown platform '",
                            platforms[k].as_str(),
                            "', valid: [\"windows\", \"linux\", \"macos\"]",
                        ),
                    ),
                );
            }
            k = k + 1;
        }
        Ok(())
    }

    /// Validate the manifest fields: the first broken rule is reported, in
    /// the order id, version, API range, name, description, entry point,
    /// sandbox, network hosts, filesystem paths, memory, CPU, platforms.
    pub fn validate(&self) -> (r: Result<(), ManifestError>)
        ensures
            match r {
                Ok(()) => manifest_error(*self).is_none(),
                Err(e) => manifest_error(*self) == Some(e.spec_parts()),
            },
    {
        match self.validate_identity() {
            Err(e) => return Err(e),
            Ok(()) => {},
        }
        self.validate_body()
    }
}

} // verus!
