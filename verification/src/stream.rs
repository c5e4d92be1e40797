//! Streaming configuration, validation and deterministic state machines.
//!
//! Twitch, Kick and YouTube all ingest via RTMPS (RTMP over TLS), so a
//! single [`StreamSettings`] with an `rtmps://` ingest URL works for all three
//! platforms: only the ingest endpoint and stream key differ.
use vstd::prelude::*;

use crate::health::StreamHealthStatus;
use crate::sdp::SdpOffer;
use crate::srt::ContributionSettings;
use crate::text::{
    all_ws, find, find_char, find_from, has_prefix, is_blank, owned, pairs_view, parse_u64_max, parse_unsigned, rfind,
    rfind_char, rfind_upto, starts_with, lead_br, trail_br, digits_value, is_digit, unsigned_digits, all_digits, starts_with_ascii_lowercase, str_eq, strip_trailing, trim_brackets,
    trim_brackets_seq, trim_end_char, utf8_len, ascii_lower_seq,
};
use crate::time::{Duration, NANOS_PER_MILLI, NANOS_PER_SEC};

verus! {

// ── stream key store ────────────────────────────────────────────────────────

/// Names the OS credential-store service under which stream keys are kept.
/// The secret itself is never serialized with UI preferences or included in
/// diagnostics.
pub struct StreamKeyStore {
    service: String,
}

impl Default for StreamKeyStore {
    fn default() -> (r: Self)
        ensures
            r.spec_service() == "Rivulet"@,
    {
        StreamKeyStore::new("Rivulet")
    }
}

impl StreamKeyStore {
    /// The credential-store service name.
    pub closed spec fn spec_service(&self) -> Seq<char> {
        self.service@
    }

    /// A store under the given service name.
    pub fn new(service: &str) -> (r: Self)
        ensures
            r.spec_service() == service@,
    {
        StreamKeyStore { service: owned(service) }
    }

    /// The credential-store service name.
    pub fn service(&self) -> (r: &str)
        ensures
            r@ == self.spec_service(),
    {
        self.service.as_str()
    }

    /// What a lookup in the credential store means: the stored key, no key
    /// when the store holds no entry for the account, or the store's error.
    pub fn load_result(found: Result<String, CredentialStoreError>) -> (r: Result<Option<String>, String>)
        ensures
            match found {
                Ok(k) => r == Ok::<Option<String>, String>(Some(k)),
                Err(CredentialStoreError::NoEntry) => r == Ok::<Option<String>, String>(None),
                Err(CredentialStoreError::Failed(m)) => r == Err::<Option<String>, String>(m),
            },
    {
        match found {
            Ok(k) => Ok(Some(k)),
            Err(CredentialStoreError::NoEntry) => Ok(None),
            Err(CredentialStoreError::Failed(m)) => Err(m),
        }
    }

    /// What a deletion in the credential store means: deleting a key that
    /// is not there succeeds; any other error is reported.
    pub fn delete_result(done: Result<(), CredentialStoreError>) -> (r: Result<(), String>)
        ensures
            match done {
                Err(CredentialStoreError::Failed(m)) => r == Err::<(), String>(m),
                _ => r.is_ok(),
            },
    {
        match done {
            Ok(()) => Ok(()),
            Err(CredentialStoreError::NoEntry) => Ok(()),
            Err(CredentialStoreError::Failed(m)) => Err(m),
        }
    }
}

/// Why the OS credential store refused a request.
#[derive(Debug, Clone, PartialEq, Eq)]
pub enum CredentialStoreError {
    /// No key is stored for the account.
    NoEntry,
    /// Any other failure, with the store's message.
    Failed(String),
}

// ── private test stream ─────────────────────────────────────────────────────

/// Phase of a bounded private test stream.
#[derive(Debug, Clone, Copy, PartialEq, Eq, Structural)]
pub enum PrivateTestStreamState {
    Idle,
    Countdown,
    Running,
    Completed,
}

/// Position of a phase in the lifecycle order.
pub open spec fn phase_rank(s: PrivateTestStreamState) -> nat {
    match s {
        PrivateTestStreamState::Idle => 0,
        PrivateTestStreamState::Countdown => 1,
        PrivateTestStreamState::Running => 2,
        PrivateTestStreamState::Completed => 3,
    }
}

/// Deterministic state machine for a bounded private test stream: a
/// countdown, then a run of at most `max_duration`, then completion.
#[derive(Debug, Clone, Copy, PartialEq, Eq, Structural)]
pub struct PrivateTestStream {
    state: PrivateTestStreamState,
    countdown_secs: u32,
    max_duration: Duration,
    elapsed: Duration,
}

impl PrivateTestStream {
    /// Current phase.
    pub closed spec fn spec_state(&self) -> PrivateTestStreamState {
        self.state
    }

    /// Length of the countdown in seconds.
    pub closed spec fn spec_countdown_secs(&self) -> nat {
        self.countdown_secs as nat
    }

    /// Longest run in nanoseconds.
    pub closed spec fn spec_max_duration(&self) -> nat {
        self.max_duration.spec_nanos()
    }

    /// Time spent in the current phase, in nanoseconds.
    pub closed spec fn spec_elapsed(&self) -> nat {
        self.elapsed.spec_nanos()
    }

    /// An idle test stream; the run lasts at least one second.
    pub fn new(countdown_secs: u32, max_duration: Duration) -> (r: Self)
        ensures
            r.spec_state() == PrivateTestStreamState::Idle,
            r.spec_countdown_secs() == countdown_secs,
            r.spec_max_duration() == if max_duration.spec_nanos() >= NANOS_PER_SEC {
                max_duration.spec_nanos()
            } else {
                NANOS_PER_SEC as nat
            },
            r.spec_elapsed() == 0,
    {
        PrivateTestStream {
            state: PrivateTestStreamState::Idle,
            countdown_secs,
            max_duration: max_duration.max(Duration::from_secs(1)),
            elapsed: Duration::zero(),
        }
    }

    /// Begin the countdown.
    pub fn start(&mut self)
        ensures
            final(self).spec_state() == PrivateTestStreamState::Countdown,
            final(self).spec_countdown_secs() == old(self).spec_countdown_secs(),
            final(self).spec_max_duration() == old(self).spec_max_duration(),
            final(self).spec_elapsed() == old(self).spec_elapsed(),
    {
        self.state = PrivateTestStreamState::Countdown;
    }

    /// Current phase.
    pub fn state(&self) -> (r: PrivateTestStreamState)
        ensures
            r == self.spec_state(),
    {
        self.state
    }

    /// The phase after `elapsed` more time passed, and the time spent in it.
    pub open spec fn spec_tick(&self, elapsed: nat) -> (PrivateTestStreamState, nat) {
        let s = self.spec_state();
        if s == PrivateTestStreamState::Idle || s == PrivateTestStreamState::Completed {
            (s, self.spec_elapsed())
        } else {
            let e = crate::reconnect::min_nat(
                self.spec_elapsed() + elapsed,
                crate::time::MAX_NANOS as nat,
            );
            if s == PrivateTestStreamState::Countdown && e >= self.spec_countdown_secs()
                * NANOS_PER_SEC {
                (PrivateTestStreamState::Running, 0)
            } else if s == PrivateTestStreamState::Running && e >= self.spec_max_duration() {
                (PrivateTestStreamState::Completed, e)
            } else {
                (s, e)
            }
        }
    }

    /// Advance the clock by `elapsed`: the countdown turns into the run once
    /// it has elapsed, and the run completes once it reaches its maximum.
    pub fn tick(&mut self, elapsed: Duration)
        ensures
            final(self).spec_state() == old(self).spec_tick(elapsed.spec_nanos()).0,
            final(self).spec_elapsed() == old(self).spec_tick(elapsed.spec_nanos()).1,
            final(self).spec_countdown_secs() == old(self).spec_countdown_secs(),
            final(self).spec_max_duration() == old(self).spec_max_duration(),
    {
        if self.state == PrivateTestStreamState::Idle || self.state
            == PrivateTestStreamState::Completed {
            return;
        }
        self.elapsed = self.elapsed.saturating_add(elapsed);
        if self.state == PrivateTestStreamState::Countdown && Duration::from_secs(
            self.countdown_secs as u64,
        ).le(&self.elapsed) {
            self.state = PrivateTestStreamState::Running;
            self.elapsed = Duration::zero();
        } else if self.state == PrivateTestStreamState::Running && self.max_duration.le(
            &self.elapsed,
        ) {
            self.state = PrivateTestStreamState::Completed;
        }
    }

    /// End the test stream immediately.
    pub fn stop(&mut self)
        ensures
            final(self).spec_state() == PrivateTestStreamState::Completed,
            final(self).spec_countdown_secs() == old(self).spec_countdown_secs(),
            final(self).spec_max_duration() == old(self).spec_max_duration(),
            final(self).spec_elapsed() == old(self).spec_elapsed(),
    {
        self.state = PrivateTestStreamState::Completed;
    }
}

/// Ticking never moves a test stream back to an earlier phase, and a
/// completed test stream stays completed.
pub proof fn lemma_tick_is_monotone(t: PrivateTestStream, elapsed: nat)
    ensures
        phase_rank(t.spec_state()) <= phase_rank(t.spec_tick(elapsed).0),
        t.spec_state() == PrivateTestStreamState::Completed ==> t.spec_tick(elapsed).0
            == PrivateTestStreamState::Completed,
        t.spec_state() == PrivateTestStreamState::Idle ==> t.spec_tick(elapsed).0
            == PrivateTestStreamState::Idle,
{
}

// ── connection results ──────────────────────────────────────────────────────

/// Result of a short platform connection probe.
#[derive(Debug, Clone, PartialEq, Eq)]
pub enum StreamProbeResult {
    Reachable,
    Rejected(String),
    Unavailable(String),
}

impl StreamProbeResult {
    /// Whether the endpoint was reachable.
    pub fn is_reachable(&self) -> (r: bool)
        ensures
            r == (self is Reachable),
    {
        match self {
            StreamProbeResult::Reachable => true,
            _ => false,
        }
    }
}

/// Classified outcome of a connection attempt.
#[derive(Debug, Clone, PartialEq, Eq)]
pub enum StreamConnectionResult {
    Connected,
    Rejected(String),
    Failed(String),
}

impl StreamConnectionResult {
    /// Whether the connection succeeded.
    pub fn is_success(&self) -> (r: bool)
        ensures
            r == (self is Connected),
    {
        match self {
            StreamConnectionResult::Connected => true,
            _ => false,
        }
    }
}

// ── platforms and presets ───────────────────────────────────────────────────

/// A streaming platform.
#[derive(Debug, Clone, Copy, PartialEq, Eq, Structural)]
pub enum StreamPlatform {
    Twitch,
    Kick,
    YouTube,
    Custom,
}

impl StreamPlatform {
    /// Display name.
    pub fn label(&self) -> (r: &'static str)
        ensures
            r@ == match *self {
                StreamPlatform::Twitch => "Twitch"@,
                StreamPlatform::Kick => "Kick"@,
                StreamPlatform::YouTube => "YouTube"@,
                StreamPlatform::Custom => "Custom"@,
            },
    {
        match self {
            StreamPlatform::Twitch => "Twitch",
            StreamPlatform::Kick => "Kick",
            StreamPlatform::YouTube => "YouTube",
            StreamPlatform::Custom => "Custom",
        }
    }

    /// The platform's stable ingest URL for a test stream. Kick has none:
    /// its Creator Dashboard supplies the account-specific server URL.
    pub open spec fn spec_default_ingest_url(self) -> Option<Seq<char>> {
        match self {
            StreamPlatform::Twitch => Some("rtmps://live.twitch.tv/app"@),
            StreamPlatform::YouTube => Some("rtmps://a.rtmp.youtube.com/live2"@),
            _ => None,
        }
    }

    /// The platform's stable ingest URL for a test stream, if it has one.
    pub fn default_ingest_url(self) -> (r: Option<&'static str>)
        ensures
            match self.spec_default_ingest_url() {
                Some(u) => r matches Some(x) && x@ == u,
                None => r.is_none(),
            },
    {
        match self {
            StreamPlatform::Twitch => Some("rtmps://live.twitch.tv/app"),
            StreamPlatform::YouTube => Some("rtmps://a.rtmp.youtube.com/live2"),
            StreamPlatform::Kick | StreamPlatform::Custom => None,
        }
    }

    /// Whether the user must enter the ingest URL by hand.
    pub fn requires_manual_ingest_url(self) -> (r: bool)
        ensures
            r == (self == StreamPlatform::Kick || self == StreamPlatform::Custom),
    {
        match self {
            StreamPlatform::Kick | StreamPlatform::Custom => true,
            _ => false,
        }
    }
}

/// A video bitrate preset.
#[derive(Debug, Clone, Copy, PartialEq, Eq, Structural)]
pub enum StreamPreset {
    Low,
    Standard,
    High,
    Custom,
}

impl StreamPreset {
    /// Display name.
    pub fn label(self) -> (r: &'static str)
        ensures
            r@ == match self {
                StreamPreset::Low => "Low"@,
                StreamPreset::Standard => "Standard"@,
                StreamPreset::High => "High"@,
                StreamPreset::Custom => "Custom"@,
            },
    {
        match self {
            StreamPreset::Low => "Low",
            StreamPreset::Standard => "Standard",
            StreamPreset::High => "High",
            StreamPreset::Custom => "Custom",
        }
    }

    /// Bitrate of the preset in kbit/s; `None` for a custom bitrate.
    pub fn bitrate_kbps(self) -> (r: Option<u32>)
        ensures
            r == match self {
                StreamPreset::Low => Some(2500u32),
                StreamPreset::Standard => Some(4500u32),
                StreamPreset::High => Some(6000u32),
                StreamPreset::Custom => None,
            },
    {
        match self {
            StreamPreset::Low => Some(2500),
            StreamPreset::Standard => Some(4500),
            StreamPreset::High => Some(6000),
            StreamPreset::Custom => None,
        }
    }

    /// All presets in display order.
    pub fn all() -> (r: Vec<StreamPreset>)
        ensures
            r@ == seq![
                StreamPreset::Low,
                StreamPreset::Standard,
                StreamPreset::High,
                StreamPreset::Custom,
            ],
    {
        let r = vec![StreamPreset::Low, StreamPreset::Standard, StreamPreset::High, StreamPreset::Custom];
        assert(r@ =~= seq![
            StreamPreset::Low,
            StreamPreset::Standard,
            StreamPreset::High,
            StreamPreset::Custom,
        ]);
        r
    }
}

// ── adaptive bitrate ────────────────────────────────────────────────────────

/// Bounds and step of the adaptive bitrate policy.
#[derive(Debug, Clone, Copy, PartialEq, Eq, Structural)]
pub struct AdaptiveBitrate {
    pub enabled: bool,
    pub minimum_kbps: u32,
    pub maximum_kbps: u32,
    pub step_kbps: u32,
}

impl Default for AdaptiveBitrate {
    fn default() -> (r: Self)
        ensures
            r == (AdaptiveBitrate {
                enabled: false,
                minimum_kbps: 1500,
                maximum_kbps: 6000,
                step_kbps: 500,
            }),
    {
        AdaptiveBitrate { enabled: false, minimum_kbps: 1500, maximum_kbps: 6000, step_kbps: 500 }
    }
}

/// The bitrate the policy moves to from `current` under `status`: one step
/// down (not below the minimum) when the stream is poor, one step up (not
/// above the maximum) when it is good, and back into the bounds otherwise.
pub open spec fn next_bitrate_spec(p: AdaptiveBitrate, current: u32, status: StreamHealthStatus) -> u32 {
    if !p.enabled {
        current
    } else if status == StreamHealthStatus::Poor {
        let down: int = if current >= p.step_kbps { current - p.step_kbps } else { 0 };
        if down >= p.minimum_kbps { down as u32 } else { p.minimum_kbps }
    } else if status == StreamHealthStatus::Good {
        let up: int = if current + p.step_kbps > u32::MAX { u32::MAX as int } else { current + p.step_kbps };
        if up <= p.maximum_kbps { up as u32 } else { p.maximum_kbps }
    } else if current < p.minimum_kbps {
        p.minimum_kbps
    } else if current > p.maximum_kbps {
        p.maximum_kbps
    } else {
        current
    }
}

/// The policy's bounds can be applied: the minimum does not exceed the
/// maximum (clamping a bitrate into inverted bounds panics).
pub open spec fn clampable(p: AdaptiveBitrate, status: StreamHealthStatus) -> bool {
    p.enabled && status != StreamHealthStatus::Poor && status != StreamHealthStatus::Good
        ==> p.minimum_kbps <= p.maximum_kbps
}

impl AdaptiveBitrate {
    /// An enabled policy with a minimum of at least 250 kbit/s, a maximum
    /// of at least the minimum and a step of at least 50 kbit/s.
    pub fn new(minimum_kbps: u32, maximum_kbps: u32, step_kbps: u32) -> (r: Self)
        ensures
            r.enabled,
            r.minimum_kbps == if minimum_kbps >= 250 { minimum_kbps } else { 250 },
            r.maximum_kbps == if maximum_kbps >= r.minimum_kbps { maximum_kbps } else { r.minimum_kbps },
            r.step_kbps == if step_kbps >= 50 { step_kbps } else { 50 },
            r.minimum_kbps <= r.maximum_kbps,
    {
        let minimum_kbps = if minimum_kbps >= 250 { minimum_kbps } else { 250 };
        let maximum_kbps = if maximum_kbps >= minimum_kbps { maximum_kbps } else { minimum_kbps };
        AdaptiveBitrate {
            enabled: true,
            minimum_kbps,
            maximum_kbps,
            step_kbps: if step_kbps >= 50 { step_kbps } else { 50 },
        }
    }

    /// Compute and apply the next bounded bitrate for a live encoder;
    /// `true` when the bitrate changed.
    pub fn reconfigure_live_encoder(&self, current_kbps: &mut u32, status: StreamHealthStatus) -> (r: bool)
        requires
            clampable(*self, status),
        ensures
            *final(current_kbps) == next_bitrate_spec(*self, *old(current_kbps), status),
            r == (*final(current_kbps) != *old(current_kbps)),
    {
        let next = self.next_bitrate(*current_kbps, status);
        let changed = next != *current_kbps;
        *current_kbps = next;
        changed
    }

    /// The next bitrate for `current_kbps` under `status`.
    pub fn next_bitrate(self, current_kbps: u32, status: StreamHealthStatus) -> (r: u32)
        requires
            clampable(self, status),
        ensures
            r == next_bitrate_spec(self, current_kbps, status),
    {
        if !self.enabled {
            return current_kbps;
        }
        match status {
            StreamHealthStatus::Poor => {
                let down = current_kbps.saturating_sub(self.step_kbps);
                if down >= self.minimum_kbps { down } else { self.minimum_kbps }
            },
            StreamHealthStatus::Good => {
                let up = current_kbps.saturating_add(self.step_kbps);
                if up <= self.maximum_kbps { up } else { self.maximum_kbps }
            },
            _ => {
                if current_kbps < self.minimum_kbps {
                    self.minimum_kbps
                } else if current_kbps > self.maximum_kbps {
                    self.maximum_kbps
                } else {
                    current_kbps
                }
            },
        }
    }
}

/// An enabled policy keeps a bitrate that lies within its bounds within
/// them, whatever the health status; a disabled policy never changes it.
pub proof fn lemma_next_bitrate_bounded(p: AdaptiveBitrate, current: u32, status: StreamHealthStatus)
    ensures
        !p.enabled ==> next_bitrate_spec(p, current, status) == current,
        p.enabled && p.minimum_kbps <= current <= p.maximum_kbps ==> p.minimum_kbps
            <= next_bitrate_spec(p, current, status) <= p.maximum_kbps,
{
}

// ── delay, multitrack, VOD track ────────────────────────────────────────────

/// A bounded delay applied before packets enter the network sink.
#[derive(Debug, Clone, Copy, PartialEq, Eq, Structural)]
pub struct StreamDelay {
    pub enabled: bool,
    pub duration: Duration,
}

impl Default for StreamDelay {
    fn default() -> (r: Self)
        ensures
            !r.enabled,
            r.duration.spec_nanos() == 0,
    {
        StreamDelay { enabled: false, duration: Duration::zero() }
    }
}

impl StreamDelay {
    /// A delay of at most five minutes, enabled when it is not zero.
    pub fn new(duration: Duration) -> (r: Self)
        ensures
            r.duration.spec_nanos() == crate::reconnect::min_nat(
                duration.spec_nanos(),
                (300 * NANOS_PER_SEC) as nat,
            ),
            r.enabled == (r.duration.spec_nanos() != 0),
    {
        let duration = duration.min(Duration::from_secs(300));
        StreamDelay { enabled: !duration.is_zero(), duration }
    }

    /// The delay a reconnecting pipeline keeps.
    pub fn reconnect_delay(self) -> (r: Duration)
        ensures
            r.spec_nanos() == if self.enabled { self.duration.spec_nanos() } else { 0 },
    {
        if self.enabled {
            self.duration
        } else {
            Duration::zero()
        }
    }

    /// The delay in whole milliseconds (0 when disabled).
    pub fn latency_ms(self) -> (r: u64)
        ensures
            r == if self.enabled {
                ((self.duration.spec_nanos() / (NANOS_PER_MILLI as nat)) as u64) as nat
            } else {
                0
            },
    {
        if self.enabled {
            self.duration.as_millis() as u64
        } else {
            0
        }
    }
}

/// Additional encoded video representations for multitrack delivery.
#[derive(Debug, Clone, Copy, PartialEq, Eq, Structural)]
pub struct MultitrackVideo {
    pub enabled: bool,
    pub tracks: u8,
}

impl Default for MultitrackVideo {
    fn default() -> (r: Self)
        ensures
            r == (MultitrackVideo { enabled: false, tracks: 1 }),
    {
        MultitrackVideo { enabled: false, tracks: 1 }
    }
}

impl MultitrackVideo {
    /// Enabled for more than one track; the count is clamped to `1..=4`.
    pub fn new(tracks: u8) -> (r: Self)
        ensures
            r.enabled == (tracks > 1),
            r.tracks == if tracks < 1 { 1 } else if tracks > 4 { 4 } else { tracks },
    {
        MultitrackVideo {
            enabled: tracks > 1,
            tracks: if tracks < 1 { 1 } else if tracks > 4 { 4 } else { tracks },
        }
    }

    /// Number of encoded tracks: at least two when enabled, one otherwise.
    pub fn effective_tracks(self) -> (r: u8)
        ensures
            r == if self.enabled { if self.tracks >= 2 { self.tracks } else { 2 } } else { 1 },
    {
        if self.enabled {
            if self.tracks >= 2 { self.tracks } else { 2 }
        } else {
            1
        }
    }
}

/// Copyright-safe VOD audio track for Twitch's VOD workflow. The track is
/// only emitted when it is both enabled and recorded, so it can never leak
/// into the live stream unnoticed.
#[derive(Debug, Clone, Copy, PartialEq, Eq, Default, Structural)]
pub struct VodTrack {
    pub enabled: bool,
    /// Record the VOD track into the local recording file while streaming.
    pub recorded: bool,
}

impl VodTrack {
    /// A VOD track whose recording flag follows `enabled`.
    pub fn new(enabled: bool) -> (r: Self)
        ensures
            r == (VodTrack { enabled, recorded: enabled }),
    {
        VodTrack { enabled, recorded: enabled }
    }

    /// The same track with the recording flag set.
    pub fn with_recorded(self, recorded: bool) -> (r: Self)
        ensures
            r == (VodTrack { recorded, ..self }),
    {
        VodTrack { recorded, ..self }
    }

    /// Whether this configuration actually emits a VOD track.
    pub fn active(&self) -> (r: bool)
        ensures
            r == (self.enabled && self.recorded),
    {
        self.enabled && self.recorded
    }

    /// Twitch's `ivod` track flag, present exactly when the track is active.
    pub fn twitch_ivod_flag(&self) -> (r: Option<&'static str>)
        ensures
            self.enabled && self.recorded ==> (r matches Some(f) && f@ == "ivod"@),
            !(self.enabled && self.recorded) ==> r.is_none(),
    {
        if self.active() {
            Some("ivod")
        } else {
            None
        }
    }
}

/// Independent lifecycle state for one multistream output.
#[derive(Debug, Clone, Copy, PartialEq, Eq, Structural)]
pub enum StreamTargetState {
    Offline,
    Connecting,
    Live,
    Degraded,
    Failed,
}

/// Availability of the sink plugin required by a target.
#[derive(Debug, Clone, Copy, PartialEq, Eq, Structural)]
pub enum TargetPluginStatus {
    NotApplicable,
    Available,
    Unavailable,
}

// ── ingest endpoints ────────────────────────────────────────────────────────

/// Error for an ingest URL without an RTMP scheme.
pub open spec fn err_ingest_scheme() -> Seq<char> {
    "ingest URL must use rtmp:// or rtmps://"@
}

/// What `parse_ingest_endpoint` yields for `url`: host, port and whether
/// TLS is expected, or the error message. The host is the authority up to
/// the last `:` with surrounding brackets removed; without a `:` the
/// platform's default port (443 for RTMPS, 1935 for RTMP) applies, and a
/// port that does not parse counts as 0.
pub open spec fn parse_ingest_spec(url: Seq<char>) -> Result<(Seq<char>, nat, bool), Seq<char>> {
    let secure_prefix = "rtmps://"@;
    let plain_prefix = "rtmp://"@;
    if !has_prefix(url, secure_prefix) && !has_prefix(url, plain_prefix) {
        Err(err_ingest_scheme())
    } else {
        let secure = has_prefix(url, secure_prefix);
        let rest = if secure {
            url.subrange(secure_prefix.len() as int, url.len() as int)
        } else {
            url.subrange(plain_prefix.len() as int, url.len() as int)
        };
        let authority = rest.subrange(0, find_char(rest, '/'));
        if authority.len() == 0 {
            Err("ingest URL host is empty"@)
        } else {
            let host_port: (Seq<char>, nat) = match rfind_char(authority, ':') {
                None => (authority, if secure { 443nat } else { 1935nat }),
                Some(k) => (
                    trim_brackets_seq(authority.subrange(0, k)),
                    match parse_unsigned(authority.subrange(k + 1, authority.len() as int), 65535) {
                        Some(v) => v,
                        None => 0,
                    },
                ),
            };
            if host_port.0.len() == 0 || host_port.1 == 0 {
                Err("ingest URL host or port is invalid"@)
            } else {
                Ok((host_port.0, host_port.1, secure))
            }
        }
    }
}

/// Parse an RTMP(S) ingest URL into host, port and whether TLS is expected.
/// No stream key is returned.
pub fn parse_ingest_endpoint(url: &str) -> (r: Result<(String, u16, bool), &'static str>)
    ensures
        match parse_ingest_spec(url@) {
            Ok(v) => r matches Ok(x) && x.0@ == v.0 && x.1 as nat == v.1 && x.2 == v.2,
            Err(m) => r matches Err(e) && e@ == m,
        },
{
    proof {
        reveal_strlit("rtmps://");
        reveal_strlit("rtmp://");
    }
    let n = url.unicode_len();
    let secure = starts_with(url, "rtmps://");
    let rest = if secure {
        url.substring_char(8, n)
    } else if starts_with(url, "rtmp://") {
        url.substring_char(7, n)
    } else {
        return Err("ingest URL must use rtmp:// or rtmps://");
    };
    let slash = find(rest, '/');
    let authority = rest.substring_char(0, slash);
    if authority.unicode_len() == 0 {
        return Err("ingest URL host is empty");
    }
    let colon = rfind(authority, ':');
    let ghost rs = if secure { url@.subrange(8, n as int) } else { url@.subrange(7, n as int) };
    assert(rest@ == rs);
    let ghost au = rs.subrange(0, find_char(rs, '/'));
    assert(authority@ == au);
    let (host, port): (&str, u16) = match colon {
        None => {
            assert(rfind_char(au, ':').is_none());
            (authority, if secure { 443 } else { 1935 })
        },
        Some(k) => {
            assert(rfind_char(au, ':') == Some(k as int));
            let m = authority.unicode_len();
            let port = match parse_u64_max(authority.substring_char(k + 1, m), 65535) {
                Some(v) => v as u16,
                None => 0,
            };
            let host = trim_brackets(authority.substring_char(0, k));
            assert(host@ == trim_brackets_seq(au.subrange(0, k as int)));
            (host, port)
        },
    };
    if host.unicode_len() == 0 || port == 0 {
        return Err("ingest URL host or port is invalid");
    }
    Ok((owned(host), port, secure))
}

proof fn lemma_find_first(s: Seq<char>, c: char, i: int, k: int)
    requires
        0 <= i <= k <= s.len(),
        forall|j: int| i <= j < k ==> s[j] != c,
        k == s.len() || s[k] == c,
    ensures
        find_from(s, c, i) == k,
    decreases k - i,
{
    if i < k {
        lemma_find_first(s, c, i + 1, k);
    }
}

proof fn lemma_rfind_none(s: Seq<char>, c: char, j: int)
    requires
        0 <= j <= s.len(),
        forall|m: int| 0 <= m < j ==> s[m] != c,
    ensures
        rfind_upto(s, c, j) == 0,
    decreases j,
{
    if j > 0 {
        lemma_rfind_none(s, c, j - 1);
    }
}

proof fn lemma_ingest_authority(url: Seq<char>, prefix: Seq<char>, host: Seq<char>, path: Seq<char>)
    requires
        url == prefix + host + path,
        host.len() > 0,
        forall|i: int| 0 <= i < host.len() ==> host[i] != ':' && host[i] != '/',
        path.len() == 0 || path[0] == '/',
    ensures
        ({
            let rest = url.subrange(prefix.len() as int, url.len() as int);
            &&& rest.subrange(0, find_char(rest, '/')) == host
            &&& rfind_char(host, ':') is None
        }),
{
    let rest = url.subrange(prefix.len() as int, url.len() as int);
    assert(rest =~= host + path);
    lemma_find_first(rest, '/', 0, host.len() as int);
    assert(rest.subrange(0, host.len() as int) =~= host);
    lemma_rfind_none(host, ':', host.len() as int);
}

/// Without an explicit port an ingest URL gets its scheme's standard port:
/// for a host without `:` (and an optional path), `rtmp://` gives port
/// 1935 without TLS and `rtmps://` gives port 443 with TLS, and the host
/// comes back as written.
pub proof fn lemma_ingest_default_ports(host: Seq<char>, path: Seq<char>)
    requires
        host.len() > 0,
        forall|i: int| 0 <= i < host.len() ==> host[i] != ':' && host[i] != '/',
        path.len() == 0 || path[0] == '/',
    ensures
        parse_ingest_spec("rtmp://"@ + host + path) == Ok::<(Seq<char>, nat, bool), Seq<char>>((host, 1935nat, false)),
        parse_ingest_spec("rtmps://"@ + host + path) == Ok::<(Seq<char>, nat, bool), Seq<char>>((host, 443nat, true)),
{
    reveal_strlit("rtmp://");
    reveal_strlit("rtmps://");
    let plain = "rtmp://"@ + host + path;
    let secure = "rtmps://"@ + host + path;
    assert(plain[4] == ':');
    assert(!has_prefix(plain, "rtmps://"@)) by {
        if plain.len() >= 8 {
            assert(plain.subrange(0, 8)[4] != "rtmps://"@[4]);
        }
    }
    assert(plain.subrange(0, 7) =~= "rtmp://"@);
    assert(secure.subrange(0, 8) =~= "rtmps://"@);
    lemma_ingest_authority(plain, "rtmp://"@, host, path);
    lemma_ingest_authority(secure, "rtmps://"@, host, path);
}

proof fn lemma_rfind_last(s: Seq<char>, c: char, j: int, k: int)
    requires
        0 <= k < j <= s.len(),
        s[k] == c,
        forall|m: int| k < m < j ==> s[m] != c,
    ensures
        rfind_upto(s, c, j) == k + 1,
    decreases j,
{
    if j - 1 > k {
        lemma_rfind_last(s, c, j - 1, k);
    }
}

proof fn lemma_ingest_with_port(url: Seq<char>, prefix: Seq<char>, host: Seq<char>, digits: Seq<char>, path: Seq<char>)
    requires
        url == prefix + host + seq![':'] + digits + path,
        host.len() > 0,
        forall|i: int| 0 <= i < host.len() ==> host[i] != ':' && host[i] != '/' && host[i] != '[' && host[i] != ']',
        digits.len() > 0,
        forall|i: int| 0 <= i < digits.len() ==> is_digit(#[trigger] digits[i]),
        path.len() == 0 || path[0] == '/',
    ensures
        ({
            let rest = url.subrange(prefix.len() as int, url.len() as int);
            let authority = rest.subrange(0, find_char(rest, '/'));
            &&& authority == host + seq![':'] + digits
            &&& rfind_char(authority, ':') == Some(host.len() as int)
            &&& authority.subrange(0, host.len() as int) == host
            &&& authority.subrange(host.len() as int + 1, authority.len() as int) == digits
            &&& trim_brackets_seq(host) == host
            &&& unsigned_digits(digits) == digits
            &&& all_digits(digits)
        }),
{
    let rest = url.subrange(prefix.len() as int, url.len() as int);
    let authority = host + seq![':'] + digits;
    let n = authority.len() as int;
    assert(rest =~= authority + path);
    assert forall|j: int| 0 <= j < n implies rest[j] != '/' by {
        if j < host.len() {
            assert(rest[j] == host[j]);
        } else if j > host.len() {
            assert(rest[j] == digits[j - host.len() - 1]);
            assert(is_digit(digits[j - host.len() - 1]));
        }
    }
    lemma_find_first(rest, '/', 0, n);
    assert(rest.subrange(0, n) =~= authority);
    assert forall|m: int| host.len() < m < n implies authority[m] != ':' by {
        assert(authority[m] == digits[m - host.len() - 1]);
        assert(is_digit(digits[m - host.len() - 1]));
    }
    lemma_rfind_last(authority, ':', n, host.len() as int);
    assert(authority.subrange(0, host.len() as int) =~= host);
    assert(authority.subrange(host.len() as int + 1, n) =~= digits);
    assert(lead_br(host, 0) == 0);
    assert(trail_br(host, host.len() as int) == host.len());
    assert(host.subrange(0, host.len() as int) =~= host);
    assert(!(digits[0] == '+')) by {
        assert(is_digit(digits[0]));
    }
}

/// An explicit port is taken as written: for a host without `:`, `/`, `[`
/// or `]`, a port of decimal digits with a value from 1 to 65535 and an
/// optional path, both `rtmp://` and `rtmps://` URLs give that host and
/// port (TLS exactly for `rtmps://`).
pub proof fn lemma_ingest_explicit_port(host: Seq<char>, digits: Seq<char>, path: Seq<char>)
    requires
        host.len() > 0,
        forall|i: int| 0 <= i < host.len() ==> host[i] != ':' && host[i] != '/' && host[i] != '[' && host[i] != ']',
        digits.len() > 0,
        forall|i: int| 0 <= i < digits.len() ==> is_digit(#[trigger] digits[i]),
        1 <= digits_value(digits) <= 65535,
        path.len() == 0 || path[0] == '/',
    ensures
        parse_ingest_spec("rtmp://"@ + host + seq![':'] + digits + path)
            == Ok::<(Seq<char>, nat, bool), Seq<char>>((host, digits_value(digits), false)),
        parse_ingest_spec("rtmps://"@ + host + seq![':'] + digits + path)
            == Ok::<(Seq<char>, nat, bool), Seq<char>>((host, digits_value(digits), true)),
{
    reveal_strlit("rtmp://");
    reveal_strlit("rtmps://");
    let plain = "rtmp://"@ + host + seq![':'] + digits + path;
    let secure = "rtmps://"@ + host + seq![':'] + digits + path;
    assert(plain[4] == ':');
    assert(!has_prefix(plain, "rtmps://"@)) by {
        if plain.len() >= 8 {
            assert(plain.subrange(0, 8)[4] != "rtmps://"@[4]);
        }
    }
    assert(plain.subrange(0, 7) =~= "rtmp://"@);
    assert(secure.subrange(0, 8) =~= "rtmps://"@);
    lemma_ingest_with_port(plain, "rtmp://"@, host, digits, path);
    lemma_ingest_with_port(secure, "rtmps://"@, host, digits, path);
}

/// A URL that does not start with `rtmp://` or `rtmps://` is refused for
/// its scheme, whatever follows.
pub proof fn lemma_ingest_needs_rtmp_scheme(url: Seq<char>)
    requires
        !has_prefix(url, "rtmp://"@),
        !has_prefix(url, "rtmps://"@),
    ensures
        parse_ingest_spec(url) == Err::<(Seq<char>, nat, bool), Seq<char>>("ingest URL must use rtmp:// or rtmps://"@),
{
}

/// Where a reachability probe connects: the host and port of the ingest
/// URL, with the timeout clamped to 1 ..= 30 seconds. A URL that cannot be
/// parsed is rejected without any connection attempt.
pub fn probe_target(url: &str, timeout: Duration) -> (r: Result<(String, u16, Duration), StreamProbeResult>)
    ensures
        match parse_ingest_spec(url@) {
            Ok(v) => r matches Ok(x) && x.0@ == v.0 && x.1 as nat == v.1 && x.2.spec_nanos() == if timeout.spec_nanos() < NANOS_PER_SEC {
                NANOS_PER_SEC as nat
            } else if timeout.spec_nanos() > 30 * NANOS_PER_SEC {
                (30 * NANOS_PER_SEC) as nat
            } else {
                timeout.spec_nanos()
            },
            Err(m) => r matches Err(StreamProbeResult::Rejected(e)) && e@ == m,
        },
{
    match parse_ingest_endpoint(url) {
        Ok((host, port, _)) => Ok((host, port, timeout.clamp(Duration::from_secs(1), Duration::from_secs(30)))),
        Err(e) => Err(StreamProbeResult::Rejected(owned(e))),
    }
}

// ── WHIP ────────────────────────────────────────────────────────────────────

/// Configuration of a WHIP/WebRTC publisher. Signaling is HTTP-based while
/// media comes from a GStreamer `webrtcbin` branch.
#[derive(Debug, Clone, PartialEq, Eq)]
pub struct WhipSettings {
    pub endpoint: String,
    pub bearer_token: Option<String>,
    pub connect_timeout: Duration,
    pub trickle_ice: bool,
}

/// Why WHIP settings are rejected, if they are.
pub open spec fn whip_error(endpoint: Seq<char>, timeout: nat) -> Option<Seq<char>> {
    let loopback = has_prefix(endpoint, "http://127.0.0.1"@) || has_prefix(
        endpoint,
        "http://localhost"@,
    ) || has_prefix(endpoint, "http://[::1]"@);
    if !has_prefix(endpoint, "https://"@) && !loopback {
        Some("WHIP endpoint must use https:// unless it is loopback development HTTP"@)
    } else if utf8_len(strip_trailing(endpoint, '/')) <= utf8_len("https://"@) {
        Some("WHIP endpoint is empty"@)
    } else if timeout < 2 * NANOS_PER_SEC || timeout > 60 * NANOS_PER_SEC {
        Some("WHIP connect timeout must be between 2 and 60 seconds"@)
    } else {
        None
    }
}

impl WhipSettings {
    /// The content type of WHIP offers and answers.
    pub const SDP_CONTENT_TYPE: &'static str = "application/sdp";

    /// Settings for `endpoint` with a 10 s timeout, no token and no trickle
    /// ICE.
    pub fn new(endpoint: &str) -> (r: Self)
        ensures
            r.endpoint@ == endpoint@,
            r.bearer_token.is_none(),
            r.connect_timeout.spec_nanos() == 10 * NANOS_PER_SEC,
            !r.trickle_ice,
    {
        WhipSettings {
            endpoint: owned(endpoint),
            bearer_token: None,
            connect_timeout: Duration::from_secs(10),
            trickle_ice: false,
        }
    }

    /// The same settings with a bearer token.
    pub fn with_bearer_token(self, token: &str) -> (r: Self)
        ensures
            r.endpoint == self.endpoint,
            r.connect_timeout == self.connect_timeout,
            r.trickle_ice == self.trickle_ice,
            r.bearer_token matches Some(t) && t@ == token@,
    {
        WhipSettings { bearer_token: Some(owned(token)), ..self }
    }

    /// The same settings with the timeout clamped to 2 ..= 60 seconds.
    pub fn with_timeout(self, timeout: Duration) -> (r: Self)
        ensures
            r.endpoint == self.endpoint,
            r.bearer_token == self.bearer_token,
            r.trickle_ice == self.trickle_ice,
            r.connect_timeout.spec_nanos() == if timeout.spec_nanos() < 2 * NANOS_PER_SEC {
                (2 * NANOS_PER_SEC) as nat
            } else if timeout.spec_nanos() > 60 * NANOS_PER_SEC {
                (60 * NANOS_PER_SEC) as nat
            } else {
                timeout.spec_nanos()
            },
    {
        let connect_timeout = timeout.clamp(Duration::from_secs(2), Duration::from_secs(60));
        WhipSettings { connect_timeout, ..self }
    }

    /// The same settings with trickle ICE switched on or off.
    pub fn with_trickle_ice(self, enabled: bool) -> (r: Self)
        ensures
            r.endpoint == self.endpoint,
            r.bearer_token == self.bearer_token,
            r.connect_timeout == self.connect_timeout,
            r.trickle_ice == enabled,
    {
        WhipSettings { trickle_ice: enabled, ..self }
    }

    /// Require HTTPS (or loopback HTTP for development), a non-empty
    /// endpoint and a timeout between 2 and 60 seconds.
    pub fn validate(&self) -> (r: Result<(), &'static str>)
        ensures
            match whip_error(self.endpoint@, self.connect_timeout.spec_nanos()) {
                None => r.is_ok(),
                Some(m) => r matches Err(e) && e@ == m,
            },
    {
        let endpoint = self.endpoint.as_str();
        let loopback = starts_with(endpoint, "http://127.0.0.1") || starts_with(
            endpoint,
            "http://localhost",
        ) || starts_with(endpoint, "http://[::1]");
        if !starts_with(endpoint, "https://") && !loopback {
            return Err("WHIP endpoint must use https:// unless it is loopback development HTTP");
        }
        if trim_end_char(endpoint, '/').len() <= "https://".len() {
            return Err("WHIP endpoint is empty");
        }
        if self.connect_timeout.lt(&Duration::from_secs(2)) || Duration::from_secs(60).lt(
            &self.connect_timeout,
        ) {
            return Err("WHIP connect timeout must be between 2 and 60 seconds");
        }
        Ok(())
    }

    /// The endpoint for diagnostics; the bearer token is never part of it.
    pub fn redacted_endpoint(&self) -> (r: String)
        ensures
            r@ == self.endpoint@,
    {
        self.endpoint.clone()
    }

    /// The initial WebRTC element of the media branch.
    pub fn pipeline_fragment(&self) -> (r: &'static str)
        ensures
            r@ == "webrtcbin name=whip_webrtc bundle-policy=max-bundle"@,
    {
        "webrtcbin name=whip_webrtc bundle-policy=max-bundle"
    }

    /// The encoded H.264/Opus media attached to `webrtcbin`.
    pub fn media_branch_fragment(&self) -> (r: &'static str)
        ensures
            r@ == "videoconvert ! queue ! x264enc tune=zerolatency ! h264parse ! whip_webrtc. audioconvert ! audioresample ! opusenc ! rtpopuspay ! whip_webrtc."@,
    {
        "videoconvert ! queue ! x264enc tune=zerolatency ! h264parse ! whip_webrtc. audioconvert ! audioresample ! opusenc ! rtpopuspay ! whip_webrtc."
    }

    /// The GStreamer elements a preflight check must find.
    pub fn required_media_elements(&self) -> (r: Vec<&'static str>)
        ensures
            r@.map_values(|e: &str| e@) == seq![
                "webrtcbin"@,
                "x264enc"@,
                "h264parse"@,
                "opusenc"@,
                "rtpopuspay"@,
            ],
    {
        let r = vec!["webrtcbin", "x264enc", "h264parse", "opusenc", "rtpopuspay"];
        assert(r@.map_values(|e: &str| e@) =~= seq![
            "webrtcbin"@,
            "x264enc"@,
            "h264parse"@,
            "opusenc"@,
            "rtpopuspay"@,
        ]);
        r
    }

    /// Whether a non-empty bearer token is configured.
    pub fn has_token(&self) -> (r: bool)
        ensures
            r == (self.bearer_token matches Some(t) && t@.len() > 0),
    {
        match &self.bearer_token {
            Some(t) => !t.as_str().is_empty(),
            None => false,
        }
    }
}

/// The headers of a WHIP offer in mathematical form.
pub open spec fn offer_headers_spec(token: Option<String>) -> Seq<(Seq<char>, Seq<char>)> {
    seq![("Content-Type"@, "application/sdp"@), ("Accept"@, "application/sdp"@)] + match token {
        Some(t) => if t@.len() > 0 { seq![("Authorization"@, "Bearer "@ + t@)] } else { Seq::empty() },
        None => Seq::empty(),
    }
}

impl WhipSettings {
    /// The headers of the offer POST (SDP in both directions, and the
    /// bearer token when a non-empty one is set); rejected settings or an
    /// empty offer are errors and nothing is sent.
    pub fn offer_headers(&self, offer_sdp: &str) -> (r: Result<Vec<(&'static str, String)>, &'static str>)
        ensures
            match whip_error(self.endpoint@, self.connect_timeout.spec_nanos()) {
                Some(m) => r matches Err(e) && e@ == m,
                None => if all_ws(offer_sdp@) {
                    r matches Err(e) && e@ == "WHIP offer SDP is empty"@
                } else {
                    r matches Ok(h) && pairs_view(h@) == offer_headers_spec(self.bearer_token)
                },
            },
    {
        match self.validate() {
            Err(e) => return Err(e),
            Ok(()) => {},
        }
        if is_blank(offer_sdp) {
            return Err("WHIP offer SDP is empty");
        }
        let mut h: Vec<(&'static str, String)> = Vec::new();
        h.push(("Content-Type", owned(Self::SDP_CONTENT_TYPE)));
        h.push(("Accept", owned(Self::SDP_CONTENT_TYPE)));
        let ghost h0 = pairs_view(h@);
        match &self.bearer_token {
            Some(t) => {
                if !t.as_str().is_empty() {
                    let mut v = owned("Bearer ");
                    v.append(t.as_str());
                    h.push(("Authorization", v));
                }
            },
            None => {},
        }
        proof {
            reveal_strlit("application/sdp");
            assert(h0 =~= seq![("Content-Type"@, "application/sdp"@), ("Accept"@, "application/sdp"@)]);
            assert(pairs_view(h@) =~= offer_headers_spec(self.bearer_token));
        }
        Ok(h)
    }
}

/// Response of a WHIP offer/answer exchange.
#[derive(Debug, Clone, PartialEq, Eq)]
pub struct WhipSession {
    pub resource_url: Option<String>,
    pub answer_sdp: String,
}

impl WhipSession {
    /// Where the session's DELETE goes: an absolute resource URL as it is,
    /// a relative one appended to `endpoint`; `None` without a resource.
    pub fn delete_target(&self, endpoint: &str) -> (r: Option<String>)
        ensures
            match self.resource_url {
                None => r.is_none(),
                Some(u) => r matches Some(t) && t@ == if has_prefix(u@, "http://"@) || has_prefix(u@, "https://"@) {
                    u@
                } else {
                    endpoint@ + u@
                },
            },
    {
        match &self.resource_url {
            None => None,
            Some(u) => {
                if starts_with(u.as_str(), "http://") || starts_with(u.as_str(), "https://") {
                    Some(owned(u.as_str()))
                } else {
                    let mut t = owned(endpoint);
                    t.append(u.as_str());
                    Some(t)
                }
            },
        }
    }
}

/// How `parse_whip_response` classifies a response: the error message, or
/// `None` when the response carries a usable SDP answer.
pub open spec fn whip_response_error(
    status: u16,
    content_type: Option<Seq<char>>,
    body: Seq<char>,
) -> Option<Seq<char>> {
    let ct = match content_type {
        Some(c) => c,
        None => Seq::empty(),
    };
    if status == 401 || status == 403 {
        Some("WHIP authentication failed"@)
    } else if status >= 500 {
        Some("WHIP server failure; retry may succeed"@)
    } else if !(200 <= status < 300) {
        Some("WHIP negotiation failed"@)
    } else if !has_prefix(ascii_lower_seq(ct), "application/sdp"@) {
        Some("WHIP response must use application/sdp"@)
    } else if all_ws(body) {
        Some("WHIP response contains an empty SDP answer"@)
    } else {
        None
    }
}

/// Map an HTTP response from a WHIP endpoint to a deterministic result.
pub fn parse_whip_response(
    status: u16,
    content_type: Option<&str>,
    resource_url: Option<&str>,
    body: &str,
) -> (r: Result<WhipSession, &'static str>)
    ensures
        match whip_response_error(
            status,
            match content_type {
                Some(c) => Some(c@),
                None => None,
            },
            body@,
        ) {
            Some(m) => r matches Err(e) && e@ == m,
            None => r matches Ok(s) && s.answer_sdp@ == body@ && match resource_url {
                Some(u) => s.resource_url matches Some(x) && x@ == u@,
                None => s.resource_url.is_none(),
            },
        },
{
    if status == 401 || status == 403 {
        return Err("WHIP authentication failed");
    }
    if status >= 500 {
        return Err("WHIP server failure; retry may succeed");
    }
    if !(200 <= status && status < 300) {
        return Err("WHIP negotiation failed");
    }
    let ct: &str = match content_type {
        Some(c) => c,
        None => "",
    };
    proof {
        reveal_strlit("");
    }
    assert(content_type.is_none() ==> ct@ == Seq::<char>::empty());
    if !starts_with_ascii_lowercase(ct, "application/sdp") {
        return Err("WHIP response must use application/sdp");
    }
    if is_blank(body) {
        return Err("WHIP response contains an empty SDP answer");
    }
    let resource_url = match resource_url {
        Some(u) => Some(owned(u)),
        None => None,
    };
    Ok(WhipSession { resource_url, answer_sdp: owned(body) })
}

/// Lifecycle state of a WHIP/WebRTC publisher session.
#[derive(Debug, Clone, PartialEq, Eq)]
#[non_exhaustive]
pub enum WhipMediaState {
    Idle,
    Negotiating,
    Live,
    Failed(String),
}

fn copy_whip_state(s: &WhipMediaState) -> (r: WhipMediaState)
    ensures
        r == *s,
{
    match s {
        WhipMediaState::Idle => WhipMediaState::Idle,
        WhipMediaState::Negotiating => WhipMediaState::Negotiating,
        WhipMediaState::Live => WhipMediaState::Live,
        WhipMediaState::Failed(m) => WhipMediaState::Failed(m.clone()),
    }
}

fn copy_opt_string(s: &Option<String>) -> (r: Option<String>)
    ensures
        r == *s,
{
    match s {
        Some(x) => Some(x.clone()),
        None => None,
    }
}

/// A WHIP/WebRTC publisher session: the settings, the signaling state, the
/// negotiated answer and the server-side resource to delete on shutdown.
#[derive(Debug)]
pub struct WhipMediaSession {
    pub settings: WhipSettings,
    pub state: WhipMediaState,
    pub answer_sdp: Option<String>,
    pub resource_url: Option<String>,
}

impl WhipMediaSession {
    /// A new, idle session.
    pub fn new(settings: WhipSettings) -> (r: Self)
        ensures
            r.settings == settings,
            r.state == WhipMediaState::Idle,
            r.answer_sdp.is_none(),
            r.resource_url.is_none(),
    {
        WhipMediaSession { settings, state: WhipMediaState::Idle, answer_sdp: None, resource_url: None }
    }

    /// The deterministic H.264/Opus SDP offer for this session.
    pub fn create_offer_sdp(&self) -> (r: Result<String, &'static str>)
        ensures
            r matches Ok(s) && s@ == crate::sdp::offer_text(
                crate::sdp::seed_spec(self.settings.endpoint@),
            ),
    {
        let offer = SdpOffer::h264_opus(self.settings.endpoint.as_str());
        proof {
            reveal_strlit("v=0\r\no=- ");
        }
        assert(offer.spec_sdp().len() > 0) by {
            assert(offer.spec_sdp()[0] == 'v');
        }
        offer.to_sdp()
    }

    /// Enter the negotiation and build the offer the caller sends to the
    /// WHIP endpoint.
    pub fn start_negotiation(&mut self) -> (r: Result<String, &'static str>)
        ensures
            final(self).state == WhipMediaState::Negotiating,
            final(self).settings == old(self).settings,
            final(self).answer_sdp == old(self).answer_sdp,
            final(self).resource_url == old(self).resource_url,
            r matches Ok(s) && s@ == crate::sdp::offer_text(
                crate::sdp::seed_spec(old(self).settings.endpoint@),
            ),
    {
        self.state = WhipMediaState::Negotiating;
        self.create_offer_sdp()
    }

    /// Apply the outcome of the offer/answer exchange: on success the
    /// session is live and keeps the answer and the resource URL for later
    /// cleanup; on failure it records the error.
    pub fn complete_negotiation(&mut self, outcome: Result<WhipSession, String>) -> (r: Result<WhipSession, String>)
        ensures
            r == outcome,
            final(self).settings == old(self).settings,
            match outcome {
                Ok(s) => final(self).state == WhipMediaState::Live
                    && final(self).answer_sdp == Some(s.answer_sdp)
                    && final(self).resource_url == s.resource_url,
                Err(m) => final(self).state == WhipMediaState::Failed(m)
                    && final(self).answer_sdp == old(self).answer_sdp
                    && final(self).resource_url == old(self).resource_url,
            },
    {
        match outcome {
            Ok(session) => {
                self.answer_sdp = Some(session.answer_sdp.clone());
                self.resource_url = copy_opt_string(&session.resource_url);
                self.state = WhipMediaState::Live;
                Ok(session)
            },
            Err(message) => {
                self.state = WhipMediaState::Failed(message.clone());
                Err(message)
            },
        }
    }

    /// Apply an already-negotiated remote answer; an empty answer fails the
    /// session. Returns the previous state.
    pub fn apply_answer(&mut self, answer_sdp: &str) -> (r: WhipMediaState)
        ensures
            r == old(self).state,
            final(self).settings == old(self).settings,
            final(self).resource_url == old(self).resource_url,
            all_ws(answer_sdp@) ==> (final(self).state matches WhipMediaState::Failed(m)
                && m@ == "WHIP answer SDP is empty"@),
            all_ws(answer_sdp@) ==> final(self).answer_sdp == old(self).answer_sdp,
            !all_ws(answer_sdp@) ==> final(self).state == WhipMediaState::Live,
            !all_ws(answer_sdp@) ==> (final(self).answer_sdp matches Some(a) && a@ == answer_sdp@),
    {
        let previous = copy_whip_state(&self.state);
        if is_blank(answer_sdp) {
            self.state = WhipMediaState::Failed(owned("WHIP answer SDP is empty"));
            return previous;
        }
        self.answer_sdp = Some(owned(answer_sdp));
        self.state = WhipMediaState::Live;
        previous
    }

    /// End the session: the answer and the resource URL are dropped and the
    /// session is idle again. The caller deletes the server-side resource
    /// (read `resource_url` first) before calling this.
    pub fn shutdown(&mut self) -> (r: Result<(), &'static str>)
        ensures
            r.is_ok(),
            final(self).settings == old(self).settings,
            final(self).state == WhipMediaState::Idle,
            final(self).answer_sdp.is_none(),
            final(self).resource_url.is_none(),
    {
        self.resource_url = None;
        self.answer_sdp = None;
        self.state = WhipMediaState::Idle;
        Ok(())
    }
}

// ── stream settings ─────────────────────────────────────────────────────────

/// Error for an empty stream key.
pub open spec fn err_empty_key() -> Seq<char> {
    "stream key is empty"@
}

/// Error for a platform preset without TLS.
pub open spec fn err_no_tls() -> Seq<char> {
    "platform presets require TLS (rtmps://)"@
}

/// Settings of one RTMP(S) output.
#[derive(Debug, Clone, PartialEq, Eq)]
pub struct StreamSettings {
    pub platform: StreamPlatform,
    pub ingest_url: String,
    pub stream_key: String,
    pub preset: StreamPreset,
    pub adaptive_bitrate: AdaptiveBitrate,
    pub delay: StreamDelay,
    pub multitrack_video: MultitrackVideo,
    pub vod_track: VodTrack,
}

impl StreamSettings {
    /// Why these settings are rejected, if they are: an empty key, a
    /// non-RTMP ingest URL, or a platform preset without TLS.
    pub open spec fn spec_error(&self) -> Option<Seq<char>> {
        if all_ws(self.stream_key@) {
            Some(err_empty_key())
        } else if !has_prefix(self.ingest_url@, "rtmp://"@) && !has_prefix(
            self.ingest_url@,
            "rtmps://"@,
        ) {
            Some(err_ingest_scheme())
        } else if self.platform != StreamPlatform::Custom && !has_prefix(
            self.ingest_url@,
            "rtmps://"@,
        ) {
            Some(err_no_tls())
        } else {
            None
        }
    }

    /// The publish location: the ingest URL without trailing slashes,
    /// followed by `/<key>` when a key is set.
    pub open spec fn spec_location(&self) -> Seq<char> {
        let base = strip_trailing(self.ingest_url@, '/');
        if self.stream_key@.len() == 0 {
            base
        } else {
            base + "/"@ + self.stream_key@
        }
    }

    /// The masked key: "Not configured" when empty, otherwise the first two
    /// characters (none for keys shorter than three characters) followed by
    /// four bullets.
    pub open spec fn spec_masked_key(&self) -> Seq<char> {
        let k = self.stream_key@;
        if k.len() == 0 {
            "Not configured"@
        } else if k.len() >= 3 {
            k.subrange(0, 2) + "••••"@
        } else {
            "••••"@
        }
    }

    /// Settings with the standard preset and every optional feature off.
    pub fn new(platform: StreamPlatform, ingest_url: &str, stream_key: &str) -> (r: Self)
        ensures
            r.platform == platform,
            r.ingest_url@ == ingest_url@,
            r.stream_key@ == stream_key@,
            r.preset == StreamPreset::Standard,
            r.adaptive_bitrate == (AdaptiveBitrate {
                enabled: false,
                minimum_kbps: 1500,
                maximum_kbps: 6000,
                step_kbps: 500,
            }),
            !r.delay.enabled && r.delay.duration.spec_nanos() == 0,
            r.multitrack_video == (MultitrackVideo { enabled: false, tracks: 1 }),
            r.vod_track == (VodTrack { enabled: false, recorded: false }),
    {
        StreamSettings {
            platform,
            ingest_url: owned(ingest_url),
            stream_key: owned(stream_key),
            preset: StreamPreset::Standard,
            adaptive_bitrate: AdaptiveBitrate::default(),
            delay: StreamDelay::default(),
            multitrack_video: MultitrackVideo::default(),
            vod_track: VodTrack::new(false),
        }
    }

    /// Twitch with its RTMPS ingest.
    pub fn twitch(key: &str) -> (r: Self)
        ensures
            r.platform == StreamPlatform::Twitch,
            r.ingest_url@ == "rtmps://live.twitch.tv/app"@,
            r.stream_key@ == key@,
            r.preset == StreamPreset::Standard,
            !r.adaptive_bitrate.enabled,
            !r.delay.enabled,
            !r.multitrack_video.enabled,
            !r.vod_track.enabled && !r.vod_track.recorded,
    {
        StreamSettings::new(StreamPlatform::Twitch, "rtmps://live.twitch.tv/app", key)
    }

    /// YouTube with its RTMPS ingest.
    pub fn youtube(key: &str) -> (r: Self)
        ensures
            r.platform == StreamPlatform::YouTube,
            r.ingest_url@ == "rtmps://a.rtmp.youtube.com/live2"@,
            r.stream_key@ == key@,
            r.preset == StreamPreset::Standard,
            !r.adaptive_bitrate.enabled,
            !r.delay.enabled,
            !r.multitrack_video.enabled,
            !r.vod_track.enabled && !r.vod_track.recorded,
    {
        StreamSettings::new(StreamPlatform::YouTube, "rtmps://a.rtmp.youtube.com/live2", key)
    }

    /// Kick; its ingest URL comes from the Creator Dashboard.
    pub fn kick(url: &str, key: &str) -> (r: Self)
        ensures
            r.platform == StreamPlatform::Kick,
            r.ingest_url@ == url@,
            r.stream_key@ == key@,
            r.preset == StreamPreset::Standard,
    {
        StreamSettings::new(StreamPlatform::Kick, url, key)
    }

    /// A test stream on `platform`, using its default ingest URL (empty when
    /// the platform has none).
    pub fn for_test_stream(platform: StreamPlatform, key: &str) -> (r: Self)
        ensures
            r.platform == platform,
            r.ingest_url@ == match platform.spec_default_ingest_url() {
                Some(u) => u,
                None => Seq::<char>::empty(),
            },
            r.stream_key@ == key@,
            r.preset == StreamPreset::Standard,
    {
        proof {
            reveal_strlit("");
        }
        let url = match platform.default_ingest_url() {
            Some(u) => u,
            None => "",
        };
        StreamSettings::new(platform, url, key)
    }

    /// A custom RTMP(S) server.
    pub fn custom(url: &str, key: &str) -> (r: Self)
        ensures
            r.platform == StreamPlatform::Custom,
            r.ingest_url@ == url@,
            r.stream_key@ == key@,
            r.preset == StreamPreset::Standard,
    {
        StreamSettings::new(StreamPlatform::Custom, url, key)
    }

    /// The same settings with another preset.
    pub fn with_preset(self, preset: StreamPreset) -> (r: Self)
        ensures
            r == (StreamSettings { preset, ..self }),
    {
        StreamSettings { preset, ..self }
    }

    /// The same settings with another adaptive bitrate policy.
    pub fn with_adaptive_bitrate(self, policy: AdaptiveBitrate) -> (r: Self)
        ensures
            r == (StreamSettings { adaptive_bitrate: policy, ..self }),
    {
        StreamSettings { adaptive_bitrate: policy, ..self }
    }

    /// The same settings with another delay.
    pub fn with_delay(self, delay: StreamDelay) -> (r: Self)
        ensures
            r == (StreamSettings { delay, ..self }),
    {
        StreamSettings { delay, ..self }
    }

    /// The same settings with another multitrack configuration.
    pub fn with_multitrack_video(self, video: MultitrackVideo) -> (r: Self)
        ensures
            r == (StreamSettings { multitrack_video: video, ..self }),
    {
        StreamSettings { multitrack_video: video, ..self }
    }

    /// The same settings with another VOD track configuration.
    pub fn with_vod_track(self, vod_track: VodTrack) -> (r: Self)
        ensures
            r == (StreamSettings { vod_track, ..self }),
    {
        StreamSettings { vod_track, ..self }
    }

    /// The stream key, masked for display; the secret itself never appears
    /// beyond its first two characters.
    pub fn masked_key(&self) -> (r: String)
        ensures
            r@ == self.spec_masked_key(),
    {
        let key = self.stream_key.as_str();
        let n = key.unicode_len();
        if n == 0 {
            return owned("Not configured");
        }
        let mut out = if n >= 3 {
            owned(key.substring_char(0, 2))
        } else {
            String::new()
        };
        out.append("••••");
        proof {
            if n < 3 {
                assert(out@ =~= "••••"@);
            }
        }
        out
    }

    /// Reject an empty key, a non-RTMP ingest URL and platform presets
    /// without TLS.
    pub fn validate(&self) -> (r: Result<(), &'static str>)
        ensures
            match self.spec_error() {
                None => r.is_ok(),
                Some(m) => r matches Err(e) && e@ == m,
            },
    {
        if is_blank(self.stream_key.as_str()) {
            return Err("stream key is empty");
        }
        let url = self.ingest_url.as_str();
        if !(starts_with(url, "rtmp://") || starts_with(url, "rtmps://")) {
            return Err("ingest URL must use rtmp:// or rtmps://");
        }
        if self.platform != StreamPlatform::Custom && !self.is_rtmps() {
            return Err("platform presets require TLS (rtmps://)");
        }
        Ok(())
    }

    /// The publish location (ingest URL and key).
    pub fn location(&self) -> (r: String)
        ensures
            r@ == self.spec_location(),
    {
        let base = trim_end_char(self.ingest_url.as_str(), '/');
        let mut out = owned(base);
        if !self.stream_key.as_str().is_empty() {
            out.append("/");
            out.append(self.stream_key.as_str());
        }
        out
    }

    /// Whether the ingest URL uses TLS.
    pub fn is_rtmps(&self) -> (r: bool)
        ensures
            r == has_prefix(self.ingest_url@, "rtmps://"@),
    {
        starts_with(self.ingest_url.as_str(), "rtmps://")
    }

    /// Classify a connection attempt: invalid settings are rejected without
    /// touching the network, a non-blank transport error is a failure, and
    /// anything else is a successful connection.
    pub fn connection_result(&self, transport_error: Option<&str>) -> (r: StreamConnectionResult)
        ensures
            match self.spec_error() {
                Some(m) => r matches StreamConnectionResult::Rejected(e) && e@ == m,
                None => match transport_error {
                    Some(t) => if all_ws(t@) {
                        r is Connected
                    } else {
                        r matches StreamConnectionResult::Failed(e) && e@ == t@
                    },
                    None => r is Connected,
                },
            },
    {
        match self.validate() {
            Err(e) => StreamConnectionResult::Rejected(owned(e)),
            Ok(()) => match transport_error {
                Some(error) => if !is_blank(error) {
                    StreamConnectionResult::Failed(owned(error))
                } else {
                    StreamConnectionResult::Connected
                },
                None => StreamConnectionResult::Connected,
            },
        }
    }
}

// ── stream targets ──────────────────────────────────────────────────────────

/// A separately monitored output target for multistreaming.
#[derive(Debug, Clone, PartialEq, Eq)]
pub struct StreamTarget {
    pub name: String,
    pub settings: StreamSettings,
    /// Optional contribution transport; `None` keeps RTMP/RTMPS.
    pub contribution: Option<ContributionSettings>,
    /// Whether this target's sink plugin was available when last checked.
    pub plugin_status: TargetPluginStatus,
}

impl StreamTarget {
    /// Why this target is rejected, if it is: an empty name, invalid stream
    /// settings, or invalid contribution settings.
    pub open spec fn spec_error(&self) -> Option<Seq<char>> {
        if all_ws(self.name@) {
            Some("stream target name is empty"@)
        } else if self.settings.spec_error().is_some() {
            self.settings.spec_error()
        } else {
            match self.contribution {
                Some(c) => c.spec_error(),
                None => None,
            }
        }
    }

    /// The sink description of this target: its contribution sink when one
    /// is configured and valid, an `rtmp2sink` to its location otherwise.
    pub open spec fn spec_sink_fragment(&self) -> Seq<char> {
        match self.contribution {
            Some(c) => if c.spec_error().is_none() {
                c.spec_fragment()
            } else {
                rtmp_fragment(self.settings.spec_location())
            },
            None => rtmp_fragment(self.settings.spec_location()),
        }
    }

    /// An RTMP target without contribution transport.
    pub fn new(name: &str, settings: StreamSettings) -> (r: Self)
        ensures
            r.name@ == name@,
            r.settings == settings,
            r.contribution.is_none(),
            r.plugin_status == TargetPluginStatus::NotApplicable,
    {
        StreamTarget {
            name: owned(name),
            settings,
            contribution: None,
            plugin_status: TargetPluginStatus::NotApplicable,
        }
    }

    /// The same target sending through a contribution transport; its plugin
    /// counts as unavailable until checked.
    pub fn with_contribution(self, contribution: ContributionSettings) -> (r: Self)
        ensures
            r.name == self.name,
            r.settings == self.settings,
            r.contribution == Some(contribution),
            r.plugin_status == TargetPluginStatus::Unavailable,
    {
        StreamTarget {
            plugin_status: TargetPluginStatus::Unavailable,
            contribution: Some(contribution),
            ..self
        }
    }

    /// Record whether the contribution sink element exists in the current
    /// installation (`sink_available`); targets without contribution need
    /// no plugin.
    pub fn refresh_plugin_status(&mut self, sink_available: bool)
        ensures
            final(self).name == old(self).name,
            final(self).settings == old(self).settings,
            final(self).contribution == old(self).contribution,
            final(self).plugin_status == if old(self).contribution.is_none() {
                TargetPluginStatus::NotApplicable
            } else if sink_available {
                TargetPluginStatus::Available
            } else {
                TargetPluginStatus::Unavailable
            },
    {
        self.plugin_status = if self.contribution.is_none() {
            TargetPluginStatus::NotApplicable
        } else if sink_available {
            TargetPluginStatus::Available
        } else {
            TargetPluginStatus::Unavailable
        };
    }

    /// Check the name, the stream settings and the contribution settings.
    pub fn validate(&self) -> (r: Result<(), &'static str>)
        ensures
            match self.spec_error() {
                None => r.is_ok(),
                Some(m) => r matches Err(e) && e@ == m,
            },
    {
        if is_blank(self.name.as_str()) {
            return Err("stream target name is empty");
        }
        match self.settings.validate() {
            Err(e) => return Err(e),
            Ok(()) => {},
        }
        match &self.contribution {
            Some(c) => c.validate(),
            None => Ok(()),
        }
    }

    /// The target's masked stream key.
    pub fn masked_key(&self) -> (r: String)
        ensures
            r@ == self.settings.spec_masked_key(),
    {
        self.settings.masked_key()
    }

    fn sink_fragment(&self) -> (r: String)
        ensures
            r@ == self.spec_sink_fragment(),
    {
        match &self.contribution {
            Some(c) => match c.validated_pipeline_sink_fragment() {
                Ok(f) => f,
                Err(_) => rtmp_sink(&self.settings),
            },
            None => rtmp_sink(&self.settings),
        }
    }
}

/// `rtmp2sink location=\"<location>\"`, the RTMP sink description.
pub open spec fn rtmp_fragment(location: Seq<char>) -> Seq<char> {
    "rtmp2sink location=\\\""@ + location + "\\\""@
}

fn rtmp_sink(settings: &StreamSettings) -> (r: String)
    ensures
        r@ == rtmp_fragment(settings.spec_location()),
{
    let mut out = owned("rtmp2sink location=\\\"");
    let location = settings.location();
    out.append(location.as_str());
    out.append("\\\"");
    out
}

// ── multistreaming ──────────────────────────────────────────────────────────

/// The first validation error among `ts[i..]`, in order.
pub open spec fn first_error_from(ts: Seq<StreamTarget>, i: int) -> Option<Seq<char>>
    decreases ts.len() - i,
{
    if i >= ts.len() {
        None
    } else if ts[i].spec_error().is_some() {
        ts[i].spec_error()
    } else {
        first_error_from(ts, i + 1)
    }
}

/// Index of the first target named `name` at or after `i` (the length when
/// there is none).
pub open spec fn target_index_from(ts: Seq<StreamTarget>, name: Seq<char>, i: int) -> int
    decreases ts.len() - i,
{
    if i >= ts.len() {
        ts.len() as int
    } else if ts[i].name@ == name {
        i
    } else {
        target_index_from(ts, name, i + 1)
    }
}

proof fn lemma_target_index_from(ts: Seq<StreamTarget>, name: Seq<char>, i: int)
    requires
        0 <= i <= ts.len(),
    ensures
        i <= target_index_from(ts, name, i) <= ts.len(),
        target_index_from(ts, name, i) < ts.len() ==> ts[target_index_from(ts, name, i)].name@
            == name,
        forall|k: int| i <= k < target_index_from(ts, name, i) ==> ts[k].name@ != name,
    decreases ts.len() - i,
{
    if i < ts.len() && ts[i].name@ != name {
        lemma_target_index_from(ts, name, i + 1);
    }
}

/// Names of the given `(name, state)` pairs whose state calls for a retry
/// (failed or degraded), in order.
pub open spec fn retry_names(states: Seq<(String, StreamTargetState)>) -> Seq<Seq<char>>
    decreases states.len(),
{
    if states.len() == 0 {
        Seq::empty()
    } else {
        let rest = retry_names(states.drop_last());
        let last = states.last();
        if last.1 == StreamTargetState::Failed || last.1 == StreamTargetState::Degraded {
            rest.push(last.0@)
        } else {
            rest
        }
    }
}

/// Configuration of several independent targets.
#[derive(Debug, Clone, Default, PartialEq, Eq)]
pub struct MultistreamSettings {
    pub targets: Vec<StreamTarget>,
}

/// Names of the targets, in order.
pub open spec fn names_of(ts: Seq<StreamTarget>) -> Seq<Seq<char>> {
    ts.map_values(|t: StreamTarget| t.name@)
}

impl MultistreamSettings {
    /// Most targets that can be configured at once.
    pub const MAX_TARGETS: usize = 4;

    /// Why the configuration is rejected, if it is: no targets, or the first
    /// invalid target.
    pub open spec fn spec_error(&self) -> Option<Seq<char>> {
        if self.targets@.len() == 0 {
            Some("at least one stream target is required"@)
        } else {
            first_error_from(self.targets@, 0)
        }
    }

    /// The configuration's standing invariant: at most four targets, every
    /// target valid, no two targets sharing a name.
    pub open spec fn well_formed(&self) -> bool {
        &&& self.targets@.len() <= 4
        &&& forall|i: int| 0 <= i < self.targets@.len() ==> (#[trigger] self.targets@[i]).spec_error().is_none()
        &&& forall|i: int, j: int|
            0 <= i < j < self.targets@.len() ==> self.targets@[i].name@ != self.targets@[j].name@
    }

    /// One independent sink description per target, once every target
    /// validates.
    pub fn sink_fragments(&self) -> (r: Result<Vec<String>, &'static str>)
        ensures
            match self.spec_error() {
                Some(m) => r matches Err(e) && e@ == m,
                None => r matches Ok(v) && v@.map_values(|f: String| f@) == self.targets@.map_values(
                    |t: StreamTarget| t.spec_sink_fragment(),
                ),
            },
    {
        match self.validate_all() {
            Err(e) => return Err(e),
            Ok(()) => {},
        }
        let mut out: Vec<String> = Vec::new();
        let n = self.targets.len();
        let mut i: usize = 0;
        while i < n
            invariant
                n == self.targets@.len(),
                i <= n,
                out@.len() == i,
                forall|k: int| 0 <= k < i ==> (#[trigger] out@[k])@ == self.targets@[k].spec_sink_fragment(),
            decreases n - i,
        {
            out.push(self.targets[i].sink_fragment());
            i = i + 1;
        }
        assert(out@.map_values(|f: String| f@) =~= self.targets@.map_values(
            |t: StreamTarget| t.spec_sink_fragment(),
        ));
        Ok(out)
    }

    /// Names of the targets that may be retried (failed or degraded)
    /// without affecting healthy peers, in order.
    pub fn retryable_targets(states: &[(String, StreamTargetState)]) -> (r: Vec<String>)
        ensures
            r@.map_values(|s: String| s@) == retry_names(states@),
    {
        let ghost st = states@;
        let mut out: Vec<String> = Vec::new();
        let n = states.len();
        let mut i: usize = 0;
        while i < n
            invariant
                n == st.len(),
                st == states@,
                i <= n,
                out@.map_values(|s: String| s@) == retry_names(st.subrange(0, i as int)),
            decreases n - i,
        {
            proof {
                assert(st.subrange(0, i + 1).drop_last() =~= st.subrange(0, i as int));
                assert(st.subrange(0, i + 1).last() == st[i as int]);
            }
            let state = states[i].1;
            if state == StreamTargetState::Failed || state == StreamTargetState::Degraded {
                out.push(states[i].0.clone());
                proof {
                    assert(out@.map_values(|s: String| s@) =~= retry_names(
                        st.subrange(0, i as int),
                    ).push(st[i as int].0@));
                }
            } else {
                proof {
                    assert(out@.map_values(|s: String| s@) =~= retry_names(
                        st.subrange(0, i as int),
                    ));
                }
            }
            i = i + 1;
        }
        proof {
            assert(st.subrange(0, n as int) =~= st);
        }
        out
    }

    /// Add a target: it must validate, the limit must not be reached and
    /// its name must be new. A rejected target leaves the configuration
    /// unchanged.
    pub fn add_target(&mut self, target: StreamTarget) -> (r: Result<(), &'static str>)
        ensures
            ({
                let ts = old(self).targets@;
                if target.spec_error().is_some() {
                    r matches Err(e) && e@ == target.spec_error().unwrap() && final(self).targets@ == ts
                } else if ts.len() >= 4 {
                    r matches Err(e) && e@ == "maximum number of stream targets reached"@
                        && final(self).targets@ == ts
                } else if names_of(ts).contains(target.name@) {
                    r matches Err(e) && e@ == "stream target name already exists"@
                        && final(self).targets@ == ts
                } else {
                    r.is_ok() && final(self).targets@ == ts.push(target)
                }
            }),
            old(self).well_formed() ==> final(self).well_formed(),
    {
        match target.validate() {
            Err(e) => return Err(e),
            Ok(()) => {},
        }
        if self.targets.len() >= 4 {
            return Err("maximum number of stream targets reached");
        }
        let n = self.targets.len();
        let mut i: usize = 0;
        while i < n
            invariant
                n == self.targets@.len(),
                n < 4,
                self.targets@ == old(self).targets@,
                target.spec_error().is_none(),
                i <= n,
                forall|k: int| 0 <= k < i ==> self.targets@[k].name@ != target.name@,
            decreases n - i,
        {
            if str_eq(self.targets[i].name.as_str(), target.name.as_str()) {
                assert(names_of(self.targets@)[i as int] == target.name@);
                return Err("stream target name already exists");
            }
            i = i + 1;
        }
        assert(!names_of(self.targets@).contains(target.name@));
        self.targets.push(target);
        Ok(())
    }

    /// Remove and return the first target named `name`, if any; the other
    /// targets keep their order.
    pub fn remove_target(&mut self, name: &str) -> (r: Option<StreamTarget>)
        ensures
            ({
                let ts = old(self).targets@;
                let i = target_index_from(ts, name@, 0);
                if i < ts.len() {
                    r == Some(ts[i]) && final(self).targets@ == ts.remove(i)
                } else {
                    r.is_none() && final(self).targets@ == ts
                }
            }),
            old(self).well_formed() ==> final(self).well_formed(),
    {
        let ghost ts = self.targets@;
        proof {
            lemma_target_index_from(ts, name@, 0);
        }
        let n = self.targets.len();
        let mut i: usize = 0;
        while i < n
            invariant
                ts == self.targets@,
                ts == old(self).targets@,
                n == ts.len(),
                i <= n,
                target_index_from(ts, name@, i as int) == target_index_from(ts, name@, 0),
            decreases n - i,
        {
            if str_eq(self.targets[i].name.as_str(), name) {
                let t = self.targets.remove(i);
                proof {
                    assert(target_index_from(ts, name@, i as int) == i);
                    if old(self).well_formed() {
                        assert forall|a: int, b: int|
                            0 <= a < b < self.targets@.len() implies self.targets@[a].name@
                            != self.targets@[b].name@ by {
                            let oa = if a < i { a } else { a + 1 };
                            let ob = if b < i { b } else { b + 1 };
                            assert(self.targets@[a] == ts[oa]);
                            assert(self.targets@[b] == ts[ob]);
                        }
                        assert forall|a: int| 0 <= a < self.targets@.len() implies (
                        #[trigger] self.targets@[a]).spec_error().is_none() by {
                            let oa = if a < i { a } else { a + 1 };
                            assert(self.targets@[a] == ts[oa]);
                        }
                    }
                }
                return Some(t);
            }
            i = i + 1;
        }
        proof {
            assert(target_index_from(ts, name@, n as int) == n);
        }
        None
    }

    /// Require at least one target and every target to validate; the first
    /// invalid target's error is reported.
    pub fn validate_all(&self) -> (r: Result<(), &'static str>)
        ensures
            match self.spec_error() {
                None => r.is_ok(),
                Some(m) => r matches Err(e) && e@ == m,
            },
    {
        if self.targets.len() == 0 {
            return Err("at least one stream target is required");
        }
        let n = self.targets.len();
        let mut i: usize = 0;
        while i < n
            invariant
                n == self.targets@.len(),
                i <= n,
                first_error_from(self.targets@, i as int) == first_error_from(self.targets@, 0),
            decreases n - i,
        {
            match self.targets[i].validate() {
                Err(e) => return Err(e),
                Ok(()) => {},
            }
            i = i + 1;
        }
        Ok(())
    }

    /// Names of the targets, in order.
    pub fn target_names(&self) -> (r: Vec<&str>)
        ensures
            r@.map_values(|s: &str| s@) == names_of(self.targets@),
    {
        let mut out: Vec<&str> = Vec::new();
        let n = self.targets.len();
        let mut i: usize = 0;
        while i < n
            invariant
                n == self.targets@.len(),
                i <= n,
                out@.len() == i,
                forall|k: int| 0 <= k < i ==> (#[trigger] out@[k])@ == self.targets@[k].name@,
            decreases n - i,
        {
            out.push(self.targets[i].name.as_str());
            i = i + 1;
        }
        assert(out@.map_values(|s: &str| s@) =~= names_of(self.targets@));
        out
    }
}

} // verus!
