//! The engine's session state: what is configured, which targets are live,
//! what failed, and what the next session will record or stream.
//!
//! The media pipeline itself is driven elsewhere; everything here is the
//! bookkeeping that decides what that pipeline does.
use vstd::prelude::*;

use crate::health::StreamHealthStatus;
use crate::ndi::NdiOutput;
use crate::preset::{spec_original, RecordingPreset};
use crate::replay::{
    evict_spec, newest, normalized_video, rebase_spec, sat_sub, segs_view, with_track, ReplayBuffer, ReplaySnapshot, ReplayView,
    SegmentView, TrackView,
};
use crate::reconnect::{
    claim_due, due_names, index_from, index_of, lemma_index_from, retryable_names, sink_index_spec,
    target_index_from_sink_name, ReconnectCommand, RetryPolicy, SinkBusEvent, StreamingReconnectSupervisor,
    TargetReconnectState, TargetView,
};
use crate::stream::{clampable, next_bitrate_spec, MultistreamSettings, StreamSettings, StreamTarget, StreamTargetState};
use crate::stream_runtime::{update_spec, AdaptiveBitrateController, BitrateChange, ControllerState, DelayState, DelaySupervisor};
use crate::text::{owned, str_eq};
use crate::time::{Duration, NANOS_PER_SEC};

verus! {

/// Sample rate of the engine's audio input, in Hz.
pub const AUDIO_SAMPLE_RATE: u32 = 48_000;

/// Channel count of the engine's audio input.
pub const AUDIO_CHANNELS: u16 = 2;

/// One of the two separately recordable audio tracks.
#[derive(Debug, Clone, Copy, PartialEq, Eq, Structural)]
pub enum AudioTrack {
    System,
    Microphone,
}

/// The engine's state in mathematical form.
pub struct EngineView {
    pub audio_enabled: bool,
    pub separate_audio_tracks: bool,
    pub system_track_enabled: bool,
    pub microphone_track_enabled: bool,
    pub is_recording: bool,
    pub output_path: Option<Seq<char>>,
    pub stream_settings: Option<StreamSettings>,
    pub stream_targets: Option<Seq<StreamTarget>>,
    pub target_states: Seq<StreamTargetState>,
    pub supervisor: Option<(RetryPolicy, Seq<TargetView>)>,
    pub delays: Seq<DelayState>,
    pub bitrate_controller: ControllerState,
    pub preset: RecordingPreset,
    pub bitrate_kbps: u32,
    pub last_error: Option<Seq<char>>,
    pub overlay: bool,
    pub ndi_output: Option<NdiOutput>,
    pub replay: Option<ReplayView>,
}

/// Session configuration and bookkeeping of the recording/streaming engine.
pub struct RivuletEngine {
    audio_enabled: bool,
    separate_audio_tracks: bool,
    audio_sys_enabled: bool,
    audio_mic_enabled: bool,
    is_recording: bool,
    output_path: Option<String>,
    stream_settings: Option<StreamSettings>,
    stream_targets: Option<MultistreamSettings>,
    stream_target_states: Vec<StreamTargetState>,
    reconnect_supervisor: Option<StreamingReconnectSupervisor>,
    delay_supervisors: Vec<DelaySupervisor>,
    bitrate_controller: AdaptiveBitrateController,
    preset: RecordingPreset,
    encoder_bitrate_kbps: u32,
    last_error: Option<String>,
    show_overlay: bool,
    ndi_output: Option<NdiOutput>,
    replay: Option<ReplayBuffer>,
}

/// An optional string in mathematical form.
pub open spec fn opt_str(s: Option<String>) -> Option<Seq<char>> {
    match s {
        Some(v) => Some(v@),
        None => None,
    }
}

impl View for RivuletEngine {
    type V = EngineView;

    closed spec fn view(&self) -> EngineView {
        EngineView {
            audio_enabled: self.audio_enabled,
            separate_audio_tracks: self.separate_audio_tracks,
            system_track_enabled: self.audio_sys_enabled,
            microphone_track_enabled: self.audio_mic_enabled,
            is_recording: self.is_recording,
            output_path: opt_str(self.output_path),
            stream_settings: self.stream_settings,
            stream_targets: match self.stream_targets {
                Some(m) => Some(m.targets@),
                None => None,
            },
            target_states: self.stream_target_states@,
            supervisor: match self.reconnect_supervisor {
                Some(s) => Some((s.spec_policy(), s.spec_targets())),
                None => None,
            },
            delays: self.delay_supervisors@.map_values(|d: DelaySupervisor| d@),
            bitrate_controller: self.bitrate_controller@,
            preset: self.preset,
            bitrate_kbps: self.encoder_bitrate_kbps,
            last_error: opt_str(self.last_error),
            overlay: self.show_overlay,
            ndi_output: self.ndi_output,
            replay: match self.replay {
                Some(b) => Some(b@),
                None => None,
            },
        }
    }
}

/// Whether `e` is a freshly constructed engine.
pub open spec fn is_initial(e: EngineView) -> bool {
    &&& !e.audio_enabled
    &&& !e.separate_audio_tracks
    &&& e.system_track_enabled
    &&& e.microphone_track_enabled
    &&& !e.is_recording
    &&& e.output_path.is_none()
    &&& e.stream_settings.is_none()
    &&& e.stream_targets.is_none()
    &&& e.target_states.len() == 0
    &&& e.supervisor.is_none()
    &&& e.delays.len() == 0
    &&& e.bitrate_controller.cooldown == 5_000_000_000
    &&& e.bitrate_controller.required_samples == 2
    &&& e.bitrate_controller.pending.is_none()
    &&& e.bitrate_controller.last_change.is_none()
    &&& e.bitrate_controller.last_change_info.is_none()
    &&& e.preset == spec_original()
    &&& e.bitrate_kbps == 5000
    &&& e.last_error.is_none()
    &&& !e.overlay
    &&& e.ndi_output.is_none()
    &&& e.replay.is_none()
}

impl Default for RivuletEngine {
    fn default() -> (r: Self)
        ensures
            is_initial(r@),
    {
        RivuletEngine {
            audio_enabled: false,
            separate_audio_tracks: false,
            audio_sys_enabled: true,
            audio_mic_enabled: true,
            is_recording: false,
            output_path: None,
            stream_settings: None,
            stream_targets: None,
            stream_target_states: Vec::new(),
            reconnect_supervisor: None,
            delay_supervisors: Vec::new(),
            bitrate_controller: AdaptiveBitrateController::default(),
            preset: RecordingPreset::original(),
            encoder_bitrate_kbps: 5_000,
            last_error: None,
            show_overlay: false,
            ndi_output: None,
            replay: None,
        }
    }
}

impl RivuletEngine {
    /// A new engine: audio off (both tracks enabled for when it is on),
    /// nothing to stream, no session, the original preset at 5000 kbit/s.
    pub fn new() -> (r: Self)
        ensures
            is_initial(r@),
    {
        Self::default()
    }

    /// Record an engine error; the most recent one is kept until taken.
    fn set_error(&mut self, message: String)
        ensures
            final(self)@ == (EngineView { last_error: Some(message@), ..old(self)@ }),
    {
        self.last_error = Some(message);
    }

    /// Take (and clear) the most recent engine error, if any.
    pub fn take_error(&mut self) -> (r: Option<String>)
        ensures
            opt_str(r) == old(self)@.last_error,
            final(self)@ == (EngineView { last_error: None, ..old(self)@ }),
    {
        self.last_error.take()
    }

    /// Configure the single stream output (`None`: do not stream). Clears
    /// any multistream target list and the targets' states.
    pub fn set_stream_settings(&mut self, settings: Option<StreamSettings>)
        ensures
            final(self)@ == (EngineView {
                stream_settings: settings,
                stream_targets: None,
                target_states: Seq::empty(),
                ..old(self)@
            }),
    {
        self.stream_settings = settings;
        self.stream_targets = None;
        self.stream_target_states = Vec::new();
        proof {
            assert(self@.target_states =~= Seq::<StreamTargetState>::empty());
        }
    }

    /// Configure the NDI monitor feed. An invalid configuration is rejected
    /// with its validation message and nothing changes.
    pub fn set_ndi_output(&mut self, output: Option<NdiOutput>) -> (r: Result<(), &'static str>)
        ensures
            match output {
                Some(o) => match o.spec_error() {
                    Some(m) => r matches Err(e) && e@ == m && final(self)@ == old(self)@,
                    None => r is Ok && final(self)@ == (EngineView { ndi_output: output, ..old(self)@ }),
                },
                None => r is Ok && final(self)@ == (EngineView { ndi_output: None, ..old(self)@ }),
            },
    {
        match &output {
            Some(o) => {
                match o.validate() {
                    Err(e) => return Err(e),
                    Ok(()) => {},
                }
            },
            None => {},
        }
        self.ndi_output = output;
        Ok(())
    }

    /// The configured NDI monitor feed, if any.
    pub fn ndi_output(&self) -> (r: Option<&NdiOutput>)
        ensures
            match r {
                Some(o) => self@.ndi_output == Some(*o),
                None => self@.ndi_output.is_none(),
            },
    {
        match &self.ndi_output {
            Some(o) => Some(o),
            None => None,
        }
    }

    /// Whether stream settings are configured.
    pub fn is_streaming(&self) -> (r: bool)
        ensures
            r == self@.stream_settings.is_some(),
    {
        self.stream_settings.is_some()
    }

    /// Whether a session (recording, streaming or both) is active.
    pub fn is_recording(&self) -> (r: bool)
        ensures
            r == self@.is_recording,
    {
        self.is_recording
    }

    /// Whether the engine records and streams at the same time: stream
    /// settings and a local output path are both configured.
    pub fn is_dual_output(&self) -> (r: bool)
        ensures
            r == (self@.stream_settings.is_some() && self@.output_path.is_some()),
    {
        self.is_streaming() && self.output_path.is_some()
    }

    /// Select a recording preset; a preset with a bitrate also sets the
    /// encoder bitrate.
    pub fn set_preset(&mut self, preset: RecordingPreset)
        ensures
            final(self)@ == (EngineView {
                preset: preset,
                bitrate_kbps: match preset.bitrate_kbps {
                    Some(b) => b,
                    None => old(self)@.bitrate_kbps,
                },
                ..old(self)@
            }),
    {
        match preset.bitrate_kbps {
            Some(bitrate) => self.encoder_bitrate_kbps = bitrate,
            None => {},
        }
        self.preset = preset;
    }

    /// The selected recording preset.
    pub fn preset(&self) -> (r: RecordingPreset)
        ensures
            r == self@.preset,
    {
        self.preset
    }

    /// Set the target video bitrate in kbit/s.
    pub fn set_video_bitrate(&mut self, kbps: u32)
        ensures
            final(self)@ == (EngineView { bitrate_kbps: kbps, ..old(self)@ }),
    {
        self.encoder_bitrate_kbps = kbps;
    }

    /// The target video bitrate in kbit/s.
    pub fn video_bitrate(&self) -> (r: u32)
        ensures
            r == self@.bitrate_kbps,
    {
        self.encoder_bitrate_kbps
    }

    /// The most recent live bitrate change made by the adaptive controller.
    pub fn last_bitrate_change(&self) -> (r: Option<BitrateChange>)
        ensures
            r == self@.bitrate_controller.last_change_info,
    {
        self.bitrate_controller.last_change()
    }

    /// Feed one health sample taken `elapsed` after the stream started to
    /// the adaptive bitrate controller under the stream's policy; `true`
    /// when the encoder bitrate changed. Without stream settings nothing
    /// happens.
    pub fn update_stream_bitrate_from_health(&mut self, status: StreamHealthStatus, elapsed: crate::time::Duration) -> (r: bool)
        ensures
            match old(self)@.stream_settings {
                None => !r && final(self)@ == old(self)@,
                Some(s) => {
                    let u = update_spec(
                        old(self)@.bitrate_controller,
                        s.adaptive_bitrate,
                        old(self)@.bitrate_kbps,
                        status,
                        elapsed.spec_nanos(),
                    );
                    &&& final(self)@ == (EngineView {
                        bitrate_controller: u.0,
                        bitrate_kbps: u.1,
                        ..old(self)@
                    })
                    &&& r == u.2
                },
            },
    {
        let policy = match &self.stream_settings {
            Some(s) => s.adaptive_bitrate,
            None => return false,
        };
        let mut kbps = self.encoder_bitrate_kbps;
        let changed = self.bitrate_controller.update(policy, &mut kbps, status, elapsed);
        self.encoder_bitrate_kbps = kbps;
        changed
    }

    /// Move the encoder bitrate one step of the stream's policy for
    /// `status`, without the controller's debouncing; `true` when it
    /// changed. Without stream settings nothing happens.
    pub fn reconfigure_stream_bitrate(&mut self, status: StreamHealthStatus) -> (r: bool)
        requires
            old(self)@.stream_settings matches Some(s) ==> clampable(s.adaptive_bitrate, status),
        ensures
            match old(self)@.stream_settings {
                None => !r && final(self)@ == old(self)@,
                Some(s) => {
                    let next = next_bitrate_spec(s.adaptive_bitrate, old(self)@.bitrate_kbps, status);
                    &&& final(self)@ == (EngineView { bitrate_kbps: next, ..old(self)@ })
                    &&& r == (next != old(self)@.bitrate_kbps)
                },
            },
    {
        let policy = match &self.stream_settings {
            Some(s) => s.adaptive_bitrate,
            None => return false,
        };
        let mut kbps = self.encoder_bitrate_kbps;
        let changed = policy.reconfigure_live_encoder(&mut kbps, status);
        self.encoder_bitrate_kbps = kbps;
        changed
    }

    /// Enable or disable the recording overlay (timer and FPS counter).
    pub fn set_overlay_enabled(&mut self, enabled: bool)
        ensures
            final(self)@ == (EngineView { overlay: enabled, ..old(self)@ }),
    {
        self.show_overlay = enabled;
    }

    /// Whether the recording overlay is enabled.
    pub fn overlay_enabled(&self) -> (r: bool)
        ensures
            r == self@.overlay,
    {
        self.show_overlay
    }

    /// Enable or disable the audio input.
    pub fn set_audio_enabled(&mut self, enabled: bool)
        ensures
            final(self)@ == (EngineView { audio_enabled: enabled, ..old(self)@ }),
    {
        self.audio_enabled = enabled;
    }

    /// Whether the audio input is enabled.
    pub fn audio_enabled(&self) -> (r: bool)
        ensures
            r == self@.audio_enabled,
    {
        self.audio_enabled
    }

    /// Record system audio and microphone as separate tracks (`true`) or
    /// mixed into one (`false`).
    pub fn set_separate_audio_tracks(&mut self, enabled: bool)
        ensures
            final(self)@ == (EngineView { separate_audio_tracks: enabled, ..old(self)@ }),
    {
        self.separate_audio_tracks = enabled;
    }

    /// Whether separate audio tracks are recorded.
    pub fn separate_audio_tracks(&self) -> (r: bool)
        ensures
            r == self@.separate_audio_tracks,
    {
        self.separate_audio_tracks
    }

    /// Enable or disable one track of a separate-track recording.
    pub fn set_audio_track_enabled(&mut self, track: AudioTrack, enabled: bool)
        ensures
            final(self)@ == match track {
                AudioTrack::System => EngineView { system_track_enabled: enabled, ..old(self)@ },
                AudioTrack::Microphone => EngineView { microphone_track_enabled: enabled, ..old(self)@ },
            },
    {
        match track {
            AudioTrack::System => self.audio_sys_enabled = enabled,
            AudioTrack::Microphone => self.audio_mic_enabled = enabled,
        }
    }

    /// Whether `track` is enabled.
    pub fn audio_track_enabled(&self, track: AudioTrack) -> (r: bool)
        ensures
            r == match track {
                AudioTrack::System => self@.system_track_enabled,
                AudioTrack::Microphone => self@.microphone_track_enabled,
            },
    {
        match track {
            AudioTrack::System => self.audio_sys_enabled,
            AudioTrack::Microphone => self.audio_mic_enabled,
        }
    }

    /// Whether a mixed audio frame reaches the pipeline: audio is on and
    /// either tracks are mixed or the session streams (streams always
    /// carry one mixed track).
    pub fn accepts_mixed_audio(&self) -> (r: bool)
        ensures
            r == (self@.audio_enabled && !(self@.separate_audio_tracks && self@.stream_settings.is_none())),
    {
        self.audio_enabled && !(self.separate_audio_tracks && !self.is_streaming())
    }

    /// Whether a per-track audio frame reaches the pipeline: audio is on,
    /// tracks are separate, and the session does not stream.
    pub fn accepts_track_audio(&self) -> (r: bool)
        ensures
            r == (self@.audio_enabled && self@.separate_audio_tracks && self@.stream_settings.is_none()),
    {
        self.audio_enabled && self.separate_audio_tracks && !self.is_streaming()
    }

    /// Arm the engine for streaming without a local recording. Does nothing
    /// while a session is active; records an error when no stream is
    /// configured.
    pub fn start_streaming(&mut self)
        ensures
            if old(self)@.is_recording {
                final(self)@ == old(self)@
            } else if old(self)@.stream_settings.is_none() {
                final(self)@ == (EngineView {
                    last_error: Some("No stream targets configured for streaming."@),
                    ..old(self)@
                })
            } else {
                final(self)@ == (EngineView { is_recording: true, ..old(self)@ })
            },
    {
        if self.is_recording {
            return;
        }
        if self.stream_settings.is_none() {
            self.set_error(owned("No stream targets configured for streaming."));
            return;
        }
        self.is_recording = true;
    }

    /// Start a session that records to `path` (and streams too when stream
    /// settings are configured). Does nothing while a session is active.
    pub fn start_local_recording(&mut self, path: String)
        ensures
            if old(self)@.is_recording {
                final(self)@ == old(self)@
            } else {
                final(self)@ == (EngineView { output_path: Some(path@), is_recording: true, ..old(self)@ })
            },
    {
        if self.is_recording {
            return;
        }
        self.output_path = Some(path);
        self.is_recording = true;
    }
}


// ── multistream targets ─────────────────────────────────────────────────────

/// Position of the first target named `name` at or after `i` (the length
/// when there is none).
pub open spec fn name_position(ts: Seq<StreamTarget>, name: Seq<char>, i: int) -> int
    decreases ts.len() - i,
{
    if i >= ts.len() {
        ts.len() as int
    } else if ts[i].name@ == name {
        i
    } else {
        name_position(ts, name, i + 1)
    }
}

/// Position of the first target named `name` (the length when there is
/// none).
pub open spec fn target_position(ts: Seq<StreamTarget>, name: Seq<char>) -> int {
    name_position(ts, name, 0)
}

proof fn lemma_name_position(ts: Seq<StreamTarget>, name: Seq<char>, i: int)
    requires
        0 <= i <= ts.len(),
    ensures
        i <= name_position(ts, name, i) <= ts.len(),
        name_position(ts, name, i) < ts.len() ==> ts[name_position(ts, name, i)].name@ == name,
        forall|k: int| i <= k < name_position(ts, name, i) ==> ts[k].name@ != name,
    decreases ts.len() - i,
{
    if i < ts.len() && ts[i].name@ != name {
        lemma_name_position(ts, name, i + 1);
    }
}

/// `states` with the state of the target named `name` set to `s`; unchanged
/// when no target has that name.
pub open spec fn set_state_of(
    states: Seq<StreamTargetState>,
    targets: Option<Seq<StreamTarget>>,
    name: Seq<char>,
    s: StreamTargetState,
) -> Seq<StreamTargetState> {
    match targets {
        Some(ts) => {
            let i = target_position(ts, name);
            if i < ts.len() && i < states.len() {
                states.update(i, s)
            } else {
                states
            }
        },
        None => states,
    }
}

/// The state reported for the target at `i`: its recorded state, offline
/// when none is recorded.
pub open spec fn state_at(states: Seq<StreamTargetState>, i: int) -> StreamTargetState {
    if 0 <= i < states.len() {
        states[i]
    } else {
        StreamTargetState::Offline
    }
}

/// The retry policy every target is supervised with.
pub open spec fn is_default_policy(p: RetryPolicy) -> bool {
    &&& p.max_attempts == 5
    &&& p.initial_backoff.spec_nanos() == NANOS_PER_SEC
    &&& p.max_backoff.spec_nanos() == 30 * NANOS_PER_SEC
}

/// One offline reconnect record per target, in order.
pub open spec fn fresh_targets(ts: Seq<StreamTarget>) -> Seq<TargetView> {
    Seq::new(
        ts.len(),
        |i: int|
            TargetView {
                name: ts[i].name@,
                state: StreamTargetState::Offline,
                attempts: 0,
                next_backoff: 0,
                retry_at: None,
            },
    )
}

/// Longest delay buffer a target gets, in nanoseconds (five minutes).
pub open spec fn max_delay_buffer() -> nat {
    (300 * NANOS_PER_SEC) as nat
}

/// One empty delay buffer per target, holding the target's configured
/// delay in a buffer of at least five minutes.
pub open spec fn fresh_delays(ts: Seq<StreamTarget>) -> Seq<DelayState> {
    Seq::new(
        ts.len(),
        |i: int|
            DelayState {
                configured: ts[i].settings.delay.duration.spec_nanos(),
                buffered: 0,
                max_buffer: if max_delay_buffer() >= ts[i].settings.delay.duration.spec_nanos() {
                    max_delay_buffer()
                } else {
                    ts[i].settings.delay.duration.spec_nanos()
                },
                dropped: 0,
                underflows: 0,
            },
    )
}

/// The engine after `settings` became its multistream configuration: every
/// target connecting, freshly supervised and with an empty delay buffer.
pub open spec fn with_multistream(e: EngineView, settings: Option<MultistreamSettings>, policy: RetryPolicy) -> EngineView {
    match settings {
        Some(m) => EngineView {
            stream_targets: Some(m.targets@),
            target_states: Seq::new(m.targets@.len(), |i: int| StreamTargetState::Connecting),
            supervisor: Some((policy, fresh_targets(m.targets@))),
            delays: fresh_delays(m.targets@),
            ..e
        },
        None => EngineView {
            stream_targets: None,
            target_states: Seq::empty(),
            supervisor: None,
            delays: Seq::empty(),
            ..e
        },
    }
}

/// The supervisor's records after a failure of `name` is reported once, and
/// its answer: `None` for an unknown name, `Some(false)` when a retry is
/// already pending or running, otherwise whether another retry is allowed.
pub open spec fn fail_once(ts: Seq<TargetView>, p: RetryPolicy, name: Seq<char>) -> (Seq<TargetView>, Option<bool>) {
    let i = index_of(ts, name);
    if i >= ts.len() {
        (ts, None)
    } else if ts[i].retry_at.is_some() || ts[i].state == StreamTargetState::Connecting {
        (ts, Some(false))
    } else {
        (ts.update(i, ts[i].failed(p)), Some(!ts[i].failed(p).exhausted(p)))
    }
}

/// The supervisor's records after `name` went live, and whether it knew the
/// name.
pub open spec fn go_live(ts: Seq<TargetView>, name: Seq<char>) -> (Seq<TargetView>, bool) {
    let i = index_of(ts, name);
    if i < ts.len() {
        (ts.update(i, ts[i].live()), true)
    } else {
        (ts, false)
    }
}

/// The engine after the sink of `name` failed, and whether the target is to
/// be retried.
pub open spec fn after_failure(e: EngineView, name: Seq<char>) -> (EngineView, bool) {
    let states = set_state_of(e.target_states, e.stream_targets, name, StreamTargetState::Failed);
    match e.supervisor {
        Some((p, ts)) => {
            let f = fail_once(ts, p, name);
            (EngineView { supervisor: Some((p, f.0)), target_states: states, ..e }, f.1 == Some(true))
        },
        None => (EngineView { target_states: states, ..e }, false),
    }
}

/// The engine after the sink of `name` (re)connected, and whether the
/// supervisor knew the name.
pub open spec fn after_live(e: EngineView, name: Seq<char>) -> (EngineView, bool) {
    let states = set_state_of(e.target_states, e.stream_targets, name, StreamTargetState::Live);
    match e.supervisor {
        Some((p, ts)) => {
            let g = go_live(ts, name);
            (EngineView { supervisor: Some((p, g.0)), target_states: states, ..e }, g.1)
        },
        None => (EngineView { target_states: states, ..e }, false),
    }
}

/// Position of the first target named `name`, by an exec scan.
fn find_target(ts: &Vec<StreamTarget>, name: &str) -> (r: usize)
    ensures
        r == target_position(ts@, name@),
        r <= ts@.len(),
{
    proof {
        lemma_name_position(ts@, name@, 0);
    }
    let n = ts.len();
    let mut i: usize = 0;
    while i < n
        invariant
            n == ts@.len(),
            i <= n,
            name_position(ts@, name@, i as int) == target_position(ts@, name@),
        decreases n - i,
    {
        if str_eq(ts[i].name.as_str(), name) {
            return i;
        }
        i = i + 1;
    }
    i
}

impl RivuletEngine {
    /// Configure independent streaming targets (`None`: none). Every target
    /// starts connecting, gets a fresh reconnect record under the default
    /// retry policy, and an empty delay buffer for its configured delay.
    pub fn set_multistream_settings(&mut self, settings: Option<MultistreamSettings>)
        ensures
            exists|p: RetryPolicy| #![auto] is_default_policy(p) && final(self)@ == with_multistream(old(self)@, settings, p),
    {
        let policy = RetryPolicy::default();
        let mut states: Vec<StreamTargetState> = Vec::new();
        let mut names: Vec<String> = Vec::new();
        let mut delays: Vec<DelaySupervisor> = Vec::new();
        match &settings {
            Some(m) => {
                let n = m.targets.len();
                let mut i: usize = 0;
                while i < n
                    invariant
                        n == m.targets@.len(),
                        i <= n,
                        states@.len() == i,
                        names@.len() == i,
                        delays@.len() == i,
                        forall|k: int| 0 <= k < i ==> states@[k] == StreamTargetState::Connecting,
                        forall|k: int| 0 <= k < i ==> (#[trigger] names@[k])@ == m.targets@[k].name@,
                        forall|k: int| 0 <= k < i ==> (#[trigger] delays@[k])@ == fresh_delays(m.targets@)[k],
                    decreases n - i,
                {
                    states.push(StreamTargetState::Connecting);
                    names.push(m.targets[i].name.clone());
                    let d = DelaySupervisor::new(m.targets[i].settings.delay.duration, Duration::from_secs(300));
                    delays.push(d);
                    i = i + 1;
                }
            },
            None => {},
        }
        let supervisor = match &settings {
            Some(_) => Some(StreamingReconnectSupervisor::new(names, policy)),
            None => None,
        };
        let ghost given = settings;
        self.stream_targets = settings;
        self.stream_target_states = states;
        self.reconnect_supervisor = supervisor;
        self.delay_supervisors = delays;
        proof {
            match given {
                Some(m) => {
                    assert(self@.target_states =~= Seq::new(m.targets@.len(), |i: int| StreamTargetState::Connecting));
                    assert(self@.delays =~= fresh_delays(m.targets@));
                    assert(self@.supervisor.unwrap().1 =~= fresh_targets(m.targets@));
                },
                None => {
                    assert(self@.target_states =~= Seq::<StreamTargetState>::empty());
                    assert(self@.delays =~= Seq::<DelayState>::empty());
                },
            }
            assert(is_default_policy(policy));
            assert(self@ == with_multistream(old(self)@, given, policy));
        }
    }

    /// The targets' states, in configuration order.
    pub fn stream_target_states(&self) -> (r: &[StreamTargetState])
        ensures
            r@ == self@.target_states,
    {
        self.stream_target_states.as_slice()
    }

    /// The targets' delay buffers, in configuration order.
    pub fn delay_supervisors(&self) -> (r: &[DelaySupervisor])
        ensures
            r@.map_values(|d: DelaySupervisor| d@) == self@.delays,
    {
        self.delay_supervisors.as_slice()
    }

    /// Each configured target's name with its state, in configuration
    /// order (empty without a target list).
    pub fn stream_targets_with_states(&self) -> (r: Vec<(String, StreamTargetState)>)
        ensures
            match self@.stream_targets {
                Some(ts) => {
                    &&& r@.len() == ts.len()
                    &&& forall|i: int| 0 <= i < ts.len() ==> (#[trigger] r@[i]).0@ == ts[i].name@ && r@[i].1 == state_at(self@.target_states, i)
                },
                None => r@.len() == 0,
            },
    {
        let mut out: Vec<(String, StreamTargetState)> = Vec::new();
        match &self.stream_targets {
            Some(m) => {
                let n = m.targets.len();
                let mut i: usize = 0;
                while i < n
                    invariant
                        n == m.targets@.len(),
                        self@.stream_targets == Some(m.targets@),
                        i <= n,
                        out@.len() == i,
                        forall|k: int| 0 <= k < i ==> (#[trigger] out@[k]).0@ == m.targets@[k].name@ && out@[k].1 == state_at(self@.target_states, k),
                    decreases n - i,
                {
                    let state = if i < self.stream_target_states.len() {
                        self.stream_target_states[i]
                    } else {
                        StreamTargetState::Offline
                    };
                    out.push((m.targets[i].name.clone(), state));
                    i = i + 1;
                }
            },
            None => {},
        }
        out
    }

    /// Record that the sink of `target` failed: its state becomes failed and
    /// its supervisor record counts the failure once. `true` when the target
    /// is to be retried (then [`Self::retry_backoff`] says after how long).
    /// Other targets are unchanged.
    pub fn handle_stream_target_failure(&mut self, target: &str) -> (r: bool)
        ensures
            final(self)@ == after_failure(old(self)@, target@).0,
            r == after_failure(old(self)@, target@).1,
    {
        let retry = match self.reconnect_supervisor.take() {
            Some(mut s) => {
                let answer = s.mark_failed_once(target);
                self.reconnect_supervisor = Some(s);
                match answer {
                    Some(b) => b,
                    None => false,
                }
            },
            None => false,
        };
        self.set_target_state(target, StreamTargetState::Failed);
        retry
    }

    /// Record that the sink of `target` connected: its state becomes live and
    /// its supervisor record starts over. `true` when the supervisor knows
    /// the target. Other targets are unchanged.
    pub fn handle_stream_target_live(&mut self, target: &str) -> (r: bool)
        ensures
            final(self)@ == after_live(old(self)@, target@).0,
            r == after_live(old(self)@, target@).1,
    {
        let found = match self.reconnect_supervisor.take() {
            Some(mut s) => {
                let answer = s.mark_live(target);
                self.reconnect_supervisor = Some(s);
                answer
            },
            None => false,
        };
        self.set_target_state(target, StreamTargetState::Live);
        found
    }

    fn set_target_state(&mut self, target: &str, state: StreamTargetState)
        ensures
            final(self)@ == (EngineView {
                target_states: set_state_of(old(self)@.target_states, old(self)@.stream_targets, target@, state),
                ..old(self)@
            }),
    {
        let index = match &self.stream_targets {
            Some(m) => {
                let i = find_target(&m.targets, target);
                if i < m.targets.len() {
                    Some(i)
                } else {
                    None
                }
            },
            None => None,
        };
        match index {
            Some(i) => {
                if i < self.stream_target_states.len() {
                    self.stream_target_states.set(i, state);
                }
            },
            None => {},
        }
    }

    /// How long the supervisor waits before retrying `target`: its record's
    /// next backoff (`None` without supervision or for an unknown name).
    pub fn retry_backoff(&self, target: &str) -> (r: Option<Duration>)
        ensures
            match self@.supervisor {
                Some((p, ts)) => {
                    let i = index_of(ts, target@);
                    if i < ts.len() {
                        r matches Some(d) && d.spec_nanos() == ts[i].next_backoff
                    } else {
                        r is None
                    }
                },
                None => r is None,
            },
    {
        match &self.reconnect_supervisor {
            Some(s) => {
                let records = s.targets();
                let ghost ts = s.spec_targets();
                proof {
                    lemma_index_from(ts, target@, 0);
                    assert(records@.len() == ts.len());
                    assert(self@.supervisor == Some((s.spec_policy(), ts)));
                }
                let n = records.len();
                let mut i: usize = 0;
                while i < n
                    invariant
                        n == records@.len(),
                        records@.map_values(|t: TargetReconnectState| t@) == ts,
                        self@.supervisor == Some((s.spec_policy(), ts)),
                        i <= n,
                        index_from(ts, target@, i as int) == index_of(ts, target@),
                    decreases n - i,
                {
                    assert(ts[i as int] == records@[i as int]@);
                    if str_eq(records[i].name.as_str(), target) {
                        proof {
                            assert(ts[i as int].name == target@);
                            assert(index_from(ts, target@, i as int) == i as int);
                            assert(ts[i as int].next_backoff == records@[i as int].next_backoff.spec_nanos());
                        }
                        return Some(records[i].next_backoff);
                    }
                    i = i + 1;
                }
                None
            },
            None => None,
        }
    }

    /// Claim the retries that are due `elapsed` after the targets were
    /// configured: those targets start reconnecting and their names are
    /// returned in configuration order.
    pub fn poll_stream_reconnects(&mut self, elapsed: Duration) -> (r: Vec<String>)
        ensures
            match old(self)@.supervisor {
                Some((p, ts)) => {
                    &&& final(self)@ == (EngineView { supervisor: Some((p, claim_due(ts, elapsed.spec_nanos()))), ..old(self)@ })
                    &&& r@.map_values(|s: String| s@) == due_names(ts, elapsed.spec_nanos())
                },
                None => final(self)@ == old(self)@ && r@.len() == 0,
            },
    {
        match self.reconnect_supervisor.take() {
            Some(mut s) => {
                let due = s.due_retries(elapsed);
                self.reconnect_supervisor = Some(s);
                due
            },
            None => Vec::new(),
        }
    }

    /// The position of the target a rebuild command names (`None` for a
    /// shutdown, an unknown name, or without a target list).
    pub fn resolve_reconnect_command(&self, command: &ReconnectCommand) -> (r: Option<usize>)
        ensures
            match command {
                ReconnectCommand::RebuildBranch(name) => match self@.stream_targets {
                    Some(ts) => if target_position(ts, name@) < ts.len() {
                        r == Some(target_position(ts, name@) as usize)
                    } else {
                        r is None
                    },
                    None => r is None,
                },
                ReconnectCommand::Shutdown => r is None,
            },
    {
        match command {
            ReconnectCommand::RebuildBranch(name) => match &self.stream_targets {
                Some(m) => {
                    let i = find_target(&m.targets, name.as_str());
                    if i < m.targets.len() {
                        Some(i)
                    } else {
                        None
                    }
                },
                None => None,
            },
            ReconnectCommand::Shutdown => None,
        }
    }

    /// Names of the supervised targets that failed and may still be
    /// retried, in configuration order.
    pub fn retryable_stream_targets(&self) -> (r: Vec<&str>)
        ensures
            r@.map_values(|s: &str| s@) == match self@.supervisor {
                Some((p, ts)) => retryable_names(ts, p),
                None => Seq::empty(),
            },
    {
        match &self.reconnect_supervisor {
            Some(s) => s.retryable_targets(),
            None => {
                let out: Vec<&str> = Vec::new();
                proof {
                    assert(out@.map_values(|s: &str| s@) =~= Seq::<Seq<char>>::empty());
                }
                out
            },
        }
    }
}


// ── sink bus events ─────────────────────────────────────────────────────────

/// The engine after the pipeline element `sink_name` posted `event`, and the
/// answer: the sink `stream_sink_<i>` stands for the `i`-th configured
/// target; its errors and end-of-stream fail that target (answering whether
/// it is to be retried), its state changes mark it live (answering whether
/// the supervisor knows it), and its warnings change nothing. Other
/// elements, and sink numbers without a target, change nothing.
pub open spec fn after_sink_event(e: EngineView, sink_name: Seq<char>, event: SinkBusEvent) -> (EngineView, bool) {
    match sink_index_spec(sink_name) {
        Some(i) => match e.stream_targets {
            Some(ts) => if i < ts.len() {
                if event == SinkBusEvent::Error || event == SinkBusEvent::Eos {
                    after_failure(e, ts[i as int].name@)
                } else if event == SinkBusEvent::StateChanged {
                    after_live(e, ts[i as int].name@)
                } else {
                    (e, false)
                }
            } else {
                (e, false)
            },
            None => (e, false),
        },
        None => (e, false),
    }
}

impl RivuletEngine {
    /// Route a message that the pipeline element `sink_name` posted on the
    /// bus to the target whose sink it is (see [`after_sink_event`]).
    pub fn handle_sink_bus_event(&mut self, sink_name: &str, event: SinkBusEvent) -> (r: bool)
        ensures
            final(self)@ == after_sink_event(old(self)@, sink_name@, event).0,
            r == after_sink_event(old(self)@, sink_name@, event).1,
    {
        let index = match target_index_from_sink_name(sink_name) {
            Some(i) => i,
            None => return false,
        };
        let name = match &self.stream_targets {
            Some(m) => {
                if index < m.targets.len() {
                    m.targets[index].name.clone()
                } else {
                    return false;
                }
            },
            None => return false,
        };
        if event.requires_reconnect() {
            self.handle_stream_target_failure(name.as_str())
        } else if event == SinkBusEvent::StateChanged {
            self.handle_stream_target_live(name.as_str())
        } else {
            false
        }
    }
}

// ── replay buffer and session end ───────────────────────────────────────────

/// An empty replay buffer retaining `duration` nanoseconds.
pub open spec fn empty_replay(duration: nat) -> ReplayView {
    ReplayView { duration: duration, video: Seq::empty(), video_caps: None, newest_video_dts: None, tracks: Seq::empty() }
}

/// The span of video a replay buffer holds, in nanoseconds: from its oldest
/// segment's decoding time to the newest decoding time seen.
pub open spec fn retained_of(v: ReplayView) -> u64 {
    match v.newest_video_dts {
        Some(n) => if v.video.len() > 0 { sat_sub(n, v.video[0].dts_ns) } else { 0 },
        None => 0,
    }
}

/// Whether `s` is the normalized copy of the buffer `v` that a clip is saved
/// from: the video from its first keyframe and every stream rebased to time
/// zero, with the buffer's caps.
pub open spec fn is_snapshot_of(s: ReplaySnapshot, v: ReplayView) -> bool {
    &&& segs_view(s.video@) == normalized_video(v.video)
    &&& match s.video_caps {
        Some(c) => v.video_caps == Some(c@),
        None => v.video_caps.is_none(),
    }
    &&& s.audio_tracks@.len() == v.tracks.len()
    &&& s.audio_caps@.len() == v.tracks.len()
    &&& forall|i: int| 0 <= i < v.tracks.len() ==> segs_view((#[trigger] s.audio_tracks@[i])@) == rebase_spec(v.tracks[i].segments)
    &&& forall|i: int| 0 <= i < v.tracks.len() ==> match (#[trigger] s.audio_caps@[i]) {
        Some(c) => v.tracks[i].caps == Some(c@),
        None => v.tracks[i].caps.is_none(),
    }
}

/// The engine once its session ended: no output path, no reconnect
/// supervision or delay buffers, no session, and the replay buffer emptied
/// (its window kept).
pub open spec fn after_stop(e: EngineView) -> EngineView {
    EngineView {
        output_path: None,
        supervisor: None,
        delays: Seq::empty(),
        is_recording: false,
        replay: match e.replay {
            Some(v) => Some(empty_replay(v.duration)),
            None => None,
        },
        ..e
    }
}

impl RivuletEngine {
    /// Enable the replay buffer with a window of `duration`, or change the
    /// window of the enabled buffer (evicting what no longer fits).
    pub fn set_replay_duration(&mut self, duration: Duration)
        ensures
            final(self)@ == (EngineView {
                replay: Some(match old(self)@.replay {
                    Some(v) => evict_spec(ReplayView { duration: duration.spec_nanos(), ..v }),
                    None => empty_replay(duration.spec_nanos()),
                }),
                ..old(self)@
            }),
    {
        match self.replay.take() {
            Some(mut b) => {
                b.set_duration(duration);
                self.replay = Some(b);
            },
            None => {
                self.replay = Some(ReplayBuffer::new(duration));
            },
        }
    }

    /// Disable (and drop) the replay buffer.
    pub fn disable_replay(&mut self)
        ensures
            final(self)@ == (EngineView { replay: None, ..old(self)@ }),
    {
        self.replay = None;
    }

    /// Whether the replay buffer is enabled.
    pub fn replay_enabled(&self) -> (r: bool)
        ensures
            r == self@.replay.is_some(),
    {
        self.replay.is_some()
    }

    /// The replay window, when the buffer is enabled.
    pub fn replay_duration(&self) -> (r: Option<Duration>)
        ensures
            match self@.replay {
                Some(v) => r matches Some(d) && d.spec_nanos() == v.duration,
                None => r is None,
            },
    {
        match &self.replay {
            Some(b) => Some(b.duration()),
            None => None,
        }
    }

    /// Whole seconds of video the enabled replay buffer holds.
    pub fn replay_retained_secs(&self) -> (r: Option<u64>)
        ensures
            r == match self@.replay {
                Some(v) => Some((retained_of(v) / 1_000_000_000) as u64),
                None => None,
            },
    {
        match &self.replay {
            Some(b) => Some(b.retained_ns() / 1_000_000_000),
            None => None,
        }
    }

    /// The clip a replay save writes: the normalized copy of the buffer.
    /// Fails when the buffer is disabled.
    pub fn replay_snapshot(&self) -> (r: Result<ReplaySnapshot, &'static str>)
        ensures
            match self@.replay {
                Some(v) => r matches Ok(s) && is_snapshot_of(s, v),
                None => r matches Err(e) && e@ == "replay buffer is disabled"@,
            },
    {
        match &self.replay {
            Some(b) => Ok(b.snapshot()),
            None => {
                let e = "replay buffer is disabled";
                proof {
                    reveal_strlit("replay buffer is disabled");
                }
                Err(e)
            },
        }
    }

    /// End the session: clear its output path, reconnect supervision and
    /// delay buffers, and empty the replay buffer. Returns the finished
    /// recording's path; nothing happens (and `None` comes back) without an
    /// active session.
    pub fn stop_recording(&mut self) -> (r: Option<String>)
        ensures
            if old(self)@.is_recording {
                &&& final(self)@ == after_stop(old(self)@)
                &&& opt_str(r) == old(self)@.output_path
            } else {
                &&& final(self)@ == old(self)@
                &&& r is None
            },
    {
        if !self.is_recording {
            return None;
        }
        let finished = self.output_path.take();
        self.reconnect_supervisor = None;
        self.delay_supervisors = Vec::new();
        self.is_recording = false;
        match self.replay.take() {
            Some(mut b) => {
                b.clear();
                self.replay = Some(b);
            },
            None => {},
        }
        proof {
            assert(self@.delays =~= Seq::<DelayState>::empty());
        }
        finished
    }
}



// ── replay capture ──────────────────────────────────────────────────────────

/// The presentation and decoding time a captured packet is filed under: a
/// missing presentation time counts as zero, a missing decoding time as the
/// presentation time.
pub open spec fn sample_times(pts: Option<u64>, dts: Option<u64>) -> (u64, u64) {
    let p = match pts {
        Some(x) => x,
        None => 0,
    };
    let d = match dts {
        Some(x) => x,
        None => p,
    };
    (p, d)
}

/// The buffer once the video caps of a sample are known (the first caps
/// stay).
pub open spec fn with_video_caps(v: ReplayView, caps: Option<Seq<char>>) -> ReplayView {
    match caps {
        Some(c) => if v.video_caps.is_none() {
            ReplayView { video_caps: Some(c), ..v }
        } else {
            v
        },
        None => v,
    }
}

/// The buffer after one video packet was added and the window evicted.
pub open spec fn video_pushed(v: ReplayView, pts: u64, dts: u64, data: Seq<u8>, keyframe: bool) -> ReplayView {
    evict_spec(ReplayView {
        video: v.video.push(SegmentView { pts_ns: pts, dts_ns: dts, data: data, keyframe: keyframe }),
        newest_video_dts: newest(v.newest_video_dts, dts),
        ..v
    })
}

/// The buffer once the caps of audio track `track` are known (the track is
/// created when missing; the first caps stay).
pub open spec fn with_audio_caps(v: ReplayView, track: nat, caps: Option<Seq<char>>) -> ReplayView {
    match caps {
        Some(c) => {
            let t = with_track(v.tracks, track);
            ReplayView {
                tracks: t.update(track as int, (TrackView {
                    caps: if t[track as int].caps.is_none() { Some(c) } else { t[track as int].caps },
                    ..t[track as int]
                })),
                ..v
            }
        },
        None => v,
    }
}

/// The buffer after one packet of audio track `track` was added (the track
/// is created when missing) and the window evicted.
pub open spec fn audio_pushed(v: ReplayView, track: nat, pts: u64, dts: u64, data: Seq<u8>) -> ReplayView {
    let t = with_track(v.tracks, track);
    evict_spec(ReplayView {
        tracks: t.update(track as int, (TrackView {
            segments: t[track as int].segments.push(SegmentView { pts_ns: pts, dts_ns: dts, data: data, keyframe: false }),
            newest_pts: newest(t[track as int].newest_pts, pts),
            ..t[track as int]
        })),
        ..v
    })
}

fn sample_time_values(pts: Option<u64>, dts: Option<u64>) -> (r: (u64, u64))
    ensures
        r == sample_times(pts, dts),
{
    let p = match pts {
        Some(x) => x,
        None => 0,
    };
    let d = match dts {
        Some(x) => x,
        None => p,
    };
    (p, d)
}

impl RivuletEngine {
    /// File one encoded video packet taken from the pipeline into the
    /// enabled replay buffer: its times (see [`sample_times`]), keyframe
    /// unless it is a delta unit, and the sample's caps when none are known
    /// yet. `false` (and nothing changes) when the buffer is disabled.
    pub fn capture_replay_video(
        &mut self,
        pts: Option<u64>,
        dts: Option<u64>,
        delta_unit: bool,
        data: Vec<u8>,
        caps: Option<String>,
    ) -> (r: bool)
        ensures
            r == old(self)@.replay.is_some(),
            final(self)@ == (EngineView {
                replay: match old(self)@.replay {
                    Some(v) => Some(video_pushed(
                        with_video_caps(v, opt_str(caps)),
                        sample_times(pts, dts).0,
                        sample_times(pts, dts).1,
                        data@,
                        !delta_unit,
                    )),
                    None => None,
                },
                ..old(self)@
            }),
    {
        match self.replay.take() {
            Some(mut b) => {
                let (p, d) = sample_time_values(pts, dts);
                match caps {
                    Some(c) => b.set_video_caps(c),
                    None => {},
                }
                b.push_video(p, d, data, !delta_unit);
                self.replay = Some(b);
                true
            },
            None => false,
        }
    }

    /// File one encoded audio packet of track `track` into the enabled
    /// replay buffer, with the sample's caps when the track has none yet.
    /// `false` (and nothing changes) when the buffer is disabled.
    pub fn capture_replay_audio(
        &mut self,
        track: usize,
        pts: Option<u64>,
        dts: Option<u64>,
        data: Vec<u8>,
        caps: Option<String>,
    ) -> (r: bool)
        requires
            track < usize::MAX,
        ensures
            r == old(self)@.replay.is_some(),
            final(self)@ == (EngineView {
                replay: match old(self)@.replay {
                    Some(v) => Some(audio_pushed(
                        with_audio_caps(v, track as nat, opt_str(caps)),
                        track as nat,
                        sample_times(pts, dts).0,
                        sample_times(pts, dts).1,
                        data@,
                    )),
                    None => None,
                },
                ..old(self)@
            }),
    {
        match self.replay.take() {
            Some(mut b) => {
                let (p, d) = sample_time_values(pts, dts);
                match caps {
                    Some(c) => b.set_audio_caps(track, c),
                    None => {},
                }
                b.push_audio(track, p, d, data);
                self.replay = Some(b);
                true
            },
            None => false,
        }
    }
}

// ── pushing frames ──────────────────────────────────────────────────────────

/// How many times a failed frame push is retried before the session is
/// given up.
pub const FRAME_PUSH_RETRIES: u32 = 3;

/// Whether a frame push that failed after `retries_done` retries is tried
/// again: while retries are left and the session still runs.
pub fn retry_frame_push(retries_done: u32, session_running: bool) -> (r: bool)
    ensures
        r == (retries_done < FRAME_PUSH_RETRIES && session_running),
{
    retries_done < FRAME_PUSH_RETRIES && session_running
}

/// The error recorded when a frame could not be pushed, with the pipeline's
/// own description of the failure.
pub open spec fn push_error_text(detail: Seq<char>) -> Seq<char> {
    "Could not push a frame into the recording pipeline: "@ + detail
}

impl RivuletEngine {
    /// A frame could not be pushed even after retries: record the error
    /// (with the pipeline's `detail`) and end the session. Returns the
    /// finished recording's path, as [`Self::stop_recording`] does.
    pub fn frame_push_failed(&mut self, detail: &str) -> (r: Option<String>)
        ensures
            ({
                let errored = EngineView { last_error: Some(push_error_text(detail@)), ..old(self)@ };
                if old(self)@.is_recording {
                    &&& final(self)@ == after_stop(errored)
                    &&& opt_str(r) == old(self)@.output_path
                } else {
                    &&& final(self)@ == errored
                    &&& r is None
                }
            }),
    {
        let mut message = owned("Could not push a frame into the recording pipeline: ");
        message.append(detail);
        self.set_error(message);
        self.stop_recording()
    }
}

// ── laws ────────────────────────────────────────────────────────────────────

/// Whether there is exactly one recorded state per configured target (and
/// none without a target list).
pub open spec fn consistent(e: EngineView) -> bool {
    e.target_states.len() == match e.stream_targets {
        Some(ts) => ts.len(),
        None => 0,
    }
}

/// A fresh engine, any multistream configuration and any cleared one have
/// one state per target, and sink events and the end of a session keep it
/// so: a target's state is always there to be updated.
pub proof fn lemma_states_follow_targets(e: EngineView, settings: Option<MultistreamSettings>, p: RetryPolicy, name: Seq<char>)
    ensures
        is_initial(e) ==> consistent(e),
        consistent(with_multistream(e, settings, p)),
        consistent(EngineView { stream_targets: None, target_states: Seq::empty(), ..e }),
        consistent(e) ==> consistent(after_failure(e, name).0),
        consistent(e) ==> consistent(after_live(e, name).0),
        consistent(e) ==> consistent(after_stop(e)),
{
    lemma_set_state(e.target_states, e.stream_targets, name, StreamTargetState::Failed);
    lemma_set_state(e.target_states, e.stream_targets, name, StreamTargetState::Live);
    assert(after_failure(e, name).0.target_states == set_state_of(e.target_states, e.stream_targets, name, StreamTargetState::Failed));
    assert(after_live(e, name).0.target_states == set_state_of(e.target_states, e.stream_targets, name, StreamTargetState::Live));
    assert(after_failure(e, name).0.stream_targets == e.stream_targets);
    assert(after_live(e, name).0.stream_targets == e.stream_targets);
}

/// Setting one target's state keeps the length and every other state.
proof fn lemma_set_state(states: Seq<StreamTargetState>, targets: Option<Seq<StreamTarget>>, name: Seq<char>, s: StreamTargetState)
    ensures
        set_state_of(states, targets, name, s).len() == states.len(),
        forall|j: int|
            0 <= j < states.len() && (targets matches Some(ts) ==> j != target_position(ts, name)) ==> #[trigger] set_state_of(states, targets, name, s)[j] == states[j],
{
    match targets {
        Some(ts) => lemma_name_position(ts, name, 0),
        None => {},
    }
}

/// A sink event of one target changes no other target: neither the state
/// recorded for it nor its reconnect record.
pub proof fn lemma_target_events_are_local(e: EngineView, name: Seq<char>, j: int)
    requires
        0 <= j < e.target_states.len(),
        e.stream_targets matches Some(ts) ==> j != target_position(ts, name),
    ensures
        after_failure(e, name).0.target_states[j] == e.target_states[j],
        after_live(e, name).0.target_states[j] == e.target_states[j],
        after_failure(e, name).0.target_states.len() == e.target_states.len(),
        after_live(e, name).0.target_states.len() == e.target_states.len(),
        e.supervisor matches Some((p, ts)) ==> (0 <= j < ts.len() && j != index_of(ts, name) ==> {
            &&& after_failure(e, name).0.supervisor == Some((p, fail_once(ts, p, name).0))
            &&& fail_once(ts, p, name).0[j] == ts[j]
            &&& after_live(e, name).0.supervisor == Some((p, go_live(ts, name).0))
            &&& go_live(ts, name).0[j] == ts[j]
        }),
{
    lemma_set_state(e.target_states, e.stream_targets, name, StreamTargetState::Failed);
    lemma_set_state(e.target_states, e.stream_targets, name, StreamTargetState::Live);
    assert(after_failure(e, name).0.target_states == set_state_of(e.target_states, e.stream_targets, name, StreamTargetState::Failed));
    assert(after_live(e, name).0.target_states == set_state_of(e.target_states, e.stream_targets, name, StreamTargetState::Live));
    assert(set_state_of(e.target_states, e.stream_targets, name, StreamTargetState::Failed)[j] == e.target_states[j]);
    assert(set_state_of(e.target_states, e.stream_targets, name, StreamTargetState::Live)[j] == e.target_states[j]);
    match e.supervisor {
        Some((p, ts)) => {
            lemma_index_from(ts, name, 0);
        },
        None => {},
    }
}

/// Positions by name do not move when one record is replaced by another of
/// the same name.
proof fn lemma_index_stable(ts: Seq<TargetView>, i: int, x: TargetView, name: Seq<char>, k: int)
    requires
        0 <= i < ts.len(),
        x.name == ts[i].name,
        0 <= k <= ts.len(),
    ensures
        index_from(ts.update(i, x), name, k) == index_from(ts, name, k),
    decreases ts.len() - k,
{
    if k < ts.len() {
        lemma_index_stable(ts, i, x, name, k + 1);
    }
}

/// A failure that scheduled a retry is not counted again: reporting the
/// same target's failure a second time, before the retry is claimed,
/// schedules nothing and leaves its reconnect record as it is.
pub proof fn lemma_repeated_failure_schedules_once(e: EngineView, name: Seq<char>)
    requires
        after_failure(e, name).1,
    ensures
        !after_failure(after_failure(e, name).0, name).1,
        after_failure(after_failure(e, name).0, name).0.supervisor == after_failure(e, name).0.supervisor,
{
    let (p, ts) = e.supervisor.unwrap();
    let i = index_of(ts, name);
    lemma_index_from(ts, name, 0);
    let ts2 = ts.update(i, ts[i].failed(p));
    lemma_index_stable(ts, i, ts[i].failed(p), name, 0);
    assert(index_of(ts2, name) == i);
    assert(ts2[i].retry_at.is_some());
}

} // verus!
