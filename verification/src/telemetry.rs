//! Opt-in, privacy-friendly usage telemetry.
//!
//! This module only *classifies* events and hands a bounded batch to an
//! optional [`TelemetrySink`]. It never transmits anything by itself: while
//! telemetry is disabled (the default) nothing is recorded at all, and even
//! while enabled a batch only reaches whatever sink the host application
//! installed.
//!
//! All payload fields are numeric codes, enums or booleans. Free-form text
//! (window titles, paths, URLs, stream keys, usernames) is deliberately not
//! part of the event model.
use vstd::prelude::*;

use crate::text::{owned, str_eq};

verus! {

/// Version of the application that collects the events.
pub const APP_VERSION: &'static str = "0.1.0";

/// Error categories the app already distinguishes; emitted with
/// [`TelemetryEvent::RecordingError`].
#[derive(Debug, Clone, Copy, PartialEq, Eq, Structural)]
pub enum TelemetryErrorKind {
    Engine,
    Capture,
    Output,
    Io,
    Permission,
    Unknown,
}

impl Default for TelemetryErrorKind {
    fn default() -> (r: Self)
        ensures
            r == TelemetryErrorKind::Unknown,
    {
        TelemetryErrorKind::Unknown
    }
}

/// A classified usage event. Only deterministic, identifier-free data.
#[derive(Debug, Clone, Copy, PartialEq, Eq, Structural)]
pub enum TelemetryEvent {
    /// Fresh application start (reported once per session, only when opted in).
    Startup,
    /// A recording session ended normally (`healthy`) or with an error.
    RecordingStop { duration_secs: u32, healthy: bool },
    /// A recording failed to start or ended with a captured error category.
    RecordingError { error: TelemetryErrorKind },
    /// The streamer switched the active scene.
    SceneSwitch,
    /// A chat connection attempt ended in the given state.
    ChatConnect { ok: bool },
}

/// One flushed batch handed to a [`TelemetrySink`]: bounded,
/// identifier-free events plus the app version and platform code.
#[derive(Debug, Clone, PartialEq, Eq)]
pub struct TelemetryBatch {
    /// Stable application version at collection time.
    pub app_version: String,
    /// Platform code (`"windows"`, `"linux"`, `"macos"` or `"other"`).
    pub platform: String,
    /// Events collected since the previous flush, in order.
    pub events: Vec<TelemetryEvent>,
}

/// A batch in mathematical form.
pub struct BatchView {
    pub app_version: Seq<char>,
    pub platform: Seq<char>,
    pub events: Seq<TelemetryEvent>,
}

impl View for TelemetryBatch {
    type V = BatchView;

    open spec fn view(&self) -> BatchView {
        BatchView { app_version: self.app_version@, platform: self.platform@, events: self.events@ }
    }
}

/// Receives flushed telemetry batches. The shipped build installs no
/// sender; a separately reviewed transport can be plugged in here.
pub trait TelemetrySink {
    fn submit(&mut self, batch: &TelemetryBatch);
}

/// The platform code for a target operating system name.
pub open spec fn platform_spec(os: Seq<char>) -> Seq<char> {
    if os == "windows"@ {
        "windows"@
    } else if os == "linux"@ {
        "linux"@
    } else if os == "macos"@ {
        "macos"@
    } else {
        "other"@
    }
}

/// Platform code for telemetry batches (`"windows"`, `"linux"`, `"macos"`
/// or `"other"`) of the target operating system named `os`.
pub fn platform_code(os: &str) -> (r: &'static str)
    ensures
        r@ == platform_spec(os@),
{
    if str_eq(os, "windows") {
        "windows"
    } else if str_eq(os, "linux") {
        "linux"
    } else if str_eq(os, "macos") {
        "macos"
    } else {
        "other"
    }
}

/// Default safety valve: flush at most 128 events before submitting a batch.
pub const DEFAULT_AUTO_FLUSH_AT: usize = 128;

/// A reporter's state in mathematical form.
pub struct ReporterView {
    pub enabled: bool,
    pub pending: Seq<TelemetryEvent>,
    pub auto_flush_at: nat,
    pub platform: Seq<char>,
    pub has_sink: bool,
    /// Every batch handed to the sink so far, oldest first.
    pub submitted: Seq<BatchView>,
}

/// The batch a reporter in state `v` hands over: the app version, its
/// platform code and its pending events in order.
pub open spec fn batch_of(v: ReporterView) -> BatchView {
    BatchView { app_version: APP_VERSION@, platform: v.platform, events: v.pending }
}

/// The reporter after [`TelemetryReporter::flush`]: the queue is empty, and
/// when events were pending and a sink is installed, their batch was handed
/// to the sink.
pub open spec fn flush_spec(v: ReporterView) -> ReporterView {
    ReporterView {
        pending: Seq::empty(),
        submitted: if v.has_sink && v.pending.len() > 0 { v.submitted.push(batch_of(v)) } else { v.submitted },
        ..v
    }
}

/// Bounded, deterministic event collector.
///
/// - Disabled by default; [`Self::set_enabled`] is the only way to start
///   capturing, and disabling clears any pending events.
/// - [`Self::record`] is a no-op while disabled.
/// - Pending events are flushed automatically once `auto_flush_at` is
///   reached so an enabled reporter can never grow without bound.
///   [`Self::flush`] hands the batch to the installed sink (if any) and
///   always clears the queue.
pub struct TelemetryReporter {
    enabled: bool,
    pending: Vec<TelemetryEvent>,
    auto_flush_at: usize,
    platform: &'static str,
    sink: Option<Box<dyn TelemetrySink>>,
    submitted: Ghost<Seq<BatchView>>,
}

impl View for TelemetryReporter {
    type V = ReporterView;

    closed spec fn view(&self) -> ReporterView {
        ReporterView {
            enabled: self.enabled,
            pending: self.pending@,
            auto_flush_at: self.auto_flush_at as nat,
            platform: self.platform@,
            has_sink: self.sink.is_some(),
            submitted: self.submitted@,
        }
    }
}

impl TelemetryReporter {
    /// A disabled reporter without a sink, for the target operating system
    /// named `target_os`.
    pub fn new(target_os: &str) -> (r: Self)
        ensures
            !r@.enabled,
            r@.pending.len() == 0,
            r@.auto_flush_at == DEFAULT_AUTO_FLUSH_AT,
            r@.platform == platform_spec(target_os@),
            !r@.has_sink,
            r@.submitted.len() == 0,
    {
        TelemetryReporter {
            enabled: false,
            pending: Vec::new(),
            auto_flush_at: DEFAULT_AUTO_FLUSH_AT,
            platform: platform_code(target_os),
            sink: None,
            submitted: Ghost(Seq::empty()),
        }
    }

    /// Whether capturing is currently active (mirrors the persisted opt-in).
    pub fn enabled(&self) -> (r: bool)
        ensures
            r == self@.enabled,
    {
        self.enabled
    }

    /// Turn capturing on/off. Disabling clears all pending events so nothing
    /// recorded while opted in survives an opt-out.
    pub fn set_enabled(&mut self, enabled: bool)
        ensures
            final(self)@ == (ReporterView {
                enabled,
                pending: if enabled { old(self)@.pending } else { Seq::empty() },
                ..old(self)@
            }),
    {
        self.enabled = enabled;
        if !enabled {
            self.pending.clear();
        }
    }

    /// Override the automatic-flush threshold.
    pub fn set_auto_flush_at(&mut self, threshold: usize)
        ensures
            final(self)@ == (ReporterView { auto_flush_at: threshold as nat, ..old(self)@ }),
    {
        self.auto_flush_at = threshold;
    }

    /// Install the sink that receives flushed batches.
    pub fn set_sink(&mut self, sink: Box<dyn TelemetrySink>)
        ensures
            final(self)@ == (ReporterView { has_sink: true, ..old(self)@ }),
    {
        self.sink = Some(sink);
    }

    /// Collect one event. A no-op while disabled; once the queue reaches the
    /// threshold it is flushed.
    pub fn record(&mut self, event: TelemetryEvent)
        ensures
            final(self)@ == record_spec(old(self)@, event),
    {
        if !self.enabled {
            return;
        }
        self.pending.push(event);
        if self.pending.len() >= self.auto_flush_at {
            self.flush();
        }
    }

    /// Number of collected events not yet handed to the sink.
    pub fn pending_len(&self) -> (r: usize)
        ensures
            r == self@.pending.len(),
    {
        self.pending.len()
    }

    /// The current batch: the app version, the platform code and the
    /// pending events in order.
    fn pending_batch(&self) -> (r: TelemetryBatch)
        ensures
            r@ == batch_of(self@),
    {
        let mut events: Vec<TelemetryEvent> = Vec::new();
        let n = self.pending.len();
        let mut i: usize = 0;
        while i < n
            invariant
                n == self.pending@.len(),
                i <= n,
                events@ == self.pending@.subrange(0, i as int),
            decreases n - i,
        {
            events.push(self.pending[i]);
            proof {
                assert(events@ =~= self.pending@.subrange(0, i + 1));
            }
            i = i + 1;
        }
        proof {
            assert(events@ =~= self.pending@);
        }
        TelemetryBatch { app_version: owned(APP_VERSION), platform: owned(self.platform), events }
    }

    /// Submit the current batch (app version, platform code, the pending
    /// events in order) to the installed sink, when there is one, and
    /// always clear the queue. Empty batches are skipped.
    pub fn flush(&mut self)
        ensures
            final(self)@ == flush_spec(old(self)@),
    {
        if self.pending.len() == 0 {
            assert(self.pending@ =~= Seq::<TelemetryEvent>::empty());
            return;
        }
        let batch = self.pending_batch();
        self.pending.clear();
        match &mut self.sink {
            Some(sink) => {
                sink.submit(&batch);
                self.submitted = Ghost(self.submitted@.push(batch@));
            },
            None => {},
        }
    }
}

/// The reporter after [`TelemetryReporter::record`] of `event`.
pub open spec fn record_spec(v: ReporterView, event: TelemetryEvent) -> ReporterView {
    if !v.enabled {
        v
    } else {
        let queued = ReporterView { pending: v.pending.push(event), ..v };
        if queued.pending.len() >= v.auto_flush_at {
            flush_spec(queued)
        } else {
            queued
        }
    }
}

/// The queue stays below the flush threshold: recording never lets pending
/// events pile up past it, so an enabled reporter cannot grow without bound.
pub proof fn lemma_pending_stays_below_threshold(v: ReporterView, event: TelemetryEvent)
    requires
        v.pending.len() < v.auto_flush_at,
    ensures
        record_spec(v, event).pending.len() < v.auto_flush_at,
        record_spec(v, event).auto_flush_at == v.auto_flush_at,
{
}

} // verus!
