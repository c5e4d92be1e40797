//! Runtime policies shared by streaming transports.
use vstd::prelude::*;

use crate::health::{StreamHealthStatus, StreamStats};
use crate::reconnect::min_nat;
use crate::stream::{next_bitrate_spec, AdaptiveBitrate};
use crate::time::{Duration, MAX_NANOS, NANOS_PER_SEC};

verus! {

// ── adaptive bitrate controller ─────────────────────────────────────────────

/// One bitrate change made by the controller.
#[derive(Debug, Clone, Copy, PartialEq, Eq, Structural)]
pub struct BitrateChange {
    pub from_kbps: u32,
    pub to_kbps: u32,
    pub status: StreamHealthStatus,
}

/// The private part of a controller's state, in mathematical form.
pub struct ControllerState {
    /// Shortest time between two changes, in nanoseconds.
    pub cooldown: nat,
    /// Equal samples needed before a change.
    pub required_samples: u8,
    /// The status seen in the current run of equal samples, and the run's length.
    pub pending: Option<(StreamHealthStatus, u8)>,
    /// When the bitrate last changed, in nanoseconds.
    pub last_change: Option<nat>,
    /// The last change made.
    pub last_change_info: Option<BitrateChange>,
}

/// A deterministic controller that avoids bitrate flapping during transient
/// health changes. Callers supply a monotonic elapsed time so it is easy to
/// test and safe to drive from any scheduler.
#[derive(Debug, Clone, Copy, PartialEq, Eq)]
pub struct AdaptiveBitrateController {
    pub cooldown: Duration,
    pub required_samples: u8,
    pending: Option<(StreamHealthStatus, u8)>,
    last_change: Option<Duration>,
    last_change_info: Option<BitrateChange>,
}

/// Whether the controller acts on `status` at all (poor or good health).
pub open spec fn actionable(status: StreamHealthStatus) -> bool {
    status == StreamHealthStatus::Poor || status == StreamHealthStatus::Good
}

/// Length of the run of equal samples once `status` is added to `pending`.
pub open spec fn sample_count(pending: Option<(StreamHealthStatus, u8)>, status: StreamHealthStatus) -> u8 {
    match pending {
        Some((previous, count)) => if previous == status {
            if count == 255 { 255 } else { (count + 1) as u8 }
        } else {
            1
        },
        None => 1,
    }
}

/// Whether `now` lies less than `cooldown` after the last change (time that
/// runs backwards counts as no time at all).
pub open spec fn in_cooldown(last: Option<nat>, cooldown: nat, now: nat) -> bool {
    match last {
        Some(l) => (if now >= l { (now - l) as nat } else { 0 }) < cooldown,
        None => false,
    }
}

/// The effect of one controller update: the new private state, the new
/// bitrate and whether the bitrate changed.
pub open spec fn update_spec(
    s: ControllerState,
    policy: AdaptiveBitrate,
    current: u32,
    status: StreamHealthStatus,
    now: nat,
) -> (ControllerState, u32, bool) {
    if !policy.enabled || !actionable(status) {
        (ControllerState { pending: None, ..s }, current, false)
    } else {
        let n = sample_count(s.pending, status);
        if n < s.required_samples || in_cooldown(s.last_change, s.cooldown, now) {
            (ControllerState { pending: Some((status, n)), ..s }, current, false)
        } else {
            let next = next_bitrate_spec(policy, current, status);
            if next == current {
                (ControllerState { pending: None, ..s }, current, false)
            } else {
                (
                    ControllerState {
                        pending: None,
                        last_change: Some(now),
                        cooldown: s.cooldown,
                        required_samples: s.required_samples,
                        last_change_info: Some(
                            BitrateChange { from_kbps: current, to_kbps: next, status },
                        ),
                    },
                    next,
                    true,
                )
            }
        }
    }
}

impl View for AdaptiveBitrateController {
    type V = ControllerState;

    closed spec fn view(&self) -> ControllerState {
        ControllerState {
            cooldown: self.cooldown.spec_nanos(),
            required_samples: self.required_samples,
            pending: self.pending,
            last_change: match self.last_change {
                Some(d) => Some(d.spec_nanos()),
                None => None,
            },
            last_change_info: self.last_change_info,
        }
    }
}

impl Default for AdaptiveBitrateController {
    fn default() -> (r: Self)
        ensures
            r@.cooldown == 5 * NANOS_PER_SEC,
            r@.required_samples == 2,
            r@.pending.is_none(),
            r@.last_change.is_none(),
            r@.last_change_info.is_none(),
    {
        AdaptiveBitrateController {
            cooldown: Duration::from_secs(5),
            required_samples: 2,
            pending: None,
            last_change: None,
            last_change_info: None,
        }
    }
}

impl AdaptiveBitrateController {
    /// A controller with the given cooldown that waits for
    /// `required_samples` (at least one) equal samples before acting.
    pub fn new(cooldown: Duration, required_samples: u8) -> (r: Self)
        ensures
            r@.cooldown == cooldown.spec_nanos(),
            r@.required_samples == if required_samples >= 1 { required_samples } else { 1 },
            r@.pending.is_none(),
            r@.last_change.is_none(),
            r@.last_change_info.is_none(),
    {
        AdaptiveBitrateController {
            cooldown,
            required_samples: if required_samples >= 1 { required_samples } else { 1 },
            pending: None,
            last_change: None,
            last_change_info: None,
        }
    }

    /// The last change made, if any.
    pub fn last_change(&self) -> (r: Option<BitrateChange>)
        ensures
            r == self@.last_change_info,
    {
        self.last_change_info
    }

    /// [`Self::update`] with the status classified in `telemetry`.
    pub fn update_from_telemetry(
        &mut self,
        policy: AdaptiveBitrate,
        current_kbps: &mut u32,
        telemetry: &StreamStats,
        now: Duration,
    ) -> (r: bool)
        ensures
            ({
                let u = update_spec(
                    old(self)@,
                    policy,
                    *old(current_kbps),
                    telemetry.status,
                    now.spec_nanos(),
                );
                &&& final(self)@ == u.0
                &&& *final(current_kbps) == u.1
                &&& r == u.2
            }),
    {
        self.update(policy, current_kbps, telemetry.status, now)
    }

    /// Feed one health sample taken at `now`. The bitrate moves one policy
    /// step only after `required_samples` equal poor or good samples in a
    /// row and once the cooldown since the last change has passed; any
    /// other status, or a disabled policy, resets the run. `true` when the
    /// bitrate changed.
    pub fn update(
        &mut self,
        policy: AdaptiveBitrate,
        current_kbps: &mut u32,
        status: StreamHealthStatus,
        now: Duration,
    ) -> (r: bool)
        ensures
            ({
                let u = update_spec(
                    old(self)@,
                    policy,
                    *old(current_kbps),
                    status,
                    now.spec_nanos(),
                );
                &&& final(self)@ == u.0
                &&& *final(current_kbps) == u.1
                &&& r == u.2
            }),
    {
        let actionable = match status {
            StreamHealthStatus::Poor => true,
            StreamHealthStatus::Good => true,
            _ => false,
        };
        if !policy.enabled || !actionable {
            self.pending = None;
            return false;
        }
        let samples: u8 = match self.pending {
            Some((previous, count)) => if previous == status {
                count.saturating_add(1)
            } else {
                1
            },
            None => 1,
        };
        self.pending = Some((status, samples));
        let cooling = match self.last_change {
            Some(last) => now.saturating_sub(last).lt(&self.cooldown),
            None => false,
        };
        if samples < self.required_samples || cooling {
            return false;
        }
        let previous = *current_kbps;
        let next = policy.next_bitrate(previous, status);
        self.pending = None;
        if next == previous {
            return false;
        }
        *current_kbps = next;
        self.last_change = Some(now);
        self.last_change_info = Some(BitrateChange { from_kbps: previous, to_kbps: next, status });
        proof {
            assert(self@.last_change == Some(now.spec_nanos()));
        }
        true
    }
}

/// Once the bitrate changes at `now`, no update less than a cooldown later
/// changes it again, whatever the samples, policy or bitrate.
pub proof fn lemma_no_change_within_cooldown(
    s: ControllerState,
    policy: AdaptiveBitrate,
    current: u32,
    status: StreamHealthStatus,
    now: nat,
    policy2: AdaptiveBitrate,
    current2: u32,
    status2: StreamHealthStatus,
    now2: nat,
)
    requires
        update_spec(s, policy, current, status, now).2,
        (if now2 >= now { (now2 - now) as nat } else { 0 }) < s.cooldown,
    ensures
        !update_spec(
            update_spec(s, policy, current, status, now).0,
            policy2,
            current2,
            status2,
            now2,
        ).2,
{
}

/// The bitrate changes only on a run of at least the required number of equal poor or
/// good samples under an enabled policy, outside the cooldown, and the
/// change is recorded with the bitrate before and after.
pub proof fn lemma_change_needs_stable_samples(
    s: ControllerState,
    policy: AdaptiveBitrate,
    current: u32,
    status: StreamHealthStatus,
    now: nat,
)
    ensures
        ({
            let u = update_spec(s, policy, current, status, now);
            u.2 ==> {
                &&& policy.enabled
                &&& actionable(status)
                &&& sample_count(s.pending, status) >= s.required_samples
                &&& !in_cooldown(s.last_change, s.cooldown, now)
                &&& u.1 != current
                &&& u.0.last_change_info == Some(
                    BitrateChange { from_kbps: current, to_kbps: u.1, status },
                )
            }
        }),
        ({
            let u = update_spec(s, policy, current, status, now);
            !u.2 ==> u.1 == current
        }),
{
}

/// A bitrate inside an enabled policy's bounds stays inside them.
pub proof fn lemma_update_keeps_bounds(
    s: ControllerState,
    policy: AdaptiveBitrate,
    current: u32,
    status: StreamHealthStatus,
    now: nat,
)
    requires
        policy.minimum_kbps <= current <= policy.maximum_kbps,
    ensures
        policy.minimum_kbps <= update_spec(s, policy, current, status, now).1
            <= policy.maximum_kbps,
{
    crate::stream::lemma_next_bitrate_bounded(policy, current, status);
}

// ── delay supervisor ────────────────────────────────────────────────────────

/// A delay supervisor's state, in nanoseconds and counts.
pub struct DelayState {
    pub configured: nat,
    pub buffered: nat,
    pub max_buffer: nat,
    pub dropped: u64,
    pub underflows: u64,
}

/// Keeps the configured delay stable across a temporary sink reconnect.
#[derive(Debug, Clone, Copy, PartialEq, Eq)]
pub struct DelaySupervisor {
    configured: Duration,
    buffered: Duration,
    max_buffer: Duration,
    dropped: u64,
    underflows: u64,
}

/// `x + 1`, or `x` at the top of the range.
pub open spec fn sat_inc(x: u64) -> u64 {
    if x == u64::MAX { x } else { (x + 1) as u64 }
}

impl View for DelaySupervisor {
    type V = DelayState;

    closed spec fn view(&self) -> DelayState {
        DelayState {
            configured: self.configured.spec_nanos(),
            buffered: self.buffered.spec_nanos(),
            max_buffer: self.max_buffer.spec_nanos(),
            dropped: self.dropped,
            underflows: self.underflows,
        }
    }
}

impl DelaySupervisor {
    #[verifier::type_invariant]
    spec fn within_buffer(self) -> bool {
        &&& self.configured.spec_nanos() <= self.max_buffer.spec_nanos()
        &&& self.buffered.spec_nanos() <= self.max_buffer.spec_nanos()
    }

    /// A supervisor holding `configured` of delay in a buffer of
    /// `max_buffer` (raised to `configured` when smaller), empty.
    pub fn new(configured: Duration, max_buffer: Duration) -> (r: Self)
        ensures
            r@.max_buffer == if max_buffer.spec_nanos() >= configured.spec_nanos() {
                max_buffer.spec_nanos()
            } else {
                configured.spec_nanos()
            },
            r@.configured == configured.spec_nanos(),
            r@.buffered == 0,
            r@.dropped == 0,
            r@.underflows == 0,
            r@.buffered <= r@.max_buffer,
            r@.configured <= r@.max_buffer,
    {
        let max_buffer = max_buffer.max(configured);
        DelaySupervisor {
            configured: configured.min(max_buffer),
            buffered: Duration::zero(),
            max_buffer,
            dropped: 0,
            underflows: 0,
        }
    }

    /// The configured delay.
    pub fn configured(&self) -> (r: Duration)
        ensures
            r.spec_nanos() == self@.configured,
    {
        self.configured
    }

    /// The media currently buffered.
    pub fn buffered(&self) -> (r: Duration)
        ensures
            r.spec_nanos() == self@.buffered,
            r.spec_nanos() <= self@.max_buffer,
    {
        proof {
            use_type_invariant(self);
        }
        self.buffered
    }

    /// The buffer's capacity.
    pub fn max_buffer(&self) -> (r: Duration)
        ensures
            r.spec_nanos() == self@.max_buffer,
    {
        self.max_buffer
    }

    /// How many pushes overflowed the buffer.
    pub fn dropped(&self) -> (r: u64)
        ensures
            r == self@.dropped,
    {
        self.dropped
    }

    /// How many reads found too little media.
    pub fn underflows(&self) -> (r: u64)
        ensures
            r == self@.underflows,
    {
        self.underflows
    }

    /// Record an underflow when a delayed branch has no media available.
    pub fn record_underflow(&mut self)
        ensures
            final(self)@ == (DelayState { underflows: sat_inc(old(self)@.underflows), ..old(self)@ }),
    {
        proof {
            use_type_invariant(&*self);
        }
        self.underflows = self.underflows.saturating_add(1);
    }

    /// Buffer `amount` more media; what does not fit is dropped and counted.
    pub fn push(&mut self, amount: Duration)
        ensures
            ({
                let next = old(self)@.buffered + amount.spec_nanos();
                let next = if next > MAX_NANOS { MAX_NANOS as nat } else { next };
                &&& final(self)@.buffered == min_nat(next, old(self)@.max_buffer)
                &&& final(self)@.dropped == if next > old(self)@.max_buffer {
                    sat_inc(old(self)@.dropped)
                } else {
                    old(self)@.dropped
                }
                &&& final(self)@.configured == old(self)@.configured
                &&& final(self)@.max_buffer == old(self)@.max_buffer
                &&& final(self)@.underflows == old(self)@.underflows
            }),
            final(self)@.buffered <= final(self)@.max_buffer,
    {
        proof {
            use_type_invariant(&*self);
        }
        let next = self.buffered.saturating_add(amount);
        if self.max_buffer.lt(&next) {
            self.dropped = self.dropped.saturating_add(1);
        }
        self.buffered = next.min(self.max_buffer);
    }

    /// Drain `amount` of media; reading more than is buffered empties the
    /// buffer and counts an underflow.
    pub fn consume(&mut self, amount: Duration)
        ensures
            final(self)@.buffered == if old(self)@.buffered >= amount.spec_nanos() {
                (old(self)@.buffered - amount.spec_nanos()) as nat
            } else {
                0
            },
            final(self)@.underflows == if amount.spec_nanos() > old(self)@.buffered {
                sat_inc(old(self)@.underflows)
            } else {
                old(self)@.underflows
            },
            final(self)@.configured == old(self)@.configured,
            final(self)@.max_buffer == old(self)@.max_buffer,
            final(self)@.dropped == old(self)@.dropped,
    {
        proof {
            use_type_invariant(&*self);
        }
        if self.buffered.lt(&amount) {
            self.record_underflow();
        }
        self.buffered = self.buffered.saturating_sub(amount);
    }

    /// The sink went away: buffered media is kept so the reconnect path can
    /// drain it once live.
    pub fn on_disconnect(&mut self)
        ensures
            final(self)@ == old(self)@,
    {
    }

    /// The sink is back: keep at most the configured delay of buffered
    /// media and return what was kept.
    pub fn on_reconnect(&mut self) -> (r: Duration)
        ensures
            r.spec_nanos() == min_nat(old(self)@.buffered, old(self)@.configured),
            final(self)@ == (DelayState { buffered: r.spec_nanos(), ..old(self)@ }),
            final(self)@.buffered <= final(self)@.configured,
    {
        proof {
            use_type_invariant(&*self);
        }
        let retained = self.buffered.min(self.configured);
        self.buffered = retained;
        retained
    }
}

} // verus!
