//! Per-target reconnect orchestration for streaming outputs.
//!
//! Every multistream target is supervised on its own: a failure of one target
//! schedules a retry for that target only, a successful reconnect resets its
//! attempt counter, and retries stop once the policy's attempt budget is
//! spent.
use vstd::prelude::*;

use crate::stream::StreamTargetState;
use crate::text::{parse_u64_max, starts_with, str_eq};
use crate::time::{Duration, NANOS_PER_MILLI, MAX_NANOS};

verus! {

/// A message a target's sink element posted on the pipeline bus.
#[derive(Debug, Clone, Copy, PartialEq, Eq, Structural)]
pub enum SinkBusEvent {
    Error,
    Eos,
    StateChanged,
    Warning,
}

impl SinkBusEvent {
    /// Errors and end-of-stream tear the target's branch down.
    pub fn requires_reconnect(self) -> (r: bool)
        ensures
            r == (self == SinkBusEvent::Error || self == SinkBusEvent::Eos),
    {
        match self {
            SinkBusEvent::Error | SinkBusEvent::Eos => true,
            _ => false,
        }
    }
}

// ── retry policy ────────────────────────────────────────────────────────────

/// `2^n`.
pub open spec fn pow2(n: nat) -> nat
    decreases n,
{
    if n == 0 {
        1
    } else {
        2 * pow2((n - 1) as nat)
    }
}

/// `2u32.saturating_pow(n)`.
pub open spec fn sat_pow2_u32(n: nat) -> nat {
    if pow2(n) > u32::MAX {
        u32::MAX as nat
    } else {
        pow2(n)
    }
}

/// `a * b` saturated at the largest representable duration.
pub open spec fn sat_mul_nanos(a: nat, b: nat) -> nat {
    if a * b > MAX_NANOS {
        MAX_NANOS as nat
    } else {
        a * b
    }
}

/// The smaller of two naturals.
pub open spec fn min_nat(a: nat, b: nat) -> nat {
    if a <= b {
        a
    } else {
        b
    }
}

/// The larger of two naturals.
pub open spec fn max_nat(a: nat, b: nat) -> nat {
    if a >= b {
        a
    } else {
        b
    }
}

/// `attempt - 1`, saturating at zero.
pub open spec fn prev_attempt(attempt: nat) -> nat {
    if attempt == 0 {
        0
    } else {
        (attempt - 1) as nat
    }
}

/// Backoff in nanoseconds before retry number `attempt`: the initial backoff
/// doubled for every earlier attempt, capped at the maximum backoff.
pub open spec fn backoff_nanos(initial: nat, max: nat, attempt: nat) -> nat {
    min_nat(sat_mul_nanos(initial, sat_pow2_u32(prev_attempt(attempt))), max)
}

/// Retry budget and backoff schedule for a target.
#[derive(Debug, Clone, Copy, PartialEq, Eq, Structural)]
pub struct RetryPolicy {
    pub max_attempts: u32,
    pub initial_backoff: Duration,
    pub max_backoff: Duration,
}

impl Default for RetryPolicy {
    fn default() -> (r: Self)
        ensures
            r.max_attempts == 5,
            r.initial_backoff.spec_nanos() == 1_000_000_000,
            r.max_backoff.spec_nanos() == 30_000_000_000,
    {
        RetryPolicy {
            max_attempts: 5,
            initial_backoff: Duration::from_secs(1),
            max_backoff: Duration::from_secs(30),
        }
    }
}

fn sat_pow2(n: u32) -> (r: u32)
    ensures
        r == sat_pow2_u32(n as nat),
{
    let mut p: u32 = 1;
    let mut i: u32 = 0;
    while i < n && p < u32::MAX
        invariant
            i <= n,
            p == sat_pow2_u32(i as nat),
            p == u32::MAX ==> pow2(i as nat) >= u32::MAX,
        decreases n - i,
    {
        proof {
            assert(pow2((i + 1) as nat) == 2 * pow2(i as nat));
        }
        if p >= 0x8000_0000 {
            p = u32::MAX;
        } else {
            p = p * 2;
        }
        i = i + 1;
    }
    if i < n {
        proof {
            lemma_pow2_monotone(i as nat, n as nat);
        }
    }
    p
}

/// `2^n` never decreases as `n` grows.
pub proof fn lemma_pow2_monotone(a: nat, b: nat)
    requires
        a <= b,
    ensures
        pow2(a) <= pow2(b),
    decreases b - a,
{
    if a < b {
        lemma_pow2_monotone(a, (b - 1) as nat);
        assert(pow2(b) == 2 * pow2((b - 1) as nat));
    }
}

impl RetryPolicy {
    /// A policy whose initial backoff is at least 100 ms and whose maximum
    /// backoff is at least the requested initial backoff.
    pub fn new(max_attempts: u32, initial_backoff: Duration, max_backoff: Duration) -> (r: Self)
        ensures
            r.max_attempts == max_attempts,
            r.initial_backoff.spec_nanos() == max_nat(
                initial_backoff.spec_nanos(),
                (100 * NANOS_PER_MILLI) as nat,
            ),
            r.max_backoff.spec_nanos() == max_nat(
                max_backoff.spec_nanos(),
                initial_backoff.spec_nanos(),
            ),
    {
        RetryPolicy {
            max_attempts,
            initial_backoff: initial_backoff.max(Duration::from_millis(100)),
            max_backoff: max_backoff.max(initial_backoff),
        }
    }

    /// The backoff before retry number `attempt`.
    pub fn backoff(&self, attempt: u32) -> (r: Duration)
        ensures
            r.spec_nanos() == backoff_nanos(
                self.initial_backoff.spec_nanos(),
                self.max_backoff.spec_nanos(),
                attempt as nat,
            ),
    {
        let exp = if attempt == 0 { 0 } else { attempt - 1 };
        self.initial_backoff.saturating_mul(sat_pow2(exp)).min(self.max_backoff)
    }

    /// The backoff in nanoseconds that this policy gives retry `attempt`.
    pub open spec fn spec_backoff(self, attempt: nat) -> nat {
        backoff_nanos(self.initial_backoff.spec_nanos(), self.max_backoff.spec_nanos(), attempt)
    }
}

/// The backoff never exceeds the policy's maximum backoff.
pub proof fn lemma_backoff_bounded(initial: nat, max: nat, attempt: nat)
    ensures
        backoff_nanos(initial, max, attempt) <= max,
{
}

/// Later attempts never wait less than earlier ones.
pub proof fn lemma_backoff_monotone(initial: nat, max: nat, a: nat, b: nat)
    requires
        a <= b,
    ensures
        backoff_nanos(initial, max, a) <= backoff_nanos(initial, max, b),
{
    lemma_pow2_monotone(prev_attempt(a), prev_attempt(b));
    let pa = sat_pow2_u32(prev_attempt(a));
    let pb = sat_pow2_u32(prev_attempt(b));
    assert(pa <= pb);
    assert(initial * pa <= initial * pb) by (nonlinear_arith)
        requires
            pa <= pb,
    ;
}

/// Until the cap is reached, each attempt doubles the backoff of the one
/// before it.
pub proof fn lemma_backoff_doubles(initial: nat, max: nat, attempt: nat)
    requires
        attempt >= 1,
        pow2(attempt) <= u32::MAX,
        initial * pow2(attempt) <= MAX_NANOS,
        initial * pow2(attempt) <= max,
    ensures
        backoff_nanos(initial, max, attempt + 1) == 2 * backoff_nanos(initial, max, attempt),
{
    let k = (attempt - 1) as nat;
    assert(pow2(attempt) == 2 * pow2(k));
    lemma_pow2_monotone(k, attempt);
    assert(initial * pow2(attempt) == 2 * (initial * pow2(k))) by (nonlinear_arith)
        requires
            pow2(attempt) == 2 * pow2(k),
    ;
    assert(initial * pow2(k) <= initial * pow2(attempt)) by (nonlinear_arith)
        requires
            pow2(k) <= pow2(attempt),
    ;
}

// ── one target ──────────────────────────────────────────────────────────────

/// Mathematical model of one target's reconnect state.
pub struct TargetView {
    pub name: Seq<char>,
    pub state: StreamTargetState,
    pub attempts: nat,
    pub next_backoff: nat,
    pub retry_at: Option<nat>,
}

/// `attempts + 1`, saturating at `u32::MAX`.
pub open spec fn sat_inc(attempts: nat) -> nat {
    if attempts >= u32::MAX {
        u32::MAX as nat
    } else {
        attempts + 1
    }
}

impl TargetView {
    /// The target after a reconnect attempt was started.
    pub open spec fn connecting(self) -> TargetView {
        TargetView {
            state: StreamTargetState::Connecting,
            next_backoff: 0,
            retry_at: None,
            ..self
        }
    }

    /// The target after it went live.
    pub open spec fn live(self) -> TargetView {
        TargetView {
            state: StreamTargetState::Live,
            attempts: 0,
            next_backoff: 0,
            retry_at: None,
            ..self
        }
    }

    /// The target after a failure was recorded under `policy`.
    pub open spec fn failed(self, policy: RetryPolicy) -> TargetView {
        let attempts = sat_inc(self.attempts);
        TargetView {
            state: StreamTargetState::Failed,
            attempts: attempts,
            next_backoff: policy.spec_backoff(attempts),
            retry_at: Some(policy.spec_backoff(attempts)),
            ..self
        }
    }

    /// Whether the attempt budget of `policy` is spent.
    pub open spec fn exhausted(self, policy: RetryPolicy) -> bool {
        self.attempts > policy.max_attempts
    }

    /// Whether a retry is pending and due at `elapsed` nanoseconds.
    pub open spec fn due(self, elapsed: nat) -> bool {
        match self.retry_at {
            Some(at) => elapsed >= at,
            None => false,
        }
    }

    /// Whether the target may be retried: failed and not exhausted.
    pub open spec fn retryable(self, policy: RetryPolicy) -> bool {
        self.state == StreamTargetState::Failed && !self.exhausted(policy)
    }
}

/// Reconnect bookkeeping for one named target.
#[derive(Debug, Clone, PartialEq, Eq)]
pub struct TargetReconnectState {
    pub name: String,
    pub state: StreamTargetState,
    pub attempts: u32,
    pub next_backoff: Duration,
    pub retry_at: Option<Duration>,
}

impl View for TargetReconnectState {
    type V = TargetView;

    open spec fn view(&self) -> TargetView {
        TargetView {
            name: self.name@,
            state: self.state,
            attempts: self.attempts as nat,
            next_backoff: self.next_backoff.spec_nanos(),
            retry_at: match self.retry_at {
                Some(d) => Some(d.spec_nanos()),
                None => None,
            },
        }
    }
}

impl TargetReconnectState {
    /// A fresh, offline target without attempts.
    pub fn new(name: String) -> (r: Self)
        ensures
            r@ == (TargetView {
                name: name@,
                state: StreamTargetState::Offline,
                attempts: 0,
                next_backoff: 0,
                retry_at: None,
            }),
    {
        TargetReconnectState {
            name,
            state: StreamTargetState::Offline,
            attempts: 0,
            next_backoff: Duration::zero(),
            retry_at: None,
        }
    }

    /// A reconnect attempt started: the pending retry is consumed.
    pub fn mark_connecting(&mut self)
        ensures
            final(self)@ == old(self)@.connecting(),
    {
        self.state = StreamTargetState::Connecting;
        self.next_backoff = Duration::zero();
        self.retry_at = None;
    }

    /// The target is live again: the attempt counter starts over.
    pub fn mark_live(&mut self)
        ensures
            final(self)@ == old(self)@.live(),
    {
        self.state = StreamTargetState::Live;
        self.attempts = 0;
        self.next_backoff = Duration::zero();
        self.retry_at = None;
    }

    /// Record a failure and schedule the next retry; `true` while the
    /// attempt budget of `policy` allows another retry.
    pub fn mark_failed(&mut self, policy: &RetryPolicy) -> (r: bool)
        ensures
            final(self)@ == old(self)@.failed(*policy),
            r == !final(self)@.exhausted(*policy),
    {
        self.attempts = self.attempts.saturating_add(1);
        self.next_backoff = policy.backoff(self.attempts);
        self.retry_at = Some(self.next_backoff);
        self.state = StreamTargetState::Failed;
        self.attempts <= policy.max_attempts
    }

    /// Whether the attempt budget of `policy` is spent.
    pub fn exhausted(&self, policy: &RetryPolicy) -> (r: bool)
        ensures
            r == self@.exhausted(*policy),
    {
        self.attempts > policy.max_attempts
    }
}

// ── the supervisor ──────────────────────────────────────────────────────────

/// Index of the first target named `name` at or after `i` (or the length of
/// `ts` when there is none).
pub open spec fn index_from(ts: Seq<TargetView>, name: Seq<char>, i: int) -> int
    decreases ts.len() - i,
{
    if i >= ts.len() {
        ts.len() as int
    } else if ts[i].name == name {
        i
    } else {
        index_from(ts, name, i + 1)
    }
}

/// Index of the first target named `name` (the length when there is none).
pub open spec fn index_of(ts: Seq<TargetView>, name: Seq<char>) -> int {
    index_from(ts, name, 0)
}

/// The position found from `i` lies between `i` and the length, names the
/// target when it is in range, and no target before it from `i` on has the
/// name.
pub proof fn lemma_index_from(ts: Seq<TargetView>, name: Seq<char>, i: int)
    requires
        0 <= i <= ts.len(),
    ensures
        i <= index_from(ts, name, i) <= ts.len(),
        index_from(ts, name, i) < ts.len() ==> ts[index_from(ts, name, i)].name == name,
        forall|k: int| i <= k < index_from(ts, name, i) ==> ts[k].name != name,
    decreases ts.len() - i,
{
    if i < ts.len() && ts[i].name != name {
        lemma_index_from(ts, name, i + 1);
    }
}

/// Names of the targets whose retry is due at `elapsed`, in order.
pub open spec fn due_names(ts: Seq<TargetView>, elapsed: nat) -> Seq<Seq<char>>
    decreases ts.len(),
{
    if ts.len() == 0 {
        Seq::empty()
    } else {
        let rest = due_names(ts.drop_last(), elapsed);
        if ts.last().due(elapsed) {
            rest.push(ts.last().name)
        } else {
            rest
        }
    }
}

/// Names of the retryable targets, in order.
pub open spec fn retryable_names(ts: Seq<TargetView>, policy: RetryPolicy) -> Seq<Seq<char>>
    decreases ts.len(),
{
    if ts.len() == 0 {
        Seq::empty()
    } else {
        let rest = retryable_names(ts.drop_last(), policy);
        if ts.last().retryable(policy) {
            rest.push(ts.last().name)
        } else {
            rest
        }
    }
}

/// Every target whose retry is due is moved to `Connecting`.
pub open spec fn claim_due(ts: Seq<TargetView>, elapsed: nat) -> Seq<TargetView> {
    Seq::new(
        ts.len(),
        |i: int|
            if ts[i].due(elapsed) {
                ts[i].connecting()
            } else {
                ts[i]
            },
    )
}

/// Independent reconnect supervision of several named targets.
#[derive(Debug, Clone)]
pub struct StreamingReconnectSupervisor {
    policy: RetryPolicy,
    targets: Vec<TargetReconnectState>,
}

impl StreamingReconnectSupervisor {
    /// Models of the supervised targets, in configuration order.
    pub closed spec fn spec_targets(&self) -> Seq<TargetView> {
        self.targets@.map_values(|t: TargetReconnectState| t@)
    }

    /// The retry policy shared by all targets.
    pub closed spec fn spec_policy(&self) -> RetryPolicy {
        self.policy
    }

    /// One offline target per name, in the given order.
    pub fn new(names: Vec<String>, policy: RetryPolicy) -> (r: Self)
        ensures
            r.spec_policy() == policy,
            r.spec_targets().len() == names@.len(),
            forall|i: int|
                0 <= i < names@.len() ==> #[trigger] r.spec_targets()[i] == (TargetView {
                    name: names@[i]@,
                    state: StreamTargetState::Offline,
                    attempts: 0,
                    next_backoff: 0,
                    retry_at: None,
                }),
    {
        let mut targets: Vec<TargetReconnectState> = Vec::new();
        let mut i: usize = 0;
        while i < names.len()
            invariant
                i <= names@.len(),
                targets@.len() == i,
                forall|k: int|
                    0 <= k < i ==> #[trigger] targets@[k]@ == (TargetView {
                        name: names@[k]@,
                        state: StreamTargetState::Offline,
                        attempts: 0,
                        next_backoff: 0,
                        retry_at: None,
                    }),
            decreases names@.len() - i,
        {
            let name = names[i].clone();
            targets.push(TargetReconnectState::new(name));
            i = i + 1;
        }
        let r = StreamingReconnectSupervisor { policy, targets };
        assert(r.spec_targets().len() == names@.len());
        r
    }

    /// The retry policy.
    pub fn policy(&self) -> (r: RetryPolicy)
        ensures
            r == self.spec_policy(),
    {
        self.policy
    }

    /// The supervised targets, in configuration order.
    pub fn targets(&self) -> (r: &[TargetReconnectState])
        ensures
            r@.map_values(|t: TargetReconnectState| t@) == self.spec_targets(),
    {
        self.targets.as_slice()
    }

    fn find(&self, name: &str) -> (r: usize)
        ensures
            r == index_of(self.spec_targets(), name@),
            r <= self.targets@.len(),
    {
        let n = self.targets.len();
        let mut i: usize = 0;
        while i < n
            invariant
                n == self.targets@.len(),
                i <= n,
                index_from(self.spec_targets(), name@, i as int) == index_of(
                    self.spec_targets(),
                    name@,
                ),
            decreases n - i,
        {
            if str_eq(self.targets[i].name.as_str(), name) {
                return i;
            }
            i = i + 1;
        }
        i
    }

    /// Start a reconnect attempt for `name`; `false` when no target has that
    /// name. Other targets are unchanged.
    pub fn mark_connecting(&mut self, name: &str) -> (r: bool)
        ensures
            ({
                let i = index_of(old(self).spec_targets(), name@);
                &&& r == (i < old(self).spec_targets().len())
                &&& final(self).spec_policy() == old(self).spec_policy()
                &&& final(self).spec_targets() == if r {
                    old(self).spec_targets().update(i, old(self).spec_targets()[i].connecting())
                } else {
                    old(self).spec_targets()
                }
            }),
    {
        let i = self.find(name);
        if i < self.targets.len() {
            self.targets[i].mark_connecting();
            assert(self.spec_targets() =~= old(self).spec_targets().update(
                i as int,
                old(self).spec_targets()[i as int].connecting(),
            ));
            true
        } else {
            false
        }
    }

    /// Record that `name` went live; `false` when no target has that name.
    /// Other targets are unchanged.
    pub fn mark_live(&mut self, name: &str) -> (r: bool)
        ensures
            ({
                let i = index_of(old(self).spec_targets(), name@);
                &&& r == (i < old(self).spec_targets().len())
                &&& final(self).spec_policy() == old(self).spec_policy()
                &&& final(self).spec_targets() == if r {
                    old(self).spec_targets().update(i, old(self).spec_targets()[i].live())
                } else {
                    old(self).spec_targets()
                }
            }),
    {
        let i = self.find(name);
        if i < self.targets.len() {
            self.targets[i].mark_live();
            assert(self.spec_targets() =~= old(self).spec_targets().update(
                i as int,
                old(self).spec_targets()[i as int].live(),
            ));
            true
        } else {
            false
        }
    }

    /// Record a failure of `name`. `None` when no target has that name;
    /// otherwise whether another retry is allowed. Other targets are
    /// unchanged.
    pub fn mark_failed(&mut self, name: &str) -> (r: Option<bool>)
        ensures
            ({
                let ts = old(self).spec_targets();
                let p = old(self).spec_policy();
                let i = index_of(ts, name@);
                &&& final(self).spec_policy() == p
                &&& if i < ts.len() {
                    &&& final(self).spec_targets() == ts.update(i, ts[i].failed(p))
                    &&& r == Some(!ts[i].failed(p).exhausted(p))
                } else {
                    &&& final(self).spec_targets() == ts
                    &&& r.is_none()
                }
            }),
    {
        let i = self.find(name);
        if i < self.targets.len() {
            let policy = self.policy;
            let ok = self.targets[i].mark_failed(&policy);
            assert(self.spec_targets() =~= old(self).spec_targets().update(
                i as int,
                old(self).spec_targets()[i as int].failed(self.policy),
            ));
            Some(ok)
        } else {
            None
        }
    }

    /// React to a bus event of `name`'s sink: errors and end-of-stream
    /// record a failure, a state change marks the target live (`Some(true)`
    /// even when no target has that name), warnings are ignored (`None`).
    pub fn handle_bus_event(&mut self, name: &str, event: SinkBusEvent) -> (r: Option<bool>)
        ensures
            ({
                let ts = old(self).spec_targets();
                let p = old(self).spec_policy();
                let i = index_of(ts, name@);
                &&& final(self).spec_policy() == p
                &&& if event == SinkBusEvent::Error || event == SinkBusEvent::Eos {
                    if i < ts.len() {
                        &&& final(self).spec_targets() == ts.update(i, ts[i].failed(p))
                        &&& r == Some(!ts[i].failed(p).exhausted(p))
                    } else {
                        &&& final(self).spec_targets() == ts
                        &&& r.is_none()
                    }
                } else if event == SinkBusEvent::StateChanged {
                    &&& r == Some(true)
                    &&& final(self).spec_targets() == if i < ts.len() {
                        ts.update(i, ts[i].live())
                    } else {
                        ts
                    }
                } else {
                    &&& r.is_none()
                    &&& final(self).spec_targets() == ts
                }
            }),
    {
        if event.requires_reconnect() {
            self.mark_failed(name)
        } else if event == SinkBusEvent::StateChanged {
            self.mark_live(name);
            Some(true)
        } else {
            None
        }
    }

    /// Record a failure of `name` only when no retry is pending for it and
    /// it is not already reconnecting, so duplicate bus messages never
    /// schedule duplicate retries. `None` when no target has that name,
    /// `Some(false)` when the failure was ignored.
    pub fn mark_failed_once(&mut self, name: &str) -> (r: Option<bool>)
        ensures
            ({
                let ts = old(self).spec_targets();
                let p = old(self).spec_policy();
                let i = index_of(ts, name@);
                &&& final(self).spec_policy() == p
                &&& if i >= ts.len() {
                    &&& final(self).spec_targets() == ts
                    &&& r.is_none()
                } else if ts[i].retry_at.is_some() || ts[i].state
                    == StreamTargetState::Connecting {
                    &&& final(self).spec_targets() == ts
                    &&& r == Some(false)
                } else {
                    &&& final(self).spec_targets() == ts.update(i, ts[i].failed(p))
                    &&& r == Some(!ts[i].failed(p).exhausted(p))
                }
            }),
    {
        let i = self.find(name);
        if i < self.targets.len() {
            if self.targets[i].retry_at.is_some() || self.targets[i].state
                == StreamTargetState::Connecting {
                return Some(false);
            }
            let policy = self.policy;
            let ok = self.targets[i].mark_failed(&policy);
            assert(self.spec_targets() =~= old(self).spec_targets().update(
                i as int,
                old(self).spec_targets()[i as int].failed(self.policy),
            ));
            Some(ok)
        } else {
            None
        }
    }

    /// Claim every retry that is due at `elapsed`: those targets move to
    /// `Connecting` and their names are returned in configuration order.
    pub fn due_retries(&mut self, elapsed: Duration) -> (r: Vec<String>)
        ensures
            final(self).spec_policy() == old(self).spec_policy(),
            final(self).spec_targets() == claim_due(old(self).spec_targets(), elapsed.spec_nanos()),
            r@.map_values(|s: String| s@) == due_names(
                old(self).spec_targets(),
                elapsed.spec_nanos(),
            ),
    {
        let ghost ts = old(self).spec_targets();
        let ghost e = elapsed.spec_nanos();
        let mut out: Vec<String> = Vec::new();
        let n = self.targets.len();
        let mut i: usize = 0;
        while i < n
            invariant
                n == self.targets@.len(),
                ts.len() == n,
                i <= n,
                e == elapsed.spec_nanos(),
                self.spec_policy() == old(self).spec_policy(),
                forall|k: int|
                    0 <= k < n ==> #[trigger] self.spec_targets()[k] == if k < i {
                        claim_due(ts, e)[k]
                    } else {
                        ts[k]
                    },
                out@.map_values(|s: String| s@) == due_names(ts.subrange(0, i as int), e),
            decreases n - i,
        {
            let ghost before = self.spec_targets();
            let due = match self.targets[i].retry_at {
                Some(at) => at.le(&elapsed),
                None => false,
            };
            proof {
                assert(before[i as int] == ts[i as int]);
                assert(ts.subrange(0, i + 1).drop_last() =~= ts.subrange(0, i as int));
                assert(ts.subrange(0, i + 1).last() == ts[i as int]);
            }
            assert(due == ts[i as int].due(e));
            if due {
                self.targets[i].mark_connecting();
                assert(self.spec_targets() =~= before.update(i as int, before[i as int].connecting()));
                let name = self.targets[i].name.clone();
                out.push(name);
                proof {
                    assert(out@.map_values(|s: String| s@) =~= due_names(
                        ts.subrange(0, i as int),
                        e,
                    ).push(ts[i as int].name));
                }
            } else {
                assert(self.spec_targets() =~= before);
                proof {
                    assert(out@.map_values(|s: String| s@) =~= due_names(
                        ts.subrange(0, i as int),
                        e,
                    ));
                }
            }
            i = i + 1;
        }
        proof {
            assert(ts.subrange(0, n as int) =~= ts);
            assert(self.spec_targets() =~= claim_due(ts, e));
        }
        out
    }

    /// Names of the targets that failed and still have retries left, in
    /// configuration order.
    pub fn retryable_targets(&self) -> (r: Vec<&str>)
        ensures
            r@.map_values(|s: &str| s@) == retryable_names(self.spec_targets(), self.spec_policy()),
            forall|k: int| 0 <= k < r@.len() ==> #[trigger] failed_within_budget(self.spec_targets(), self.spec_policy(), r@[k]@),
    {
        let ghost ts = self.spec_targets();
        let mut out: Vec<&str> = Vec::new();
        let n = self.targets.len();
        let mut i: usize = 0;
        while i < n
            invariant
                n == self.targets@.len(),
                ts == self.spec_targets(),
                i <= n,
                out@.map_values(|s: &str| s@) == retryable_names(
                    ts.subrange(0, i as int),
                    self.spec_policy(),
                ),
            decreases n - i,
        {
            proof {
                assert(ts.subrange(0, i + 1).drop_last() =~= ts.subrange(0, i as int));
                assert(ts.subrange(0, i + 1).last() == ts[i as int]);
            }
            let t = &self.targets[i];
            if t.state == StreamTargetState::Failed && !t.exhausted(&self.policy) {
                out.push(t.name.as_str());
                proof {
                    assert(out@.map_values(|s: &str| s@) =~= retryable_names(
                        ts.subrange(0, i as int),
                        self.spec_policy(),
                    ).push(ts[i as int].name));
                }
            } else {
                proof {
                    assert(out@.map_values(|s: &str| s@) =~= retryable_names(
                        ts.subrange(0, i as int),
                        self.spec_policy(),
                    ));
                }
            }
            i = i + 1;
        }
        proof {
            assert(ts.subrange(0, n as int) =~= ts);
            lemma_retry_offers_only_targets_with_budget(ts, self.spec_policy());
            assert forall|k: int| 0 <= k < out@.len() implies #[trigger] failed_within_budget(ts, self.spec_policy(), out@[k]@) by {
                assert(out@.map_values(|s: &str| s@)[k] == out@[k]@);
                assert(retryable_names(ts, self.spec_policy())[k] == out@[k]@);
            }
        }
        out
    }
}

// ── laws ────────────────────────────────────────────────────────────────────

/// A failure recorded for one target never changes any other target.
pub proof fn lemma_failure_is_target_local(
    ts: Seq<TargetView>,
    p: RetryPolicy,
    name: Seq<char>,
    j: int,
)
    requires
        0 <= j < ts.len(),
        j != index_of(ts, name),
    ensures
        ({
            let i = index_of(ts, name);
            let after = if i < ts.len() {
                ts.update(i, ts[i].failed(p))
            } else {
                ts
            };
            after[j] == ts[j]
        }),
{
    lemma_index_from(ts, name, 0);
}

/// A target that goes live after failures has its attempt counter reset and
/// no retry pending.
pub proof fn lemma_live_resets_attempts(t: TargetView, p: RetryPolicy)
    ensures
        t.failed(p).live().attempts == 0,
        t.failed(p).live().retry_at.is_none(),
        t.failed(p).live().state == StreamTargetState::Live,
{
}

/// Once a failure scheduled a retry, a second failure report for the same
/// target is ignored until that retry is claimed.
pub proof fn lemma_failure_once_is_idempotent(t: TargetView, p: RetryPolicy)
    requires
        t.retry_at.is_none(),
        t.state != StreamTargetState::Connecting,
    ensures
        t.failed(p).retry_at.is_some(),
{
}

/// After `k` consecutive failures from a fresh target, the attempt counter
/// is `k` and a further retry is allowed exactly while `k` is within the
/// budget.
pub open spec fn fail_times(t: TargetView, p: RetryPolicy, k: nat) -> TargetView
    decreases k,
{
    if k == 0 {
        t
    } else {
        fail_times(t, p, (k - 1) as nat).failed(p)
    }
}

/// Consecutive failures count up the attempts, and the retry budget is
/// spent exactly after `max_attempts + 1` failures.
pub proof fn lemma_retry_budget(t: TargetView, p: RetryPolicy, k: nat)
    requires
        t.attempts == 0,
        k <= u32::MAX,
    ensures
        fail_times(t, p, k).attempts == k,
        fail_times(t, p, k).exhausted(p) == (k > p.max_attempts),
    decreases k,
{
    if k > 0 {
        lemma_retry_budget(t, p, (k - 1) as nat);
    }
}

/// The retry of `t` is scheduled no later than `elapsed`.
pub open spec fn retry_time_reached(t: TargetView, elapsed: nat) -> bool {
    t.retry_at is Some && t.retry_at->0 <= elapsed
}

/// Some target named `name` has a retry scheduled no later than `elapsed`.
pub open spec fn retry_due_for(ts: Seq<TargetView>, elapsed: nat, name: Seq<char>) -> bool {
    exists|i: int|
        0 <= i < ts.len() && (#[trigger] ts[i]).name == name && retry_time_reached(ts[i], elapsed)
}

/// Claiming due retries at `elapsed` claims exactly the targets whose retry
/// time has come: each named target had a retry scheduled no later than
/// `elapsed`, every such target is named, now reconnects and has no retry
/// pending, and every other target is unchanged.
pub proof fn lemma_claim_takes_exactly_due_retries(ts: Seq<TargetView>, elapsed: nat)
    ensures
        forall|k: int| 0 <= k < due_names(ts, elapsed).len() ==> #[trigger] retry_due_for(ts, elapsed, due_names(ts, elapsed)[k]),
        forall|i: int| 0 <= i < ts.len() && retry_time_reached(#[trigger] ts[i], elapsed)
            ==> due_names(ts, elapsed).contains(ts[i].name),
        claim_due(ts, elapsed).len() == ts.len(),
        forall|i: int| 0 <= i < ts.len() ==> if retry_time_reached(#[trigger] ts[i], elapsed) {
            &&& claim_due(ts, elapsed)[i].state == StreamTargetState::Connecting
            &&& claim_due(ts, elapsed)[i].retry_at is None
            &&& claim_due(ts, elapsed)[i].name == ts[i].name
            &&& claim_due(ts, elapsed)[i].attempts == ts[i].attempts
        } else {
            claim_due(ts, elapsed)[i] == ts[i]
        },
    decreases ts.len(),
{
    let r = due_names(ts, elapsed);
    if ts.len() > 0 {
        let init = ts.drop_last();
        let rest = due_names(init, elapsed);
        lemma_claim_takes_exactly_due_retries(init, elapsed);
        assert forall|k: int| 0 <= k < r.len() implies #[trigger] retry_due_for(ts, elapsed, r[k]) by {
            if k < rest.len() {
                assert(r[k] == rest[k]);
                assert(retry_due_for(init, elapsed, rest[k]));
                let i = choose|i: int|
                    0 <= i < init.len() && (#[trigger] init[i]).name == rest[k] && retry_time_reached(init[i], elapsed);
                assert(ts[i] == init[i]);
            } else {
                assert(ts[ts.len() - 1] == ts.last());
            }
        }
        assert forall|i: int| 0 <= i < ts.len() && retry_time_reached(#[trigger] ts[i], elapsed)
            implies r.contains(ts[i].name) by {
            if i < init.len() {
                assert(init[i] == ts[i]);
                let k = choose|k: int| 0 <= k < rest.len() && rest[k] == init[i].name;
                assert(r[k] == rest[k]);
            } else {
                assert(ts[i] == ts.last());
                assert(r[rest.len() as int] == ts[i].name);
            }
        }
    }
}

/// Some target named `name` failed and has attempts left under `p`.
pub open spec fn failed_within_budget(ts: Seq<TargetView>, p: RetryPolicy, name: Seq<char>) -> bool {
    exists|i: int|
        0 <= i < ts.len() && (#[trigger] ts[i]).name == name && ts[i].state == StreamTargetState::Failed
            && ts[i].attempts <= p.max_attempts
}

/// Only targets that failed and still have budget are offered for retry:
/// every listed name belongs to a failed target whose attempts do not
/// exceed the policy's maximum, every such target is listed, and a target
/// whose budget is spent (attempts above the maximum) is never listed when
/// no other target shares its name.
pub proof fn lemma_retry_offers_only_targets_with_budget(ts: Seq<TargetView>, p: RetryPolicy)
    ensures
        forall|k: int| 0 <= k < retryable_names(ts, p).len() ==> #[trigger] failed_within_budget(ts, p, retryable_names(ts, p)[k]),
        forall|i: int| 0 <= i < ts.len() && (#[trigger] ts[i]).state == StreamTargetState::Failed
            && ts[i].attempts <= p.max_attempts ==> retryable_names(ts, p).contains(ts[i].name),
        forall|i: int| 0 <= i < ts.len() && (#[trigger] ts[i]).attempts > p.max_attempts
            && (forall|j: int| 0 <= j < ts.len() && j != i ==> ts[j].name != ts[i].name)
            ==> !retryable_names(ts, p).contains(ts[i].name),
    decreases ts.len(),
{
    let r = retryable_names(ts, p);
    if ts.len() > 0 {
        let init = ts.drop_last();
        let rest = retryable_names(init, p);
        lemma_retry_offers_only_targets_with_budget(init, p);
        assert forall|k: int| 0 <= k < r.len() implies #[trigger] failed_within_budget(ts, p, r[k]) by {
            if k < rest.len() {
                assert(r[k] == rest[k]);
                assert(failed_within_budget(init, p, rest[k]));
                let i = choose|i: int| 0 <= i < init.len() && (#[trigger] init[i]).name == rest[k] && init[i].state
                    == StreamTargetState::Failed && init[i].attempts <= p.max_attempts;
                assert(ts[i] == init[i]);
            } else {
                let i = ts.len() - 1;
                assert(ts[i] == ts.last());
                assert(ts.last().retryable(p));
                assert(r[k] == ts.last().name);
                assert(ts[i].name == r[k] && ts[i].state == StreamTargetState::Failed && ts[i].attempts <= p.max_attempts);
            }
        }
        assert forall|i: int| 0 <= i < ts.len() && (#[trigger] ts[i]).state == StreamTargetState::Failed
            && ts[i].attempts <= p.max_attempts implies r.contains(ts[i].name) by {
            if i < init.len() {
                assert(init[i] == ts[i]);
                let k = choose|k: int| 0 <= k < rest.len() && rest[k] == init[i].name;
                assert(r[k] == rest[k]);
            } else {
                assert(ts[i] == ts.last());
                assert(r[rest.len() as int] == ts[i].name);
            }
        }
        assert forall|i: int| 0 <= i < ts.len() && (#[trigger] ts[i]).attempts > p.max_attempts
            && (forall|j: int| 0 <= j < ts.len() && j != i ==> ts[j].name != ts[i].name)
            implies !r.contains(ts[i].name) by {
            if r.contains(ts[i].name) {
                let k = choose|k: int| 0 <= k < r.len() && r[k] == ts[i].name;
                assert(failed_within_budget(ts, p, r[k]));
                let j = choose|j: int| 0 <= j < ts.len() && (#[trigger] ts[j]).name == r[k] && ts[j].state
                    == StreamTargetState::Failed && ts[j].attempts <= p.max_attempts;
                assert(j != i);
            }
        }
    } else {
        assert(r =~= Seq::<Seq<char>>::empty());
    }
}

/// Resolve a sink element name `stream_sink_<index>` to the target index;
/// any other name is ignored.
pub open spec fn sink_index_spec(name: Seq<char>) -> Option<nat> {
    let prefix = "stream_sink_"@;
    if name.len() >= prefix.len() && name.subrange(0, prefix.len() as int) == prefix {
        crate::text::parse_unsigned(name.subrange(prefix.len() as int, name.len() as int), usize::MAX as nat)
    } else {
        None
    }
}

/// Resolve a GStreamer sink name (`stream_sink_<index>`) to the configured
/// target index. Unknown element names are ignored instead of affecting the
/// whole pipeline.
pub fn target_index_from_sink_name(name: &str) -> (r: Option<usize>)
    ensures
        match sink_index_spec(name@) {
            Some(v) => r == Some(v as usize),
            None => r.is_none(),
        },
{
    let prefix = "stream_sink_";
    proof {
        reveal_strlit("stream_sink_");
    }
    if !starts_with(name, prefix) {
        return None;
    }
    let n = name.unicode_len();
    let m = prefix.unicode_len();
    let rest = name.substring_char(m, n);
    match parse_u64_max(rest, usize::MAX as u64) {
        Some(v) => Some(v as usize),
        None => None,
    }
}

/// A command the reconnect worker hands back to the pipeline owner.
#[derive(Debug, Clone, PartialEq, Eq)]
pub enum ReconnectCommand {
    RebuildBranch(String),
    Shutdown,
}

} // verus!
