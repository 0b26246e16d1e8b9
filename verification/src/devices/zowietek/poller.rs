//! The supervision of one appliance: when to adopt, poll and reconnect it, and
//! how long to wait in between.

use vstd::prelude::*;

use crate::crypto::uuid_bytes;
use crate::devices::broadcaster::{DeviceBroadcaster, DeviceDriver};
use crate::devices::driver_registry::DeviceDriverRegistry;
use crate::devices::projection::{clone_candidates, clone_targets, OutputTarget, SourceCandidate};
use crate::devices::registry::DeviceStatus;
use crate::devices::state_machine::{DeviceLifecycle, DeviceState, LifecycleEvent};
use crate::devices::zowietek::client::{
    decide, login_body, read_login, read_reply, request_body, CallStep, RpcVerb, TransportError,
    TransportResponse, ZowietekClientError, ZowietekSession,
};
use crate::devices::zowietek::{
    enumerate_source_candidates, lifecycle_event_for, lifecycle_state_for, parse_decode_targets,
    plan_mode_convergence, streams_healthy, workmode_of, ModeConvergence, WorkMode,
};
use crate::json::{put, Json};
use crate::time::Duration;

verus! {

/// The jitter that selects the whole of a backoff window.
pub const JITTER_SCALE: u64 = 1_000_000;

/// How many commands may wait for an actor.
pub const CONTROL_CHANNEL_DEPTH: usize = 16;

/// How a source or a device is reconnected.
#[derive(Debug, Clone, Copy, PartialEq, Eq, Structural)]
pub struct ReconnectPolicy {
    /// The first wait, in milliseconds.
    pub initial_ms: u32,
    /// The longest wait, in milliseconds.
    pub max_ms: u32,
}

/// The cadence of an actor.
#[derive(Debug, Clone, Copy, PartialEq, Eq, Structural)]
pub struct PollerConfig {
    /// The time between two polls.
    pub poll_period: Duration,
    /// The longest first wait before a reconnect.
    pub backoff_base: Duration,
    /// The longest wait before any reconnect.
    pub backoff_max: Duration,
    /// What the longest wait grows by from attempt to attempt.
    pub backoff_factor: u32,
}

impl PollerConfig {
    /// A cadence below a millisecond, so that a loop under test is never slowed
    /// by its waits.
    pub fn test_fast() -> (r: Self)
        ensures
            r.poll_period@ == 500_000,
            r.poll_period@ < 1_000_000,
            r.backoff_base@ == 500_000,
            r.backoff_base@ < 1_000_000,
            r.backoff_max@ == 4_000_000,
            r.backoff_factor == 2,
    {
        PollerConfig {
            poll_period: Duration::from_nanos(500_000),
            backoff_base: Duration::from_nanos(500_000),
            backoff_max: Duration::from_millis(4),
            backoff_factor: 2,
        }
    }

    /// The default cadence with the waits of a policy.
    pub fn from_reconnect_policy(policy: ReconnectPolicy) -> (r: Self)
        ensures
            r.poll_period@ == 1_000_000_000,
            r.backoff_base@ == policy.initial_ms * 1_000_000,
            r.backoff_max@ == policy.max_ms * 1_000_000,
            r.backoff_factor == 2,
    {
        let d = PollerConfig::default();
        PollerConfig {
            poll_period: d.poll_period,
            backoff_base: Duration::from_millis(policy.initial_ms as u64),
            backoff_max: Duration::from_millis(policy.max_ms as u64),
            backoff_factor: d.backoff_factor,
        }
    }
}

impl Default for PollerConfig {
    fn default() -> (r: Self)
        ensures
            r.poll_period@ == 1_000_000_000,
            r.backoff_base@ == 500_000_000,
            r.backoff_max@ == 30_000_000_000,
            r.backoff_factor == 2,
    {
        PollerConfig {
            poll_period: Duration::from_secs(1),
            backoff_base: Duration::from_millis(500),
            backoff_max: Duration::from_secs(30),
            backoff_factor: 2,
        }
    }
}

// ---- Backoff -----------------------------------------------------------------

/// `base` multiplied by `factor` `n` times.
pub open spec fn grown(base: nat, factor: nat, n: nat) -> nat
    decreases n,
{
    if n == 0 {
        base
    } else {
        grown(base, factor, (n - 1) as nat) * factor
    }
}

/// A span as the backoff counts it: in nanoseconds, as far as sixty-four bits
/// reach.
pub open spec fn span_ns(d: Duration) -> nat {
    if d@ > u64::MAX {
        u64::MAX as nat
    } else {
        d@
    }
}

/// The smaller of two numbers.
pub open spec fn least(a: nat, b: nat) -> nat {
    if a <= b {
        a
    } else {
        b
    }
}

/// The longest wait before attempt `n`.
pub open spec fn ceiling(base: Duration, max: Duration, factor: u32, n: nat) -> nat {
    least(
        span_ns(max),
        grown(
            span_ns(base),
            if factor == 0 {
                1
            } else {
                factor as nat
            },
            n,
        ),
    )
}

/// The wait that a jitter selects out of a window.
pub open spec fn jittered(window: nat, jitter: u64) -> nat {
    window * least(jitter as nat, JITTER_SCALE as nat) / JITTER_SCALE as nat
}

/// A factor of at least one never shrinks.
proof fn lemma_grown_monotone(base: nat, factor: nat, n: nat, m: nat)
    requires
        factor >= 1,
        n <= m,
    ensures
        grown(base, factor, n) <= grown(base, factor, m),
    decreases m,
{
    if n < m {
        lemma_grown_monotone(base, factor, n, (m - 1) as nat);
        let g = grown(base, factor, (m - 1) as nat);
        assert(g <= g * factor) by (nonlinear_arith)
            requires
                factor >= 1,
        ;
    }
}

/// A jittered wait lies within its window.
proof fn lemma_jittered(window: nat, jitter: u64)
    ensures
        jittered(window, jitter) <= window,
        jitter >= JITTER_SCALE ==> jittered(window, jitter) == window,
        jitter == 0 ==> jittered(window, jitter) == 0,
{
    let f = least(jitter as nat, JITTER_SCALE as nat);
    assert(window * f <= window * 1_000_000) by (nonlinear_arith)
        requires
            f <= 1_000_000,
    ;
    assert(jitter == 0 ==> window * f == 0) by (nonlinear_arith)
        requires
            jitter == 0 ==> f == 0,
    ;
}

/// The waits before the reconnects of one device.
#[derive(Debug, Clone, Copy, PartialEq, Eq, Structural)]
pub struct Backoff {
    base: Duration,
    max: Duration,
    factor: u32,
    attempts: u32,
}

impl Backoff {
    /// How many attempts have failed since the last success.
    pub closed spec fn failed(self) -> u32 {
        self.attempts
    }

    /// The waits that this backoff was made with.
    pub closed spec fn made_with(self) -> (Duration, Duration, u32) {
        (self.base, self.max, self.factor)
    }

    /// The longest wait before the next attempt.
    pub open spec fn window(self) -> nat {
        ceiling(
            self.made_with().0,
            self.made_with().1,
            self.made_with().2,
            self.failed() as nat,
        )
    }

    /// The same waits, and no attempt that failed.
    pub closed spec fn cleared(self) -> Backoff {
        Backoff { attempts: 0, ..self }
    }

    /// No attempt has failed.
    pub fn new(config: &PollerConfig) -> (r: Self)
        ensures
            r.failed() == 0,
            r.made_with() == (config.backoff_base, config.backoff_max, config.backoff_factor),
    {
        Backoff {
            base: config.backoff_base,
            max: config.backoff_max,
            factor: config.backoff_factor,
            attempts: 0,
        }
    }

    /// An attempt succeeded.
    pub fn reset(&mut self)
        ensures
            final(self).failed() == 0,
            final(self).made_with() == old(self).made_with(),
            *final(self) == old(self).cleared(),
    {
        self.attempts = 0;
    }

    /// The longest wait before the next attempt, in nanoseconds.
    fn ceiling_ns(&self) -> (r: u64)
        ensures
            r == self.window(),
    {
        let base_ns = duration_to_nanos(self.base);
        let max_ns = duration_to_nanos(self.max);
        let factor: u64 = if self.factor == 0 {
            1
        } else {
            self.factor as u64
        };
        let mut c: u64 = base_ns;
        let mut i: u32 = 0;
        while i < self.attempts
            invariant
                i <= self.attempts,
                1 <= factor <= u32::MAX,
                base_ns == span_ns(self.base),
                max_ns == span_ns(self.max),
                factor == (if self.factor == 0 {
                    1
                } else {
                    self.factor as nat
                }),
                c == grown(base_ns as nat, factor as nat, i as nat),
            decreases self.attempts - i,
        {
            assert(c * factor <= u64::MAX * u32::MAX) by (nonlinear_arith)
                requires
                    c <= u64::MAX,
                    factor <= u32::MAX,
            ;
            let wide: u128 = c as u128 * factor as u128;
            assert(wide == grown(base_ns as nat, factor as nat, (i + 1) as nat));
            if wide >= max_ns as u128 {
                proof {
                    lemma_grown_monotone(
                        base_ns as nat,
                        factor as nat,
                        (i + 1) as nat,
                        self.attempts as nat,
                    );
                }
                return max_ns;
            }
            c = wide as u64;
            i += 1;
        }
        if c < max_ns {
            c
        } else {
            max_ns
        }
    }

    /// An attempt failed: the wait before the next one.
    pub fn next_delay(&mut self, jitter: u64) -> (r: Duration)
        ensures
            r@ == jittered(old(self).window(), jitter),
            final(self).made_with() == old(self).made_with(),
            final(self).failed() == if old(self).failed() == u32::MAX {
                u32::MAX
            } else {
                (old(self).failed() + 1) as u32
            },
    {
        let window = self.ceiling_ns();
        if self.attempts < u32::MAX {
            self.attempts += 1;
        }
        let frac: u64 = if jitter < JITTER_SCALE {
            jitter
        } else {
            JITTER_SCALE
        };
        proof {
            lemma_jittered(window as nat, jitter);
            assert(window * frac <= u64::MAX * 1_000_000) by (nonlinear_arith)
                requires
                    window <= u64::MAX,
                    frac <= 1_000_000,
            ;
        }
        let wide: u128 = window as u128 * frac as u128;
        let delay: u128 = wide / JITTER_SCALE as u128;
        assert(delay == jittered(window as nat, jitter));
        Duration::from_nanos(delay as u64)
    }
}

/// A span in nanoseconds, as far as sixty-four bits reach.
fn duration_to_nanos(d: Duration) -> (r: u64)
    ensures
        r == span_ns(d),
{
    let n = d.as_nanos();
    if n > u64::MAX as u128 {
        u64::MAX
    } else {
        n as u64
    }
}

/// The number whose little-endian bytes come first in `bytes`.
pub open spec fn first_word(bytes: Seq<u8>) -> nat {
    (bytes[0] + bytes[1] * 0x100 + bytes[2] * 0x1_0000 + bytes[3] * 0x100_0000 + bytes[4]
        * 0x1_0000_0000 + bytes[5] * 0x100_0000_0000 + bytes[6] * 0x1_0000_0000_0000 + bytes[7]
        * 0x100_0000_0000_0000) as nat
}

/// The jitter that some random bytes stand for.
pub fn jitter_from(bytes: &Vec<u8>) -> (r: u64)
    requires
        bytes@.len() >= 8,
    ensures
        r == first_word(bytes@) % 1_000_001,
        r <= JITTER_SCALE,
{
    let word: u64 = bytes[0] as u64 + bytes[1] as u64 * 0x100 + bytes[2] as u64 * 0x1_0000
        + bytes[3] as u64 * 0x100_0000 + bytes[4] as u64 * 0x1_0000_0000 + bytes[5] as u64
        * 0x100_0000_0000 + bytes[6] as u64 * 0x1_0000_0000_0000 + bytes[7] as u64
        * 0x100_0000_0000_0000;
    word % (JITTER_SCALE + 1)
}

/// A jitter drawn at random.
pub fn random_jitter() -> (r: u64)
    ensures
        r <= JITTER_SCALE,
        exists|bytes: Seq<u8>|
            bytes.len() == 16 && r == #[trigger] first_word(bytes) % 1_000_001,
{
    let bytes = uuid_bytes();
    let r = jitter_from(&bytes);
    assert(r == first_word(bytes@) % 1_000_001);
    r
}

// ---- Steps -------------------------------------------------------------------

/// A command for an actor.
#[derive(Debug, PartialEq, Eq)]
pub enum PollerControl {
    /// Bring the device into a mode.
    SetMode {
        /// The mode.
        mode: String,
    },
    /// The stored secret was updated.
    SecretUpdated,
    /// Set the volume.
    SetVolume {
        /// The volume in percent.
        percent: u8,
    },
    /// Stop a cast session.
    StopCast,
}

/// What a step of an actor came to.
#[derive(Debug, Clone, Copy, PartialEq, Eq, Structural)]
pub enum PollerStep {
    /// The device is online.
    Online,
    /// The device has a fault.
    Degraded,
    /// The device does not answer.
    Unreachable,
    /// The device rejected our credentials.
    AuthFailed,
    /// Nothing was tried, as the device rejected our credentials before.
    BreakerOpen,
}

/// What a state comes to.
pub open spec fn step_of(state: DeviceState) -> PollerStep {
    match state {
        DeviceState::Online => PollerStep::Online,
        DeviceState::Degraded => PollerStep::Degraded,
        DeviceState::AuthFailed => PollerStep::AuthFailed,
        _ => PollerStep::Unreachable,
    }
}

/// What a state comes to.
pub fn step_for(state: DeviceState) -> (r: PollerStep)
    ensures
        r == step_of(state),
{
    match state {
        DeviceState::Online => PollerStep::Online,
        DeviceState::Degraded => PollerStep::Degraded,
        DeviceState::AuthFailed => PollerStep::AuthFailed,
        _ => PollerStep::Unreachable,
    }
}

// ---- The machine -------------------------------------------------------------

/// What a supervised device is up to.
#[derive(Debug, PartialEq, Eq)]
#[allow(inconsistent_fields)]
pub enum PollPhase {
    /// Nothing.
    Idle,
    /// It is being logged into.
    Login {
        /// To reconnect it, not to adopt it.
        reconnect: bool,
    },
    /// It is being asked for its mode.
    Probe {
        /// To reconnect it, not to adopt it.
        reconnect: bool,
        /// The session that was opened.
        session: ZowietekSession,
        /// How often it was asked before.
        attempt: u32,
    },
    /// It is being asked for its decode table.
    Targets {
        /// How often it was asked before.
        attempt: u32,
    },
    /// It is being asked for its streams.
    Poll {
        /// How often it was asked before.
        attempt: u32,
    },
    /// It is being told to stop.
    Stop {
        /// The mode that is wanted.
        to: String,
        /// How often it was told before.
        attempt: u32,
        /// What the step comes to afterwards.
        outcome: Option<PollerStep>,
    },
    /// It is being told to start.
    Start {
        /// The mode that is wanted.
        to: String,
        /// How often it was told before.
        attempt: u32,
        /// What the step comes to afterwards.
        outcome: Option<PollerStep>,
    },
}

/// A supervised device.
#[derive(Debug, PartialEq, Eq)]
pub struct PollState {
    /// What it is up to.
    pub phase: PollPhase,
    /// Its state.
    pub lifecycle: DeviceState,
    /// The session that is open.
    pub session: Option<ZowietekSession>,
    /// The mode that was last seen of it.
    pub workmode: Option<WorkMode>,
    /// The mode that is wanted of it.
    pub desired_mode: Option<String>,
    /// The waits before its reconnects.
    pub backoff: Backoff,
}

/// What to begin.
#[derive(Debug, Clone, Copy, PartialEq, Eq, Structural)]
pub enum PollTask {
    /// Adopt the device.
    Adopt,
    /// Ask it how it is.
    Poll,
    /// Reconnect it.
    Reconnect,
}

/// What to do next.
pub enum PollAction {
    /// Make a request.
    Post {
        /// The module.
        module: &'static str,
        /// Whether it reads or writes.
        verb: RpcVerb,
        /// The body.
        body: Json,
    },
    /// Wait, then go on.
    Wait(Duration),
    /// The step is over, and came to this.
    Finished(Option<PollerStep>),
    /// Nothing: the event does not belong here.
    Ignore,
}

/// What to do next, its texts as sequences.
pub enum PollActionView {
    /// Make a request of a module.
    Post(Seq<char>, RpcVerb, crate::json::JsonView),
    /// Wait so many nanoseconds, then go on.
    Wait(nat),
    /// The step is over, and came to this.
    Finished(Option<PollerStep>),
    /// Nothing.
    Ignore,
}

impl PollAction {
    /// The action, its texts as sequences.
    pub open spec fn view(self) -> PollActionView {
        match self {
            PollAction::Post { module, verb, body } => PollActionView::Post(module@, verb, body@),
            PollAction::Wait(d) => PollActionView::Wait(d@),
            PollAction::Finished(step) => PollActionView::Finished(step),
            PollAction::Ignore => PollActionView::Ignore,
        }
    }
}

/// What the control plane is told.
#[derive(Debug, PartialEq, Eq)]
pub enum DriverEffect {
    /// The device was adopted.
    Adopted,
    /// The device is in a state.
    Status(DeviceState),
    /// Something went wrong.
    Error(String),
    /// A mode change was started.
    ModeStarted(String),
    /// A mode was reached.
    ModeFinished(String),
    /// A mode was not reached.
    ModeFailed(String),
    /// The streams that the device serves.
    Sources(Vec<SourceCandidate>),
    /// The places where the device decodes.
    Targets(Vec<OutputTarget>),
}

/// What the control plane is told, its texts as sequences.
pub enum DriverEffectView {
    /// The device was adopted.
    Adopted,
    /// The device is in a state.
    Status(DeviceState),
    /// Something went wrong.
    Error(Seq<char>),
    /// A mode change was started.
    ModeStarted(Seq<char>),
    /// A mode was reached.
    ModeFinished(Seq<char>),
    /// A mode was not reached.
    ModeFailed(Seq<char>),
    /// The streams that the device serves.
    Sources(Seq<crate::devices::projection::CandidateView>),
    /// The places where the device decodes.
    Targets(Seq<crate::devices::projection::TargetView>),
}

impl DriverEffect {
    /// The effect, its texts as sequences.
    pub open spec fn view(self) -> DriverEffectView {
        match self {
            DriverEffect::Adopted => DriverEffectView::Adopted,
            DriverEffect::Status(state) => DriverEffectView::Status(state),
            DriverEffect::Error(t) => DriverEffectView::Error(t@),
            DriverEffect::ModeStarted(m) => DriverEffectView::ModeStarted(m@),
            DriverEffect::ModeFinished(m) => DriverEffectView::ModeFinished(m@),
            DriverEffect::ModeFailed(m) => DriverEffectView::ModeFailed(m@),
            DriverEffect::Sources(list) => DriverEffectView::Sources(
                crate::devices::projection::candidate_views(list@),
            ),
            DriverEffect::Targets(list) => DriverEffectView::Targets(
                crate::devices::projection::target_views(list@),
            ),
        }
    }
}

/// The effects, their texts as sequences.
pub open spec fn effect_views(effects: Seq<DriverEffect>) -> Seq<DriverEffectView> {
    effects.map_values(|e: DriverEffect| e@)
}

/// What an event came to.
pub struct PollTurn {
    /// The device after it.
    pub state: PollState,
    /// What to do next.
    pub action: PollActionView,
    /// What the control plane is told, in order.
    pub effects: Seq<DriverEffectView>,
}

/// Whom is supervised.
pub struct Who {
    /// The device.
    pub device_id: Seq<char>,
    /// Its host.
    pub host: Seq<char>,
    /// The name to log in with.
    pub username: Seq<char>,
    /// The password to log in with.
    pub password: Seq<char>,
}

/// Log in.
pub open spec fn login_post(who: Who) -> PollActionView {
    PollActionView::Post(
        "system"@,
        RpcVerb::SetInfo,
        crate::devices::zowietek::client::login_view(who.username, who.password),
    )
}

/// Ask for the mode.
pub open spec fn probe_post() -> PollActionView {
    PollActionView::Post(
        "venc"@,
        RpcVerb::GetInfo,
        crate::devices::zowietek::client::body_view(
            "venc"@,
            "venc"@,
            crate::json::JsonView::Object(seq![("ch"@, crate::json::JsonView::Unsigned(0))]),
        ),
    )
}

/// Ask for the streams and the decode table.
pub open spec fn table_post() -> PollActionView {
    PollActionView::Post(
        "streamplay"@,
        RpcVerb::GetInfo,
        crate::devices::zowietek::client::body_view(
            "streamplay"@,
            "streamplay"@,
            crate::json::JsonView::Null,
        ),
    )
}

/// Stop what runs.
pub open spec fn stop_post() -> PollActionView {
    PollActionView::Post(
        "streamplay"@,
        RpcVerb::SetInfo,
        crate::devices::zowietek::client::body_view(
            "streamplay"@,
            "stop"@,
            crate::json::JsonView::Null,
        ),
    )
}

/// Start a mode.
pub open spec fn start_post(to: Seq<char>) -> PollActionView {
    PollActionView::Post(
        "streamplay"@,
        RpcVerb::SetInfo,
        crate::devices::zowietek::client::body_view(
            "streamplay"@,
            "start"@,
            crate::json::JsonView::Object(seq![("mode"@, crate::json::JsonView::Text(to))]),
        ),
    )
}

/// The step is over.
pub open spec fn finished(
    s: PollState,
    effects: Seq<DriverEffectView>,
    outcome: Option<PollerStep>,
) -> PollTurn {
    PollTurn {
        state: PollState { phase: PollPhase::Idle, ..s },
        action: PollActionView::Finished(outcome),
        effects,
    }
}

/// The device after a lifecycle event.
pub open spec fn moved(s: PollState, event: LifecycleEvent) -> PollState {
    PollState { lifecycle: crate::devices::state_machine::next_state(s.lifecycle, event), ..s }
}

/// A lifecycle event ends the step: the new state is published.
pub open spec fn driven_end(
    s: PollState,
    effects: Seq<DriverEffectView>,
    event: LifecycleEvent,
) -> PollTurn {
    let t = moved(s, event);
    finished(
        t,
        effects.push(DriverEffectView::Status(t.lifecycle)),
        Some(step_of(t.lifecycle)),
    )
}

/// Logging in or probing failed: the failure is published, and ends the step.
pub open spec fn failed_end(
    s: PollState,
    e: crate::devices::zowietek::client::ClientErrorView,
) -> PollTurn {
    driven_end(
        s,
        seq![
            DriverEffectView::Status(crate::devices::zowietek::failed_state(e)),
            DriverEffectView::Error(crate::devices::zowietek::client::client_error_text(e)),
        ],
        crate::devices::zowietek::failed_event(e),
    )
}

/// Bring the device into the mode that is wanted, unless it is in it.
pub open spec fn converging(
    who: Who,
    s: PollState,
    effects: Seq<DriverEffectView>,
    outcome: Option<PollerStep>,
) -> PollTurn {
    match s.desired_mode {
        None => finished(s, effects, outcome),
        Some(to) => if crate::devices::zowietek::convergence(
            who.device_id,
            s.workmode,
            to@,
        ) is AlreadyConverged {
            finished(s, effects, outcome)
        } else {
            let started = effects.push(DriverEffectView::ModeStarted(to@));
            if s.session is None {
                finished(s, started, outcome)
            } else {
                PollTurn {
                    state: PollState { phase: PollPhase::Stop { to, attempt: 0, outcome }, ..s },
                    action: stop_post(),
                    effects: started,
                }
            }
        },
    }
}

/// A device that came online is brought into the mode that is wanted.
pub open spec fn settled(who: Who, s: PollState, effects: Seq<DriverEffectView>) -> PollTurn {
    let step = step_of(s.lifecycle);
    if step == PollerStep::Online {
        converging(who, s, effects, Some(step))
    } else {
        finished(s, effects, Some(step))
    }
}

/// Begin something. Nothing is begun with a device that rejected our
/// credentials.
pub open spec fn begin_turn(who: Who, s: PollState, task: PollTask) -> PollTurn {
    if !(s.phase is Idle) {
        PollTurn { state: s, action: PollActionView::Ignore, effects: Seq::empty() }
    } else if s.lifecycle == DeviceState::AuthFailed {
        let effects = if task == PollTask::Reconnect {
            seq![DriverEffectView::Status(DeviceState::AuthFailed)]
        } else {
            Seq::empty()
        };
        finished(s, effects, Some(PollerStep::BreakerOpen))
    } else {
        match task {
            PollTask::Adopt => PollTurn {
                state: PollState { phase: PollPhase::Login { reconnect: false }, ..s },
                action: login_post(who),
                effects: seq![DriverEffectView::Adopted],
            },
            PollTask::Reconnect => PollTurn {
                state: PollState { phase: PollPhase::Login { reconnect: true }, ..s },
                action: login_post(who),
                effects: Seq::empty(),
            },
            PollTask::Poll => if s.session is None {
                driven_end(s, Seq::empty(), LifecycleEvent::Unreachable)
            } else {
                PollTurn {
                    state: PollState { phase: PollPhase::Poll { attempt: 0 }, ..s },
                    action: table_post(),
                    effects: Seq::empty(),
                }
            },
        }
    }
}

/// The login came back.
pub open spec fn login_turn(
    s: PollState,
    outcome: Result<ZowietekSession, crate::devices::zowietek::client::ClientErrorView>,
) -> PollTurn {
    match (s.phase, outcome) {
        (PollPhase::Login { reconnect }, Ok(session)) => PollTurn {
            state: PollState { phase: PollPhase::Probe { reconnect, session, attempt: 0 }, ..s },
            action: probe_post(),
            effects: Seq::empty(),
        },
        (PollPhase::Login { .. }, Err(e)) => failed_end(s, e),
        _ => PollTurn { state: s, action: PollActionView::Ignore, effects: Seq::empty() },
    }
}

/// The device told its mode.
pub open spec fn probed_turn(
    who: Who,
    s: PollState,
    reconnect: bool,
    session: ZowietekSession,
    data: crate::json::JsonView,
) -> PollTurn {
    let mode = crate::devices::zowietek::probed_mode(data);
    let known = PollState { session: Some(session), workmode: Some(mode), ..s };
    let online = seq![DriverEffectView::Status(DeviceState::Online)];
    if reconnect {
        let t = moved(
            PollState { backoff: s.backoff.cleared(), ..known },
            LifecycleEvent::Reconnect,
        );
        settled(who, t, online.push(DriverEffectView::Status(t.lifecycle)))
    } else {
        let t = moved(known, LifecycleEvent::ProbeOk);
        let effects = online.push(DriverEffectView::Status(t.lifecycle)).push(
            DriverEffectView::Sources(crate::devices::zowietek::served_mounts(who.host)),
        );
        if mode == WorkMode::Decoder {
            PollTurn {
                state: PollState { phase: PollPhase::Targets { attempt: 0 }, ..t },
                action: table_post(),
                effects,
            }
        } else {
            settled(who, t, effects)
        }
    }
}

/// A request is to be made again after a wait.
pub open spec fn asked_again(s: PollState) -> PollState {
    PollState {
        phase: match s.phase {
            PollPhase::Probe { reconnect, session, attempt } => PollPhase::Probe {
                reconnect,
                session,
                attempt: (attempt + 1) as u32,
            },
            PollPhase::Targets { attempt } => PollPhase::Targets { attempt: (attempt + 1) as u32 },
            PollPhase::Poll { attempt } => PollPhase::Poll { attempt: (attempt + 1) as u32 },
            PollPhase::Stop { to, attempt, outcome } => PollPhase::Stop {
                to,
                attempt: (attempt + 1) as u32,
                outcome,
            },
            PollPhase::Start { to, attempt, outcome } => PollPhase::Start {
                to,
                attempt: (attempt + 1) as u32,
                outcome,
            },
            other => other,
        },
        ..s
    }
}

/// The result of a request.
pub open spec fn result_turn(
    who: Who,
    s: PollState,
    result: Result<crate::json::JsonView, crate::devices::zowietek::client::ClientErrorView>,
) -> PollTurn {
    match s.phase {
        PollPhase::Probe { reconnect, session, .. } => match result {
            Ok(data) => probed_turn(who, s, reconnect, session, data),
            Err(e) => failed_end(s, e),
        },
        PollPhase::Targets { .. } => match result {
            Ok(data) => settled(
                who,
                s,
                seq![
                    DriverEffectView::Targets(crate::devices::zowietek::decode_targets(data)),
                ],
            ),
            Err(_) => settled(who, s, Seq::empty()),
        },
        PollPhase::Poll { .. } => match result {
            Ok(data) => driven_end(
                s,
                Seq::empty(),
                if crate::devices::zowietek::all_healthy(data) {
                    LifecycleEvent::Recover
                } else {
                    LifecycleEvent::DeviceFault
                },
            ),
            Err(e) => driven_end(s, Seq::empty(), crate::devices::zowietek::failed_event(e)),
        },
        PollPhase::Stop { to, outcome, .. } => match result {
            Ok(_) => PollTurn {
                state: PollState { phase: PollPhase::Start { to, attempt: 0, outcome }, ..s },
                action: start_post(to@),
                effects: Seq::empty(),
            },
            Err(_) => finished(s, seq![DriverEffectView::ModeFailed(to@)], outcome),
        },
        PollPhase::Start { to, outcome, .. } => match result {
            Ok(_) => finished(
                PollState {
                    workmode: match crate::devices::zowietek::workmode_named(to@) {
                        Some(m) => Some(m),
                        None => s.workmode,
                    },
                    ..s
                },
                seq![DriverEffectView::ModeFinished(to@)],
                outcome,
            ),
            Err(_) => finished(s, seq![DriverEffectView::ModeFailed(to@)], outcome),
        },
        _ => PollTurn { state: s, action: PollActionView::Ignore, effects: Seq::empty() },
    }
}

/// A request is under way.
pub open spec fn requesting(phase: PollPhase) -> bool {
    phase is Probe || phase is Targets || phase is Poll || phase is Stop || phase is Start
}

/// What a reading of a request means.
pub open spec fn call_turn(
    who: Who,
    s: PollState,
    step: crate::devices::zowietek::client::CallView,
) -> PollTurn {
    match step {
        crate::devices::zowietek::client::CallView::Done(result) => result_turn(who, s, result),
        crate::devices::zowietek::client::CallView::Retry(ns) => if requesting(s.phase) {
            PollTurn {
                state: asked_again(s),
                action: PollActionView::Wait(ns),
                effects: Seq::empty(),
            }
        } else {
            PollTurn { state: s, action: PollActionView::Ignore, effects: Seq::empty() }
        },
    }
}

/// The request that is under way.
pub open spec fn current_post(s: PollState) -> PollActionView {
    match s.phase {
        PollPhase::Probe { .. } => probe_post(),
        PollPhase::Targets { .. } => table_post(),
        PollPhase::Poll { .. } => table_post(),
        PollPhase::Stop { .. } => stop_post(),
        PollPhase::Start { to, .. } => start_post(to@),
        _ => PollActionView::Ignore,
    }
}

/// The module of the request that is under way, and how often it was made.
pub open spec fn current_call(s: PollState) -> (Seq<char>, u32) {
    match s.phase {
        PollPhase::Probe { attempt, .. } => ("venc"@, attempt),
        PollPhase::Targets { attempt } => ("streamplay"@, attempt),
        PollPhase::Poll { attempt } => ("streamplay"@, attempt),
        PollPhase::Stop { attempt, .. } => ("streamplay"@, attempt),
        PollPhase::Start { attempt, .. } => ("streamplay"@, attempt),
        _ => ("system"@, 0),
    }
}

/// An operator's command.
pub open spec fn control_turn(who: Who, s: PollState, command: PollerControl) -> PollTurn {
    if !(s.phase is Idle) {
        PollTurn { state: s, action: PollActionView::Ignore, effects: Seq::empty() }
    } else {
        match command {
            PollerControl::SetMode { mode } => converging(
                who,
                PollState { desired_mode: Some(mode), ..s },
                Seq::empty(),
                None,
            ),
            PollerControl::SecretUpdated => {
                let t = moved(
                    PollState { backoff: s.backoff.cleared(), ..s },
                    LifecycleEvent::SecretUpdated,
                );
                finished(t, seq![DriverEffectView::Status(t.lifecycle)], None)
            },
            _ => finished(s, Seq::empty(), None),
        }
    }
}

/// No request was made more often than patience allows.
pub open spec fn poll_wf(s: PollState) -> bool {
    requesting(s.phase) ==> current_call(s).1
        <= crate::devices::zowietek::client::MAX_BUSY_RETRIES
}

// ---- The actor ---------------------------------------------------------------

/// What to do, and what to tell the control plane.
pub struct PollOutcome {
    /// What to do next.
    pub action: PollAction,
    /// What the control plane is told, in order.
    pub effects: Vec<DriverEffect>,
}

/// The device after an event and what the event came to, as one.
pub open spec fn poll_came_to(state: PollState, o: PollOutcome) -> PollTurn {
    PollTurn { state, action: o.action@, effects: effect_views(o.effects@) }
}

/// The supervision of one appliance.
pub struct ZowietekPoller {
    device_id: String,
    host: String,
    username: String,
    password: String,
    config: PollerConfig,
    state: PollState,
}

/// No effects.
fn nothing_told() -> (r: Vec<DriverEffect>)
    ensures
        effect_views(r@) == Seq::<DriverEffectView>::empty(),
{
    let r: Vec<DriverEffect> = Vec::new();
    assert(effect_views(r@) =~= Seq::<DriverEffectView>::empty());
    r
}

/// One more effect.
fn tell(effects: &mut Vec<DriverEffect>, e: DriverEffect)
    ensures
        effect_views(final(effects)@) == effect_views(old(effects)@).push(e@),
{
    effects.push(e);
    assert(effect_views(effects@) =~= effect_views(old(effects)@).push(e@));
}

impl ZowietekPoller {
    /// The device.
    pub closed spec fn view(self) -> PollState {
        self.state
    }

    /// Whom is supervised.
    pub closed spec fn who(self) -> Who {
        Who {
            device_id: self.device_id@,
            host: self.host@,
            username: self.username@,
            password: self.password@,
        }
    }

    /// The cadence.
    pub closed spec fn cadence(self) -> PollerConfig {
        self.config
    }

    /// Only the device itself changed.
    pub open spec fn same_but_state(self, other: ZowietekPoller) -> bool {
        self.who() == other.who() && self.cadence() == other.cadence()
    }

    /// A device that was not adopted yet.
    pub fn new(
        device_id: &str,
        host: &str,
        username: &str,
        password: &str,
        config: PollerConfig,
    ) -> (r: Self)
        ensures
            r.who() == (Who {
                device_id: device_id@,
                host: host@,
                username: username@,
                password: password@,
            }),
            r.cadence() == config,
            poll_wf(r@),
            r@.phase == PollPhase::Idle,
            r@.lifecycle == DeviceState::Adopting,
            r@.session is None,
            r@.workmode is None,
            r@.desired_mode is None,
            r@.backoff.failed() == 0,
            r@.backoff.made_with() == (
                config.backoff_base,
                config.backoff_max,
                config.backoff_factor,
            ),
    {
        ZowietekPoller {
            device_id: device_id.to_owned(),
            host: host.to_owned(),
            username: username.to_owned(),
            password: password.to_owned(),
            config,
            state: PollState {
                phase: PollPhase::Idle,
                lifecycle: DeviceState::Adopting,
                session: None,
                workmode: None,
                desired_mode: None,
                backoff: Backoff::new(&config),
            },
        }
    }

    /// The same device, of which a mode is wanted.
    pub fn with_desired_mode(self, desired_mode: Option<String>) -> (r: Self)
        ensures
            r.same_but_state(self),
            r@ == (PollState { desired_mode, ..self@ }),
    {
        ZowietekPoller {
            device_id: self.device_id,
            host: self.host,
            username: self.username,
            password: self.password,
            config: self.config,
            state: PollState {
                phase: self.state.phase,
                lifecycle: self.state.lifecycle,
                session: self.state.session,
                workmode: self.state.workmode,
                desired_mode,
                backoff: self.state.backoff,
            },
        }
    }

    /// The device.
    pub fn device_id(&self) -> (r: &str)
        ensures
            r@ == self.who().device_id,
    {
        self.device_id.as_str()
    }

    /// The state of the device.
    pub fn state(&self) -> (r: DeviceState)
        ensures
            r == self@.lifecycle,
    {
        self.state.lifecycle
    }

    /// The mode that was last seen of the device.
    pub fn workmode(&self) -> (r: Option<WorkMode>)
        ensures
            r == self@.workmode,
    {
        self.state.workmode
    }

    /// Whether the device rejected our credentials.
    fn breaker_open(&self) -> (r: bool)
        ensures
            r == (self@.lifecycle == DeviceState::AuthFailed),
    {
        self.state.lifecycle == DeviceState::AuthFailed
    }

    /// What the timer begins, where it begins anything: an unreachable device
    /// is reconnected, one that rejected our credentials is left alone.
    pub fn tick(&self) -> (r: Option<PollTask>)
        ensures
            r == match self@.lifecycle {
                DeviceState::Unreachable => Some(PollTask::Reconnect),
                DeviceState::AuthFailed => None,
                _ => Some(PollTask::Poll),
            },
    {
        match self.state.lifecycle {
            DeviceState::Unreachable => Some(PollTask::Reconnect),
            DeviceState::AuthFailed => None,
            _ => Some(PollTask::Poll),
        }
    }

    /// The wait before the next thing is begun.
    pub fn next_delay_with(&mut self, jitter: u64) -> (r: Duration)
        ensures
            final(self).same_but_state(*old(self)),
            old(self)@.lifecycle == DeviceState::Unreachable ==> {
                &&& r@ == jittered(old(self)@.backoff.window(), jitter)
                &&& final(self)@ == (PollState { backoff: final(self)@.backoff, ..old(self)@ })
                &&& final(self)@.backoff.made_with() == old(self)@.backoff.made_with()
                &&& final(self)@.backoff.failed() == if old(self)@.backoff.failed() == u32::MAX {
                    u32::MAX
                } else {
                    (old(self)@.backoff.failed() + 1) as u32
                }
            },
            old(self)@.lifecycle != DeviceState::Unreachable ==> r == old(
                self,
            ).cadence().poll_period && final(self)@ == old(self)@,
    {
        if self.state.lifecycle == DeviceState::Unreachable {
            self.state.backoff.next_delay(jitter)
        } else {
            self.config.poll_period
        }
    }

    /// The wait before the next thing is begun, with a jitter drawn at random.
    pub fn next_delay(&mut self) -> (r: Duration)
        ensures
            final(self).same_but_state(*old(self)),
            old(self)@.lifecycle == DeviceState::Unreachable ==> (exists|jitter: u64|
                jitter <= JITTER_SCALE && r@ == #[trigger] jittered(
                    old(self)@.backoff.window(),
                    jitter,
                )) && final(self)@ == (PollState {
                backoff: final(self)@.backoff,
                ..old(self)@
            }) && final(self)@.backoff.made_with() == old(self)@.backoff.made_with()
                && final(self)@.backoff.failed() == if old(self)@.backoff.failed() == u32::MAX {
                u32::MAX
            } else {
                (old(self)@.backoff.failed() + 1) as u32
            },
            old(self)@.lifecycle != DeviceState::Unreachable ==> r == old(
                self,
            ).cadence().poll_period && final(self)@ == old(self)@,
    {
        let jitter = random_jitter();
        self.next_delay_with(jitter)
    }

    /// Whether a first adoption that came to this waits before the supervision
    /// goes on.
    pub fn waits_after_adopt(step: PollerStep) -> (r: bool)
        ensures
            r == !(step is Online || step is Degraded),
    {
        match step {
            PollerStep::Online => false,
            PollerStep::Degraded => false,
            _ => true,
        }
    }

    /// The step is over.
    fn finish(&mut self, effects: Vec<DriverEffect>, outcome: Option<PollerStep>) -> (r:
        PollOutcome)
        ensures
            final(self).same_but_state(*old(self)),
            poll_came_to(final(self)@, r) == finished(
                old(self)@,
                effect_views(effects@),
                outcome,
            ),
    {
        self.state.phase = PollPhase::Idle;
        PollOutcome { action: PollAction::Finished(outcome), effects }
    }

    /// The event does not belong here.
    fn ignore() -> (r: PollOutcome)
        ensures
            r.action@ == PollActionView::Ignore,
            effect_views(r.effects@) == Seq::<DriverEffectView>::empty(),
    {
        PollOutcome { action: PollAction::Ignore, effects: nothing_told() }
    }

    /// Drive the lifecycle and publish the state.
    fn drive(&mut self, event: LifecycleEvent, effects: &mut Vec<DriverEffect>)
        ensures
            final(self).same_but_state(*old(self)),
            final(self)@ == moved(old(self)@, event),
            effect_views(final(effects)@) == effect_views(old(effects)@).push(
                DriverEffectView::Status(final(self)@.lifecycle),
            ),
    {
        self.state.lifecycle = DeviceLifecycle::transition(self.state.lifecycle, event);
        tell(effects, DriverEffect::Status(self.state.lifecycle));
    }

    /// Drive the lifecycle, which ends the step.
    fn drive_and_finish(&mut self, event: LifecycleEvent, effects: Vec<DriverEffect>) -> (r:
        PollOutcome)
        ensures
            final(self).same_but_state(*old(self)),
            poll_came_to(final(self)@, r) == driven_end(
                old(self)@,
                effect_views(effects@),
                event,
            ),
    {
        let mut told = effects;
        self.drive(event, &mut told);
        let step = step_for(self.state.lifecycle);
        self.finish(told, Some(step))
    }

    /// Logging in or probing failed.
    fn publish_failure(&mut self, err: &ZowietekClientError) -> (r: PollOutcome)
        ensures
            final(self).same_but_state(*old(self)),
            poll_came_to(final(self)@, r) == failed_end(old(self)@, err@),
    {
        let mut effects = nothing_told();
        tell(&mut effects, DriverEffect::Status(lifecycle_state_for(err)));
        tell(&mut effects, DriverEffect::Error(err.message()));
        assert(effect_views(effects@) =~= seq![
            DriverEffectView::Status(crate::devices::zowietek::failed_state(err@)),
            DriverEffectView::Error(crate::devices::zowietek::client::client_error_text(err@)),
        ]);
        self.drive_and_finish(lifecycle_event_for(err), effects)
    }

    fn post_login(&self) -> (r: PollAction)
        ensures
            r@ == login_post(self.who()),
    {
        PollAction::Post {
            module: "system",
            verb: RpcVerb::SetInfo,
            body: login_body(self.username.as_str(), self.password.as_str()),
        }
    }

    fn post_probe() -> (r: PollAction)
        ensures
            r@ == probe_post(),
    {
        let mut fields: Vec<(String, Json)> = Vec::new();
        put(&mut fields, "ch", Json::Unsigned(0));
        let data = Json::object(fields);
        assert(data@->Object_0 =~= seq![("ch"@, crate::json::JsonView::Unsigned(0))]);
        PollAction::Post {
            module: "venc",
            verb: RpcVerb::GetInfo,
            body: request_body("venc", "venc", data),
        }
    }

    fn post_table() -> (r: PollAction)
        ensures
            r@ == table_post(),
    {
        PollAction::Post {
            module: "streamplay",
            verb: RpcVerb::GetInfo,
            body: request_body("streamplay", "streamplay", Json::Null),
        }
    }

    fn post_stop() -> (r: PollAction)
        ensures
            r@ == stop_post(),
    {
        PollAction::Post {
            module: "streamplay",
            verb: RpcVerb::SetInfo,
            body: request_body("streamplay", "stop", Json::Null),
        }
    }

    fn post_start(to: &str) -> (r: PollAction)
        ensures
            r@ == start_post(to@),
    {
        let mut fields: Vec<(String, Json)> = Vec::new();
        put(&mut fields, "mode", Json::string(to));
        let data = Json::object(fields);
        assert(data@->Object_0 =~= seq![("mode"@, crate::json::JsonView::Text(to@))]);
        PollAction::Post {
            module: "streamplay",
            verb: RpcVerb::SetInfo,
            body: request_body("streamplay", "start", data),
        }
    }

    /// Bring the device into the mode that is wanted.
    fn converge_desired_mode(
        &mut self,
        effects: Vec<DriverEffect>,
        outcome: Option<PollerStep>,
    ) -> (r: PollOutcome)
        ensures
            final(self).same_but_state(*old(self)),
            poll_came_to(final(self)@, r) == converging(
                old(self).who(),
                old(self)@,
                effect_views(effects@),
                outcome,
            ),
    {
        let to = match &self.state.desired_mode {
            None => {
                return self.finish(effects, outcome);
            },
            Some(to) => to.clone(),
        };
        match plan_mode_convergence(self.device_id.as_str(), self.state.workmode, to.as_str()) {
            ModeConvergence::AlreadyConverged { .. } => self.finish(effects, outcome),
            ModeConvergence::Switch { .. } => {
                let mut told = effects;
                tell(&mut told, DriverEffect::ModeStarted(to.clone()));
                if self.state.session.is_none() {
                    return self.finish(told, outcome);
                }
                self.state.phase = PollPhase::Stop { to, attempt: 0, outcome };
                PollOutcome { action: ZowietekPoller::post_stop(), effects: told }
            },
        }
    }

    /// Go on with a device whose state is known.
    fn settle(&mut self, effects: Vec<DriverEffect>) -> (r: PollOutcome)
        ensures
            final(self).same_but_state(*old(self)),
            poll_came_to(final(self)@, r) == settled(
                old(self).who(),
                old(self)@,
                effect_views(effects@),
            ),
    {
        let step = step_for(self.state.lifecycle);
        if step == PollerStep::Online {
            self.converge_desired_mode(effects, Some(step))
        } else {
            self.finish(effects, Some(step))
        }
    }

    /// Begin something.
    pub fn begin(&mut self, task: PollTask) -> (r: PollOutcome)
        requires
            poll_wf(old(self)@),
        ensures
            poll_wf(final(self)@),
            final(self).same_but_state(*old(self)),
            poll_came_to(final(self)@, r) == begin_turn(old(self).who(), old(self)@, task),
    {
        match &self.state.phase {
            PollPhase::Idle => {},
            _ => {
                return ZowietekPoller::ignore();
            },
        }
        let mut effects = nothing_told();
        if self.breaker_open() {
            if task == PollTask::Reconnect {
                self.drive(LifecycleEvent::Reconnect, &mut effects);
                assert(effect_views(effects@) =~= seq![
                    DriverEffectView::Status(DeviceState::AuthFailed),
                ]);
            }
            return self.finish(effects, Some(PollerStep::BreakerOpen));
        }
        match task {
            PollTask::Adopt => {
                tell(&mut effects, DriverEffect::Adopted);
                assert(effect_views(effects@) =~= seq![DriverEffectView::Adopted]);
                self.state.phase = PollPhase::Login { reconnect: false };
                PollOutcome { action: self.post_login(), effects }
            },
            PollTask::Reconnect => {
                self.state.phase = PollPhase::Login { reconnect: true };
                PollOutcome { action: self.post_login(), effects }
            },
            PollTask::Poll => {
                if self.state.session.is_none() {
                    return self.drive_and_finish(LifecycleEvent::Unreachable, effects);
                }
                self.state.phase = PollPhase::Poll { attempt: 0 };
                PollOutcome { action: ZowietekPoller::post_table(), effects }
            },
        }
    }

    /// The login came back.
    pub fn on_login(&mut self, outcome: Result<ZowietekSession, ZowietekClientError>) -> (r:
        PollOutcome)
        requires
            poll_wf(old(self)@),
        ensures
            poll_wf(final(self)@),
            final(self).same_but_state(*old(self)),
            poll_came_to(final(self)@, r) == login_turn(
                old(self)@,
                match outcome {
                    Ok(s) => Ok(s),
                    Err(e) => Err(e@),
                },
            ),
    {
        let again = match &self.state.phase {
            PollPhase::Login { reconnect } => *reconnect,
            _ => {
                return ZowietekPoller::ignore();
            },
        };
        match outcome {
            Ok(session) => {
                self.state.phase = PollPhase::Probe { reconnect: again, session, attempt: 0 };
                PollOutcome { action: ZowietekPoller::post_probe(), effects: nothing_told() }
            },
            Err(e) => self.publish_failure(&e),
        }
    }

    /// The device told its mode.
    fn on_probed(&mut self, reconnect: bool, session: ZowietekSession, data: &Json) -> (r:
        PollOutcome)
        ensures
            final(self).same_but_state(*old(self)),
            poll_came_to(final(self)@, r) == probed_turn(
                old(self).who(),
                old(self)@,
                reconnect,
                session,
                data@,
            ),
    {
        let mode = workmode_of(data);
        self.state.session = Some(session);
        self.state.workmode = Some(mode);
        let mut effects = nothing_told();
        tell(&mut effects, DriverEffect::Status(DeviceState::Online));
        assert(effect_views(effects@) =~= seq![DriverEffectView::Status(DeviceState::Online)]);
        if reconnect {
            self.state.backoff.reset();
            self.drive(LifecycleEvent::Reconnect, &mut effects);
            return self.settle(effects);
        }
        self.drive(LifecycleEvent::ProbeOk, &mut effects);
        tell(&mut effects, DriverEffect::Sources(enumerate_source_candidates(self.host.as_str())));
        if mode == WorkMode::Decoder {
            self.state.phase = PollPhase::Targets { attempt: 0 };
            return PollOutcome { action: ZowietekPoller::post_table(), effects };
        }
        self.settle(effects)
    }

    /// The result of the request that is under way.
    fn on_result(&mut self, result: Result<Json, ZowietekClientError>) -> (r: PollOutcome)
        ensures
            final(self).same_but_state(*old(self)),
            poll_came_to(final(self)@, r) == result_turn(
                old(self).who(),
                old(self)@,
                match result {
                    Ok(j) => Ok(j@),
                    Err(e) => Err(e@),
                },
            ),
    {
        match &self.state.phase {
            PollPhase::Probe { reconnect, session, .. } => {
                let again = *reconnect;
                let opened = session.clone();
                match result {
                    Ok(data) => self.on_probed(again, opened, &data),
                    Err(e) => self.publish_failure(&e),
                }
            },
            PollPhase::Targets { .. } => {
                let mut effects = nothing_told();
                if let Ok(data) = result {
                    tell(&mut effects, DriverEffect::Targets(parse_decode_targets(&data)));
                    assert(effect_views(effects@) =~= seq![
                        DriverEffectView::Targets(crate::devices::zowietek::decode_targets(data@)),
                    ]);
                }
                self.settle(effects)
            },
            PollPhase::Poll { .. } => {
                let event = match result {
                    Ok(data) => if streams_healthy(&data) {
                        LifecycleEvent::Recover
                    } else {
                        LifecycleEvent::DeviceFault
                    },
                    Err(e) => lifecycle_event_for(&e),
                };
                self.drive_and_finish(event, nothing_told())
            },
            PollPhase::Stop { to, outcome, .. } => {
                let mode = to.clone();
                let after = *outcome;
                match result {
                    Ok(_) => {
                        let action = ZowietekPoller::post_start(mode.as_str());
                        self.state.phase = PollPhase::Start { to: mode, attempt: 0, outcome: after };
                        PollOutcome { action, effects: nothing_told() }
                    },
                    Err(_) => {
                        let mut effects = nothing_told();
                        let ghost m = mode@;
                        tell(&mut effects, DriverEffect::ModeFailed(mode));
                        assert(effect_views(effects@) =~= seq![DriverEffectView::ModeFailed(m)]);
                        self.finish(effects, after)
                    },
                }
            },
            PollPhase::Start { to, outcome, .. } => {
                let mode = to.clone();
                let after = *outcome;
                let mut effects = nothing_told();
                let ghost m = mode@;
                match result {
                    Ok(_) => {
                        if let Some(reached) = WorkMode::parse(mode.as_str()) {
                            self.state.workmode = Some(reached);
                        }
                        tell(&mut effects, DriverEffect::ModeFinished(mode));
                        assert(effect_views(effects@) =~= seq![DriverEffectView::ModeFinished(m)]);
                    },
                    Err(_) => {
                        tell(&mut effects, DriverEffect::ModeFailed(mode));
                        assert(effect_views(effects@) =~= seq![DriverEffectView::ModeFailed(m)]);
                    },
                }
                self.finish(effects, after)
            },
            _ => ZowietekPoller::ignore(),
        }
    }

    /// What a reading of the request that is under way means.
    pub fn on_call(&mut self, step: CallStep) -> (r: PollOutcome)
        requires
            poll_wf(old(self)@),
            step is Retry ==> current_call(old(self)@).1
                < crate::devices::zowietek::client::MAX_BUSY_RETRIES,
        ensures
            poll_wf(final(self)@),
            final(self).same_but_state(*old(self)),
            poll_came_to(final(self)@, r) == call_turn(old(self).who(), old(self)@, step@),
    {
        match step {
            CallStep::Done(result) => self.on_result(result),
            CallStep::Retry(wait) => {
                match &self.state.phase {
                    PollPhase::Probe { reconnect, session, attempt } => {
                        let again = *reconnect;
                        let opened = session.clone();
                        let n = *attempt;
                        self.state.phase = PollPhase::Probe {
                            reconnect: again,
                            session: opened,
                            attempt: n + 1,
                        };
                    },
                    PollPhase::Targets { attempt } => {
                        let n = *attempt;
                        self.state.phase = PollPhase::Targets { attempt: n + 1 };
                    },
                    PollPhase::Poll { attempt } => {
                        let n = *attempt;
                        self.state.phase = PollPhase::Poll { attempt: n + 1 };
                    },
                    PollPhase::Stop { to, attempt, outcome } => {
                        let mode = to.clone();
                        let n = *attempt;
                        let after = *outcome;
                        self.state.phase = PollPhase::Stop {
                            to: mode,
                            attempt: n + 1,
                            outcome: after,
                        };
                    },
                    PollPhase::Start { to, attempt, outcome } => {
                        let mode = to.clone();
                        let n = *attempt;
                        let after = *outcome;
                        self.state.phase = PollPhase::Start {
                            to: mode,
                            attempt: n + 1,
                            outcome: after,
                        };
                    },
                    _ => {
                        return ZowietekPoller::ignore();
                    },
                }
                PollOutcome { action: PollAction::Wait(wait), effects: nothing_told() }
            },
        }
    }

    /// The module of the request that is under way, and how often it was made.
    fn call_under_way(&self) -> (r: (&'static str, u32))
        ensures
            (r.0@, r.1) == current_call(self@),
    {
        match &self.state.phase {
            PollPhase::Probe { attempt, .. } => ("venc", *attempt),
            PollPhase::Targets { attempt } => ("streamplay", *attempt),
            PollPhase::Poll { attempt } => ("streamplay", *attempt),
            PollPhase::Stop { attempt, .. } => ("streamplay", *attempt),
            PollPhase::Start { attempt, .. } => ("streamplay", *attempt),
            _ => ("system", 0),
        }
    }

    /// A reply came.
    pub fn on_reply(&mut self, reply: Result<TransportResponse, TransportError>) -> (r: PollOutcome)
        requires
            poll_wf(old(self)@),
        ensures
            poll_wf(final(self)@),
            final(self).same_but_state(*old(self)),
            old(self)@.phase is Login ==> match crate::devices::zowietek::client::login_outcome(
                crate::devices::zowietek::client::reply_view(reply),
            ) {
                Ok(uuid) => exists|s: ZowietekSession|
                    s@ == uuid && poll_came_to(final(self)@, r) == #[trigger] login_turn(
                        old(self)@,
                        Ok(s),
                    ),
                Err(e) => poll_came_to(final(self)@, r) == login_turn(old(self)@, Err(e)),
            },
            !(old(self)@.phase is Login) ==> poll_came_to(final(self)@, r) == call_turn(
                old(self).who(),
                old(self)@,
                crate::devices::zowietek::client::after_reading(
                    current_call(old(self)@).0,
                    crate::devices::zowietek::client::reading(
                        current_call(old(self)@).0,
                        crate::devices::zowietek::client::reply_view(reply),
                    ),
                    current_call(old(self)@).1,
                ),
            ),
    {
        if let PollPhase::Login { .. } = &self.state.phase {
            let outcome = read_login(reply);
            let ghost o = outcome;
            let r = self.on_login(outcome);
            proof {
                if let Ok(s) = o {
                    assert(poll_came_to(self@, r) == login_turn(old(self)@, Ok(s)));
                }
            }
            return r;
        }
        let (module, attempt) = self.call_under_way();
        let reading = read_reply(module, reply);
        let step = decide(module, reading, attempt);
        self.on_call(step)
    }

    /// The wait before a request is made again is over.
    pub fn on_waited(&self) -> (r: PollAction)
        ensures
            r@ == current_post(self@),
    {
        match &self.state.phase {
            PollPhase::Probe { .. } => ZowietekPoller::post_probe(),
            PollPhase::Targets { .. } => ZowietekPoller::post_table(),
            PollPhase::Poll { .. } => ZowietekPoller::post_table(),
            PollPhase::Stop { .. } => ZowietekPoller::post_stop(),
            PollPhase::Start { to, .. } => ZowietekPoller::post_start(to.as_str()),
            _ => PollAction::Ignore,
        }
    }

    /// The secret was updated.
    fn secret_updated(&mut self) -> (r: PollOutcome)
        requires
            old(self)@.phase is Idle,
        ensures
            final(self).same_but_state(*old(self)),
            poll_came_to(final(self)@, r) == control_turn(
                old(self).who(),
                old(self)@,
                PollerControl::SecretUpdated,
            ),
    {
        let mut effects = nothing_told();
        self.state.backoff.reset();
        self.drive(LifecycleEvent::SecretUpdated, &mut effects);
        assert(effect_views(effects@) =~= seq![DriverEffectView::Status(self@.lifecycle)]);
        self.finish(effects, None)
    }

    /// Give up what is under way. What it already came to stands.
    pub fn abandon(&mut self)
        requires
            poll_wf(old(self)@),
        ensures
            poll_wf(final(self)@),
            final(self).same_but_state(*old(self)),
            final(self)@ == (PollState { phase: PollPhase::Idle, ..old(self)@ }),
    {
        self.state.phase = PollPhase::Idle;
    }

    /// An operator's command.
    pub fn handle_control(&mut self, command: PollerControl) -> (r: PollOutcome)
        requires
            poll_wf(old(self)@),
        ensures
            poll_wf(final(self)@),
            final(self).same_but_state(*old(self)),
            poll_came_to(final(self)@, r) == control_turn(old(self).who(), old(self)@, command),
    {
        match &self.state.phase {
            PollPhase::Idle => {},
            _ => {
                return ZowietekPoller::ignore();
            },
        }
        match command {
            PollerControl::SetMode { mode } => {
                self.state.desired_mode = Some(mode);
                self.converge_desired_mode(nothing_told(), None)
            },
            PollerControl::SecretUpdated => self.secret_updated(),
            _ => self.finish(nothing_told(), None),
        }
    }

    /// The latest status that was published for this device.
    pub fn published_status(&self, broadcaster: &DeviceBroadcaster) -> (r: Option<DeviceStatus>)
        requires
            broadcaster.wf(),
        ensures
            match r {
                Some(s) => broadcaster.statuses().contains_key(self.who().device_id) && s@
                    == broadcaster.statuses()[self.who().device_id],
                None => !broadcaster.statuses().contains_key(self.who().device_id),
            },
    {
        broadcaster.registry().snapshot(self.device_id.as_str())
    }

    /// Tell the control plane.
    pub fn publish(
        &self,
        effects: &Vec<DriverEffect>,
        broadcaster: &mut DeviceBroadcaster,
        drivers: &mut DeviceDriverRegistry,
    )
        requires
            old(broadcaster).wf(),
            old(drivers).wf(),
        ensures
            final(broadcaster).wf(),
            final(drivers).wf(),
            ({
                let after = told(
                    self.who().device_id,
                    (old(broadcaster).published(), old(broadcaster).statuses(), old(drivers)@),
                    effect_views(effects@),
                );
                &&& final(broadcaster).published() == after.0
                &&& final(broadcaster).statuses() == after.1
                &&& final(drivers)@ == after.2
            }),
    {
        let mut i: usize = 0;
        let ghost es = effect_views(effects@);
        let ghost first = (broadcaster.published(), broadcaster.statuses(), drivers@);
        let ghost id = self.who().device_id;
        assert(es.take(0) =~= Seq::<DriverEffectView>::empty());
        while i < effects.len()
            invariant
                i <= effects.len(),
                es == effect_views(effects@),
                id == self.who().device_id,
                broadcaster.wf(),
                drivers.wf(),
                (broadcaster.published(), broadcaster.statuses(), drivers@) == told(
                    id,
                    first,
                    es.take(i as int),
                ),
            decreases effects.len() - i,
        {
            proof {
                let next = es.take(i + 1);
                assert(next.drop_last() =~= es.take(i as int));
                assert(next.last() == effects@[i as int]@);
            }
            let id_text = self.device_id.as_str();
            match &effects[i] {
                DriverEffect::Adopted => broadcaster.adopted(id_text, DeviceDriver::Zowietek, None),
                DriverEffect::Status(state) => broadcaster.status(id_text, *state),
                DriverEffect::Error(text) => broadcaster.error(id_text, text.as_str()),
                DriverEffect::ModeStarted(mode) => broadcaster.mode_started(id_text, mode.as_str()),
                DriverEffect::ModeFinished(mode) => broadcaster.mode_finished(
                    id_text,
                    mode.as_str(),
                ),
                DriverEffect::ModeFailed(mode) => broadcaster.mode_failed(id_text, mode.as_str()),
                DriverEffect::Sources(list) => drivers.set_source_candidates(
                    id_text,
                    clone_candidates(list),
                ),
                DriverEffect::Targets(list) => drivers.set_output_targets(
                    id_text,
                    clone_targets(list),
                ),
            }
            i += 1;
        }
        assert(es.take(i as int) =~= es);
    }
}

/// What a direct poll publishes, from the result of the request for the
/// streams: whether they are healthy, or the failure.
pub open spec fn poll_once_told(
    result: Result<crate::json::JsonView, crate::devices::zowietek::client::ClientErrorView>,
) -> Seq<DriverEffectView> {
    match result {
        Ok(data) => seq![
            DriverEffectView::Status(
                if crate::devices::zowietek::all_healthy(data) {
                    DeviceState::Online
                } else {
                    DeviceState::Degraded
                },
            ),
        ],
        Err(e) => seq![
            DriverEffectView::Status(crate::devices::zowietek::failed_state(e)),
            DriverEffectView::Error(crate::devices::zowietek::client::client_error_text(e)),
        ],
    }
}

/// What a direct poll publishes.
pub fn poll_once(result: &Result<Json, ZowietekClientError>) -> (r: Vec<DriverEffect>)
    ensures
        effect_views(r@) == poll_once_told(
            match *result {
                Ok(j) => Ok(j@),
                Err(e) => Err(e@),
            },
        ),
{
    let mut effects = nothing_told();
    match result {
        Ok(data) => {
            let state = if streams_healthy(data) {
                DeviceState::Online
            } else {
                DeviceState::Degraded
            };
            tell(&mut effects, DriverEffect::Status(state));
            assert(effect_views(effects@) =~= poll_once_told(Ok(data@)));
        },
        Err(e) => {
            tell(&mut effects, DriverEffect::Status(lifecycle_state_for(e)));
            tell(&mut effects, DriverEffect::Error(e.message()));
            assert(effect_views(effects@) =~= poll_once_told(Err(e@)));
        },
    }
    effects
}

/// What was published, the statuses, and what the devices offer.
pub type Plane = (
    Seq<crate::devices::broadcaster::EventView>,
    Map<Seq<char>, crate::devices::registry::StatusView>,
    Map<Seq<char>, crate::devices::driver_registry::FacetsView>,
);

/// The control plane after one effect on a device.
pub open spec fn told_one(id: Seq<char>, p: Plane, e: DriverEffectView) -> Plane {
    match e {
        DriverEffectView::Adopted => (
            p.0.push(
                crate::devices::broadcaster::EventView::Adopted(
                    id,
                    crate::devices::broadcaster::driver_name(DeviceDriver::Zowietek),
                    None,
                ),
            ),
            if p.1.contains_key(id) {
                p.1
            } else {
                p.1.insert(
                    id,
                    crate::devices::registry::bare_status(id, DeviceState::Adopting),
                )
            },
            p.2,
        ),
        DriverEffectView::Status(state) => {
            let s = crate::devices::registry::bare_status(id, state);
            (
                p.0.push(crate::devices::broadcaster::EventView::Status(s)),
                p.1.insert(id, s),
                p.2,
            )
        },
        DriverEffectView::Error(text) => (
            p.0.push(crate::devices::broadcaster::EventView::Error(id, text)),
            p.1,
            p.2,
        ),
        DriverEffectView::ModeStarted(mode) => (
            p.0.push(
                crate::devices::broadcaster::mode_event(
                    id,
                    mode,
                    crate::devices::broadcaster::ModePhase::Started,
                ),
            ),
            p.1,
            p.2,
        ),
        DriverEffectView::ModeFinished(mode) => (
            p.0.push(
                crate::devices::broadcaster::mode_event(
                    id,
                    mode,
                    crate::devices::broadcaster::ModePhase::Finished,
                ),
            ),
            p.1,
            p.2,
        ),
        DriverEffectView::ModeFailed(mode) => (
            p.0.push(
                crate::devices::broadcaster::mode_event(
                    id,
                    mode,
                    crate::devices::broadcaster::ModePhase::Failed,
                ),
            ),
            p.1,
            p.2,
        ),
        DriverEffectView::Sources(list) => (
            p.0,
            p.1,
            p.2.insert(
                id,
                (crate::devices::driver_registry::FacetsView {
                    source_candidates: list,
                    ..crate::devices::driver_registry::facets_in(p.2, id)
                }),
            ),
        ),
        DriverEffectView::Targets(list) => (
            p.0,
            p.1,
            p.2.insert(
                id,
                (crate::devices::driver_registry::FacetsView {
                    output_targets: list,
                    ..crate::devices::driver_registry::facets_in(p.2, id)
                }),
            ),
        ),
    }
}

/// The control plane after some effects on a device.
pub open spec fn told(id: Seq<char>, p: Plane, effects: Seq<DriverEffectView>) -> Plane
    decreases effects.len(),
{
    if effects.len() == 0 {
        p
    } else {
        told_one(id, told(id, p, effects.drop_last()), effects.last())
    }
}

// ---- Laws --------------------------------------------------------------------

/// No wait is longer than the cap, and the window never shrinks from one failed
/// attempt to the next.
pub proof fn law_backoff_is_capped_and_grows(
    base: Duration,
    max: Duration,
    factor: u32,
    n: nat,
    jitter: u64,
)
    ensures
        jittered(ceiling(base, max, factor, n), jitter) <= ceiling(base, max, factor, n),
        ceiling(base, max, factor, n) <= span_ns(max),
        ceiling(base, max, factor, n) <= ceiling(base, max, factor, n + 1),
{
    lemma_jittered(ceiling(base, max, factor, n), jitter);
    let f: nat = if factor == 0 {
        1
    } else {
        factor as nat
    };
    lemma_grown_monotone(span_ns(base), f, n, n + 1);
}

/// No jitter is no wait, and full jitter is the whole window.
pub proof fn law_jitter_spans_the_window(window: nat, jitter: u64)
    ensures
        jittered(window, 0) == 0,
        jitter >= JITTER_SCALE ==> jittered(window, jitter) == window,
{
    lemma_jittered(window, 0);
    lemma_jittered(window, jitter);
}

/// Nothing is asked of a device that rejected our credentials: whatever is
/// begun, nothing is sent and the device stays as it is.
pub proof fn law_breaker_sends_nothing(who: Who, s: PollState, task: PollTask)
    requires
        s.phase is Idle,
        s.lifecycle == DeviceState::AuthFailed,
    ensures
        begin_turn(who, s, task).action == PollActionView::Finished(Some(PollerStep::BreakerOpen)),
        begin_turn(who, s, task).state == s,
{
}

/// An updated secret is the way out: the device is adopted anew.
pub proof fn law_new_secret_rearms_the_probe(who: Who, s: PollState)
    requires
        s.phase is Idle,
        s.lifecycle == DeviceState::AuthFailed,
    ensures
        ({
            let t = control_turn(who, s, PollerControl::SecretUpdated);
            &&& t.state.lifecycle == DeviceState::Adopting
            &&& begin_turn(who, t.state, PollTask::Adopt).action == login_post(who)
        }),
{
}

/// What runs is closed before what is wanted is opened: the start is sent only
/// once the stop succeeded, and the stop is sent only where the mode differs.
pub proof fn law_close_before_open(
    who: Who,
    s: PollState,
    result: Result<crate::json::JsonView, crate::devices::zowietek::client::ClientErrorView>,
)
    ensures
        result_turn(who, s, result).state.phase is Start ==> s.phase is Stop && result is Ok,
        result_turn(who, s, result).state.phase is Stop ==> {
            let t = result_turn(who, s, result).state;
            &&& t.lifecycle == DeviceState::Online
            &&& t.desired_mode is Some
            &&& crate::devices::zowietek::convergence(
                who.device_id,
                t.workmode,
                t.desired_mode->0@,
            ) is Switch
        },
{
}

/// The last state that is published of a step is the state that the device is
/// in afterwards.
pub proof fn law_published_state_is_the_lifecycle(
    s: PollState,
    effects: Seq<DriverEffectView>,
    event: LifecycleEvent,
    e: crate::devices::zowietek::client::ClientErrorView,
)
    ensures
        driven_end(s, effects, event).effects.last() == DriverEffectView::Status(
            driven_end(s, effects, event).state.lifecycle,
        ),
        failed_end(s, e).effects.last() == DriverEffectView::Status(
            failed_end(s, e).state.lifecycle,
        ),
{
}

/// The last mode that an operator asked for is the one that later steps bring
/// the device into.
pub proof fn law_operator_mode_is_remembered(who: Who, s: PollState, mode: String)
    requires
        s.phase is Idle,
    ensures
        control_turn(who, s, PollerControl::SetMode { mode }).state.desired_mode == Some(mode),
{
}

/// A mode that could not be reached is reported, and stays wanted.
pub proof fn law_failed_mode_stays_wanted(
    who: Who,
    s: PollState,
    e: crate::devices::zowietek::client::ClientErrorView,
)
    requires
        s.phase is Stop || s.phase is Start,
    ensures
        ({
            let t = result_turn(who, s, Err(e));
            &&& t.state.desired_mode == s.desired_mode
            &&& t.state.workmode == s.workmode
            &&& t.effects == seq![
                DriverEffectView::ModeFailed(
                    match s.phase {
                        PollPhase::Stop { to, .. } => to@,
                        PollPhase::Start { to, .. } => to@,
                        _ => Seq::empty(),
                    },
                ),
            ]
        }),
{
}

/// A poll tells how a device is. Where every stream is healthy, a device that was
/// online or degraded is online afterwards; where a stream says that it is not, the
/// device is degraded; where the device cannot be asked it is out of reach, and
/// where it rejects us it is behind the breaker. The state that is published and
/// the step that is answered are that state, and nothing else is told.
pub proof fn law_poll_tells_how_the_device_is(
    who: Who,
    s: PollState,
    data: crate::json::JsonView,
    rows: Seq<crate::json::JsonView>,
    bad: int,
    e: crate::devices::zowietek::client::ClientErrorView,
)
    requires
        s.phase is Poll,
        s.lifecycle == DeviceState::Online || s.lifecycle == DeviceState::Degraded,
        data.field("streams"@) == Some(crate::json::JsonView::List(rows)),
    ensures
        (forall|j: int|
            0 <= j < rows.len() ==> (#[trigger] rows[j]).field("healthy"@) != Some(
                crate::json::JsonView::Bool(false),
            )) ==> {
            let t = result_turn(who, s, Ok(data));
            &&& t.state.lifecycle == DeviceState::Online
            &&& t.action == PollActionView::Finished(Some(PollerStep::Online))
            &&& t.effects == seq![DriverEffectView::Status(DeviceState::Online)]
            &&& t.state.phase is Idle
        },
        0 <= bad < rows.len() && rows[bad].field("healthy"@) == Some(
            crate::json::JsonView::Bool(false),
        ) ==> {
            let t = result_turn(who, s, Ok(data));
            &&& t.state.lifecycle == DeviceState::Degraded
            &&& t.action == PollActionView::Finished(Some(PollerStep::Degraded))
            &&& t.effects == seq![DriverEffectView::Status(DeviceState::Degraded)]
            &&& t.state.phase is Idle
        },
        e is Unreachable ==> {
            let t = result_turn(who, s, Err(e));
            &&& t.state.lifecycle == DeviceState::Unreachable
            &&& t.action == PollActionView::Finished(Some(PollerStep::Unreachable))
            &&& t.effects == seq![DriverEffectView::Status(DeviceState::Unreachable)]
        },
        (e matches crate::devices::zowietek::client::ClientErrorView::Status(_, code, _)
            && crate::devices::zowietek::client::status_number(code) == Some(2nat)) ==> {
            let t = result_turn(who, s, Err(e));
            &&& t.state.lifecycle == DeviceState::AuthFailed
            &&& t.effects == seq![DriverEffectView::Status(DeviceState::AuthFailed)]
        },
{
    assert(Seq::<DriverEffectView>::empty().push(DriverEffectView::Status(DeviceState::Online))
        =~= seq![DriverEffectView::Status(DeviceState::Online)]);
    assert(Seq::<DriverEffectView>::empty().push(DriverEffectView::Status(DeviceState::Degraded))
        =~= seq![DriverEffectView::Status(DeviceState::Degraded)]);
    assert(Seq::<DriverEffectView>::empty().push(DriverEffectView::Status(DeviceState::Unreachable))
        =~= seq![DriverEffectView::Status(DeviceState::Unreachable)]);
    assert(Seq::<DriverEffectView>::empty().push(DriverEffectView::Status(DeviceState::AuthFailed))
        =~= seq![DriverEffectView::Status(DeviceState::AuthFailed)]);
}

/// What each state is answered as.
pub proof fn law_step_names_the_state(state: DeviceState)
    ensures
        step_of(state) == PollerStep::Online <==> state == DeviceState::Online,
        step_of(state) == PollerStep::Degraded <==> state == DeviceState::Degraded,
        state == DeviceState::Unreachable ==> step_of(state) == PollerStep::Unreachable,
        state == DeviceState::AuthFailed ==> step_of(state) == PollerStep::AuthFailed,
{
}

/// A poll asks the device for its streams, unless there is no session to ask in:
/// then it is out of reach.
pub proof fn law_poll_asks_for_the_streams(who: Who, s: PollState)
    requires
        s.phase is Idle,
        s.lifecycle == DeviceState::Online || s.lifecycle == DeviceState::Degraded,
    ensures
        s.session is Some ==> {
            let t = begin_turn(who, s, PollTask::Poll);
            &&& t.action matches PollActionView::Post(module, verb, body) && module == "streamplay"@
                && verb == RpcVerb::GetInfo && body.field("group"@) == Some(
                crate::json::JsonView::Text("streamplay"@),
            )
            &&& t.state.phase is Poll
            &&& t.state.lifecycle == s.lifecycle
            &&& t.effects.len() == 0
        },
        s.session is None ==> begin_turn(who, s, PollTask::Poll).state.lifecycle
            == DeviceState::Unreachable,
{
    reveal_with_fuel(crate::json::field_of, 4);
}

/// Adopting and reconnecting log in first, with the credentials of the device. The
/// login that succeeds is followed by the question for the mode, in the session
/// that it opened; the one that fails ends the step.
pub proof fn law_login_comes_first(
    who: Who,
    s: PollState,
    session: ZowietekSession,
    e: crate::devices::zowietek::client::ClientErrorView,
)
    requires
        s.phase is Idle,
        s.lifecycle != DeviceState::AuthFailed,
    ensures
        ({
            let adopt = begin_turn(who, s, PollTask::Adopt);
            let again = begin_turn(who, s, PollTask::Reconnect);
            let asked = login_turn(adopt.state, Ok(session));
            let failed = login_turn(adopt.state, Err(e));
            &&& adopt.effects == seq![DriverEffectView::Adopted]
            &&& again.effects.len() == 0
            &&& adopt.action == again.action
            &&& adopt.action matches PollActionView::Post(module, verb, body) && module == "system"@
                && verb == RpcVerb::SetInfo
            &&& asked.state.phase == (PollPhase::Probe { reconnect: false, session, attempt: 0 })
            &&& asked.action matches PollActionView::Post(module, verb, body) && module == "venc"@
                && verb == RpcVerb::GetInfo
            &&& failed.state.phase is Idle
            &&& failed.action is Finished
            &&& e is Unreachable && s.lifecycle != DeviceState::Discovered ==> failed.state.lifecycle
                == DeviceState::Unreachable
            &&& failed.effects.len() == 3
            &&& failed.effects[1] == DriverEffectView::Error(
                crate::devices::zowietek::client::client_error_text(e),
            )
        }),
{
}

/// A probe that succeeds brings a device online, whatever kept it from being, with
/// the session that was opened and the mode that it told. Its streams are listed
/// where it was adopted; its decode table is asked for where it decodes; and a wait
/// before a reconnect starts small again.
pub proof fn law_probe_brings_a_device_online(
    who: Who,
    s: PollState,
    session: ZowietekSession,
    attempt: u32,
    reconnect: bool,
    data: crate::json::JsonView,
)
    requires
        s.phase == (PollPhase::Probe { reconnect, session, attempt }),
        reconnect ==> s.lifecycle == DeviceState::Unreachable,
        !reconnect ==> s.lifecycle == DeviceState::Adopting || s.lifecycle == DeviceState::Degraded
            || s.lifecycle == DeviceState::Unreachable,
        s.desired_mode is None,
    ensures
        ({
            let t = result_turn(who, s, Ok(data));
            &&& t.state.lifecycle == DeviceState::Online
            &&& t.state.session == Some(session)
            &&& t.effects[0] == DriverEffectView::Status(DeviceState::Online)
            &&& t.effects[1] == DriverEffectView::Status(DeviceState::Online)
            &&& reconnect ==> t.effects.len() == 2 && t.state.backoff == s.backoff.cleared()
            &&& !reconnect ==> t.effects.len() == 3 && t.effects[2] == DriverEffectView::Sources(
                crate::devices::zowietek::served_mounts(who.host),
            ) && t.state.backoff == s.backoff
            &&& data.field("workmode"@) == Some(crate::json::JsonView::Text("decoder"@)) ==> {
                &&& t.state.workmode == Some(WorkMode::Decoder)
                &&& !reconnect ==> t.state.phase is Targets
            }
            &&& data.field("workmode"@) is None ==> {
                &&& t.state.workmode == Some(WorkMode::Encoder)
                &&& t.action == PollActionView::Finished(Some(PollerStep::Online))
            }
        }),
{
    crate::devices::zowietek::law_probe_tells_the_mode(data, "decoder"@);
}

/// A device that came online in another mode than the wanted one is brought into
/// it: that is announced, what runs is stopped, the wanted mode is started, and
/// the device is then in it.
pub proof fn law_wanted_mode_is_reached(who: Who, s: PollState, data: crate::json::JsonView)
    requires
        s.phase is Targets,
        s.lifecycle == DeviceState::Online,
        s.session is Some,
        s.workmode == Some(WorkMode::Decoder),
        s.desired_mode is Some,
        s.desired_mode->0@ == "encoder"@,
    ensures
        ({
            let stopping = result_turn(who, s, Ok(data));
            let starting = result_turn(who, stopping.state, Ok(data));
            let done = result_turn(who, starting.state, Ok(data));
            &&& stopping.effects.last() == DriverEffectView::ModeStarted("encoder"@)
            &&& stopping.action matches PollActionView::Post(module, verb, body) && module
                == "streamplay"@ && verb == RpcVerb::SetInfo && body.field("opt"@) == Some(
                crate::json::JsonView::Text("stop"@),
            )
            &&& starting.action matches PollActionView::Post(module, verb, body) && module
                == "streamplay"@ && verb == RpcVerb::SetInfo && body.field("opt"@) == Some(
                crate::json::JsonView::Text("start"@),
            )
            &&& done.effects == seq![DriverEffectView::ModeFinished("encoder"@)]
            &&& done.state.workmode == Some(WorkMode::Encoder)
            &&& done.action == PollActionView::Finished(Some(PollerStep::Online))
        }),
{
    reveal_with_fuel(crate::json::field_of, 4);
    reveal_strlit("decoder");
    reveal_strlit("encoder");
    assert("decoder"@[0] == 'd' && "encoder"@[0] == 'e');
    reveal_strlit("group");
    reveal_strlit("opt");
    assert("group"@.len() == 5 && "opt"@.len() == 3);
}

/// The first wait is at most the first span, each further one at most so many times
/// as long, and none longer than the cap; half the jitter is half the wait.
pub proof fn law_backoff_windows(base: Duration, max: Duration, factor: u32, window: nat)
    requires
        base@ <= max@ <= u64::MAX,
        1 <= factor,
    ensures
        ceiling(base, max, factor, 0) == base@,
        base@ * factor <= max@ ==> ceiling(base, max, factor, 1) == base@ * factor,
        base@ * factor > max@ ==> ceiling(base, max, factor, 1) == max@,
        window % 2 == 0 ==> jittered(window, 500_000) == window / 2,
{
    reveal_with_fuel(grown, 3);
    assert(grown(base@, factor as nat, 0) == base@);
    assert(grown(base@, factor as nat, 1) == base@ * factor);
    if window % 2 == 0 {
        assert(window * 500_000 / 1_000_000 == window / 2);
    }
}

/// What a poller tells becomes visible of its device, and of no other: a status is
/// published and kept, an error and each step of a mode switch are published, and what
/// the device serves and takes is kept for the views.
pub proof fn law_effects_reach_the_plane(
    id: Seq<char>,
    other: Seq<char>,
    p: Plane,
    effects: Seq<DriverEffectView>,
    e: DriverEffectView,
    state: DeviceState,
    text: Seq<char>,
    candidates: Seq<crate::devices::projection::CandidateView>,
    targets: Seq<crate::devices::projection::TargetView>,
)
    requires
        id != other,
    ensures
        told(id, p, effects.push(e)) == told_one(id, told(id, p, effects), e),
        told_one(id, p, e).1.contains_key(other) == p.1.contains_key(other),
        told_one(id, p, e).2.contains_key(other) == p.2.contains_key(other),
        ({
            let after = told_one(id, p, DriverEffectView::Status(state));
            &&& after.1[id].state == state && after.1[id].device_id == id
            &&& after.0 == p.0.push(
                crate::devices::broadcaster::EventView::Status(after.1[id]),
            )
        }),
        told_one(id, p, DriverEffectView::Error(text)).0 == p.0.push(
            crate::devices::broadcaster::EventView::Error(id, text),
        ),
        told_one(id, p, DriverEffectView::Error(text)).1 == p.1,
        told_one(id, p, DriverEffectView::Adopted).0 == p.0.push(
            crate::devices::broadcaster::EventView::Adopted(id, "zowietek"@, None),
        ),
        !p.1.contains_key(id) ==> told_one(id, p, DriverEffectView::Adopted).1[id].state
            == DeviceState::Adopting,
        p.1.contains_key(id) ==> told_one(id, p, DriverEffectView::Adopted).1 == p.1,
        told_one(id, p, DriverEffectView::ModeStarted(text)).0.last()
            == crate::devices::broadcaster::mode_event(
            id,
            text,
            crate::devices::broadcaster::ModePhase::Started,
        ),
        told_one(id, p, DriverEffectView::ModeFinished(text)).0.last()
            == crate::devices::broadcaster::mode_event(
            id,
            text,
            crate::devices::broadcaster::ModePhase::Finished,
        ),
        told_one(id, p, DriverEffectView::ModeFailed(text)).0.last()
            == crate::devices::broadcaster::mode_event(
            id,
            text,
            crate::devices::broadcaster::ModePhase::Failed,
        ),
        told_one(id, p, DriverEffectView::Sources(candidates)).2[id].source_candidates
            == candidates,
        told_one(id, p, DriverEffectView::Targets(targets)).2[id].output_targets == targets,
{
    assert(effects.push(e).drop_last() =~= effects);
}

/// A device whose credentials were refused is left alone: it is asked nothing until a
/// new secret closes the breaker, which makes it one that is being adopted again.
pub proof fn law_breaker_waits_for_a_secret(who: Who, s: PollState, task: PollTask)
    requires
        s.phase is Idle,
        s.lifecycle == DeviceState::AuthFailed,
    ensures
        begin_turn(who, s, task).action == PollActionView::Finished(Some(PollerStep::BreakerOpen)),
        begin_turn(who, s, task).state == s,
        ({
            let t = control_turn(who, s, PollerControl::SecretUpdated);
            &&& t.state.lifecycle == DeviceState::Adopting
            &&& t.state.backoff == s.backoff.cleared()
            &&& t.effects == seq![DriverEffectView::Status(DeviceState::Adopting)]
            &&& t.action == PollActionView::Finished(None)
            &&& begin_turn(who, t.state, PollTask::Adopt).action is Post
        }),
{
}

/// A call that is asked again waits as long as it was told to, asks the same, and
/// counts the attempt.
pub proof fn law_busy_call_is_asked_again(who: Who, s: PollState, ns: nat)
    requires
        requesting(s.phase),
        current_call(s).1 < 4,
    ensures
        ({
            let t = call_turn(who, s, crate::devices::zowietek::client::CallView::Retry(ns));
            &&& t.action == PollActionView::Wait(ns)
            &&& t.effects.len() == 0
            &&& current_post(t.state) == current_post(s)
            &&& current_call(t.state).0 == current_call(s).0
            &&& current_call(t.state).1 == current_call(s).1 + 1
            &&& t.state.lifecycle == s.lifecycle
            &&& t.state.session == s.session
        }),
{
}

/// What each call asks: the encoder when the device is probed, the stream table when it
/// is polled or its slots are read, and a switch by stopping and by starting in the
/// mode that is wanted.
pub proof fn law_calls_ask_for_what_they_need(s: PollState)
    ensures
        s.phase is Probe ==> current_call(s).0 == "venc"@,
        s.phase is Poll || s.phase is Targets || s.phase is Stop || s.phase is Start
            ==> current_call(s).0 == "streamplay"@,
        s.phase is Probe ==> (current_post(s) matches PollActionView::Post(module, verb, body)
            && module == "venc"@ && verb == RpcVerb::GetInfo && body.text_field("group"@) == Some(
            "venc"@,
        ) && body.text_field("opt"@) == Some("venc"@)),
        s.phase is Poll || s.phase is Targets ==> (current_post(s) matches PollActionView::Post(
            module,
            verb,
            body,
        ) && module == "streamplay"@ && verb == RpcVerb::GetInfo && body.text_field("group"@)
            == Some("streamplay"@) && body.text_field("opt"@) == Some("streamplay"@)),
        s.phase is Stop ==> (current_post(s) matches PollActionView::Post(module, verb, body)
            && module == "streamplay"@ && verb == RpcVerb::SetInfo && body.text_field("opt"@)
            == Some("stop"@)),
        s.phase matches PollPhase::Start { to, .. } ==> (
        current_post(s) matches PollActionView::Post(module, verb, body) && module == "streamplay"@
            && verb == RpcVerb::SetInfo && body.text_field("opt"@) == Some("start"@) && (body.field(
            "data"@,
        ) matches Some(d) && d.text_field("mode"@) == Some(to@))),
{
    reveal_strlit("group");
    reveal_strlit("opt");
    reveal_strlit("data");
    assert("group"@.len() == 5 && "opt"@.len() == 3 && "data"@.len() == 4);
    reveal_with_fuel(crate::json::field_of, 5);
}

/// A switch that a device refuses at either step is told as failed and leaves what it
/// does unchanged; the poll that it was part of ends as it would have.
pub proof fn law_refused_switch_is_told(
    who: Who,
    s: PollState,
    to: String,
    attempt: u32,
    outcome: Option<PollerStep>,
    e: crate::devices::zowietek::client::ClientErrorView,
)
    requires
        s.phase == (PollPhase::Stop { to, attempt, outcome }) || s.phase == (PollPhase::Start {
            to,
            attempt,
            outcome,
        }),
    ensures
        ({
            let t = result_turn(who, s, Err(e));
            &&& t.effects == seq![DriverEffectView::ModeFailed(to@)]
            &&& t.state.workmode == s.workmode
            &&& t.state.lifecycle == s.lifecycle
            &&& t.state.phase is Idle
            &&& t.action == PollActionView::Finished(outcome)
        }),
{
}

/// A mode that an operator asks for is what the device is held to from then on. A
/// device with a session that does something else is switched; one without a session
/// is only told of.
pub proof fn law_asked_mode_is_wanted(who: Who, s: PollState, mode: String)
    requires
        s.phase is Idle,
    ensures
        ({
            let t = control_turn(who, s, (PollerControl::SetMode { mode }));
            &&& t.state.desired_mode == Some(mode)
            &&& t.state.lifecycle == s.lifecycle
            &&& t.state.workmode == s.workmode
            &&& crate::devices::zowietek::convergence(who.device_id, s.workmode, mode@)
                is AlreadyConverged ==> t.effects.len() == 0 && t.action
                == PollActionView::Finished(None)
            &&& !(crate::devices::zowietek::convergence(who.device_id, s.workmode, mode@)
                is AlreadyConverged) ==> t.effects == seq![DriverEffectView::ModeStarted(mode@)]
                && (t.state.phase is Stop <==> s.session is Some)
        }),
{
}

/// Slots that cannot be read do not count against a device that answered its probe.
pub proof fn law_unread_slots_do_not_matter(
    who: Who,
    s: PollState,
    e: crate::devices::zowietek::client::ClientErrorView,
    data: crate::json::JsonView,
)
    requires
        s.phase is Targets,
        s.lifecycle == DeviceState::Online,
        s.desired_mode is None,
    ensures
        result_turn(who, s, Err(e)).state.lifecycle == DeviceState::Online,
        result_turn(who, s, Err(e)).effects.len() == 0,
        result_turn(who, s, Err(e)).action == PollActionView::Finished(Some(PollerStep::Online)),
        result_turn(who, s, Ok(data)).effects == seq![
            DriverEffectView::Targets(crate::devices::zowietek::decode_targets(data)),
        ],
        result_turn(who, s, Ok(data)).action == PollActionView::Finished(Some(PollerStep::Online)),
{
}

/// A single look at a device says the same as a poll does of it.
pub proof fn law_single_look_tells_the_state(
    data: crate::json::JsonView,
    e: crate::devices::zowietek::client::ClientErrorView,
)
    ensures
        crate::devices::zowietek::all_healthy(data) ==> poll_once_told(Ok(data)) == seq![
            DriverEffectView::Status(DeviceState::Online),
        ],
        !crate::devices::zowietek::all_healthy(data) ==> poll_once_told(Ok(data)) == seq![
            DriverEffectView::Status(DeviceState::Degraded),
        ],
        poll_once_told(Err(e)).len() == 2,
        poll_once_told(Err(e))[1] == DriverEffectView::Error(
            crate::devices::zowietek::client::client_error_text(e),
        ),
{
}

/// Until it reaches the longest, each wait is the one before times the factor; then it
/// stays the longest.
pub proof fn law_waits_grow_by_the_factor(base: Duration, max: Duration, factor: u32, n: nat)
    requires
        base@ <= u64::MAX,
        max@ <= u64::MAX,
        1 <= factor,
    ensures
        ceiling(base, max, factor, n) < max@ ==> ceiling(base, max, factor, n + 1) == least(
            max@,
            ceiling(base, max, factor, n) * factor as nat,
        ),
        ceiling(base, max, factor, n) <= max@,
        jittered(ceiling(base, max, factor, n), 0) == 0,
        jittered(ceiling(base, max, factor, n), 1_000_000) == ceiling(base, max, factor, n),
{
    let w = ceiling(base, max, factor, n);
    assert(w * 1_000_000 / 1_000_000 == w) by (nonlinear_arith);
    assert(w * 0 / 1_000_000 == 0) by (nonlinear_arith);
}

} // verus!
