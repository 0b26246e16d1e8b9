//! The lifecycle of a managed device.
//!
//! A device that rejected our credentials is left alone: only an updated
//! secret leads out of [`DeviceState::AuthFailed`].

use vstd::prelude::*;

verus! {

/// The state of a managed device.
#[derive(Debug, Clone, Copy, PartialEq, Eq, Hash, Structural)]
pub enum DeviceState {
    /// Seen on the network, not adopted.
    Discovered,
    /// Adopted; the first probe is under way.
    Adopting,
    /// Answering, and well.
    Online,
    /// Answering, with a fault.
    Degraded,
    /// It rejected our credentials.
    AuthFailed,
    /// It does not answer.
    Unreachable,
}

/// What a probe, a poll or an operator reports.
#[derive(Debug, Clone, Copy, PartialEq, Eq, Hash, Structural)]
pub enum LifecycleEvent {
    /// The device answered a probe.
    ProbeOk,
    /// The device reports a fault.
    DeviceFault,
    /// A reported fault is gone.
    Recover,
    /// The device rejected our credentials.
    AuthRejected,
    /// The device did not answer.
    Unreachable,
    /// The channel was established again.
    Reconnect,
    /// The operator changed the stored secret.
    SecretUpdated,
}

/// The state that an event leads to.
pub open spec fn next_state(state: DeviceState, event: LifecycleEvent) -> DeviceState {
    match (state, event) {
        (DeviceState::Adopting, LifecycleEvent::ProbeOk) => DeviceState::Online,
        (DeviceState::Adopting, LifecycleEvent::AuthRejected) => DeviceState::AuthFailed,
        (DeviceState::Adopting, LifecycleEvent::Unreachable) => DeviceState::Unreachable,
        (DeviceState::Online, LifecycleEvent::DeviceFault) => DeviceState::Degraded,
        (DeviceState::Online, LifecycleEvent::Unreachable) => DeviceState::Unreachable,
        (DeviceState::Online, LifecycleEvent::AuthRejected) => DeviceState::AuthFailed,
        (DeviceState::Degraded, LifecycleEvent::Recover) => DeviceState::Online,
        (DeviceState::Degraded, LifecycleEvent::ProbeOk) => DeviceState::Online,
        (DeviceState::Degraded, LifecycleEvent::Unreachable) => DeviceState::Unreachable,
        (DeviceState::Degraded, LifecycleEvent::AuthRejected) => DeviceState::AuthFailed,
        (DeviceState::Unreachable, LifecycleEvent::Reconnect) => DeviceState::Online,
        (DeviceState::Unreachable, LifecycleEvent::ProbeOk) => DeviceState::Online,
        (DeviceState::Unreachable, LifecycleEvent::AuthRejected) => DeviceState::AuthFailed,
        (DeviceState::AuthFailed, LifecycleEvent::SecretUpdated) => DeviceState::Adopting,
        (DeviceState::Discovered, LifecycleEvent::ProbeOk) => DeviceState::Adopting,
        (other, _) => other,
    }
}

/// A device's place in its lifecycle.
#[derive(Debug, Clone, Copy, PartialEq, Eq, Structural)]
pub struct DeviceLifecycle {
    state: DeviceState,
}

impl DeviceLifecycle {
    /// The current state.
    pub closed spec fn view(self) -> DeviceState {
        self.state
    }

    /// A device that was just adopted.
    pub fn new() -> (r: Self)
        ensures
            r@ == DeviceState::Adopting,
    {
        DeviceLifecycle { state: DeviceState::Adopting }
    }

    /// A device in a known state.
    pub fn in_state(state: DeviceState) -> (r: Self)
        ensures
            r@ == state,
    {
        DeviceLifecycle { state }
    }

    /// The current state.
    pub fn state(self) -> (r: DeviceState)
        ensures
            r == self@,
    {
        self.state
    }

    /// The state that `event` leads to from `state`.
    pub fn transition(state: DeviceState, event: LifecycleEvent) -> (r: DeviceState)
        ensures
            r == next_state(state, event),
    {
        match (state, event) {
            (DeviceState::Adopting, LifecycleEvent::ProbeOk) => DeviceState::Online,
            (DeviceState::Adopting, LifecycleEvent::AuthRejected) => DeviceState::AuthFailed,
            (DeviceState::Adopting, LifecycleEvent::Unreachable) => DeviceState::Unreachable,
            (DeviceState::Online, LifecycleEvent::DeviceFault) => DeviceState::Degraded,
            (DeviceState::Online, LifecycleEvent::Unreachable) => DeviceState::Unreachable,
            (DeviceState::Online, LifecycleEvent::AuthRejected) => DeviceState::AuthFailed,
            (DeviceState::Degraded, LifecycleEvent::Recover) => DeviceState::Online,
            (DeviceState::Degraded, LifecycleEvent::ProbeOk) => DeviceState::Online,
            (DeviceState::Degraded, LifecycleEvent::Unreachable) => DeviceState::Unreachable,
            (DeviceState::Degraded, LifecycleEvent::AuthRejected) => DeviceState::AuthFailed,
            (DeviceState::Unreachable, LifecycleEvent::Reconnect) => DeviceState::Online,
            (DeviceState::Unreachable, LifecycleEvent::ProbeOk) => DeviceState::Online,
            (DeviceState::Unreachable, LifecycleEvent::AuthRejected) => DeviceState::AuthFailed,
            (DeviceState::AuthFailed, LifecycleEvent::SecretUpdated) => DeviceState::Adopting,
            (DeviceState::Discovered, LifecycleEvent::ProbeOk) => DeviceState::Adopting,
            (other, _) => other,
        }
    }

    /// Take `event`. Answers whether the state changed.
    pub fn apply(&mut self, event: LifecycleEvent) -> (r: bool)
        ensures
            final(self)@ == next_state(old(self)@, event),
            r == (final(self)@ != old(self)@),
    {
        let next = DeviceLifecycle::transition(self.state, event);
        let changed = next != self.state;
        self.state = next;
        changed
    }
}

impl Default for DeviceLifecycle {
    fn default() -> (r: Self)
        ensures
            r@ == DeviceState::Adopting,
    {
        DeviceLifecycle::new()
    }
}

// ---- Laws --------------------------------------------------------------------

/// The breaker: a device that rejected our credentials stays where it is,
/// whatever happens, until the secret is updated.
pub proof fn law_breaker_opens_only_for_a_new_secret(event: LifecycleEvent)
    ensures
        event != LifecycleEvent::SecretUpdated ==> next_state(DeviceState::AuthFailed, event)
            == DeviceState::AuthFailed,
        next_state(DeviceState::AuthFailed, LifecycleEvent::SecretUpdated) == DeviceState::Adopting,
{
}

/// An updated secret moves no device but one behind the breaker.
pub proof fn law_new_secret_only_closes_the_breaker(state: DeviceState)
    ensures
        state != DeviceState::AuthFailed ==> next_state(state, LifecycleEvent::SecretUpdated) == state,
{
}

/// A managed device never falls back to being merely discovered.
pub proof fn law_managed_device_stays_managed(state: DeviceState, event: LifecycleEvent)
    requires
        state != DeviceState::Discovered,
    ensures
        next_state(state, event) != DeviceState::Discovered,
{
}

/// Every event settles a device at once: but for adoption out of the
/// inventory, taking it twice is taking it once.
pub proof fn law_events_are_idempotent(state: DeviceState, event: LifecycleEvent)
    requires
        !(state == DeviceState::Discovered && event == LifecycleEvent::ProbeOk),
    ensures
        next_state(next_state(state, event), event) == next_state(state, event),
{
}

/// What brings a device online: a probe that answers, wherever it was managed and its
/// credentials were not refused; a fault that is over; a connection that is back.
pub proof fn law_what_brings_a_device_online(s: DeviceState, e: LifecycleEvent)
    requires
        s != DeviceState::Online,
    ensures
        next_state(s, e) == DeviceState::Online <==> {
            ||| e == LifecycleEvent::ProbeOk && (s == DeviceState::Adopting || s
                == DeviceState::Degraded || s == DeviceState::Unreachable)
            ||| e == LifecycleEvent::Recover && s == DeviceState::Degraded
            ||| e == LifecycleEvent::Reconnect && s == DeviceState::Unreachable
        },
{
}

/// A device that runs leaves for three reasons alone: a fault of its own degrades it,
/// a lost connection takes it out of reach, and refused credentials open the breaker.
pub proof fn law_what_takes_a_device_offline(e: LifecycleEvent)
    ensures
        next_state(DeviceState::Online, e) == (if e == LifecycleEvent::DeviceFault {
            DeviceState::Degraded
        } else if e == LifecycleEvent::Unreachable {
            DeviceState::Unreachable
        } else if e == LifecycleEvent::AuthRejected {
            DeviceState::AuthFailed
        } else {
            DeviceState::Online
        }),
{
}

/// A lost connection takes every device out of reach that is being adopted, runs or is
/// degraded, and refused credentials open the breaker from each of these and from out
/// of reach.
pub proof fn law_loss_and_refusal(s: DeviceState)
    ensures
        s == DeviceState::Adopting || s == DeviceState::Online || s == DeviceState::Degraded || s
            == DeviceState::Unreachable <==> next_state(s, LifecycleEvent::Unreachable)
            == DeviceState::Unreachable,
        s == DeviceState::Adopting || s == DeviceState::Online || s == DeviceState::Degraded || s
            == DeviceState::Unreachable || s == DeviceState::AuthFailed <==> next_state(
            s,
            LifecycleEvent::AuthRejected,
        ) == DeviceState::AuthFailed,
{
}

/// A device is degraded by a fault while it runs, and by nothing else; it stays so
/// until the fault is over, a probe answers, the connection is lost or the credentials
/// are refused.
pub proof fn law_what_degrades_a_device(s: DeviceState, e: LifecycleEvent)
    ensures
        s != DeviceState::Degraded ==> (next_state(s, e) == DeviceState::Degraded <==> s
            == DeviceState::Online && e == LifecycleEvent::DeviceFault),
        s == DeviceState::Degraded ==> (next_state(s, e) == DeviceState::Degraded <==> e
            != LifecycleEvent::Recover && e != LifecycleEvent::ProbeOk && e
            != LifecycleEvent::Unreachable && e != LifecycleEvent::AuthRejected),
{
}

/// A device is adopted once it was discovered and answers, and again once a breaker
/// got a new secret.
pub proof fn law_what_is_adopted(s: DeviceState, e: LifecycleEvent)
    requires
        s != DeviceState::Adopting,
    ensures
        next_state(s, e) == DeviceState::Adopting <==> {
            ||| s == DeviceState::Discovered && e == LifecycleEvent::ProbeOk
            ||| s == DeviceState::AuthFailed && e == LifecycleEvent::SecretUpdated
        },
{
}

} // verus!
