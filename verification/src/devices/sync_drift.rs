//! The drift alarm of one member of a sync group.
//!
//! The alarm is raised once the member's skew has been over the group's target
//! for a whole dwell, and cleared once it has been back inside for another,
//! longer one. A member that hovers at the target therefore does not make the
//! alarm flap.

use vstd::prelude::*;

use crate::time::MediaTime;

verus! {

/// How long the skew has to stay over, or back inside, the target.
#[derive(Debug, Clone, Copy, PartialEq, Eq, Structural)]
pub struct DriftHysteresis {
    dwell_up: MediaTime,
    dwell_down: MediaTime,
}

/// A dwell is never negative.
pub open spec fn at_least_zero(t: int) -> int {
    if t < 0 {
        0
    } else {
        t
    }
}

impl DriftHysteresis {
    /// The dwell before the alarm is raised, in nanoseconds.
    pub closed spec fn up(self) -> int {
        self.dwell_up@
    }

    /// The dwell before the alarm is cleared, in nanoseconds.
    pub closed spec fn down(self) -> int {
        self.dwell_down@
    }

    /// The two dwells. A negative one counts as zero.
    pub fn new(dwell_up: MediaTime, dwell_down: MediaTime) -> (r: Self)
        ensures
            r.up() == at_least_zero(dwell_up@),
            r.down() == at_least_zero(dwell_down@),
    {
        DriftHysteresis { dwell_up: non_negative(dwell_up), dwell_down: non_negative(dwell_down) }
    }

    /// The dwell before the alarm is raised.
    pub fn dwell_up(self) -> (r: MediaTime)
        ensures
            r@ == self.up(),
    {
        self.dwell_up
    }

    /// The dwell before the alarm is cleared.
    pub fn dwell_down(self) -> (r: MediaTime)
        ensures
            r@ == self.down(),
    {
        self.dwell_down
    }
}

impl Default for DriftHysteresis {
    /// Raise after three seconds, clear after five.
    fn default() -> (r: Self)
        ensures
            r.up() == 3_000_000_000,
            r.down() == 5_000_000_000,
    {
        DriftHysteresis {
            dwell_up: MediaTime::from_nanos(3_000_000_000),
            dwell_down: MediaTime::from_nanos(5_000_000_000),
        }
    }
}

/// Where a member stands.
#[derive(Debug, Clone, Copy, PartialEq, Eq, Structural)]
pub enum DriftPhase {
    /// Inside the target, no alarm.
    Clear,
    /// Over the target since an instant, no alarm yet.
    Pending {
        /// When it went over.
        since: MediaTime,
    },
    /// Over the target, the alarm is raised.
    Raised,
    /// Back inside since an instant, the alarm is still raised.
    Clearing {
        /// When it came back.
        since: MediaTime,
    },
}

/// What an observation did to the alarm.
#[derive(Debug, Clone, Copy, PartialEq, Eq, Structural)]
pub enum DriftTransition {
    /// Nothing.
    Unchanged,
    /// It was raised.
    Raised,
    /// It was cleared.
    Cleared,
}

/// The alarm is raised in this phase.
pub open spec fn alarmed(phase: DriftPhase) -> bool {
    phase is Raised || phase is Clearing
}

/// A skew, in nanoseconds, is over a target in milliseconds. Targets beyond
/// what sixteen bits hold count as the largest that they do.
pub open spec fn over_target(skew: Option<i64>, target_ms: u32) -> bool {
    match skew {
        Some(ns) => ns > (if target_ms > 65_535 {
            65_535int
        } else {
            target_ms as int
        }) * 1_000_000,
        None => false,
    }
}

/// The time from `since` to `now`. A clock that ran backwards counts as one
/// that stood still.
pub open spec fn elapsed_from(since: MediaTime, now: MediaTime) -> int {
    at_least_zero(crate::time::clamp_i64(now@ - since@))
}

/// The phase after a sample, before any dwell is served.
pub open spec fn sampled(phase: DriftPhase, present: bool, now: MediaTime) -> DriftPhase {
    match phase {
        DriftPhase::Clear => if present {
            DriftPhase::Pending { since: now }
        } else {
            phase
        },
        DriftPhase::Pending { .. } => if present {
            phase
        } else {
            DriftPhase::Clear
        },
        DriftPhase::Raised => if present {
            phase
        } else {
            DriftPhase::Clearing { since: now }
        },
        DriftPhase::Clearing { .. } => if present {
            DriftPhase::Raised
        } else {
            phase
        },
    }
}

/// The phase after a dwell that is due was served, and what that did.
pub open spec fn served(h: DriftHysteresis, phase: DriftPhase, now: MediaTime) -> (
    DriftPhase,
    DriftTransition,
) {
    match phase {
        DriftPhase::Pending { since } => if elapsed_from(since, now) >= h.up() {
            (DriftPhase::Raised, DriftTransition::Raised)
        } else {
            (phase, DriftTransition::Unchanged)
        },
        DriftPhase::Clearing { since } => if elapsed_from(since, now) >= h.down() {
            (DriftPhase::Clear, DriftTransition::Cleared)
        } else {
            (phase, DriftTransition::Unchanged)
        },
        _ => (phase, DriftTransition::Unchanged),
    }
}

/// What an observation leads to.
pub open spec fn observed(h: DriftHysteresis, phase: DriftPhase, present: bool, now: MediaTime) -> (
    DriftPhase,
    DriftTransition,
) {
    served(h, sampled(phase, present, now), now)
}

/// The drift alarm of one member.
#[derive(Debug, Clone, Copy, PartialEq, Eq, Structural)]
pub struct DriftMonitor {
    hysteresis: DriftHysteresis,
    phase: DriftPhase,
}

impl DriftMonitor {
    /// Where the member stands.
    pub closed spec fn view(self) -> DriftPhase {
        self.phase
    }

    /// The dwells of this alarm.
    pub closed spec fn dwells(self) -> DriftHysteresis {
        self.hysteresis
    }

    /// An alarm that is clear.
    pub fn new(hysteresis: DriftHysteresis) -> (r: Self)
        ensures
            r@ == DriftPhase::Clear,
            r.dwells() == hysteresis,
    {
        DriftMonitor { hysteresis, phase: DriftPhase::Clear }
    }

    /// Whether the alarm is raised.
    pub fn is_alarmed(&self) -> (r: bool)
        ensures
            r == alarmed(self@),
    {
        match self.phase {
            DriftPhase::Raised => true,
            DriftPhase::Clearing { .. } => true,
            _ => false,
        }
    }

    /// Take one sample: the member's skew in nanoseconds, where it was
    /// measured, against the group's target. The skew has to be over the
    /// target, not at it; a member that was not measured is not over it.
    pub fn observe(
        &mut self,
        measured_skew_ns: Option<i64>,
        target_skew_ms: u32,
        now: MediaTime,
    ) -> (r: DriftTransition)
        ensures
            final(self).dwells() == old(self).dwells(),
            (final(self)@, r) == observed(
                old(self).dwells(),
                old(self)@,
                over_target(measured_skew_ns, target_skew_ms),
                now,
            ),
    {
        let present = match measured_skew_ns {
            Some(ns) => ns > skew_target_ns(target_skew_ms),
            None => false,
        };
        match self.phase {
            DriftPhase::Clear => if present {
                self.phase = DriftPhase::Pending { since: now };
            },
            DriftPhase::Pending { .. } => if !present {
                self.phase = DriftPhase::Clear;
            },
            DriftPhase::Raised => if !present {
                self.phase = DriftPhase::Clearing { since: now };
            },
            DriftPhase::Clearing { .. } => if present {
                self.phase = DriftPhase::Raised;
            },
        }
        match self.phase {
            DriftPhase::Pending { since } => {
                if elapsed(since, now).as_nanos() >= self.hysteresis.dwell_up.as_nanos() {
                    self.phase = DriftPhase::Raised;
                    DriftTransition::Raised
                } else {
                    DriftTransition::Unchanged
                }
            },
            DriftPhase::Clearing { since } => {
                if elapsed(since, now).as_nanos() >= self.hysteresis.dwell_down.as_nanos() {
                    self.phase = DriftPhase::Clear;
                    DriftTransition::Cleared
                } else {
                    DriftTransition::Unchanged
                }
            },
            _ => DriftTransition::Unchanged,
        }
    }
}

/// The target in nanoseconds.
fn skew_target_ns(target_skew_ms: u32) -> (r: i64)
    ensures
        r == (if target_skew_ms > 65_535 {
            65_535int
        } else {
            target_skew_ms as int
        }) * 1_000_000,
{
    if target_skew_ms > 65_535 {
        65_535_000_000
    } else {
        target_skew_ms as i64 * 1_000_000
    }
}

/// The time from `since` to `now`, at least zero.
fn elapsed(since: MediaTime, now: MediaTime) -> (r: MediaTime)
    ensures
        r@ == elapsed_from(since, now),
{
    non_negative(now.saturating_sub(since))
}

/// `t`, or zero where it is negative.
fn non_negative(t: MediaTime) -> (r: MediaTime)
    ensures
        r@ == at_least_zero(t@),
{
    if t.as_nanos() < 0 {
        MediaTime::zero()
    } else {
        t
    }
}

// ---- Laws --------------------------------------------------------------------

/// The alarm is raised only by a step that says so, and cleared only by a step
/// that says so.
pub proof fn law_alarm_changes_are_reported(
    h: DriftHysteresis,
    phase: DriftPhase,
    present: bool,
    now: MediaTime,
)
    ensures
        ({
            let (next, t) = observed(h, phase, present, now);
            &&& t == DriftTransition::Raised <==> (!alarmed(phase) && alarmed(next))
            &&& t == DriftTransition::Cleared <==> (alarmed(phase) && !alarmed(next))
        }),
{
}

/// A sample inside the target never raises the alarm, and a sample over the
/// target never clears it.
pub proof fn law_alarm_follows_the_sample(
    h: DriftHysteresis,
    phase: DriftPhase,
    present: bool,
    now: MediaTime,
)
    ensures
        observed(h, phase, present, now).1 == DriftTransition::Raised ==> present,
        observed(h, phase, present, now).1 == DriftTransition::Cleared ==> !present,
{
}

/// The phases after each of a run of samples, each a presence and an instant.
pub open spec fn run(h: DriftHysteresis, phase: DriftPhase, samples: Seq<(bool, MediaTime)>) -> DriftPhase
    decreases samples.len(),
{
    if samples.len() == 0 {
        phase
    } else {
        observed(
            h,
            run(h, phase, samples.drop_last()),
            samples.last().0,
            samples.last().1,
        ).0
    }
}

/// A member that goes over the target and stays there is not alarmed at any
/// instant before the dwell is over.
pub proof fn law_no_alarm_before_the_dwell(h: DriftHysteresis, samples: Seq<(bool, MediaTime)>)
    requires
        samples.len() > 0,
        h.up() > 0,
        forall|i: int| 0 <= i < samples.len() ==> (#[trigger] samples[i]).0,
        forall|i: int|
            0 <= i < samples.len() ==> elapsed_from(samples[0].1, #[trigger] samples[i].1) < h.up(),
    ensures
        run(h, DriftPhase::Clear, samples) == (DriftPhase::Pending { since: samples[0].1 }),
    decreases samples.len(),
{
    let before = samples.drop_last();
    if before.len() == 0 {
        assert(run(h, DriftPhase::Clear, before) == DriftPhase::Clear);
        assert(samples.last() == samples[0]);
    } else {
        assert forall|i: int| 0 <= i < before.len() implies (#[trigger] before[i]).0 by {
            assert(samples[i].0);
        }
        assert forall|i: int| 0 <= i < before.len() implies elapsed_from(
            before[0].1,
            #[trigger] before[i].1,
        ) < h.up() by {
            assert(elapsed_from(samples[0].1, samples[i].1) < h.up());
        }
        law_no_alarm_before_the_dwell(h, before);
        let last = samples[samples.len() - 1];
        assert(last.0 && elapsed_from(samples[0].1, last.1) < h.up());
    }
}

/// Once the dwell is over, the next sample over the target raises the alarm.
pub proof fn law_alarm_after_the_dwell(h: DriftHysteresis, since: MediaTime, now: MediaTime)
    requires
        elapsed_from(since, now) >= h.up(),
    ensures
        observed(h, DriftPhase::Pending { since }, true, now) == (
            DriftPhase::Raised,
            DriftTransition::Raised,
        ),
{
}

/// A clock that runs backwards serves no dwell.
pub proof fn law_backwards_clock_serves_no_dwell(
    h: DriftHysteresis,
    phase: DriftPhase,
    present: bool,
    now: MediaTime,
)
    requires
        h.up() > 0,
        h.down() > 0,
        match phase {
            DriftPhase::Pending { since } => now@ <= since@,
            DriftPhase::Clearing { since } => now@ <= since@,
            _ => true,
        },
    ensures
        observed(h, phase, present, now).1 == DriftTransition::Unchanged,
{
}

/// A skew is over its target where it is larger than the target's milliseconds; one
/// that was not measured is not.
pub proof fn law_skew_is_held_against_the_target(ns: i64, target_ms: u32)
    requires
        target_ms <= 65_535,
    ensures
        over_target(Some(ns), target_ms) <==> ns > target_ms * 1_000_000,
        !over_target(None, target_ms),
        !over_target(Some((target_ms * 1_000_000) as i64), target_ms),
        over_target(Some((target_ms * 1_000_000 + 1) as i64), target_ms),
{
}

/// A skew over the target is first waited for and one that is gone is first waited
/// out; a sample to the contrary ends either wait without a report.
pub proof fn law_waits_start_at_the_first_sample(h: DriftHysteresis, now: MediaTime, since: MediaTime)
    requires
        h.up() > 0,
        h.down() > 0,
    ensures
        observed(h, DriftPhase::Clear, true, now) == (
            (DriftPhase::Pending { since: now }),
            DriftTransition::Unchanged,
        ),
        observed(h, DriftPhase::Raised, false, now) == (
            (DriftPhase::Clearing { since: now }),
            DriftTransition::Unchanged,
        ),
        observed(h, (DriftPhase::Pending { since }), false, now) == (
            DriftPhase::Clear,
            DriftTransition::Unchanged,
        ),
        observed(h, (DriftPhase::Clearing { since }), true, now) == (
            DriftPhase::Raised,
            DriftTransition::Unchanged,
        ),
{
}

} // verus!
