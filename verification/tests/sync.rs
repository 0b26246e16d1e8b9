use multiview_control::devices::sync_drift::{DriftHysteresis, DriftMonitor, DriftTransition};
use multiview_control::devices::sync_runtime::{
    AchievedSync, SyncGroup, SyncGroupRuntime, SyncMember,
};
use multiview_control::time::MediaTime;

const MS: i64 = 1_000_000;

fn at(ms: i64) -> MediaTime {
    MediaTime::from_nanos(ms * MS)
}

fn monitor() -> DriftMonitor {
    DriftMonitor::new(DriftHysteresis::new(at(100), at(200)))
}

#[test]
fn an_alarm_is_raised_after_the_dwell_and_cleared_after_the_other() {
    let mut m = monitor();
    assert_eq!(m.observe(Some(50 * MS), 40, at(0)), DriftTransition::Unchanged);
    assert_eq!(m.observe(Some(50 * MS), 40, at(99)), DriftTransition::Unchanged);
    assert_eq!(m.observe(Some(50 * MS), 40, at(100)), DriftTransition::Raised);
    assert!(m.is_alarmed());
    assert_eq!(m.observe(Some(40 * MS), 40, at(200)), DriftTransition::Unchanged);
    assert_eq!(m.observe(Some(0), 40, at(399)), DriftTransition::Unchanged);
    assert_eq!(m.observe(Some(0), 40, at(400)), DriftTransition::Cleared);
    assert!(!m.is_alarmed());
}

#[test]
fn one_good_sample_starts_the_dwell_anew() {
    let mut m = monitor();
    m.observe(Some(50 * MS), 40, at(0));
    m.observe(Some(10 * MS), 40, at(50));
    assert_eq!(m.observe(Some(50 * MS), 40, at(120)), DriftTransition::Unchanged);
    assert_eq!(m.observe(Some(50 * MS), 40, at(220)), DriftTransition::Raised);
}

#[test]
fn a_clock_that_runs_back_serves_no_dwell() {
    let mut m = monitor();
    m.observe(Some(50 * MS), 40, at(1000));
    assert_eq!(m.observe(Some(50 * MS), 40, at(0)), DriftTransition::Unchanged);
}

fn group(members: &[(&str, u32)]) -> SyncGroup {
    SyncGroup {
        id: "wall".to_owned(),
        target_skew_ms: 40,
        members: members
            .iter()
            .map(|(d, o)| SyncMember { device: (*d).to_owned(), offset_ms: *o })
            .collect(),
    }
}

#[test]
fn a_group_achieves_what_its_weakest_member_does() {
    let mut rt = SyncGroupRuntime::new();
    rt.seed(&vec![group(&[("a", 0), ("b", 20)])]);
    rt.observe("wall", "a", AchievedSync { rank: 3 }, Some(5 * MS), at(0));
    rt.observe("wall", "b", AchievedSync { rank: 1 }, Some(30 * MS), at(0));
    let s = rt.status("wall").unwrap();
    assert_eq!(s.achieved, AchievedSync { rank: 1 });
    assert_eq!(s.limited_by.as_deref(), Some("b"));
    assert_eq!(s.measured_skew_ns, Some(30 * MS), "the worst of them");
    assert!(!s.drift_alarm);
    assert_eq!(
        rt.member_offsets(),
        vec![
            ("wall".to_owned(), "a".to_owned(), 0),
            ("wall".to_owned(), "b".to_owned(), 20),
        ]
    );
    assert_eq!(rt.all_skews().len(), 1);
    assert!(rt.status("other").is_none());
}

#[test]
fn seeding_again_keeps_what_was_measured() {
    let mut rt = SyncGroupRuntime::with_hysteresis(DriftHysteresis::new(at(0), at(0)));
    rt.seed(&vec![group(&[("a", 0), ("b", 0)])]);
    assert_eq!(
        rt.observe("wall", "a", AchievedSync { rank: 2 }, Some(90 * MS), at(0)),
        DriftTransition::Raised,
        "an empty dwell is served at once"
    );
    rt.seed(&vec![group(&[("a", 10), ("c", 0)])]);
    let s = rt.status("wall").unwrap();
    assert_eq!(s.members.len(), 2);
    assert_eq!(s.members[0].measured_skew_ns, Some(90 * MS));
    assert_eq!(s.members[0].offset_ms, 10);
    assert!(s.members[0].drift_alarm && s.drift_alarm);
    assert_eq!(s.members[1].achieved, None);
    // A device that is not a member is not observed.
    assert_eq!(
        rt.observe("wall", "b", AchievedSync { rank: 2 }, Some(90 * MS), at(9)),
        DriftTransition::Unchanged
    );
}
