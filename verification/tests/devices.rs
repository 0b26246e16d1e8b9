use multiview_control::devices::broadcaster::{
    AddressFamily, DeviceBroadcaster, DeviceDriver, Event, ModePhase,
};
use multiview_control::devices::driver_registry::DeviceDriverRegistry;
use multiview_control::devices::projection::{OutputTarget, SourceCandidate};
use multiview_control::devices::registry::{DeviceStatus, DeviceStatusRegistry};
use multiview_control::devices::state_machine::{DeviceLifecycle, DeviceState, LifecycleEvent};

fn broadcaster() -> DeviceBroadcaster {
    DeviceBroadcaster::new(DeviceStatusRegistry::new())
}

#[test]
fn adopted_seeds_adopting_and_uses_the_driver_wire_form() {
    let mut b = broadcaster();
    b.adopted("dev-a", DeviceDriver::Zowietek, None);
    assert_eq!(b.registry().state("dev-a"), Some(DeviceState::Adopting));
    let events = b.take_events();
    match events.first().expect("an adopted event") {
        Event::DeviceAdopted { driver, .. } => assert_eq!(driver, "zowietek"),
        other => panic!("expected device.adopted, got {other:?}"),
    }
}

#[test]
fn status_is_latest_wins_in_the_registry() {
    let mut b = broadcaster();
    b.status("dev-a", DeviceState::Online);
    b.status("dev-a", DeviceState::Degraded);
    assert_eq!(b.registry().state("dev-a"), Some(DeviceState::Degraded));
}

#[test]
fn events_are_published_in_order_and_taken_once() {
    let mut b = broadcaster();
    b.adopted("d", DeviceDriver::Cast, Some("Lobby".to_owned()));
    b.mode_started("d", "decoder");
    b.mode_finished("d", "decoder");
    b.mode_failed("d", "encoder");
    b.error("d", "no route");
    b.discovered("cast", "[fd00::1]:8009", AddressFamily::Ipv6, None, Some("site-a".to_owned()));
    b.cast_session_started("s", None, "[fd00::1]:8009", "program");
    b.cast_session_removed("s");
    b.removed("d");
    assert_eq!(b.registry().state("d"), None);
    let events = b.take_events();
    assert_eq!(events.len(), 9);
    match &events[1] {
        Event::DeviceMode { mode, phase, detail, .. } => {
            assert_eq!(mode, "decoder");
            assert_eq!(*phase, ModePhase::Started);
            assert_eq!(
                detail,
                "device d restarts its pipeline to converge to \"decoder\"; bound sources from \
                 this device ride the tile ladder to NO_SIGNAL during the switch; no Multiview \
                 outputs are affected"
            );
        }
        other => panic!("expected a mode event, got {other:?}"),
    }
    assert_eq!(events[4], Event::DeviceError { device_id: "d".to_owned(), message: "no route".to_owned() });
    assert_eq!(events[8], Event::DeviceRemoved { device_id: "d".to_owned() });
    assert!(b.take_events().is_empty());
}

#[test]
fn ensure_seeds_adopting_and_is_idempotent() {
    let mut reg = DeviceStatusRegistry::new();
    reg.ensure("dev-a");
    assert_eq!(reg.state("dev-a"), Some(DeviceState::Adopting));
    // A second ensure does not reset a device whose status moved on.
    reg.set_status(DeviceStatus::new("dev-a", DeviceState::Online));
    reg.ensure("dev-a");
    assert_eq!(reg.state("dev-a"), Some(DeviceState::Online));
}

#[test]
fn set_status_is_latest_wins() {
    let mut reg = DeviceStatusRegistry::new();
    reg.set_status(DeviceStatus::new("dev-a", DeviceState::Online));
    reg.set_status(DeviceStatus::new("dev-a", DeviceState::Degraded));
    assert_eq!(reg.snapshot("dev-a").unwrap().state, DeviceState::Degraded);
}

#[test]
fn snapshot_all_is_id_sorted() {
    let mut reg = DeviceStatusRegistry::new();
    reg.ensure("dev-z");
    reg.ensure("dev-a");
    let ids: Vec<String> = reg.snapshot_all().into_iter().map(|s| s.device_id).collect();
    assert_eq!(ids, vec!["dev-a".to_owned(), "dev-z".to_owned()]);
}

#[test]
fn forget_drops_the_runtime() {
    let mut reg = DeviceStatusRegistry::new();
    reg.ensure("dev-a");
    reg.forget("dev-a");
    assert_eq!(reg.state("dev-a"), None);
}

#[test]
fn empty_until_a_driver_enumerates() {
    let reg = DeviceDriverRegistry::new();
    assert!(reg.source_candidates("dev-a").is_empty());
    assert!(reg.output_targets("dev-a").is_empty());
}

#[test]
fn set_then_read_is_latest_wins() {
    let mut reg = DeviceDriverRegistry::new();
    reg.set_source_candidates(
        "dev-a",
        vec![SourceCandidate {
            id: "main".to_owned(),
            kind: "rtsp".to_owned(),
            url: Some("rtsp://[fd00::1]:8554/main/av".to_owned()),
            unverified: false,
        }],
    );
    assert_eq!(reg.source_candidates("dev-a").len(), 1);
    // Latest-wins: a fresh enumeration replaces the prior list.
    reg.set_source_candidates("dev-a", Vec::new());
    assert!(reg.source_candidates("dev-a").is_empty());

    reg.set_output_targets(
        "dev-a",
        vec![OutputTarget { id: "slot-0".to_owned(), kind: "rtsp".to_owned(), label: None }],
    );
    assert_eq!(reg.output_targets("dev-a").len(), 1);
}

#[test]
fn forget_drops_the_facets() {
    let mut reg = DeviceDriverRegistry::new();
    reg.set_output_targets(
        "dev-a",
        vec![OutputTarget { id: "slot-0".to_owned(), kind: "srt".to_owned(), label: None }],
    );
    reg.forget("dev-a");
    assert!(reg.output_targets("dev-a").is_empty());
}

#[test]
fn registry_devices_start_in_adopting() {
    assert_eq!(DeviceLifecycle::new().state(), DeviceState::Adopting);
}

#[test]
fn transition_is_total_and_pure() {
    // Every (state, event) pair has a defined result and is idempotent under
    // re-application of the same event from the resulting state's class.
    let states = [
        DeviceState::Discovered,
        DeviceState::Adopting,
        DeviceState::Online,
        DeviceState::Degraded,
        DeviceState::AuthFailed,
        DeviceState::Unreachable,
    ];
    let events = [
        LifecycleEvent::ProbeOk,
        LifecycleEvent::DeviceFault,
        LifecycleEvent::Recover,
        LifecycleEvent::AuthRejected,
        LifecycleEvent::Unreachable,
        LifecycleEvent::Reconnect,
        LifecycleEvent::SecretUpdated,
    ];
    for s in states {
        for e in events {
            // Just exercising every edge proves totality (no panic / no
            // missing arm) and lets the pure function be reasoned about.
            let _ = DeviceLifecycle::transition(s, e);
        }
    }
}

#[test]
fn auth_failed_breaker_ignores_reconnect() {
    let mut lc = DeviceLifecycle::new();
    lc.apply(LifecycleEvent::AuthRejected);
    assert_eq!(lc.state(), DeviceState::AuthFailed);
    assert!(!lc.apply(LifecycleEvent::Reconnect));
    assert_eq!(lc.state(), DeviceState::AuthFailed);
    assert!(lc.apply(LifecycleEvent::SecretUpdated));
    assert_eq!(lc.state(), DeviceState::Adopting);
}

#[test]
fn a_device_goes_online_degrades_and_recovers() {
    let mut lc = DeviceLifecycle::in_state(DeviceState::Adopting);
    assert!(lc.apply(LifecycleEvent::ProbeOk));
    assert_eq!(lc.state(), DeviceState::Online);
    assert!(lc.apply(LifecycleEvent::DeviceFault));
    assert_eq!(lc.state(), DeviceState::Degraded);
    assert!(lc.apply(LifecycleEvent::Recover));
    assert_eq!(lc.state(), DeviceState::Online);
    assert!(lc.apply(LifecycleEvent::Unreachable));
    assert_eq!(lc.state(), DeviceState::Unreachable);
    // A new secret closes the breaker alone.
    assert!(!lc.apply(LifecycleEvent::SecretUpdated));
}
