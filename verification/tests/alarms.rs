use multiview_control::alarm_store::{
    scope_tag, AckState, AlarmFilter, AlarmRecord, AlarmRepository, AlarmScope,
    InMemoryAlarmStore, PerceivedSeverity,
};
use multiview_control::concurrency::Version;
use multiview_control::error::ControlError;
use multiview_control::time::MediaTime;

fn record(id: &str, severity: PerceivedSeverity, scope: AlarmScope) -> AlarmRecord {
    AlarmRecord::new(id, "black", severity, scope, MediaTime::from_nanos(10))
}

#[test]
fn upsert_inserts_at_initial_then_bumps_on_change_and_is_idempotent() {
    let mut store = InMemoryAlarmStore::new();
    let r = record("a", PerceivedSeverity::Major, AlarmScope::System);

    let v1 = store.upsert(r.clone()).unwrap();
    assert_eq!(v1.version, Version::initial());

    // Re-upserting the SAME record does not churn the version.
    let v2 = store.upsert(r.clone()).unwrap();
    assert_eq!(v2.version, Version::initial(), "identical upsert is a no-op");

    // A changed record bumps the version.
    let mut r2 = r;
    r2.severity = PerceivedSeverity::Critical;
    let v3 = store.upsert(r2).unwrap();
    assert_eq!(v3.version, Version::initial().next());
    assert_eq!(v3.record.severity, PerceivedSeverity::Critical);
}

#[test]
fn acknowledge_sets_ack_and_bumps_version() {
    let mut store = InMemoryAlarmStore::new();
    store.upsert(record("a", PerceivedSeverity::Major, AlarmScope::System)).unwrap();

    let acked = store.acknowledge("a", "alice", MediaTime::from_nanos(99)).unwrap();
    assert_eq!(acked.version, Version::initial().next());
    assert!(acked.record.ack.is_acked());
    match acked.record.ack {
        AckState::Acked { who, when } => {
            assert_eq!(who, "alice");
            assert_eq!(when, MediaTime::from_nanos(99));
        }
        other => panic!("expected acked, got {other:?}"),
    }
}

#[test]
fn acknowledge_unknown_alarm_is_not_found() {
    let mut store = InMemoryAlarmStore::new();
    let err = store.acknowledge("missing", "bob", MediaTime::zero()).unwrap_err();
    assert!(matches!(err, ControlError::NotFound { .. }));
}

#[test]
fn list_filters_by_severity_active_and_scope() {
    let mut store = InMemoryAlarmStore::new();
    store
        .upsert(record("tile-major", PerceivedSeverity::Major, AlarmScope::Tile { index: 1 }))
        .unwrap();
    store
        .upsert(record("sys-warning", PerceivedSeverity::Warning, AlarmScope::System))
        .unwrap();
    store
        .upsert(record("tile-cleared", PerceivedSeverity::Cleared, AlarmScope::Tile { index: 2 }))
        .unwrap();

    // min_severity >= Major: only the tile-major alarm.
    let by_sev = store
        .list(&AlarmFilter {
            min_severity: Some(PerceivedSeverity::Major),
            ..AlarmFilter::default()
        })
        .unwrap();
    assert_eq!(by_sev.len(), 1);
    assert_eq!(by_sev[0].record.id.as_str(), "tile-major");

    // active only: excludes the cleared alarm.
    let active = store
        .list(&AlarmFilter { active: Some(true), ..AlarmFilter::default() })
        .unwrap();
    let active_ids: Vec<&str> = active.iter().map(|v| v.record.id.as_str()).collect();
    assert_eq!(active_ids, vec!["sys-warning", "tile-major"]);

    // scope_kind == tile: the two tile alarms, id-sorted.
    let tiles = store
        .list(&AlarmFilter { scope_kind: Some("tile".to_owned()), ..AlarmFilter::default() })
        .unwrap();
    let tile_ids: Vec<&str> = tiles.iter().map(|v| v.record.id.as_str()).collect();
    assert_eq!(tile_ids, vec!["tile-cleared", "tile-major"]);
}

#[test]
fn scopes_have_their_tags() {
    let tag = |scope| scope_tag(&record("a", PerceivedSeverity::Minor, scope));
    assert_eq!(tag(AlarmScope::Probe { probe: "p".to_owned() }), "probe");
    assert_eq!(tag(AlarmScope::Tile { index: 0 }), "tile");
    assert_eq!(tag(AlarmScope::Group { group: "g".to_owned() }), "group");
    assert_eq!(tag(AlarmScope::System), "system");
    assert_eq!(tag(AlarmScope::Other("{}".to_owned())), "other");
}

#[test]
fn alarms_are_found_by_id_and_the_engine_has_the_last_word() {
    let mut store = InMemoryAlarmStore::default();
    assert_eq!(
        store.get("a"),
        Err(ControlError::NotFound { kind: "alarm", id: "a".to_owned() })
    );
    store
        .upsert(record("a", PerceivedSeverity::Major, AlarmScope::Probe { probe: "p".to_owned() }))
        .unwrap();
    store.acknowledge("a", "alice", MediaTime::zero()).unwrap();
    assert_eq!(store.get("a").unwrap().version, Version::new(2));
    // The record that the engine publishes next carries its own acknowledgement.
    let v = store
        .upsert(record("a", PerceivedSeverity::Major, AlarmScope::Probe { probe: "p".to_owned() }))
        .unwrap();
    assert_eq!(v.version, Version::new(3));
    assert!(!v.record.ack.is_acked());
    assert!(v.record.is_active());
    assert_eq!(store.list(&AlarmFilter { active: Some(false), ..AlarmFilter::default() }), Ok(vec![]));
}
