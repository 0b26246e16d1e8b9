use multiview_control::command::OperationId;
use multiview_control::concurrency::{IdempotencyStore, IfMatch, Reservation, Version};
use multiview_control::error::ControlError;

#[test]
fn parse_etag_accepts_weak_and_bare_forms() {
    assert_eq!(Version::parse_etag("W/\"5\""), Some(Version::new(5)));
    assert_eq!(Version::parse_etag("\"7\""), Some(Version::new(7)));
    assert_eq!(Version::parse_etag("11"), Some(Version::new(11)));
    assert_eq!(Version::parse_etag("not-a-version"), None);
}

#[test]
fn release_rolls_back_a_fresh_reservation_so_the_key_can_be_re_reserved() {
    let mut store = IdempotencyStore::new();
    let key = Some("k");

    let Reservation::Fresh(op) = store.reserve(key) else {
        panic!("first reserve of an unseen key must be Fresh");
    };

    // Without release, a second reserve replays the same op.
    assert!(matches!(store.reserve(key), Reservation::Replay(_)));

    // Releasing the recorded op frees the key: the NEXT reserve is Fresh
    // again with a brand-new op (proving the shed reservation is gone).
    store.release(key, &op);
    let Reservation::Fresh(op2) = store.reserve(key) else {
        panic!("after release the key must reserve Fresh again");
    };
    assert_ne!(op, op2, "the re-reservation mints a new operation id");
}

#[test]
fn rebind_points_a_fresh_reservation_at_the_running_op() {
    let mut store = IdempotencyStore::new();
    let key = Some("k");

    let Reservation::Fresh(fresh) = store.reserve(key) else {
        panic!("first reserve is Fresh");
    };
    let running = OperationId::new();

    // The fresh reservation attached to a running operation: rebinding
    // makes a later replay answer with the RUNNING op.
    store.rebind(key, &fresh, running.clone());
    assert!(
        matches!(store.reserve(key), Reservation::Replay(op) if op == running),
        "the replay echoes the running op after rebind"
    );

    // A stale rebind (the key no longer maps to `from`) is a no-op.
    let stale = OperationId::new();
    store.rebind(key, &fresh, stale.clone());
    assert!(
        matches!(store.reserve(key), Reservation::Replay(op) if op == running),
        "a stale rebind never clobbers the live mapping"
    );
}

#[test]
fn release_is_a_no_op_when_the_key_was_re_reserved_by_someone_else() {
    // Concurrency guard: if another request re-reserved the key (minting a
    // new op) before our late release lands, release must NOT erase the live
    // reservation: it only removes its OWN op.
    let mut store = IdempotencyStore::new();
    let key = Some("k");

    let Reservation::Fresh(stale_op) = store.reserve(key) else {
        panic!("first reserve is Fresh");
    };
    // Simulate the key being released and re-reserved by a concurrent path.
    store.release(key, &stale_op);
    let Reservation::Fresh(live_op) = store.reserve(key) else {
        panic!("re-reserve is Fresh");
    };

    // A late release carrying the STALE op must not disturb the live one.
    store.release(key, &stale_op);
    assert!(
        matches!(store.reserve(key), Reservation::Replay(replayed) if replayed == live_op),
        "the live reservation survives a stale release"
    );
}

#[test]
fn requests_without_a_key_are_never_deduplicated() {
    let mut store = IdempotencyStore::new();
    assert!(matches!(store.reserve(None), Reservation::Fresh(_)));
    assert!(matches!(store.reserve(None), Reservation::Fresh(_)));
    let op = OperationId::from_string("op-1".to_owned());
    assert_eq!(store.reserve_as(Some("k"), op.clone()), Reservation::Fresh(op.clone()));
    store.release(None, &op);
    let other = OperationId::from_string("op-2".to_owned());
    assert_eq!(store.reserve_as(Some("k"), other), Reservation::Replay(op));
}

#[test]
fn etags_round_trip() {
    for n in [0, 1, 9, 10, 42, u64::MAX] {
        let v = Version::new(n);
        assert_eq!(v.to_etag(), format!("W/\"{n}\""));
        assert_eq!(Version::parse_etag(&v.to_etag()), Some(v));
    }
    assert_eq!(Version::parse_etag("  W/ \"5\" "), Some(Version::new(5)));
    assert_eq!(Version::parse_etag("+5"), Some(Version::new(5)));
    assert_eq!(Version::parse_etag("18446744073709551616"), None);
    assert_eq!(Version::parse_etag(""), None);
    assert_eq!(Version::parse_etag("W/W/\"5\""), None);
}

#[test]
fn versions_saturate() {
    assert_eq!(Version::initial(), Version::new(1));
    assert_eq!(Version::initial().next(), Version::new(2));
    assert_eq!(Version::new(u64::MAX).next(), Version::new(u64::MAX));
    assert_eq!(Version::new(7).get(), 7);
}

#[test]
fn preconditions_are_enforced() {
    let absent = IfMatch::from_header(None);
    assert_eq!(
        absent.require("source", "cam-1", Version::new(3)),
        Err(ControlError::PreconditionRequired { kind: "source" })
    );
    // A header that names no version counts as none.
    let garbled = IfMatch::from_header(Some("*".to_owned()));
    assert_eq!(garbled.raw.as_deref(), Some("*"));
    assert_eq!(
        garbled.require("source", "cam-1", Version::new(3)),
        Err(ControlError::PreconditionRequired { kind: "source" })
    );
    let stale = IfMatch::from_header(Some("W/\"2\"".to_owned()));
    assert_eq!(
        stale.require("source", "cam-1", Version::new(3)),
        Err(ControlError::VersionConflict {
            kind: "source",
            id: "cam-1".to_owned(),
            expected: "2".to_owned(),
            actual: "3".to_owned(),
        })
    );
    let current = IfMatch::from_header(Some("\"3\"".to_owned()));
    assert_eq!(current.require("source", "cam-1", Version::new(3)), Ok(()));
}
