use multiview_control::audio_routing::{after_try, AudioRouting, AudioRoutingStore, ResyncStep};
use multiview_control::concurrency::Version;

fn routing(rate: u32) -> AudioRouting {
    AudioRouting { sample_rate_hz: rate, routes: "[]".to_owned() }
}

#[test]
fn an_unconfigured_store_is_version_initial_with_no_document() {
    let store = AudioRoutingStore::new();
    let (doc, version) = store.snapshot();
    assert!(doc.is_none());
    assert_eq!(version, Version::initial());
}

#[test]
fn replace_if_swaps_and_bumps_only_on_the_current_version() {
    let mut store = AudioRoutingStore::new();
    let v2 = store.replace_if(Version::initial(), routing(48_000)).unwrap();
    assert_eq!(v2, Version::new(2));

    // A stale replace loses, reporting the live version.
    let err = store.replace_if(Version::initial(), routing(44_100)).unwrap_err();
    assert_eq!(err, Version::new(2));

    let (doc, version) = store.snapshot();
    assert_eq!(doc.unwrap().sample_rate_hz, 48_000);
    assert_eq!(version, Version::new(2));
}

#[test]
fn a_seeded_store_carries_the_document_at_version_initial() {
    let store = AudioRoutingStore::seeded(Some(routing(96_000)));
    let (doc, version) = store.snapshot();
    assert_eq!(doc.unwrap().sample_rate_hz, 96_000);
    assert_eq!(version, Version::initial());
}

#[test]
fn following_the_file_gives_up_after_four_tries() {
    let mut store = AudioRoutingStore::default();
    store.replace_if(store.version(), routing(48_000)).unwrap();
    let lost = store.replace_if(Version::initial(), routing(96_000));
    assert_eq!(after_try(lost, 1), ResyncStep::Retry(Version::new(2)));
    assert_eq!(after_try(lost, 3), ResyncStep::Retry(Version::new(2)));
    assert_eq!(after_try(lost, 4), ResyncStep::GiveUp);
    let won = store.replace_if(Version::new(2), routing(96_000));
    assert_eq!(after_try(won, 4), ResyncStep::Done);
}
