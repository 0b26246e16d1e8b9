use multiview_control::command::OperationId;
use multiview_control::devices::broadcaster::AddressFamily;
use multiview_control::devices::discovery::{
    collect_bounded, default_service_types, fair_share, infer_driver_kind, instance_label,
    order_endpoints, scan_service_types, sweep, truncate_field, Address, DiscoveredService,
    DiscoveryBrowser, DiscoveryDriverKind, DiscoveryInventory, DrainReceiver, NullBrowser,
    RawDiscoveredService, ScanAdmission, ScanGate, StaticBrowser, CAST_SERVICE_TYPE,
    MAX_ENDPOINTS, MAX_FIELD_LEN, MAX_TXT_RECORDS, NDI_SERVICE_TYPE,
};
use multiview_control::time::Duration;

fn v4(text: &str) -> Address {
    Address { text: text.to_owned(), v6: false }
}

fn v6(text: &str) -> Address {
    Address { text: text.to_owned(), v6: true }
}

fn raw_ndi() -> RawDiscoveredService {
    RawDiscoveredService {
        service_type: NDI_SERVICE_TYPE.to_owned(),
        instance_name: "ZowieBox-A".to_owned(),
        host: "zb-a.local.".to_owned(),
        port: 5961,
        addresses: vec![v4("192.0.2.7"), v6("fd00:db8::7")],
        txt: vec![("model".to_owned(), "ZowieBox".to_owned())],
    }
}

fn service(raw: &RawDiscoveredService, expires_at: u64) -> DiscoveredService {
    DiscoveredService::from_raw(raw, None, expires_at, None, 0)
}

#[test]
fn infer_handles_trailing_local_difference() {
    // The browse constant carries `.local.`; a configured type without it
    // still matches (tolerant comparison).
    assert_eq!(infer_driver_kind("_ndi._tcp", None), DiscoveryDriverKind::NdiSource);
    assert_eq!(
        infer_driver_kind("_googlecast._tcp.local.", None),
        DiscoveryDriverKind::Cast
    );
}

#[test]
fn zowietek_control_only_when_configured() {
    let cfg = "_zowietek-ctl._tcp.local.";
    assert_eq!(infer_driver_kind(cfg, Some(cfg)), DiscoveryDriverKind::ZowietekControl);
    assert_eq!(infer_driver_kind(cfg, None), DiscoveryDriverKind::Unknown);
}

#[test]
fn order_endpoints_is_aaaa_first() {
    let eps = order_endpoints(
        &vec![v4("192.0.2.7"), v6("fd00:db8::7"), v4("198.51.100.9")],
        5961,
    );
    assert_eq!(eps[0].family, AddressFamily::Ipv6);
    assert_eq!(eps[1].family, AddressFamily::Ipv4Legacy);
    assert_eq!(eps[2].family, AddressFamily::Ipv4Legacy);
    assert!(eps[0].address.starts_with("[fd00:db8::7]"));
}

#[test]
fn from_raw_classifies_and_orders() {
    let svc = service(&raw_ndi(), 60);
    assert_eq!(svc.driver_kind, DiscoveryDriverKind::NdiSource);
    assert_eq!(svc.endpoints[0].family, AddressFamily::Ipv6);
    assert!(svc.primary_address.contains("fd00:db8::7"));
    assert_eq!(svc.primary(), svc.endpoints[0]);
    // TXT records are key-sorted + decoded.
    assert_eq!(svc.txt[0].key, "model");
}

#[test]
fn from_raw_stamps_domain_from_param_never_from_wire() {
    // The discovery domain is stamped by the OBSERVING NODE from its own
    // operator-declared config (the param), never from the untrusted responder
    // payload: a discovered device cannot assert its own authorization scope.
    let labelled =
        DiscoveredService::from_raw(&raw_ndi(), None, 60, Some("site-a".to_owned()), 0);
    assert_eq!(labelled.domain.as_deref(), Some("site-a"));

    // No config domain: the row is unlabelled (a discovery-scoped principal
    // is denied it, fail-closed).
    let unlabelled = service(&raw_ndi(), 60);
    assert_eq!(unlabelled.domain, None);

    // A responder that advertises a `domain` TXT cannot self-label: from_raw
    // never reads the domain from the wire.
    let mut raw = raw_ndi();
    raw.txt.push(("domain".to_owned(), "attacker-site".to_owned()));
    let spoofed = service(&raw, 60);
    assert_eq!(
        spoofed.domain, None,
        "domain must never be read from responder TXT (untrusted self-assertion)"
    );
}

#[test]
fn inventory_dedups_latest_wins() {
    let mut inv = DiscoveryInventory::new(8);
    inv.upsert(service(&raw_ndi(), 60));
    inv.upsert(service(&raw_ndi(), 60));
    assert_eq!(inv.snapshot_at(0).len(), 1);
}

#[test]
fn inventory_purges_expired() {
    let mut inv = DiscoveryInventory::new(8);
    inv.upsert(service(&raw_ndi(), 9));
    assert!(inv.snapshot_at(10).is_empty());
}

#[test]
fn inventory_is_bounded() {
    let mut inv = DiscoveryInventory::new(2);
    for n in 0..5 {
        let mut raw = raw_ndi();
        raw.instance_name = format!("ZB-{n}");
        inv.upsert(service(&raw, 60));
    }
    assert!(inv.snapshot_at(0).len() <= 2);
}

#[test]
fn null_browser_finds_nothing() {
    let b = NullBrowser;
    assert!(b.browse(&default_service_types(None), Duration::from_millis(1)).is_empty());
}

#[test]
fn static_browser_filters_by_requested_type() {
    let b = StaticBrowser::new(vec![raw_ndi()]);
    // NDI requested: found.
    assert_eq!(b.browse(&vec![NDI_SERVICE_TYPE.to_owned()], Duration::from_millis(1)).len(), 1);
    // Only Cast requested: the NDI service is not returned.
    assert!(b
        .browse(&vec![CAST_SERVICE_TYPE.to_owned()], Duration::from_millis(1))
        .is_empty());
}

#[test]
fn default_service_types_include_configured_zowietek_once() {
    let cfg = "_zowietek-ctl._tcp.local.";
    let types = default_service_types(Some(cfg));
    assert!(types.contains(&CAST_SERVICE_TYPE.to_owned()));
    assert!(types.contains(&NDI_SERVICE_TYPE.to_owned()));
    assert_eq!(types.iter().filter(|t| t.as_str() == cfg).count(), 1);
}

#[test]
fn extra_service_types_are_scanned_once() {
    let types = scan_service_types(None, &vec!["_x._tcp.local.".to_owned(), "_ndi._tcp".to_owned()]);
    assert_eq!(types.iter().filter(|t| t.starts_with("_x.")).count(), 1);
    assert_eq!(types.iter().filter(|t| t.starts_with("_ndi.")).count(), 1);
}

#[test]
fn what_a_responder_says_is_kept_within_bounds() {
    let mut raw = raw_ndi();
    raw.instance_name = "n".repeat(10_000);
    raw.addresses = (0..50).map(|n| v4(&format!("192.0.2.{n}"))).collect();
    raw.txt = (0..200).map(|n| (format!("k{n:03}"), "v".repeat(100_000))).collect();
    let svc = service(&raw, 60);
    assert!(svc.name.len() <= MAX_FIELD_LEN);
    assert!(svc.endpoints.len() <= MAX_ENDPOINTS);
    assert!(svc.txt.len() <= MAX_TXT_RECORDS);
    assert!(svc.txt.windows(2).all(|w| w[0].key < w[1].key));
    // A cut never splits a character.
    assert_eq!(truncate_field("a\u{e9}b", 2), "a");
    assert_eq!(truncate_field("a\u{e9}b", 3), "a\u{e9}");
    assert_eq!(truncate_field("abc", 9), "abc");
}

#[test]
fn a_full_inventory_drops_the_oldest_row() {
    let mut inv = DiscoveryInventory::new(2);
    for n in 0..3 {
        let mut raw = raw_ndi();
        raw.instance_name = format!("ZB-{n}");
        inv.upsert(service(&raw, 60));
    }
    let names: Vec<String> = inv.snapshot_at(0).into_iter().map(|s| s.name).collect();
    assert_eq!(names, vec!["ZB-1", "ZB-2"]);
    inv.clear();
    assert!(inv.snapshot_at(0).is_empty());
}

#[test]
fn the_instance_label_is_the_first_part_of_the_full_name() {
    assert_eq!(instance_label("Lobby TV._googlecast._tcp.local."), "Lobby TV");
    assert_eq!(instance_label("no label"), "no label");
}

struct Queue(Vec<u32>);

impl DrainReceiver for Queue {
    type Event = u32;

    fn try_recv(&mut self) -> Option<u32> {
        self.0.pop()
    }
}

#[test]
fn a_flood_on_one_receiver_does_not_starve_the_others() {
    assert_eq!(fair_share(1024, 4), 256);
    assert_eq!(fair_share(3, 4), 1);
    assert_eq!(fair_share(3, 0), 0);
    let mut taken: Vec<u32> = Vec::new();
    sweep(&mut Queue((0..100).collect()), &mut taken, 10);
    assert_eq!(taken.len(), 10);
    let mut few: Vec<u32> = Vec::new();
    sweep(&mut Queue(vec![7, 8]), &mut few, 10);
    assert_eq!(few, vec![8, 7]);
    assert_eq!(collect_bounded(vec![vec![1, 2, 3], vec![4, 5]], 4), vec![1, 2, 3, 4]);
}

#[test]
fn one_scan_runs_at_a_time() {
    let mut gate = ScanGate::new();
    let first = OperationId::new();
    let ScanAdmission::Started(guard) = gate.begin(first.clone()) else {
        panic!("the first scan runs");
    };
    match gate.begin(OperationId::new()) {
        ScanAdmission::Attached(op) => assert_eq!(op, first),
        ScanAdmission::Started(_) => panic!("a second scan attaches to the first"),
    }
    assert_eq!(guard.operation(), &first);
    gate.finish(guard);
    let ScanAdmission::Started(next) = gate.begin(OperationId::new()) else {
        panic!("a finished scan makes room");
    };
    // The end of a scan of another gate does not end this one.
    let ScanAdmission::Started(foreign) = ScanGate::new().begin(OperationId::new()) else {
        panic!("a fresh gate has room");
    };
    gate.finish(foreign);
    assert!(matches!(gate.begin(OperationId::new()), ScanAdmission::Attached(_)));
    gate.finish(next);
    assert!(matches!(gate.begin(OperationId::new()), ScanAdmission::Started(_)));
}

#[test]
fn the_usual_types_come_first_and_the_others_in_their_order() {
    let extra: Vec<String> =
        ["_b._tcp", "_ndi._tcp", "_a._tcp.local", "_b._tcp.local.", "_z._tcp", "_a._tcp"]
            .into_iter()
            .map(str::to_owned)
            .collect();
    assert_eq!(
        scan_service_types(Some("_z._tcp.local."), &extra),
        vec![CAST_SERVICE_TYPE, NDI_SERVICE_TYPE, "_z._tcp.local.", "_b._tcp", "_a._tcp.local"]
    );
    assert_eq!(
        scan_service_types(Some("_ndi._tcp"), &vec![]),
        vec![CAST_SERVICE_TYPE, NDI_SERVICE_TYPE]
    );
}
