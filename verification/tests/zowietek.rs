use multiview_control::devices::broadcaster::{DeviceBroadcaster, DeviceDriver};
use multiview_control::devices::driver_registry::DeviceDriverRegistry;
use multiview_control::devices::registry::DeviceStatusRegistry;
use multiview_control::devices::state_machine::{DeviceState, LifecycleEvent};
use multiview_control::devices::zowietek::client::{
    busy_backoff, decide, is_auth_status, login_body, normalize_base, read_forget, read_login,
    read_reply, request_body, request_url, screen_target, unanswered, BitrateBps, CallStep, HostKind, Reading,
    RpcVerb, TransportError, TransportResponse, ZowietekClientError, ZowietekStatus,
};
use multiview_control::devices::zowietek::poller::{
    jitter_from, random_jitter, step_for, Backoff, DriverEffect, PollAction, PollOutcome, PollTask,
    PollerConfig, PollerControl, PollerStep, ReconnectPolicy, ZowietekPoller, JITTER_SCALE,
};
use multiview_control::devices::zowietek::runtime::{
    management_host, spawn_zowietek, CompositePollerFactory, Device, DevicePollerRegistry,
    NoPollerFactory, PollerFactory,
};
use multiview_control::devices::zowietek::{
    enumerate_source_candidates, lifecycle_event_for, lifecycle_state_for, parse_decode_targets,
    plan_mode_convergence, probed_bitrate, streams_healthy, workmode_of, ModeConvergence, WorkMode,
};
use multiview_control::json::Json;
use multiview_control::time::Duration;

fn object(fields: Vec<(&str, Json)>) -> Json {
    Json::object(fields.into_iter().map(|(k, v)| (k.to_owned(), v)).collect())
}

fn body(text: &str) -> Result<TransportResponse, TransportError> {
    Ok(TransportResponse::Body(Some(text.as_bytes().to_vec())))
}

#[test]
fn backoff_grows_capped_and_resets() {
    let config = PollerConfig {
        backoff_base: Duration::from_millis(100),
        backoff_max: Duration::from_millis(800),
        backoff_factor: 2,
        ..PollerConfig::default()
    };
    let mut b = Backoff::new(&config);
    // Full jitter selects the full ceiling, which grows 100, 200, 400, 800,
    // then caps at 800.
    let ms: Vec<u128> = (0..5).map(|_| b.next_delay(JITTER_SCALE).as_millis()).collect();
    assert_eq!(ms, vec![100, 200, 400, 800, 800], "capped exponential");
    b.reset();
    assert_eq!(b.next_delay(JITTER_SCALE).as_millis(), 100, "reset to base");
}

#[test]
fn zero_jitter_is_zero_delay_full_jitter_is_the_ceiling() {
    let mut b = Backoff::new(&PollerConfig::default());
    assert_eq!(b.next_delay(0), Duration::zero(), "no jitter");
}

#[test]
fn random_jitter_is_in_range() {
    for _ in 0..256 {
        assert!(random_jitter() <= JITTER_SCALE);
    }
}

#[test]
fn step_maps_each_terminal_state() {
    assert_eq!(step_for(DeviceState::Online), PollerStep::Online);
    assert_eq!(step_for(DeviceState::Degraded), PollerStep::Degraded);
    assert_eq!(step_for(DeviceState::Unreachable), PollerStep::Unreachable);
    assert_eq!(step_for(DeviceState::AuthFailed), PollerStep::AuthFailed);
}

fn device(id: &str) -> Device {
    Device {
        id: id.to_owned(),
        driver: DeviceDriver::Zowietek,
        address: Some("http://[fd00:db8::42]".to_owned()),
        desired_mode: None,
        reconnect: None,
        assign: None,
    }
}

#[test]
fn no_poller_factory_starts_nothing() {
    let mut reg: DevicePollerRegistry<u8> = DevicePollerRegistry::new();
    let dev = device("dev-a");
    assert_eq!(dev.driver, DeviceDriver::Zowietek);
    // The default no-op factory spawns nothing: the projection routes stay
    // honestly empty.
    let spawned = NoPollerFactory.spawn(&dev, 0).map(|_| 0u8);
    assert!(!reg.start("dev-a", spawned).0);
    assert!(!reg.is_running("dev-a"));
    assert_eq!(reg.running_count(), 0);
    // Dispatch to a non-running poller is a clean false (never a block).
    assert!(reg.handle("dev-a").is_none());
    // Stop aborts nothing when none is running (it still tombstones, so a
    // racing late start cannot resurrect a deleted device).
    assert!(reg.stop("dev-a").is_none());
    assert!(!reg.start("dev-a", Some(1)).0);
}

#[test]
fn no_factory_reports_no_managed_device() {
    let factory = NoPollerFactory;
    assert!(factory.spawn(&device("dev-a"), 0).is_none());
}

#[test]
fn a_stopped_device_is_not_restarted_by_a_late_start() {
    let mut reg: DevicePollerRegistry<u8> = DevicePollerRegistry::new();
    assert_eq!(reg.start("a", Some(1)), (true, None));
    assert_eq!(reg.start("b", Some(2)), (true, None));
    assert_eq!(reg.running_count(), 2);
    assert_eq!(reg.stop("a"), Some(1));
    assert!(reg.is_running("b"), "the others run on");
    assert!(!reg.admits("a"));
    assert_eq!(reg.start("a", Some(3)), (false, Some(3)), "what was spawned is handed back");
    reg.clear_tombstone("a");
    assert!(reg.start("a", Some(4)).0);
    assert_eq!(reg.handle("a"), Some(&4));
}

#[test]
fn the_first_factory_that_manages_a_device_gets_it() {
    let none = CompositePollerFactory::new(vec![PollerFactory::Nothing(NoPollerFactory)]);
    let credentials = Some(("admin".to_owned(), "pw".to_owned()));
    assert!(none.spawn(&device("d"), &credentials, 0).is_none());
    let some = CompositePollerFactory::new(vec![
        PollerFactory::Nothing(NoPollerFactory),
        PollerFactory::Zowietek,
    ]);
    assert!(some.spawn(&device("d"), &credentials, 0).is_some());
    assert!(some.spawn(&device("d"), &None, 0).is_none(), "without credentials nobody polls");
    let poller = spawn_zowietek(&device("d"), credentials).unwrap();
    assert_eq!(poller.device_id(), "d");
    assert_eq!(management_host("http://[fd00:db8::42]:8080/x"), "[fd00:db8::42]");
    assert_eq!(management_host("zowiebox.example"), "zowiebox.example");
    assert_eq!(management_host(" zowiebox.example:80/x "), "zowiebox.example");
    assert_eq!(management_host("\tzowiebox.example\n"), "zowiebox.example");
}

#[test]
fn addresses_are_dialled_in_their_canonical_form() {
    assert_eq!(normalize_base("[fd00::2]:5961/"), "http://[fd00::2]:5961");
    assert_eq!(normalize_base("https://box.example//"), "https://box.example");
    assert_eq!(
        screen_target("http://127.0.0.1:80/"),
        Ok((HostKind::Ipv4, "127.0.0.1".to_owned()))
    );
    // Other spellings of the same address are the same address.
    assert_eq!(
        screen_target("http://2130706433:80/"),
        Ok((HostKind::Ipv4, "127.0.0.1".to_owned()))
    );
    assert_eq!(screen_target("[fd00::0:2]:5961"), Ok((HostKind::Ipv6, "fd00::2".to_owned())));
    assert_eq!(
        screen_target("box.example"),
        Ok((HostKind::Domain, "box.example".to_owned()))
    );
    assert_eq!(
        screen_target("mailto://").map_err(|e| e.message),
        Err("device url \"mailto://\" has no host to dial".to_owned())
    );
    let e = screen_target("http://[fd00").unwrap_err();
    assert!(e.message.starts_with("invalid device url \"http://[fd00\": "), "{}", e.message);
    assert_eq!(e.text(), format!("zowietek transport error: {}", e.message));
}

#[test]
fn requests_carry_the_verb_and_the_envelope() {
    assert_eq!(
        request_url("http://box", "system", RpcVerb::SetInfo),
        "http://box/system?option=setinfo&login_check_flag=1"
    );
    let b = request_body("sys", "get", object(vec![("x", Json::Unsigned(1))]));
    assert_eq!(b.text_field("group"), Some("sys"));
    assert_eq!(b.field("data").unwrap().field("x"), Some(&Json::Unsigned(1)));
    let b = login_body("admin", "pw");
    assert_eq!(b.text_field("opt"), Some("login_account"));
    assert_eq!(b.field("data").unwrap().text_field("password"), Some("pw"));
}

#[test]
fn replies_are_read_by_the_status_number() {
    match read_reply("video", body(r#"{"status":"00000","rsp":"x","data":{"a":1}}"#)) {
        Reading::Data(d) => assert_eq!(d.field("a"), Some(&Json::Unsigned(1))),
        other => panic!("expected data, got {}", shown(other)),
    }
    assert_eq!(
        failed(read_reply("video", Ok(TransportResponse::Body(None)))),
        ZowietekClientError::EmptyBody { module: "video".to_owned() }
    );
    assert_eq!(
        failed(read_reply("video", body(""))),
        ZowietekClientError::EmptyBody { module: "video".to_owned() }
    );
    assert_eq!(
        failed(read_reply("video", Ok(TransportResponse::Dropped))),
        ZowietekClientError::Unreachable { module: "video".to_owned() }
    );
    assert!(matches!(
        failed(read_reply("video", body("{"))),
        ZowietekClientError::Malformed { .. }
    ));
    let e = failed(read_reply("video", Err(TransportError { message: "reset".to_owned() })));
    assert_eq!(e.message(), "zowietek transport error: reset");
    assert!(read_forget("system", Ok(TransportResponse::Dropped)).is_ok());
}

fn shown(r: Reading) -> String {
    match r {
        Reading::Data(d) => format!("{d:?}"),
        Reading::Busy(s) => s,
        Reading::Failed(e) => e.message(),
    }
}

fn failed(r: Reading) -> ZowietekClientError {
    match r {
        Reading::Failed(e) => e,
        other => panic!("expected a failure, got {}", shown(other)),
    }
}

#[test]
fn a_busy_device_is_asked_again_with_patience() {
    for (attempt, ms) in [(0, 250), (1, 500), (2, 1000), (3, 2000), (4, 4000), (9, 4000)] {
        assert_eq!(busy_backoff(attempt).as_millis(), ms);
    }
    let busy = || Reading::Busy("00008".to_owned());
    match decide("video", busy(), 0) {
        CallStep::Retry(d) => assert_eq!(d.as_millis(), 250),
        CallStep::Done(_) => panic!("expected a retry"),
    }
    match decide("video", busy(), u32::MAX) {
        CallStep::Done(Err(ZowietekClientError::Busy { status, .. })) => {
            assert_eq!(status, "00008");
        }
        _ => panic!("expected to give up"),
    }
}

#[test]
fn a_login_opens_a_session() {
    let s = read_login(body(r#"{"status":"00000","data":{"uuid":"u-1"}}"#)).unwrap();
    assert_eq!(s.uuid(), "u-1");
    assert_eq!(
        read_login(body(r#"{"status":"00000","data":{}}"#)),
        Err(ZowietekClientError::Malformed {
            module: "system".to_owned(),
            detail: "login succeeded but returned no uuid".to_owned(),
        })
    );
    assert!(matches!(
        read_login(body(r#"{"status":"00001"}"#)),
        Err(ZowietekClientError::Status { .. })
    ));
}

#[test]
fn statuses_go_by_their_number() {
    assert!(ZowietekStatus::from_code("00000").is_success());
    assert!(ZowietekStatus::from_code("0").is_success());
    assert!(!ZowietekStatus::from_code("ok").is_success());
    assert_eq!(ZowietekStatus::from_parts("succeed", "00003").as_str(), "00003");
    assert!(is_auth_status("00002") && is_auth_status(" 3 "));
    assert!(!is_auth_status("00000") && !is_auth_status("x"));
    assert_eq!(BitrateBps::from_field(8_000_000).unwrap().get(), 8_000_000);
    assert_eq!(
        BitrateBps::from_field(8_000),
        Err(ZowietekClientError::ImplausibleBitrate { field: 8_000 })
    );
}

#[test]
fn modes_converge_only_where_they_differ() {
    let same = plan_mode_convergence("d", Some(WorkMode::Decoder), "decoder");
    assert!(!same.restarts_device());
    assert_eq!(
        same.declared_impact(),
        "device is already in \"decoder\"; no change, no disruption"
    );
    match plan_mode_convergence("d", None, "encoder") {
        ModeConvergence::Switch { from, to, .. } => {
            assert_eq!((from.as_str(), to.as_str()), ("unknown", "encoder"));
        }
        other => panic!("expected a switch, got {other:?}"),
    }
    assert_eq!(WorkMode::parse("encoder"), Some(WorkMode::Encoder));
    assert_eq!(WorkMode::parse("Encoder"), None);
    assert_eq!(workmode_of(&object(vec![("workmode", Json::string("decoder"))])), WorkMode::Decoder);
}

#[test]
fn a_device_says_what_it_serves() {
    let urls: Vec<Option<String>> =
        enumerate_source_candidates("[fd00::2]").into_iter().map(|c| c.url).collect();
    assert!(urls.contains(&Some("rtsp://[fd00::2]:8554/main/av".to_owned())));
    let table = object(vec![(
        "entries",
        Json::List(vec![
            object(vec![("index", Json::Unsigned(3)), ("proto", Json::string("srt"))]),
            object(vec![]),
        ]),
    )]);
    let targets = parse_decode_targets(&table);
    assert_eq!((targets[0].id.as_str(), targets[0].kind.as_str()), ("slot-3", "srt"));
    assert_eq!(targets[1].kind, "rtsp");
    let streams = |healthy| {
        object(vec![("streams", Json::List(vec![object(vec![("healthy", Json::Bool(healthy))])]))])
    };
    assert!(streams_healthy(&streams(true)));
    assert!(!streams_healthy(&streams(false)));
}

#[test]
fn failures_move_the_lifecycle() {
    let gone = ZowietekClientError::Unreachable { module: "m".to_owned() };
    assert_eq!(lifecycle_state_for(&gone), DeviceState::Unreachable);
    assert_eq!(lifecycle_event_for(&gone), LifecycleEvent::Unreachable);
    let empty = ZowietekClientError::EmptyBody { module: "m".to_owned() };
    assert_eq!(lifecycle_event_for(&empty), LifecycleEvent::Unreachable);
    let denied = ZowietekClientError::Status {
        module: "m".to_owned(),
        status: "00002".to_owned(),
        detail: "device-error",
    };
    assert_eq!(lifecycle_state_for(&denied), DeviceState::AuthFailed);
    assert_eq!(lifecycle_event_for(&denied), LifecycleEvent::AuthRejected);
}

fn poller() -> ZowietekPoller {
    ZowietekPoller::new("box", "[fd00::2]", "admin", "pw", PollerConfig::default())
}

fn posts(o: &PollOutcome, module: &str) {
    match &o.action {
        PollAction::Post { module: m, .. } => assert_eq!(*m, module),
        _ => panic!("expected a request to {module}"),
    }
}

fn finished(o: &PollOutcome) -> Option<PollerStep> {
    match &o.action {
        PollAction::Finished(step) => *step,
        _ => panic!("expected to be finished"),
    }
}

/// Adopts the device, which says that it is a decoder.
fn adopt(p: &mut ZowietekPoller) -> Vec<DriverEffect> {
    let mut told = Vec::new();
    let o = p.begin(PollTask::Adopt);
    posts(&o, "system");
    told.extend(o.effects);
    let mut o = p.on_reply(body(r#"{"status":"00000","data":{"uuid":"u"}}"#));
    for _ in 0..8 {
        told.extend(std::mem::take(&mut o.effects));
        match o.action {
            PollAction::Post { .. } => {
                o = p.on_reply(body(
                    r#"{"status":"00000","data":{"workmode":"decoder","entries":[{"index":0}],"streams":[]}}"#,
                ));
            }
            PollAction::Finished(step) => {
                assert_eq!(step, Some(PollerStep::Online));
                return told;
            }
            _ => panic!("unexpected action"),
        }
    }
    panic!("the adoption did not finish");
}

#[test]
fn an_adopted_device_goes_online_with_its_facets() {
    let mut p = poller();
    let told = adopt(&mut p);
    assert_eq!(p.state(), DeviceState::Online);
    assert_eq!(p.workmode(), Some(WorkMode::Decoder));
    assert!(told.contains(&DriverEffect::Status(DeviceState::Online)));
    let mut b = DeviceBroadcaster::new(DeviceStatusRegistry::new());
    let mut d = DeviceDriverRegistry::new();
    p.publish(&told, &mut b, &mut d);
    assert_eq!(b.registry().state("box"), Some(DeviceState::Online));
    assert_eq!(d.output_targets("box").len(), 1);
}

#[test]
fn rejected_credentials_open_the_breaker_until_a_new_secret() {
    let mut p = poller();
    p.begin(PollTask::Adopt);
    let o = p.on_reply(body(r#"{"status":"00003"}"#));
    assert_eq!(finished(&o), Some(PollerStep::AuthFailed));
    assert_eq!(p.state(), DeviceState::AuthFailed);
    assert_eq!(p.tick(), None, "the breaker sends nothing");
    p.handle_control(PollerControl::SecretUpdated);
    assert_eq!(p.state(), DeviceState::Adopting);
    assert!(p.tick().is_some());
}

#[test]
fn an_unreachable_device_backs_off() {
    let mut p = poller();
    p.begin(PollTask::Adopt);
    let o = p.on_reply(Ok(TransportResponse::Dropped));
    assert_eq!(finished(&o), Some(PollerStep::Unreachable));
    assert_eq!(p.tick(), Some(PollTask::Reconnect));
    assert_eq!(p.next_delay_with(JITTER_SCALE).as_millis(), 500);
    assert_eq!(p.next_delay_with(JITTER_SCALE).as_millis(), 1000);
    let policy = PollerConfig::from_reconnect_policy(ReconnectPolicy {
        initial_ms: 100,
        max_ms: 2_000,
    });
    assert_eq!((policy.backoff_base.as_millis(), policy.backoff_max.as_millis()), (100, 2_000));
}

#[test]
fn jitter_spans_the_window() {
    assert_eq!(jitter_from(&vec![0; 8]), 0);
    assert!(jitter_from(&vec![255; 8]) <= JITTER_SCALE);
}

#[test]
fn a_mode_change_closes_the_stream_before_it_opens_the_next() {
    let mut p = poller();
    adopt(&mut p);
    let o = p.handle_control(PollerControl::SetMode { mode: "encoder".to_owned() });
    assert!(o.effects.contains(&DriverEffect::ModeStarted("encoder".to_owned())));
    assert!(matches!(o.action, PollAction::Post { .. }));
    let o = p.on_reply(body(r#"{"status":"00000","data":{}}"#));
    assert!(matches!(o.action, PollAction::Post { .. }), "the stop is followed by the start");
    let o = p.on_reply(body(r#"{"status":"00000","data":{}}"#));
    assert!(o.effects.contains(&DriverEffect::ModeFinished("encoder".to_owned())));
}

#[test]
fn an_adoption_that_is_given_up_can_be_begun_again() {
    let mut p = poller();
    posts(&p.begin(PollTask::Adopt), "system");
    assert!(
        matches!(p.begin(PollTask::Adopt).action, PollAction::Ignore),
        "one thing at a time"
    );
    p.abandon();
    assert_eq!(p.state(), DeviceState::Adopting);
    adopt(&mut p);
    assert_eq!(p.state(), DeviceState::Online);
}

#[test]
fn a_mode_that_was_not_reached_is_tried_again_after_a_reconnect() {
    let mut p = poller();
    adopt(&mut p);
    p.handle_control(PollerControl::SetMode { mode: "encoder".to_owned() });
    let o = p.on_reply(body(r#"{"status":"00007"}"#));
    assert!(o.effects.contains(&DriverEffect::ModeFailed("encoder".to_owned())));
    assert_eq!(p.workmode(), Some(WorkMode::Decoder), "the box stays in its mode");
    p.begin(PollTask::Poll);
    p.on_reply(Ok(TransportResponse::Dropped));
    assert_eq!(p.state(), DeviceState::Unreachable);
    posts(&p.begin(PollTask::Reconnect), "system");
    p.on_reply(body(r#"{"status":"00000","data":{"uuid":"u"}}"#));
    let o = p.on_reply(body(r#"{"status":"00000","data":{"workmode":"decoder"}}"#));
    assert_eq!(p.state(), DeviceState::Online);
    assert!(o.effects.contains(&DriverEffect::ModeStarted("encoder".to_owned())));
    posts(&o, "streamplay");
}

#[test]
fn a_request_without_an_answer_counts_as_dropped() {
    for (timed_out, not_connected, broke_off) in
        [(true, false, false), (false, true, false), (false, false, true)]
    {
        assert_eq!(
            unanswered(timed_out, not_connected, broke_off, "gone"),
            Ok(TransportResponse::Dropped)
        );
    }
    assert_eq!(unanswered(false, false, false, "odd"), Err(TransportError::new("odd")));
}

#[test]
fn a_probed_bitrate_in_another_unit_is_not_believed() {
    let probe = |rate: Json| object(vec![("bitrate", rate)]);
    assert!(probed_bitrate(&object(vec![])).is_none());
    assert!(probed_bitrate(&probe(Json::string("8000000"))).is_none());
    match probed_bitrate(&probe(Json::Unsigned(8_000_000))) {
        Some(Ok(b)) => assert_eq!(b.get(), 8_000_000),
        _ => panic!("a plausible bitrate is believed"),
    }
    match probed_bitrate(&probe(Json::Unsigned(8_000))) {
        Some(Err(e)) => {
            assert!(matches!(e, ZowietekClientError::ImplausibleBitrate { field: 8_000 }));
        }
        _ => panic!("a bitrate in another unit is refused"),
    }
}

#[test]
fn the_fast_cadence_is_below_a_millisecond() {
    let fast = PollerConfig::test_fast();
    assert_eq!(fast.poll_period, Duration::from_nanos(500_000));
    assert_eq!(fast.backoff_base, Duration::from_nanos(500_000));
    assert_eq!(fast.backoff_max, Duration::from_millis(4));
    assert_eq!(fast.backoff_factor, 2);
}
