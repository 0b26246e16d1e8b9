use multiview_control::devices::broadcaster::{DeviceBroadcaster, DeviceDriver};
use multiview_control::devices::cast::media::{
    split_authority, CastDelivery, CastMediaBase, CastMediaError, CastMediaTarget, DisplayAssign,
    HlsSegmentFormat,
};
use multiview_control::devices::cast::net::{
    dial_authority, frame_length, frame_prefix, from_wire, to_wire, WireCastMessage, MAX_FRAME_LEN,
};
use multiview_control::devices::cast::protocol::{
    close_frame, connect_frame, decode, get_status_frame, launch_frame, load_frame, ping_frame,
    pong_frame, set_volume_frame, stop_frame, CastFrame, InboundMessage, MediaStatusEntry,
    PlayerState, ReceiverApplication, ReceiverStatusInfo, DEFAULT_MEDIA_RECEIVER_APP_ID,
    NS_CONNECTION, NS_HEARTBEAT, NS_MEDIA, NS_RECEIVER,
};
use multiview_control::devices::cast::runtime::CastSessionFactory;
use multiview_control::devices::cast::session::{
    CastChannelError, CastMode, CastSessionActor, CastSessionConfig, Outcome, SessionAction,
    SessionEffect, SessionEvent,
};
use multiview_control::devices::cast::store::{CastSessionRecord, CastSessionStore};
use multiview_control::devices::registry::DeviceStatusRegistry;
use multiview_control::devices::state_machine::DeviceState;
use multiview_control::devices::zowietek::poller::{PollerControl, PollerStep};
use multiview_control::devices::zowietek::runtime::Device;

fn target(url: &str) -> CastMediaTarget {
    CastMediaTarget { url: url.to_owned(), format: HlsSegmentFormat::Fmp4 }
}

fn frame(namespace: &str, payload: &str) -> CastFrame {
    CastFrame {
        namespace: namespace.to_owned(),
        source: "receiver-0".to_owned(),
        destination: "sender-0".to_owned(),
        payload: payload.to_owned(),
    }
}

fn payload(f: &CastFrame) -> serde_json::Value {
    serde_json::from_str(&f.payload).expect("a JSON payload")
}

#[test]
fn a_media_base_has_to_be_reachable_by_a_receiver() {
    let base = CastMediaBase::parse("http://mv.example.org:8080/").unwrap();
    assert_eq!(base.as_str(), "http://mv.example.org:8080");
    assert_eq!(base.join("/hls", "program.m3u8"), "http://mv.example.org:8080/hls/program.m3u8");
    assert!(matches!(
        CastMediaBase::parse("ftp://mv.example.org"),
        Err(CastMediaError::NotHttp { .. })
    ));
    for loopback in ["http://127.0.0.1", "https://[::1]:80/"] {
        assert!(
            matches!(CastMediaBase::parse(loopback), Err(CastMediaError::Loopback { .. })),
            "{loopback}"
        );
    }
    for unresolvable in ["http://wall.local:8080", "http://localhost", "http://wall"] {
        assert!(
            matches!(
                CastMediaBase::parse(unresolvable),
                Err(CastMediaError::UnresolvableHost { .. })
            ),
            "{unresolvable}"
        );
    }
    assert!(matches!(
        CastMediaBase::parse("http://mv.example.org/x"),
        Err(CastMediaError::HasPath { .. })
    ));
    assert!(matches!(CastMediaBase::parse("http://:80"), Err(CastMediaError::EmptyHost { .. })));
    assert!(CastMediaBase::parse("http://wall.local").unwrap_err().message().contains("wall.local"));
}

#[test]
fn authorities_default_to_the_cast_port() {
    assert_eq!(split_authority("192.0.2.9"), Some(("192.0.2.9".to_owned(), 8009)));
    assert_eq!(split_authority("192.0.2.9:9000"), Some(("192.0.2.9".to_owned(), 9000)));
    assert_eq!(split_authority("[fd00::9]:9000"), Some(("fd00::9".to_owned(), 9000)));
    assert_eq!(split_authority(""), None);
    assert_eq!(dial_authority("[fd00::9]"), Ok(("fd00::9".to_owned(), 8009)));
    assert!(dial_authority("").is_err());
}

#[test]
fn an_assignment_names_its_rendition() {
    let mut d = CastDelivery::new();
    assert!(d.is_empty() && d.first().is_none());
    d.insert("b", target("http://x/b"));
    d.insert("a", target("http://x/a"));
    d.insert("b", target("http://x/b2"));
    assert_eq!(d.first_output_id(), Some("b"), "a redeclared output keeps its place");
    assert_eq!(d.first(), Some(&target("http://x/b2")));
    assert_eq!(d.resolve_assign(&DisplayAssign::Program(true)), Some(&target("http://x/b2")));
    assert_eq!(d.resolve_assign(&DisplayAssign::Output("a".to_owned())), Some(&target("http://x/a")));
    assert_eq!(d.resolve_assign(&DisplayAssign::Output("c".to_owned())), None);
    assert_eq!(d.resolve_assign(&DisplayAssign::WallHead("h".to_owned())), None);
    assert_eq!(d.for_output("a"), Some(&target("http://x/a")));
}

#[test]
fn frames_say_what_the_protocol_asks_for() {
    assert_eq!(connect_frame("t").namespace, NS_CONNECTION);
    assert_eq!(payload(&connect_frame("t"))["type"], "CONNECT");
    assert_eq!(connect_frame("t").destination, "t");
    assert_eq!(payload(&close_frame("t"))["type"], "CLOSE");
    assert_eq!(payload(&ping_frame())["type"], "PING");
    assert_eq!(payload(&pong_frame())["type"], "PONG");
    assert_eq!(ping_frame().namespace, NS_HEARTBEAT);
    let launch = payload(&launch_frame(3, DEFAULT_MEDIA_RECEIVER_APP_ID));
    assert_eq!(launch["type"], "LAUNCH");
    assert_eq!(launch["requestId"], 3);
    assert_eq!(launch["appId"], "CC1AD845");
    assert_eq!(payload(&get_status_frame(4))["type"], "GET_STATUS");
    let load = load_frame(5, "web-1", &target("http://x/p.m3u8"));
    assert_eq!(load.namespace, NS_MEDIA);
    let load = payload(&load);
    assert_eq!(load["autoplay"], true);
    assert_eq!(load["media"]["contentId"], "http://x/p.m3u8");
    assert_eq!(load["media"]["contentType"], "application/vnd.apple.mpegurl");
    assert_eq!(load["media"]["streamType"], "LIVE");
    assert_eq!(load["media"]["hlsVideoSegmentFormat"], "fmp4");
    assert_eq!(payload(&stop_frame(6, "s"))["sessionId"], "s");
    for percent in [0u8, 1, 5, 10, 33, 50, 99, 100, 200] {
        let level = payload(&set_volume_frame(7, percent))["volume"]["level"].as_f64().unwrap();
        assert_eq!(level, f64::from(percent.min(100)) / 100.0);
    }
}

#[test]
fn inbound_messages_are_read_tolerantly() {
    assert_eq!(decode(&frame(NS_HEARTBEAT, r#"{"type":"PONG"}"#)), InboundMessage::Pong);
    assert_eq!(decode(&frame(NS_HEARTBEAT, r#"{"type":"PING"}"#)), InboundMessage::Ping);
    assert_eq!(
        decode(&frame(NS_CONNECTION, r#"{"type":"CLOSE"}"#)),
        InboundMessage::CloseConnection
    );
    // A type means nothing outside its namespace.
    assert_eq!(decode(&frame(NS_MEDIA, r#"{"type":"PING"}"#)), InboundMessage::Unknown);
    assert_eq!(decode(&frame(NS_RECEIVER, "not json")), InboundMessage::Unknown);
    let status = decode(&frame(
        NS_RECEIVER,
        r#"{"type":"RECEIVER_STATUS","status":{"applications":[
            {"appId":"CC1AD845","sessionId":"s","transportId":"t"},
            {"sessionId":"unreadable"},
            {"appId":"E8C28D3C","sessionId":"i","transportId":"u","isIdleScreen":true}]}}"#,
    ));
    assert_eq!(
        status,
        InboundMessage::ReceiverStatus(ReceiverStatusInfo {
            applications: vec![app("CC1AD845", "s", "t", false), app("E8C28D3C", "i", "u", true)],
        })
    );
    let media = decode(&frame(
        NS_MEDIA,
        r#"{"type":"MEDIA_STATUS","status":[
            {"mediaSessionId":7,"playerState":"PLAYING"},
            {"playerState":"IDLE","idleReason":"FINISHED"}]}"#,
    ));
    assert_eq!(
        media,
        InboundMessage::MediaStatus(vec![
            entry(Some(7), PlayerState::Playing, None),
            entry(None, PlayerState::Idle, Some("FINISHED")),
        ])
    );
    assert_eq!(
        decode(&frame(NS_RECEIVER, r#"{"type":"LAUNCH_ERROR","reason":"NOT_FOUND"}"#)),
        InboundMessage::LaunchError { reason: Some("NOT_FOUND".to_owned()) }
    );
    assert_eq!(
        decode(&frame(NS_MEDIA, r#"{"type":"LOAD_FAILED"}"#)),
        InboundMessage::LoadError { kind: "LOAD_FAILED".to_owned(), reason: None }
    );
}

fn app(app_id: &str, session: &str, transport: &str, idle: bool) -> ReceiverApplication {
    ReceiverApplication {
        app_id: app_id.to_owned(),
        session_id: session.to_owned(),
        transport_id: transport.to_owned(),
        is_idle_screen: idle,
    }
}

fn entry(id: Option<i64>, state: PlayerState, reason: Option<&str>) -> MediaStatusEntry {
    MediaStatusEntry {
        media_session_id: id,
        player_state: state,
        idle_reason: reason.map(str::to_owned),
    }
}

#[test]
fn frames_survive_the_wire() {
    let f = ping_frame();
    assert_eq!(from_wire(to_wire(&f)), f);
    let bare = WireCastMessage {
        protocol_version: None,
        source_id: None,
        destination_id: None,
        namespace: Some("n".to_owned()),
        payload_type: None,
        payload_utf8: None,
        payload_binary: Some(vec![1]),
    };
    let f = from_wire(bare);
    assert_eq!((f.namespace.as_str(), f.source.as_str(), f.payload.as_str()), ("n", "", ""));
    assert_eq!(frame_prefix(258), Ok([0, 0, 1, 2]));
    assert_eq!(frame_length([0, 0, 1, 2]), Ok(258));
    assert_eq!(frame_length([0, 1, 0, 0]), Ok(MAX_FRAME_LEN));
    assert!(frame_length([0, 1, 0, 1]).is_err());
    let e = CastChannelError { message: "gone".to_owned() };
    assert!(e.text().ends_with("gone"));
}

struct Play {
    actor: CastSessionActor,
    now: u64,
}

impl Play {
    fn new() -> Play {
        let actor = CastSessionActor::new(
            "tv",
            "[fd00::9]:8009",
            target("http://x/p.m3u8"),
            CastSessionConfig::default(),
            0,
        );
        Play { actor, now: 0 }
    }

    fn on(&mut self, e: SessionEvent) -> Outcome {
        self.actor.on_event(&e, self.now)
    }

    fn says(&mut self, m: InboundMessage) -> Outcome {
        self.on(SessionEvent::Message(m))
    }

    fn sends(&mut self, o: Outcome, kind: &str) {
        match o.action {
            SessionAction::Send(f) => assert_eq!(payload(&f)["type"], kind),
            other => panic!("expected to send {kind}, got {other:?}"),
        }
    }

    /// Up to the rendition playing.
    fn playing() -> Play {
        let mut p = Play::new();
        assert_eq!(p.on(SessionEvent::Start).action, SessionAction::Dial);
        let o = p.on(SessionEvent::Dialed(true));
        p.sends(o, "CONNECT");
        let o = p.on(SessionEvent::Sent(true));
        p.sends(o, "LAUNCH");
        assert_eq!(p.on(SessionEvent::Sent(true)).action, SessionAction::Listen);
        let o = p.says(InboundMessage::ReceiverStatus(ReceiverStatusInfo {
            applications: vec![app(DEFAULT_MEDIA_RECEIVER_APP_ID, "s", "t", false)],
        }));
        p.sends(o, "CONNECT");
        let o = p.on(SessionEvent::Sent(true));
        p.sends(o, "LOAD");
        let o = p.on(SessionEvent::Sent(true));
        assert_eq!(
            o.effects,
            vec![SessionEffect::Status { state: DeviceState::Online, mode: CastMode::Loading }]
        );
        let o = p.says(InboundMessage::MediaStatus(vec![entry(
            Some(1),
            PlayerState::Playing,
            None,
        )]));
        assert_eq!(
            o.effects,
            vec![
                SessionEffect::LoadAccepted,
                SessionEffect::Status {
                    state: DeviceState::Online,
                    mode: CastMode::Player(PlayerState::Playing),
                },
            ]
        );
        p
    }
}

#[test]
fn a_session_launches_loads_and_plays() {
    let p = Play::playing();
    assert_eq!(p.actor.state(), DeviceState::Online);
    assert_eq!(p.actor.step(), PollerStep::Online);
    assert_eq!((p.actor.device_id(), p.actor.authority()), ("tv", "[fd00::9]:8009"));
    assert!(p.actor.takes_control());
}

#[test]
fn a_session_that_another_sender_took_is_not_fought_for() {
    let mut p = Play::playing();
    let o = p.says(InboundMessage::ReceiverStatus(ReceiverStatusInfo {
        applications: vec![app("233637DE", "theirs", "t2", false)],
    }));
    assert_eq!(
        o.effects,
        vec![
            SessionEffect::Preempted,
            SessionEffect::Status { state: DeviceState::Degraded, mode: CastMode::Preempted },
        ]
    );
    assert_eq!(o.action, SessionAction::Listen);
    // What their player does is not ours.
    let o = p.says(InboundMessage::MediaStatus(vec![entry(Some(9), PlayerState::Playing, None)]));
    assert_eq!((o.action, o.effects), (SessionAction::Listen, vec![]));
    assert!(p.actor.next_timer().is_some(), "the heartbeat goes on");
}

#[test]
fn an_app_that_was_lost_is_started_again() {
    let mut p = Play::playing();
    let o = p.says(InboundMessage::ReceiverStatus(ReceiverStatusInfo {
        applications: vec![app("E8C28D3C", "screen", "t0", true)],
    }));
    assert_eq!(o.action, SessionAction::Pause);
    assert_eq!(
        o.effects,
        vec![SessionEffect::Status { state: DeviceState::Degraded, mode: CastMode::Relaunching }]
    );
    assert_eq!(p.actor.reconnect_delay().as_millis(), 5_000);
    assert_eq!(p.on(SessionEvent::Start).action, SessionAction::Dial);
    let o = p.on(SessionEvent::Dialed(true));
    p.sends(o, "CONNECT");
    let o = p.on(SessionEvent::Sent(true));
    p.sends(o, "LAUNCH");
}

#[test]
fn an_idle_player_is_loaded_again_after_a_delay() {
    let mut p = Play::playing();
    p.says(InboundMessage::MediaStatus(vec![entry(Some(1), PlayerState::Idle, Some("ERROR"))]));
    assert_eq!(p.actor.state(), DeviceState::Degraded);
    assert_eq!(p.actor.timer_due(4_999_999_999), None);
    p.now = 5_000_000_000;
    assert_eq!(p.actor.timer_due(p.now), Some(SessionEvent::ReloadDue));
    let o = p.on(SessionEvent::ReloadDue);
    p.sends(o, "LOAD");
}

#[test]
fn a_silent_channel_dies_and_a_surviving_session_is_resumed() {
    let mut p = Play::playing();
    p.now = 10_000_000_000;
    assert_eq!(p.actor.timer_due(p.now), Some(SessionEvent::PingDue));
    let o = p.on(SessionEvent::PingDue);
    p.sends(o, "PING");
    p.on(SessionEvent::Sent(true));
    p.now = 20_000_000_000;
    let o = p.on(SessionEvent::PingDue);
    assert_eq!(o.action, SessionAction::Pause);
    assert_eq!(p.actor.state(), DeviceState::Unreachable);
    // Back again: the app that survived is joined, and nothing is loaded.
    p.on(SessionEvent::Start);
    let o = p.on(SessionEvent::Dialed(true));
    p.sends(o, "CONNECT");
    let o = p.on(SessionEvent::Sent(true));
    p.sends(o, "GET_STATUS");
    p.on(SessionEvent::Sent(true));
    assert!(p.actor.answer_deadline().is_some());
    assert_eq!(p.says(InboundMessage::Pong).action, SessionAction::Listen);
    for _ in 0..2 {
        let o = p.says(InboundMessage::Ping);
        p.sends(o, "PONG");
        assert_eq!(p.on(SessionEvent::Sent(true)).action, SessionAction::Listen);
    }
    let o = p.says(InboundMessage::ReceiverStatus(ReceiverStatusInfo {
        applications: vec![app(DEFAULT_MEDIA_RECEIVER_APP_ID, "s", "t", false)],
    }));
    p.sends(o, "CONNECT");
    assert_eq!(p.on(SessionEvent::Sent(true)).action, SessionAction::Listen);
    assert_eq!(p.actor.state(), DeviceState::Online);
}

#[test]
fn a_failed_dial_waits_and_a_stop_ends_the_session() {
    let mut p = Play::new();
    p.on(SessionEvent::Start);
    let o = p.on(SessionEvent::Dialed(false));
    assert_eq!(o.action, SessionAction::Pause);
    assert_eq!(p.actor.state(), DeviceState::Unreachable);
    let mut p = Play::playing();
    let o = p.on(SessionEvent::Control(PollerControl::SetVolume { percent: 40 }));
    p.sends(o, "SET_VOLUME");
    p.on(SessionEvent::Sent(true));
    let o = p.on(SessionEvent::Control(PollerControl::StopCast));
    p.sends(o, "STOP");
    let o = p.on(SessionEvent::Sent(true));
    p.sends(o, "CLOSE");
    assert_eq!(p.on(SessionEvent::Sent(true)).action, SessionAction::Exit);
}

#[test]
fn frames_drive_the_session_as_their_messages_do() {
    let mut p = Play::playing();
    let o = p.actor.on_frame(&frame(NS_HEARTBEAT, r#"{"type":"PING"}"#), 1);
    match o.action {
        SessionAction::Send(f) => assert_eq!(payload(&f)["type"], "PONG"),
        other => panic!("expected a pong, got {other:?}"),
    }
}

#[test]
fn what_a_session_tells_is_published() {
    let mut p = Play::playing();
    let mut b = DeviceBroadcaster::new(DeviceStatusRegistry::new());
    let o = p.says(InboundMessage::MediaStatus(vec![]));
    assert!(!p.actor.publish(&o.effects, &mut b), "no load was accepted");
    let s = b.registry().snapshot("tv").unwrap();
    assert_eq!(s.state, DeviceState::Degraded);
    assert_eq!(s.mode.as_deref(), Some("no-media"));
    assert!(s.capabilities.is_some());
    assert!(p.actor.publish(&vec![SessionEffect::LoadAccepted], &mut b));
}

fn record(id: &str) -> CastSessionRecord {
    CastSessionRecord {
        id: id.to_owned(),
        name: None,
        address: "[fd00::9]:8009".to_owned(),
        output: "program".to_owned(),
        media_url: "http://x/p.m3u8".to_owned(),
        started_unix_ns: None,
    }
}

#[test]
fn the_first_start_of_a_session_counts() {
    let mut store = CastSessionStore::new();
    store.insert(record("b"));
    store.insert(record("a"));
    store.mark_started("a", 5);
    store.mark_started("a", 9);
    store.mark_started("nobody", 1);
    assert_eq!(store.get("a").unwrap().started_unix_ns, Some(5));
    let ids: Vec<String> = store.list().into_iter().map(|r| r.id).collect();
    assert_eq!(ids, vec!["a", "b"]);
    assert_eq!(store.remove("a").unwrap().id, "a");
    assert!(store.get("a").is_none() && store.remove("a").is_none());
}

#[test]
fn a_cast_device_with_a_rendition_gets_a_session() {
    let mut delivery = CastDelivery::new();
    delivery.insert("program", target("http://x/p.m3u8"));
    let factory = CastSessionFactory::new(delivery, CastSessionConfig::test_fast());
    let device = |driver, address: Option<&str>, assign| Device {
        id: "tv".to_owned(),
        driver,
        address: address.map(str::to_owned),
        desired_mode: None,
        reconnect: None,
        assign,
    };
    let program = || Some(DisplayAssign::Program(true));
    let actor = factory.spawn(&device(DeviceDriver::Cast, Some("192.0.2.9"), program()), 0);
    assert_eq!(actor.expect("a session").device_id(), "tv");
    assert!(factory.spawn(&device(DeviceDriver::Cast, None, program()), 0).is_none());
    assert!(factory
        .spawn(&device(DeviceDriver::Zowietek, Some("192.0.2.9"), program()), 0)
        .is_none());
    let other = Some(DisplayAssign::Output("missing".to_owned()));
    assert!(factory.spawn(&device(DeviceDriver::Cast, Some("192.0.2.9"), other), 0).is_none());
}
