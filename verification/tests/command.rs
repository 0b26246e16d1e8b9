use multiview_control::command::{
    command_bus, resolve_layout_document, Command, MediaTransportVerb, OperationId, SubmitError,
};
use multiview_control::error::ControlError;
use multiview_control::json::Json;
use multiview_control::model::{
    Fps, LayoutCanvas, LayoutDocument, RouteIntent, SolvedLayout, StreamKind, StreamRef,
    StreamSelector,
};

#[test]
fn swap_source_desugars_to_the_route_video_best_alias() {
    // A legacy `SwapSource{tile,source}` and the equivalent
    // `RouteVideo{cell, StreamRef{source, Video, Best}}` desugar to the SAME
    // engine route intent, so the alias keeps working.
    let swap = Command::SwapSource {
        op: OperationId::new(),
        tile: "c0".to_owned(),
        source: "cam-b".to_owned(),
    };
    let route = Command::RouteVideo {
        op: OperationId::new(),
        cell: "c0".to_owned(),
        source: StreamRef::best("cam-b", StreamKind::Video),
    };
    let swap_intent = swap.route_intent().expect("SwapSource desugars");
    let route_intent = route.route_intent().expect("RouteVideo desugars");
    assert_eq!(
        swap_intent, route_intent,
        "SwapSource is the desugared alias of RouteVideo{{Video, Best}}"
    );
    assert_eq!(
        swap_intent,
        RouteIntent::Video {
            cell: "c0".to_owned(),
            source: StreamRef::best("cam-b", StreamKind::Video),
        }
    );
}

#[test]
fn route_audio_carries_gain_and_mute_into_the_intent() {
    let mut source = StreamRef::best("cam-b", StreamKind::Audio);
    source.selector = StreamSelector::language("eng".to_owned());
    let cmd = Command::RouteAudio {
        op: OperationId::new(),
        target: "prog".to_owned(),
        source,
        gain_db_bits: (-3.0_f32).to_bits(),
        mute: true,
    };
    match cmd.route_intent().expect("RouteAudio desugars") {
        RouteIntent::Audio { target, gain_db_bits, mute, .. } => {
            assert_eq!(target, "prog");
            assert_eq!(f32::from_bits(gain_db_bits), -3.0);
            assert!(mute);
        }
        other => panic!("expected an Audio intent, got {other:?}"),
    }
    assert_eq!(cmd.kind(), "route_audio");
}

#[test]
fn non_routing_commands_have_no_route_intent() {
    let start = Command::Start { op: OperationId::new() };
    assert!(start.route_intent().is_none());
}

#[test]
fn media_transport_verbs_carry_per_verb_kinds() {
    // The 202 `kind` label reflects the transport verb so an operator/audit
    // sees what the player was asked to do (load/cue/play/pause/stop/seek),
    // mirroring how each salvo verb has its own `kind()` string.
    let cases = [
        (MediaTransportVerb::Load { asset: "opener".to_owned() }, "media_load"),
        (MediaTransportVerb::Cue { frame: None }, "media_cue"),
        (MediaTransportVerb::Cue { frame: Some(120) }, "media_cue"),
        (MediaTransportVerb::Play, "media_play"),
        (MediaTransportVerb::Pause, "media_pause"),
        (MediaTransportVerb::Stop, "media_stop"),
        (MediaTransportVerb::Seek { frame: Some(48) }, "media_seek"),
    ];
    for (verb, kind) in cases {
        let cmd = Command::MediaTransport {
            op: OperationId::new(),
            player: "vt-1".to_owned(),
            verb,
        };
        assert_eq!(cmd.kind(), kind);
        assert!(cmd.route_intent().is_none());
    }
}

#[test]
fn media_exit_verbs_mirror_the_salvo_triad_kinds() {
    // The three exit verbs mirror ArmSalvo/TakeSalvo/CancelSalvo exactly, with
    // `arm_media_exit`/`take_media_exit`/`cancel_media_exit`.
    let arm = Command::ArmMediaExit { op: OperationId::new(), player: "vt-1".to_owned() };
    let take = Command::TakeMediaExit { op: OperationId::new(), player: "vt-1".to_owned() };
    let cancel = Command::CancelMediaExit { op: OperationId::new(), player: "vt-1".to_owned() };
    assert_eq!(arm.kind(), "arm_media_exit");
    assert_eq!(take.kind(), "take_media_exit");
    assert_eq!(cancel.kind(), "cancel_media_exit");
    assert!(arm.route_intent().is_none());
    assert!(take.route_intent().is_none());
    assert!(cancel.route_intent().is_none());
}

#[test]
fn media_commands_expose_their_operation_id() {
    // Every new media variant participates in `operation_id()` so the
    // command surface can correlate its 202 like any other command.
    let op = OperationId::new();
    let transport = Command::MediaTransport {
        op: op.clone(),
        player: "vt-1".to_owned(),
        verb: MediaTransportVerb::Play,
    };
    assert_eq!(transport.operation_id(), &op);
    let arm = Command::ArmMediaExit { op: op.clone(), player: "vt-1".to_owned() };
    assert_eq!(arm.operation_id(), &op);
}

#[test]
fn media_transport_verb_serde_round_trips_tagged_by_verb() {
    // The verb union is an internally tagged enum (never untagged):
    // `{"verb":"load","asset":"opener"}` etc.
    let load = MediaTransportVerb::Load { asset: "opener".to_owned() };
    let json = load.to_json();
    assert_eq!(json.text_field("verb"), Some("load"));
    assert_eq!(json.text_field("asset"), Some("opener"));
    let back = MediaTransportVerb::from_json(&json).unwrap();
    assert_eq!(back, load);

    let cue = MediaTransportVerb::Cue { frame: Some(90) };
    let json = cue.to_json();
    assert_eq!(json.text_field("verb"), Some("cue"));
    assert_eq!(json.field("frame"), Some(&Json::Unsigned(90)));
    let back = MediaTransportVerb::from_json(&json).unwrap();
    assert_eq!(back, cue);

    let play = MediaTransportVerb::Play;
    let json = play.to_json();
    assert_eq!(json.text_field("verb"), Some("play"));
    let back = MediaTransportVerb::from_json(&json).unwrap();
    assert_eq!(back, play);
}

#[test]
fn verbs_that_are_not_known_or_not_whole_are_refused() {
    let json = |fields: Vec<(&str, Json)>| {
        Json::object(fields.into_iter().map(|(k, v)| (k.to_owned(), v)).collect())
    };
    assert_eq!(MediaTransportVerb::from_json(&json(vec![("verb", Json::string("rewind"))])), None);
    assert_eq!(MediaTransportVerb::from_json(&json(vec![("verb", Json::string("load"))])), None);
    assert_eq!(MediaTransportVerb::from_json(&Json::Null), None);
    assert_eq!(
        MediaTransportVerb::from_json(&json(vec![("verb", Json::string("cue"))])),
        Some(MediaTransportVerb::Cue { frame: None })
    );
    assert_eq!(
        MediaTransportVerb::from_json(&json(vec![
            ("verb", Json::string("seek")),
            ("frame", Json::Text("9".to_owned())),
        ])),
        None
    );
}

#[test]
fn operation_ids_are_fresh() {
    let a = OperationId::new();
    let b = OperationId::default();
    assert_ne!(a, b);
    assert_eq!(a.as_str().len(), 36);
    assert_eq!(OperationId::from_string("op-7".to_owned()).as_str(), "op-7");
}

#[test]
fn the_bus_sheds_what_does_not_fit_and_keeps_the_order() {
    let mut bus = command_bus(2);
    assert_eq!(bus.capacity(), 2);
    let start = |n: &str| Command::Start { op: OperationId::from_string(n.to_owned()) };
    assert_eq!(bus.try_submit(start("1")).unwrap().as_str(), "1");
    assert_eq!(bus.try_submit(start("2")).unwrap().as_str(), "2");
    assert_eq!(bus.try_submit(start("3")), Err(SubmitError::Full));
    assert_eq!(bus.next().unwrap().operation_id().as_str(), "1");
    assert_eq!(bus.try_submit(start("4")).unwrap().as_str(), "4");
    let rest: Vec<String> =
        bus.try_drain().iter().map(|c| c.operation_id().as_str().to_owned()).collect();
    assert_eq!(rest, vec!["2", "4"]);
    bus.close();
    assert_eq!(bus.try_submit(start("5")), Err(SubmitError::Closed));
    assert_eq!(command_bus(0).capacity(), 1, "there is always room for one");
}

fn canvas(width: u32, num: u32, den: u32) -> LayoutCanvas {
    LayoutCanvas { width, height: 1080, fps: Fps { num, den } }
}

fn document(canvas: LayoutCanvas) -> Result<LayoutDocument, String> {
    Ok(LayoutDocument { canvas, body: "{}".to_owned() })
}

fn solved() -> Result<SolvedLayout, String> {
    Ok(SolvedLayout { name: "quad".to_owned(), body: "{}".to_owned() })
}

fn refusal(r: Result<multiview_control::command::ResolvedLayout, ControlError>) -> String {
    match r {
        Err(ControlError::Validation(t)) => t,
        other => panic!("expected a refusal, got {other:?}"),
    }
}

#[test]
fn layouts_resolve_only_for_the_pinned_canvas() {
    let running = canvas(1920, 50, 1);
    // The same rate in other terms is the same canvas.
    let r = resolve_layout_document("quad", document(canvas(1920, 100, 2)), solved(), Some(&running));
    assert_eq!(r.unwrap().solved.name, "quad");
    assert_eq!(
        refusal(resolve_layout_document(
            "quad",
            document(canvas(1280, 60_000, 1001)),
            solved(),
            Some(&running)
        )),
        "layout \"quad\" was authored for canvas 1280x1080@60000/1001 but the running session's \
         canvas is pinned at 1920x1080@50/1 \u{2014} a Class-2 change (output geometry/cadence \
         cannot change live; ADR-R004)"
    );
    assert_eq!(
        refusal(resolve_layout_document("quad", document(running), solved(), None)),
        "layout \"quad\" cannot be applied live: the running canvas is unknown to the control \
         plane (no pinned-canvas snapshot was seeded), so the Class-1 gate fails closed (ADR-W019)"
    );
    assert_eq!(
        refusal(resolve_layout_document("quad", Err("eof".to_owned()), solved(), Some(&running))),
        "stored layout \"quad\" does not parse as a {canvas, layout, cells} document: eof"
    );
    assert_eq!(
        refusal(resolve_layout_document(
            "quad",
            document(canvas(1920, 50, 1)),
            Err("overlap".to_owned()),
            Some(&running)
        )),
        "stored layout \"quad\" does not solve: overlap"
    );
}
