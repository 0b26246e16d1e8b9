use multiview_control::command::{command_bus, Command, CommandBus};
use multiview_control::config_apply::{
    apply_document_diff, desired_outputs, desired_sources, resync_all_stores, resync_plan,
    Adoption, Applied, Desired, Reseed, Session, StoreWrite,
};
use multiview_control::model::{
    Config, ConfigDiff, Document, Fps, LayoutCanvas, LayoutDocument, Output, Overlay,
    OverlayChange, SolvedLayout, Source, SourceChange,
};

fn source(id: &str, synthetic: bool) -> Source {
    Source { id: id.to_owned(), display_name: None, synthetic, body: Some("{}".to_owned()) }
}

fn overlay(id: &str) -> Overlay {
    Overlay { id: id.to_owned(), body: Some("{}".to_owned()) }
}

fn canvas() -> LayoutCanvas {
    LayoutCanvas { width: 1920, height: 1080, fps: Fps { num: 25, den: 1 } }
}

fn config() -> Config {
    Config {
        sources: vec![],
        outputs: vec![],
        overlays: vec![overlay("clock"), overlay("logo")],
        probes: vec![],
        devices: vec![],
        sync_groups: vec![],
        audio: None,
        salvos: vec![],
        tally_profiles: vec![],
        layout_body: Some("{}".to_owned()),
        layout_document: Ok(LayoutDocument { canvas: canvas(), body: "{}".to_owned() }),
        layout_solved: Ok(SolvedLayout { name: "working".to_owned(), body: "{}".to_owned() }),
    }
}

fn no_diff() -> ConfigDiff {
    ConfigDiff {
        sources: vec![],
        overlays: vec![],
        overlays_reordered: false,
        canvas_signal_changed: false,
        canvas_cosmetic_changed: false,
        layout_changed: false,
        changed_sections: vec![],
    }
}

fn session() -> Session {
    Session { overlays_live: true, working_layout_id: None, running_canvas: Some(canvas()) }
}

fn kinds(bus: &mut CommandBus) -> Vec<&'static str> {
    bus.try_drain().iter().map(Command::kind).collect()
}

fn apply(diff: &ConfigDiff, room: usize) -> (Applied, Vec<&'static str>) {
    let mut bus = command_bus(room);
    let a = apply_document_diff(diff, &config(), &session(), &mut bus);
    let sent = kinds(&mut bus);
    (a, sent)
}

#[test]
fn synthetic_sources_go_live_and_decoded_ones_wait() {
    let mut diff = no_diff();
    diff.sources = vec![
        SourceChange::Added(Box::new(source("bars", true))),
        SourceChange::Added(Box::new(source("cam", false))),
        SourceChange::Changed {
            previous: Box::new(source("clock", true)),
            next: Box::new(source("clock", false)),
        },
        SourceChange::Removed("old".to_owned()),
    ];
    let (a, sent) = apply(&diff, 8);
    assert_eq!(sent, vec!["upsert_source", "remove_source", "remove_source"]);
    assert_eq!(
        a.outcome.parts,
        vec!["sources: bars added, cam added, clock changed, old removed"]
    );
    assert_eq!(a.outcome.restart.list(), vec!["sources"]);
    assert_eq!(
        a.outcome.summary,
        "sources: bars added, cam added, clock changed, old removed; restart pending: sources"
    );
    assert_eq!(a.outcome.shed, 0);
    assert_eq!(
        a.adoptions,
        vec![
            Adoption::Source(Box::new(source("bars", true))),
            Adoption::DropSource("clock".to_owned()),
            Adoption::DropSource("old".to_owned()),
        ]
    );
    assert_eq!(a.reseeds, vec![Reseed::Sources]);
}

#[test]
fn what_is_shed_is_counted_and_not_adopted() {
    let mut diff = no_diff();
    diff.sources = vec![
        SourceChange::Added(Box::new(source("a", true))),
        SourceChange::Added(Box::new(source("b", true))),
        SourceChange::Added(Box::new(source("c", true))),
    ];
    let (a, sent) = apply(&diff, 1);
    assert_eq!(sent.len(), 1);
    assert_eq!(a.outcome.shed, 2);
    assert_eq!(a.adoptions, vec![Adoption::Source(Box::new(source("a", true)))]);
    assert!(a.outcome.restart.is_empty());
}

#[test]
fn a_changed_layout_goes_live_on_the_pinned_canvas() {
    let mut diff = no_diff();
    diff.layout_changed = true;
    let (a, sent) = apply(&diff, 8);
    assert_eq!(sent, vec!["apply_layout"]);
    assert_eq!(a.outcome.summary, "layout applied live");
    assert_eq!(a.adoptions, vec![Adoption::Layout]);
    assert_eq!(a.reseeds, vec![Reseed::WorkingLayout]);
    diff.canvas_signal_changed = true;
    let (a, sent) = apply(&diff, 8);
    assert!(sent.is_empty());
    assert_eq!(
        a.outcome.parts,
        vec!["canvas changed", "layout changed (Class-2 canvas; applies on restart)"]
    );
    assert_eq!(a.outcome.restart.list(), vec!["canvas", "layout"]);
}

#[test]
fn overlays_go_live_where_the_engine_can_take_them() {
    let mut diff = no_diff();
    diff.changed_sections = vec!["overlays".to_owned()];
    diff.overlays = vec![
        OverlayChange::Added(Box::new(overlay("clock"))),
        OverlayChange::Removed("ticker".to_owned()),
    ];
    diff.overlays_reordered = true;
    let (a, sent) = apply(&diff, 8);
    assert_eq!(sent, vec!["upsert_overlay", "remove_overlay", "reorder_overlays"]);
    assert_eq!(
        a.outcome.summary,
        "overlays applied live: clock upserted, ticker removed, draw order re-sequenced"
    );
    assert!(a.outcome.restart.is_empty());
    assert_eq!(a.adoptions.len(), 2, "a new draw order is not adopted");
    let (a, _) = apply(&diff, 2);
    assert_eq!(a.outcome.shed, 1);
    assert_eq!(a.outcome.restart.list(), vec!["overlays"]);
    assert!(a.outcome.summary.starts_with("overlays partially applied (shed; retried): "));
    let mut bus = command_bus(8);
    let held = Session { overlays_live: false, ..session() };
    let a = apply_document_diff(&diff, &config(), &held, &mut bus);
    assert!(bus.try_drain().is_empty());
    assert_eq!(a.outcome.parts, vec!["overlays changed (applies on restart)"]);
    assert_eq!(a.reseeds, vec![Reseed::Overlays]);
}

#[test]
fn other_sections_reseed_their_stores_and_wait() {
    let mut diff = no_diff();
    diff.canvas_cosmetic_changed = true;
    diff.changed_sections =
        ["audio", "control", "devices", "outputs", "salvos"].map(str::to_owned).to_vec();
    let (a, sent) = apply(&diff, 8);
    assert!(sent.is_empty());
    assert_eq!(
        a.reseeds,
        vec![Reseed::Audio, Reseed::Devices, Reseed::Outputs, Reseed::Salvos]
    );
    assert_eq!(
        a.outcome.restart.list(),
        vec!["audio", "canvas", "control", "devices", "outputs", "salvos"]
    );
    assert_eq!(a.outcome.parts[1], "audio changed");
}

fn row(id: &str) -> Desired {
    Desired { id: id.to_owned(), name: id.to_owned(), body: "{}".to_owned() }
}

#[test]
fn stores_follow_the_file() {
    let existing = vec!["a".to_owned(), "b".to_owned()];
    let plan = resync_plan(&existing, &vec![row("b"), row("c")]);
    assert_eq!(
        plan,
        vec![
            StoreWrite::Update(row("b")),
            StoreWrite::Create(row("c")),
            StoreWrite::Delete("a".to_owned()),
        ]
    );
}

#[test]
fn rows_take_their_names_from_the_document() {
    let mut c = config();
    c.sources = vec![
        source("a", true),
        Source { display_name: Some("Camera".to_owned()), ..source("b", false) },
        Source { body: None, ..source("c", false) },
    ];
    c.outputs = vec![
        Output { kind: Some("hls".to_owned()), body: Some("{}".to_owned()) },
        Output { kind: None, body: Some("{}".to_owned()) },
    ];
    let names: Vec<(String, String)> =
        desired_sources(&c).into_iter().map(|r| (r.id, r.name)).collect();
    assert_eq!(
        names,
        vec![("a".to_owned(), "a".to_owned()), ("b".to_owned(), "Camera".to_owned())],
        "a document that cannot be written down has no row"
    );
    let names: Vec<(String, String)> =
        desired_outputs(&c).into_iter().map(|r| (r.id, r.name)).collect();
    assert_eq!(
        names,
        vec![
            ("output-0".to_owned(), "hls".to_owned()),
            ("output-1".to_owned(), "output".to_owned()),
        ]
    );
}

#[test]
fn a_full_resync_covers_every_store() {
    let all = resync_all_stores(&config());
    assert!(all.contains(&Reseed::WorkingLayout) && !all.contains(&Reseed::Audio));
    let mut c = config();
    c.audio = Some("{}".to_owned());
    c.layout_body = None;
    c.devices = vec![Document {
        id: "d".to_owned(),
        display_name: None,
        body: Some("{}".to_owned()),
    }];
    let all = resync_all_stores(&c);
    assert!(all.contains(&Reseed::Audio) && !all.contains(&Reseed::WorkingLayout));
    assert!(all.contains(&Reseed::Devices) && all.contains(&Reseed::TallyProfiles));
}
