//! Applying a changed configuration to the running system.
//!
//! A change is taken section by section. What the engine can take live is
//! submitted to the command bus, in a fixed order: sources, then the layout,
//! then overlays. What it cannot take is named as pending a restart. The
//! operators' stores are reseeded from the new document either way.
//!
//! A submission may be shed. Then the outcome says how many were, and the
//! caller applies the whole change again later: every command is idempotent.

use vstd::prelude::*;

use crate::command::{resolve_layout_document, Command, CommandBus, OperationId, ResolvedLayout};
use crate::model::{
    Config, ConfigDiff, Document, LayoutCanvas, LayoutDocument, Output, Overlay, OverlayChange,
    SolvedLayout, Source, SourceChange,
};
use crate::sections::Sections;
use crate::text::{cat2, clone_texts, contains_text, decimal_text, join, str_eq};

verus! {

// ---- What the engine is asked for ----------------------------------------------

/// A change that the engine can take live.
pub enum EngineChange {
    /// Create or replace a source.
    UpsertSource(Source),
    /// Remove a source.
    RemoveSource(Seq<char>),
    /// Make a layout active.
    ApplyLayout(Seq<char>, LayoutDocument, SolvedLayout),
    /// Create or replace an overlay.
    UpsertOverlay(Overlay),
    /// Remove an overlay.
    RemoveOverlay(Seq<char>),
    /// Put the overlays in this order.
    ReorderOverlays(Seq<Seq<char>>),
}

/// Whether a command asks for the change.
pub open spec fn carries(c: Command, e: EngineChange) -> bool {
    match e {
        EngineChange::UpsertSource(s) => c matches Command::UpsertSource { source, .. } && *source == s,
        EngineChange::RemoveSource(k) => c matches Command::RemoveSource { id, .. } && id@ == k,
        EngineChange::ApplyLayout(k, doc, solved) => c matches Command::ApplyLayout {
            layout,
            document,
            ..
        } && layout@ == k && document is Some && document->0.document == doc && document->0.solved
            == solved,
        EngineChange::UpsertOverlay(o) => c matches Command::UpsertOverlay { overlay, .. } && *overlay
            == o,
        EngineChange::RemoveOverlay(k) => c matches Command::RemoveOverlay { id, .. } && id@ == k,
        EngineChange::ReorderOverlays(ks) => c matches Command::ReorderOverlays { order, .. } && crate::text::texts(
            order@,
        ) == ks,
    }
}

/// How many of `n` submissions land on a bus with this much room.
pub open spec fn landing(room: nat, n: nat) -> nat {
    if n <= room {
        n
    } else {
        room
    }
}

/// The bus after a plan was submitted to it: as much of the plan as there was
/// room for, in order, behind what had landed before.
pub open spec fn landed(before: CommandBus, after: CommandBus, plan: Seq<EngineChange>) -> bool {
    let k = landing(before.room(), plan.len());
    &&& after.depth() == before.depth()
    &&& after.is_open() == before.is_open()
    &&& after@.len() == before@.len() + k
    &&& forall|i: int| 0 <= i < before@.len() ==> #[trigger] after@[i] == before@[i]
    &&& forall|j: int| 0 <= j < k ==> carries(after@[before@.len() + j], #[trigger] plan[j])
}

/// A section of the configuration that the engine now runs, so that it may be
/// recorded as adopted.
#[derive(Debug, PartialEq, Eq)]
pub enum Adoption {
    /// The engine runs this source.
    Source(Box<Source>),
    /// The engine no longer runs the source with this id.
    DropSource(String),
    /// The engine runs the new layout.
    Layout,
    /// The engine shows this overlay.
    Overlay(Box<Overlay>),
    /// The engine no longer shows the overlay with this id.
    DropOverlay(String),
}

/// Whether the adoption records the change.
pub open spec fn adopts(a: Adoption, e: EngineChange) -> bool {
    match e {
        EngineChange::UpsertSource(s) => a matches Adoption::Source(x) && *x == s,
        EngineChange::RemoveSource(k) => a matches Adoption::DropSource(id) && id@ == k,
        EngineChange::ApplyLayout(..) => a is Layout,
        EngineChange::UpsertOverlay(o) => a matches Adoption::Overlay(x) && *x == o,
        EngineChange::RemoveOverlay(k) => a matches Adoption::DropOverlay(id) && id@ == k,
        EngineChange::ReorderOverlays(..) => false,
    }
}

/// The changes that are recorded: all but the draw order, which alters neither
/// which overlays there are nor what they say.
pub open spec fn recorded(plan: Seq<EngineChange>) -> Seq<EngineChange>
    decreases plan.len(),
{
    if plan.len() == 0 {
        Seq::empty()
    } else if plan.last() is ReorderOverlays {
        recorded(plan.drop_last())
    } else {
        recorded(plan.drop_last()).push(plan.last())
    }
}

/// Whether the adoptions record the changes, one for one.
pub open spec fn adopts_all(list: Seq<Adoption>, changes: Seq<EngineChange>) -> bool {
    list.len() == changes.len() && forall|i: int|
        0 <= i < list.len() ==> adopts(#[trigger] list[i], changes[i])
}

/// `n`, or the largest `u32`.
pub open spec fn cap_u32(n: nat) -> u32 {
    if n > u32::MAX {
        u32::MAX
    } else {
        n as u32
    }
}

/// What became of the submissions so far.
struct Progress {
    shed: u32,
    adoptions: Vec<Adoption>,
}

/// The bus and the tally are what submitting `plan` to `start` gives.
spec fn tracks(start: CommandBus, bus: CommandBus, p: Progress, plan: Seq<EngineChange>) -> bool {
    let k = landing(start.room(), plan.len());
    &&& start.wf()
    &&& bus.wf()
    &&& landed(start, bus, plan)
    &&& bus.room() == start.room() - k
    &&& p.shed == cap_u32((plan.len() - k) as nat)
    &&& adopts_all(p.adoptions@, recorded(plan.take(k as int)))
}

/// Submit one change: it lands, or it is shed and counted.
fn offer(
    bus: &mut CommandBus,
    progress: &mut Progress,
    command: Command,
    adoption: Option<Adoption>,
    Ghost(start): Ghost<CommandBus>,
    Ghost(plan): Ghost<Seq<EngineChange>>,
    Ghost(change): Ghost<EngineChange>,
) -> (r: bool)
    requires
        tracks(start, *old(bus), *old(progress), plan),
        carries(command, change),
        match adoption {
            Some(a) => adopts(a, change),
            None => change is ReorderOverlays,
        },
    ensures
        tracks(start, *final(bus), *final(progress), plan.push(change)),
        r == (start.room() > plan.len()),
{
    let ghost k = landing(start.room(), plan.len());
    let ghost next = plan.push(change);
    let ghost before = *bus;
    match bus.try_submit(command) {
        Ok(_) => {
            proof {
                before.lemma_bounded();
                bus.lemma_bounded();
                assert(next.take((k + 1) as int).drop_last() =~= plan.take(k as int));
                assert forall|j: int| 0 <= j < k + 1 implies carries(
                    bus@[start@.len() + j],
                    #[trigger] next[j],
                ) by {
                    if j < k {
                        assert(carries(before@[start@.len() + j], plan[j]));
                    }
                }
            }
            if let Some(a) = adoption {
                progress.adoptions.push(a);
            }
            true
        },
        Err(_) => {
            proof {
                before.lemma_bounded();
                assert(next.take(k as int) =~= plan.take(k as int));
                assert forall|j: int| 0 <= j < k implies carries(
                    bus@[start@.len() + j],
                    #[trigger] next[j],
                ) by {
                    assert(carries(before@[start@.len() + j], plan[j]));
                }
            }
            progress.shed = progress.shed.saturating_add(1);
            false
        },
    }
}

// ---- Sources -------------------------------------------------------------------

/// What a changed source asks of the engine. Only a source that the appliance
/// generates itself can be started live; one that it stops generating is
/// stopped at once.
pub open spec fn source_step(c: SourceChange) -> Seq<EngineChange> {
    match c {
        SourceChange::Added(s) => if s.synthetic {
            seq![EngineChange::UpsertSource(*s)]
        } else {
            Seq::empty()
        },
        SourceChange::Changed { previous, next } => if next.synthetic {
            seq![EngineChange::UpsertSource(*next)]
        } else if previous.synthetic {
            seq![EngineChange::RemoveSource(next.id@)]
        } else {
            Seq::empty()
        },
        SourceChange::Removed(id) => seq![EngineChange::RemoveSource(id@)],
    }
}

/// Whether a changed source waits for a restart.
pub open spec fn source_waits(c: SourceChange) -> bool {
    match c {
        SourceChange::Added(s) => !s.synthetic,
        SourceChange::Changed { next, .. } => !next.synthetic,
        SourceChange::Removed(_) => false,
    }
}

/// How a changed source is reported.
pub open spec fn source_line(c: SourceChange) -> Seq<char> {
    match c {
        SourceChange::Added(s) => s.id@ + " added"@,
        SourceChange::Changed { next, .. } => next.id@ + " changed"@,
        SourceChange::Removed(id) => id@ + " removed"@,
    }
}

/// What the changed sources ask of the engine, in order.
pub open spec fn source_plan(changes: Seq<SourceChange>) -> Seq<EngineChange>
    decreases changes.len(),
{
    if changes.len() == 0 {
        Seq::empty()
    } else {
        source_plan(changes.drop_last()) + source_step(changes.last())
    }
}

/// Whether a changed source waits for a restart.
pub open spec fn sources_wait(changes: Seq<SourceChange>) -> bool {
    exists|i: int| 0 <= i < changes.len() && source_waits(#[trigger] changes[i])
}

/// The report of the changed sources.
pub open spec fn sources_part(changes: Seq<SourceChange>) -> Seq<char> {
    "sources: "@ + crate::text::join_of(changes.map_values(|c: SourceChange| source_line(c)), ", "@)
}

fn apply_source_changes(
    changes: &Vec<SourceChange>,
    bus: &mut CommandBus,
    progress: &mut Progress,
    restart: &mut Sections,
    Ghost(start): Ghost<CommandBus>,
    Ghost(plan): Ghost<Seq<EngineChange>>,
) -> (r: String)
    requires
        tracks(start, *old(bus), *old(progress), plan),
        old(restart).wf(),
    ensures
        tracks(start, *final(bus), *final(progress), plan + source_plan(changes@)),
        final(restart).wf(),
        final(restart)@ == (if sources_wait(changes@) {
            old(restart)@.insert("sources"@)
        } else {
            old(restart)@
        }),
        r@ == sources_part(changes@),
{
    let mut described: Vec<String> = Vec::new();
    let mut i: usize = 0;
    let ghost lines = changes@.map_values(|c: SourceChange| source_line(c));
    assert(changes@.take(0) =~= Seq::<SourceChange>::empty());
    assert(plan + source_plan(changes@.take(0)) =~= plan);
    while i < changes.len()
        invariant
            i <= changes.len(),
            tracks(start, *bus, *progress, plan + source_plan(changes@.take(i as int))),
            restart.wf(),
            restart@ == (if sources_wait(changes@.take(i as int)) {
                old(restart)@.insert("sources"@)
            } else {
                old(restart)@
            }),
            lines == changes@.map_values(|c: SourceChange| source_line(c)),
            crate::text::texts(described@) == lines.take(i as int),
        decreases changes.len() - i,
    {
        let ghost sofar = plan + source_plan(changes@.take(i as int));
        let ghost was = restart@;
        let ghost base = old(restart)@;
        let ghost c = changes@[i as int];
        let ghost shown = described@;
        proof {
            let t = changes@.take(i + 1);
            assert(t.drop_last() =~= changes@.take(i as int));
            assert(t.last() == c);
            assert(plan + source_plan(t) =~= sofar + source_step(c));
            assert(lines.take(i + 1) =~= lines.take(i as int).push(source_line(c)));
            assert(sources_wait(t) == (sources_wait(changes@.take(i as int)) || source_waits(c))) by {
                if sources_wait(t) {
                    let j = choose|j: int| 0 <= j < t.len() && source_waits(#[trigger] t[j]);
                    if j < i {
                        assert(source_waits(changes@.take(i as int)[j]));
                    }
                }
                if sources_wait(changes@.take(i as int)) {
                    let u = changes@.take(i as int);
                    let j = choose|j: int| 0 <= j < u.len() && source_waits(#[trigger] u[j]);
                    assert(source_waits(t[j]));
                }
                if source_waits(c) {
                    assert(source_waits(t[i as int]));
                }
            }
        }
        match &changes[i] {
            SourceChange::Added(source) => {
                described.push(cat2(source.id.as_str(), " added"));
                if source.synthetic {
                    offer(
                        bus,
                        progress,
                        Command::UpsertSource {
                            op: OperationId::new(),
                            source: Box::new((**source).clone()),
                        },
                        Some(Adoption::Source(Box::new((**source).clone()))),
                        Ghost(start),
                        Ghost(sofar),
                        Ghost(EngineChange::UpsertSource(**source)),
                    );
                    assert(sofar + source_step(c) =~= sofar.push(EngineChange::UpsertSource(**source)));
                } else {
                    restart.insert("sources");
                    assert(restart@ =~= base.insert("sources"@));
                    assert(sofar + source_step(c) =~= sofar);
                }
            },
            SourceChange::Changed { previous, next } => {
                described.push(cat2(next.id.as_str(), " changed"));
                if next.synthetic {
                    offer(
                        bus,
                        progress,
                        Command::UpsertSource {
                            op: OperationId::new(),
                            source: Box::new((**next).clone()),
                        },
                        Some(Adoption::Source(Box::new((**next).clone()))),
                        Ghost(start),
                        Ghost(sofar),
                        Ghost(EngineChange::UpsertSource(**next)),
                    );
                    assert(sofar + source_step(c) =~= sofar.push(EngineChange::UpsertSource(**next)));
                } else {
                    if previous.synthetic {
                        offer(
                            bus,
                            progress,
                            Command::RemoveSource { op: OperationId::new(), id: next.id.clone() },
                            Some(Adoption::DropSource(next.id.clone())),
                            Ghost(start),
                            Ghost(sofar),
                            Ghost(EngineChange::RemoveSource(next.id@)),
                        );
                        assert(sofar + source_step(c) =~= sofar.push(
                            EngineChange::RemoveSource(next.id@),
                        ));
                    } else {
                        assert(sofar + source_step(c) =~= sofar);
                    }
                    restart.insert("sources");
                    assert(restart@ =~= base.insert("sources"@));
                }
            },
            SourceChange::Removed(id) => {
                described.push(cat2(id.as_str(), " removed"));
                offer(
                    bus,
                    progress,
                    Command::RemoveSource { op: OperationId::new(), id: id.clone() },
                    Some(Adoption::DropSource(id.clone())),
                    Ghost(start),
                    Ghost(sofar),
                    Ghost(EngineChange::RemoveSource(id@)),
                );
                assert(sofar + source_step(c) =~= sofar.push(EngineChange::RemoveSource(id@)));
            },
        }
        assert(crate::text::texts(described@) =~= crate::text::texts(shown).push(source_line(c)));
        i += 1;
    }
    assert(changes@.take(i as int) =~= changes@);
    assert(lines.take(i as int) =~= lines);
    let list = join(&described, ", ");
    cat2("sources: ", list.as_str())
}

// ---- Layout --------------------------------------------------------------------

/// What the control plane knows of the running session.
pub struct Session {
    /// Whether the engine takes overlay changes live.
    pub overlays_live: bool,
    /// The id of the working layout.
    pub working_layout_id: Option<String>,
    /// The pinned canvas.
    pub running_canvas: Option<LayoutCanvas>,
}

/// The id under which the working layout is stored.
pub open spec fn layout_id(session: Session) -> Seq<char> {
    match session.working_layout_id {
        Some(id) => id@,
        None => "working"@,
    }
}

/// Whether the engine is asked to take the changed layout: it could be written
/// down, the canvas keeps its signal, and it resolves for the running canvas.
pub open spec fn layout_goes_live(diff: ConfigDiff, next: Config, session: Session) -> bool {
    &&& next.layout_body is Some
    &&& !diff.canvas_signal_changed
    &&& crate::command::layout_refusal(next.layout_document, next.layout_solved, session.running_canvas) is None
}

/// What a changed layout asks of the engine.
pub open spec fn layout_plan(diff: ConfigDiff, next: Config, session: Session) -> Seq<EngineChange> {
    if diff.layout_changed && layout_goes_live(diff, next, session) {
        seq![
            EngineChange::ApplyLayout(
                layout_id(session),
                next.layout_document->Ok_0,
                next.layout_solved->Ok_0,
            ),
        ]
    } else {
        Seq::empty()
    }
}

/// The report of a changed layout, given whether there was room on the bus.
pub open spec fn layout_part(diff: ConfigDiff, next: Config, session: Session, room: bool) -> Seq<char> {
    if next.layout_body is None {
        "layout changed (could not serialize; applies on restart)"@
    } else if diff.canvas_signal_changed {
        "layout changed (Class-2 canvas; applies on restart)"@
    } else if !layout_goes_live(diff, next, session) {
        "layout changed (held; applies on restart)"@
    } else if room {
        "layout applied live"@
    } else {
        "layout apply shed (retried on the next poll)"@
    }
}

/// A copy of a parsed layout.
fn clone_document(d: &Result<LayoutDocument, String>) -> (r: Result<LayoutDocument, String>)
    ensures
        r == *d,
{
    match d {
        Ok(v) => Ok(v.clone()),
        Err(e) => Err(e.clone()),
    }
}

/// A copy of a solved layout.
fn clone_solved(d: &Result<SolvedLayout, String>) -> (r: Result<SolvedLayout, String>)
    ensures
        r == *d,
{
    match d {
        Ok(v) => Ok(v.clone()),
        Err(e) => Err(e.clone()),
    }
}

fn apply_layout_change(
    diff: &ConfigDiff,
    next: &Config,
    session: &Session,
    bus: &mut CommandBus,
    progress: &mut Progress,
    restart: &mut Sections,
    reseeds: &mut Vec<Reseed>,
    Ghost(start): Ghost<CommandBus>,
    Ghost(plan): Ghost<Seq<EngineChange>>,
) -> (r: String)
    requires
        tracks(start, *old(bus), *old(progress), plan),
        old(restart).wf(),
        diff.layout_changed,
    ensures
        tracks(start, *final(bus), *final(progress), plan + layout_plan(*diff, *next, *session)),
        final(restart).wf(),
        final(restart)@ == (if layout_goes_live(*diff, *next, *session) {
            old(restart)@
        } else {
            old(restart)@.insert("layout"@)
        }),
        final(reseeds)@ == (if next.layout_body is Some {
            old(reseeds)@.push(Reseed::WorkingLayout)
        } else {
            old(reseeds)@
        }),
        r@ == layout_part(*diff, *next, *session, start.room() > plan.len()),
{
    let id: String = match &session.working_layout_id {
        Some(id) => id.clone(),
        None => "working".to_owned(),
    };
    assert(plan + Seq::<EngineChange>::empty() =~= plan);
    if next.layout_body.is_none() {
        restart.insert("layout");
        return "layout changed (could not serialize; applies on restart)".to_owned();
    }
    reseeds.push(Reseed::WorkingLayout);
    if diff.canvas_signal_changed {
        restart.insert("layout");
        return "layout changed (Class-2 canvas; applies on restart)".to_owned();
    }
    let document = clone_document(&next.layout_document);
    let solved = clone_solved(&next.layout_solved);
    match resolve_layout_document(id.as_str(), document, solved, session.running_canvas.as_ref()) {
        Ok(resolved) => {
            let ghost change = EngineChange::ApplyLayout(id@, resolved.document, resolved.solved);
            assert(plan + layout_plan(*diff, *next, *session) =~= plan.push(change));
            if offer(
                bus,
                progress,
                Command::ApplyLayout {
                    op: OperationId::new(),
                    layout: id,
                    document: Some(Box::new(resolved)),
                },
                Some(Adoption::Layout),
                Ghost(start),
                Ghost(plan),
                Ghost(change),
            ) {
                "layout applied live".to_owned()
            } else {
                "layout apply shed (retried on the next poll)".to_owned()
            }
        },
        Err(_) => {
            restart.insert("layout");
            "layout changed (held; applies on restart)".to_owned()
        },
    }
}

// ---- Overlays ------------------------------------------------------------------

/// What a changed overlay asks of the engine.
pub open spec fn overlay_step(c: OverlayChange) -> EngineChange {
    match c {
        OverlayChange::Added(o) => EngineChange::UpsertOverlay(*o),
        OverlayChange::Changed(o) => EngineChange::UpsertOverlay(*o),
        OverlayChange::Removed(id) => EngineChange::RemoveOverlay(id@),
    }
}

/// How a changed overlay is reported.
pub open spec fn overlay_line(c: OverlayChange) -> Seq<char> {
    match c {
        OverlayChange::Added(o) => o.id@ + " upserted"@,
        OverlayChange::Changed(o) => o.id@ + " upserted"@,
        OverlayChange::Removed(id) => id@ + " removed"@,
    }
}

/// The ids of the overlays, in draw order.
pub open spec fn overlay_order(overlays: Seq<Overlay>) -> Seq<Seq<char>> {
    overlays.map_values(|o: Overlay| o.id@)
}

/// What the changed overlays ask of the engine: each change, then the draw
/// order where that alone changed.
pub open spec fn overlay_plan(diff: ConfigDiff, next: Config) -> Seq<EngineChange> {
    let steps = diff.overlays@.map_values(|c: OverlayChange| overlay_step(c));
    if diff.overlays_reordered {
        steps.push(EngineChange::ReorderOverlays(overlay_order(next.overlays@)))
    } else {
        steps
    }
}

/// The report lines of the changed overlays.
pub open spec fn overlay_lines(diff: ConfigDiff) -> Seq<Seq<char>> {
    let lines = diff.overlays@.map_values(|c: OverlayChange| overlay_line(c));
    if diff.overlays_reordered {
        lines.push("draw order re-sequenced"@)
    } else {
        lines
    }
}

/// The report of the changed overlays, given how many submissions there is
/// room for.
pub open spec fn overlays_part(diff: ConfigDiff, next: Config, live: bool, room: nat) -> Seq<char> {
    if !live {
        "overlays changed (applies on restart)"@
    } else if overlay_plan(diff, next).len() <= room {
        "overlays applied live: "@ + crate::text::join_of(overlay_lines(diff), ", "@)
    } else {
        "overlays partially applied (shed; retried): "@ + crate::text::join_of(overlay_lines(diff), ", "@)
    }
}

/// Whether the overlays wait for a restart.
pub open spec fn overlays_wait(diff: ConfigDiff, next: Config, live: bool, room: nat) -> bool {
    !live || overlay_plan(diff, next).len() > room
}

/// The ids of the overlays, in draw order.
fn order_of(overlays: &Vec<Overlay>) -> (r: Vec<String>)
    ensures
        crate::text::texts(r@) == overlay_order(overlays@),
{
    let mut out: Vec<String> = Vec::new();
    let mut i: usize = 0;
    while i < overlays.len()
        invariant
            i <= overlays.len(),
            crate::text::texts(out@) == overlay_order(overlays@).take(i as int),
        decreases overlays.len() - i,
    {
        let ghost before = out@;
        let id = overlays[i].id.clone();
        out.push(id);
        assert(crate::text::texts(out@) =~= crate::text::texts(before).push(id@));
        assert(overlay_order(overlays@).take(i + 1) =~= overlay_order(overlays@).take(i as int).push(
            overlay_order(overlays@)[i as int],
        ));
        i += 1;
    }
    assert(overlay_order(overlays@).take(i as int) =~= overlay_order(overlays@));
    out
}

/// The room that is left after `n` submissions.
pub open spec fn room_after(room: nat, n: nat) -> nat {
    (room - landing(room, n)) as nat
}

fn apply_overlay_changes(
    diff: &ConfigDiff,
    next: &Config,
    live: bool,
    bus: &mut CommandBus,
    progress: &mut Progress,
    restart: &mut Sections,
    Ghost(start): Ghost<CommandBus>,
    Ghost(plan): Ghost<Seq<EngineChange>>,
) -> (r: String)
    requires
        tracks(start, *old(bus), *old(progress), plan),
        old(restart).wf(),
    ensures
        tracks(
            start,
            *final(bus),
            *final(progress),
            plan + (if live {
                overlay_plan(*diff, *next)
            } else {
                Seq::empty()
            }),
        ),
        final(restart).wf(),
        final(restart)@ == (if overlays_wait(
            *diff,
            *next,
            live,
            room_after(start.room(), plan.len()),
        ) {
            old(restart)@.insert("overlays"@)
        } else {
            old(restart)@.remove("overlays"@)
        }),
        r@ == overlays_part(*diff, *next, live, room_after(start.room(), plan.len())),
{
    if !live {
        restart.insert("overlays");
        assert(plan + Seq::<EngineChange>::empty() =~= plan);
        return "overlays changed (applies on restart)".to_owned();
    }
    let mut described: Vec<String> = Vec::new();
    let mut all_landed: bool = true;
    let mut i: usize = 0;
    let ghost steps = diff.overlays@.map_values(|c: OverlayChange| overlay_step(c));
    let ghost lines = diff.overlays@.map_values(|c: OverlayChange| overlay_line(c));
    assert(plan + steps.take(0) =~= plan);
    while i < diff.overlays.len()
        invariant
            i <= diff.overlays.len(),
            steps == diff.overlays@.map_values(|c: OverlayChange| overlay_step(c)),
            lines == diff.overlays@.map_values(|c: OverlayChange| overlay_line(c)),
            tracks(start, *bus, *progress, plan + steps.take(i as int)),
            all_landed == (i == 0 || plan.len() + i <= start.room()),
            crate::text::texts(described@) == lines.take(i as int),
        decreases diff.overlays.len() - i,
    {
        let ghost sofar = plan + steps.take(i as int);
        let ghost c = diff.overlays@[i as int];
        let ghost shown = described@;
        assert(plan + steps.take(i + 1) =~= sofar.push(overlay_step(c)));
        assert(lines.take(i + 1) =~= lines.take(i as int).push(overlay_line(c)));
        let ok: bool = match &diff.overlays[i] {
            OverlayChange::Added(overlay) => {
                described.push(cat2(overlay.id.as_str(), " upserted"));
                offer(
                    bus,
                    progress,
                    Command::UpsertOverlay {
                        op: OperationId::new(),
                        overlay: Box::new((**overlay).clone()),
                    },
                    Some(Adoption::Overlay(Box::new((**overlay).clone()))),
                    Ghost(start),
                    Ghost(sofar),
                    Ghost(overlay_step(c)),
                )
            },
            OverlayChange::Changed(overlay) => {
                described.push(cat2(overlay.id.as_str(), " upserted"));
                offer(
                    bus,
                    progress,
                    Command::UpsertOverlay {
                        op: OperationId::new(),
                        overlay: Box::new((**overlay).clone()),
                    },
                    Some(Adoption::Overlay(Box::new((**overlay).clone()))),
                    Ghost(start),
                    Ghost(sofar),
                    Ghost(overlay_step(c)),
                )
            },
            OverlayChange::Removed(id) => {
                described.push(cat2(id.as_str(), " removed"));
                offer(
                    bus,
                    progress,
                    Command::RemoveOverlay { op: OperationId::new(), id: id.clone() },
                    Some(Adoption::DropOverlay(id.clone())),
                    Ghost(start),
                    Ghost(sofar),
                    Ghost(overlay_step(c)),
                )
            },
        };
        if !ok {
            all_landed = false;
        }
        assert(crate::text::texts(described@) =~= crate::text::texts(shown).push(overlay_line(c)));
        i += 1;
    }
    assert(steps.take(i as int) =~= steps);
    assert(lines.take(i as int) =~= lines);
    if diff.overlays_reordered {
        let order = order_of(&next.overlays);
        let ghost sofar = plan + steps;
        let ghost shown = described@;
        described.push("draw order re-sequenced".to_owned());
        assert(crate::text::texts(described@) =~= crate::text::texts(shown).push("draw order re-sequenced"@));
        let ghost change = EngineChange::ReorderOverlays(overlay_order(next.overlays@));
        assert(plan + overlay_plan(*diff, *next) =~= sofar.push(change));
        if !offer(
            bus,
            progress,
            Command::ReorderOverlays { op: OperationId::new(), order },
            None,
            Ghost(start),
            Ghost(sofar),
            Ghost(change),
        ) {
            all_landed = false;
        }
    }
    assert(crate::text::texts(described@) == overlay_lines(*diff));
    let list = join(&described, ", ");
    if all_landed {
        restart.remove("overlays");
        cat2("overlays applied live: ", list.as_str())
    } else {
        restart.insert("overlays");
        cat2("overlays partially applied (shed; retried): ", list.as_str())
    }
}

// ---- Stores --------------------------------------------------------------------

/// A store that is brought back in line with the configuration.
#[derive(Debug, Clone, Copy, PartialEq, Eq, Structural)]
pub enum Reseed {
    /// The sources.
    Sources,
    /// The working layout.
    WorkingLayout,
    /// The overlays.
    Overlays,
    /// The outputs.
    Outputs,
    /// The probes.
    Probes,
    /// The devices.
    Devices,
    /// The sync groups.
    SyncGroups,
    /// The audio routing.
    Audio,
    /// The salvos.
    Salvos,
    /// The tally profiles.
    TallyProfiles,
}

/// A row that a store should hold.
#[derive(Debug, PartialEq, Eq)]
pub struct Desired {
    /// Its id.
    pub id: String,
    /// The name that operators see.
    pub name: String,
    /// The document.
    pub body: String,
}

/// What a row says.
pub struct DesiredView {
    /// Its id.
    pub id: Seq<char>,
    /// The name that operators see.
    pub name: Seq<char>,
    /// The document.
    pub body: Seq<char>,
}

impl Desired {
    /// What the row says.
    pub open spec fn view(self) -> DesiredView {
        DesiredView { id: self.id@, name: self.name@, body: self.body@ }
    }
}

impl Clone for Desired {
    fn clone(&self) -> (r: Self)
        ensures
            r == *self,
    {
        Desired { id: self.id.clone(), name: self.name.clone(), body: self.body.clone() }
    }
}

/// What a list of rows says.
pub open spec fn rows_view(rows: Seq<Desired>) -> Seq<DesiredView> {
    rows.map_values(|d: Desired| d@)
}

/// A row named by its id where it has no other name; none where the document
/// could not be written down.
pub open spec fn row_of(id: Seq<char>, name: Option<String>, body: Option<String>) -> Seq<DesiredView> {
    match body {
        Some(b) => seq![
            DesiredView {
                id,
                name: (match name {
                    Some(n) => n@,
                    None => id,
                }),
                body: b@,
            },
        ],
        None => Seq::empty(),
    }
}

/// The row of an output: its id is its position, its name is its kind.
pub open spec fn output_row(index: nat, output: Output) -> Seq<DesiredView> {
    match output.body {
        Some(b) => seq![
            DesiredView {
                id: "output-"@ + crate::text::decimal(index),
                name: (match output.kind {
                    Some(k) => k@,
                    None => "output"@,
                }),
                body: b@,
            },
        ],
        None => Seq::empty(),
    }
}

/// The rows of the sources.
pub open spec fn source_rows(sources: Seq<Source>) -> Seq<DesiredView>
    decreases sources.len(),
{
    if sources.len() == 0 {
        Seq::empty()
    } else {
        let s = sources.last();
        source_rows(sources.drop_last()) + row_of(s.id@, s.display_name, s.body)
    }
}

/// The rows of the outputs.
pub open spec fn output_rows(outputs: Seq<Output>) -> Seq<DesiredView>
    decreases outputs.len(),
{
    if outputs.len() == 0 {
        Seq::empty()
    } else {
        output_rows(outputs.drop_last()) + output_row((outputs.len() - 1) as nat, outputs.last())
    }
}

/// The rows of the overlays: an overlay is named by its id.
pub open spec fn overlay_rows(overlays: Seq<Overlay>) -> Seq<DesiredView>
    decreases overlays.len(),
{
    if overlays.len() == 0 {
        Seq::empty()
    } else {
        let o = overlays.last();
        overlay_rows(overlays.drop_last()) + row_of(o.id@, None, o.body)
    }
}

/// The rows of documents.
pub open spec fn document_rows(documents: Seq<Document>) -> Seq<DesiredView>
    decreases documents.len(),
{
    if documents.len() == 0 {
        Seq::empty()
    } else {
        let d = documents.last();
        document_rows(documents.drop_last()) + row_of(d.id@, d.display_name, d.body)
    }
}

fn push_row(out: &mut Vec<Desired>, id: &String, name: &Option<String>, body: &Option<String>)
    ensures
        rows_view(final(out)@) == rows_view(old(out)@) + row_of(id@, *name, *body),
{
    if let Some(b) = body {
        let shown = match name {
            Some(n) => n.clone(),
            None => id.clone(),
        };
        out.push(Desired { id: id.clone(), name: shown, body: b.clone() });
    }
    assert(rows_view(out@) =~= rows_view(old(out)@) + row_of(id@, *name, *body));
}

/// The rows that the source store should hold.
pub fn desired_sources(config: &Config) -> (r: Vec<Desired>)
    ensures
        rows_view(r@) == source_rows(config.sources@),
{
    let mut out: Vec<Desired> = Vec::new();
    let mut i: usize = 0;
    let ghost all = config.sources@;
    assert(all.take(0) =~= Seq::<Source>::empty());
    assert(rows_view(out@) =~= Seq::<DesiredView>::empty());
    while i < config.sources.len()
        invariant
            i <= config.sources.len(),
            all == config.sources@,
            rows_view(out@) == source_rows(all.take(i as int)),
        decreases config.sources.len() - i,
    {
        let s = &config.sources[i];
        push_row(&mut out, &s.id, &s.display_name, &s.body);
        assert(all.take(i + 1).drop_last() =~= all.take(i as int));
        i += 1;
    }
    assert(all.take(i as int) =~= all);
    out
}

/// The rows that the output store should hold.
pub fn desired_outputs(config: &Config) -> (r: Vec<Desired>)
    ensures
        rows_view(r@) == output_rows(config.outputs@),
{
    let mut out: Vec<Desired> = Vec::new();
    let mut i: usize = 0;
    let ghost all = config.outputs@;
    assert(all.take(0) =~= Seq::<Output>::empty());
    assert(rows_view(out@) =~= Seq::<DesiredView>::empty());
    while i < config.outputs.len()
        invariant
            i <= config.outputs.len(),
            all == config.outputs@,
            rows_view(out@) == output_rows(all.take(i as int)),
        decreases config.outputs.len() - i,
    {
        let o = &config.outputs[i];
        let ghost before = out@;
        if let Some(b) = &o.body {
            let n = decimal_text(i as u64);
            let name = match &o.kind {
                Some(k) => k.clone(),
                None => "output".to_owned(),
            };
            out.push(Desired { id: cat2("output-", n.as_str()), name, body: b.clone() });
        }
        assert(rows_view(out@) =~= rows_view(before) + output_row(i as nat, *o));
        assert(all.take(i + 1).drop_last() =~= all.take(i as int));
        i += 1;
    }
    assert(all.take(i as int) =~= all);
    out
}

/// The rows that the overlay store should hold.
pub fn desired_overlays(config: &Config) -> (r: Vec<Desired>)
    ensures
        rows_view(r@) == overlay_rows(config.overlays@),
{
    let mut out: Vec<Desired> = Vec::new();
    let mut i: usize = 0;
    let ghost all = config.overlays@;
    assert(all.take(0) =~= Seq::<Overlay>::empty());
    assert(rows_view(out@) =~= Seq::<DesiredView>::empty());
    while i < config.overlays.len()
        invariant
            i <= config.overlays.len(),
            all == config.overlays@,
            rows_view(out@) == overlay_rows(all.take(i as int)),
        decreases config.overlays.len() - i,
    {
        let o = &config.overlays[i];
        push_row(&mut out, &o.id, &None, &o.body);
        assert(all.take(i + 1).drop_last() =~= all.take(i as int));
        i += 1;
    }
    assert(all.take(i as int) =~= all);
    out
}

/// The rows that a store of documents should hold.
pub fn desired_documents(documents: &Vec<Document>) -> (r: Vec<Desired>)
    ensures
        rows_view(r@) == document_rows(documents@),
{
    let mut out: Vec<Desired> = Vec::new();
    let mut i: usize = 0;
    let ghost all = documents@;
    assert(all.take(0) =~= Seq::<Document>::empty());
    assert(rows_view(out@) =~= Seq::<DesiredView>::empty());
    while i < documents.len()
        invariant
            i <= documents.len(),
            all == documents@,
            rows_view(out@) == document_rows(all.take(i as int)),
        decreases documents.len() - i,
    {
        let d = &documents[i];
        push_row(&mut out, &d.id, &d.display_name, &d.body);
        assert(all.take(i + 1).drop_last() =~= all.take(i as int));
        i += 1;
    }
    assert(all.take(i as int) =~= all);
    out
}

/// One write to a store.
#[derive(Debug, PartialEq, Eq)]
pub enum StoreWrite {
    /// Replace the row with this id.
    Update(Desired),
    /// Add the row.
    Create(Desired),
    /// Delete the row with this id.
    Delete(String),
}

/// Whether `w` is the write for a desired row: a replacement where the store
/// has the id.
pub open spec fn writes_row(w: StoreWrite, row: Desired, existing: Seq<Seq<char>>) -> bool {
    if existing.contains(row.id@) {
        w == StoreWrite::Update(row)
    } else {
        w == StoreWrite::Create(row)
    }
}

/// The ids of rows.
pub open spec fn ids_of(rows: Seq<Desired>) -> Seq<Seq<char>> {
    rows.map_values(|d: Desired| d.id@)
}

/// The existing ids that no desired row has, in order.
pub open spec fn obsolete(existing: Seq<Seq<char>>, wanted: Seq<Seq<char>>) -> Seq<Seq<char>>
    decreases existing.len(),
{
    if existing.len() == 0 {
        Seq::empty()
    } else if wanted.contains(existing.last()) {
        obsolete(existing.drop_last(), wanted)
    } else {
        obsolete(existing.drop_last(), wanted).push(existing.last())
    }
}

/// The ids that a list of deletions names.
pub open spec fn deletes(writes: Seq<StoreWrite>, ids: Seq<Seq<char>>) -> bool {
    writes.len() == ids.len() && forall|i: int|
        0 <= i < writes.len() ==> (#[trigger] writes[i] matches StoreWrite::Delete(id) && id@ == ids[i])
}

/// The writes that bring a store in line: one for each desired row, in order,
/// then a deletion for each id that is no longer wanted.
pub fn resync_plan(existing: &Vec<String>, desired: &Vec<Desired>) -> (r: Vec<StoreWrite>)
    ensures
        r@.len() >= desired@.len(),
        forall|i: int|
            0 <= i < desired@.len() ==> writes_row(#[trigger] r@[i], desired@[i], crate::text::texts(existing@)),
        deletes(r@.skip(desired@.len() as int), obsolete(crate::text::texts(existing@), ids_of(desired@))),
{
    let mut out: Vec<StoreWrite> = Vec::new();
    let mut i: usize = 0;
    while i < desired.len()
        invariant
            i <= desired.len(),
            out@.len() == i,
            forall|j: int|
                0 <= j < i ==> writes_row(#[trigger] out@[j], desired@[j], crate::text::texts(existing@)),
        decreases desired.len() - i,
    {
        let row = desired[i].clone();
        if contains_text(existing, row.id.as_str()) {
            out.push(StoreWrite::Update(row));
        } else {
            out.push(StoreWrite::Create(row));
        }
        i += 1;
    }
    let mut j: usize = 0;
    let ghost old_ids = crate::text::texts(existing@);
    let ghost wanted = ids_of(desired@);
    let ghost n = desired@.len() as int;
    assert(old_ids.take(0) =~= Seq::<Seq<char>>::empty());
    assert(out@.skip(n) =~= Seq::<StoreWrite>::empty());
    while j < existing.len()
        invariant
            j <= existing.len(),
            old_ids == crate::text::texts(existing@),
            wanted == ids_of(desired@),
            n == desired@.len(),
            out@.len() >= n,
            forall|m: int|
                0 <= m < n ==> writes_row(#[trigger] out@[m], desired@[m], crate::text::texts(existing@)),
            deletes(out@.skip(n), obsolete(old_ids.take(j as int), wanted)),
        decreases existing.len() - j,
    {
        let ghost t = old_ids.take(j + 1);
        assert(t.drop_last() =~= old_ids.take(j as int));
        assert(t.last() == existing@[j as int]@);
        let ghost before = out@;
        if !has_row(desired, existing[j].as_str()) {
            let id = existing[j].clone();
            out.push(StoreWrite::Delete(id));
            proof {
                assert(out@.skip(n) =~= before.skip(n).push(StoreWrite::Delete(id)));
                let ids = obsolete(old_ids.take(j as int), wanted);
                assert(obsolete(t, wanted) == ids.push(t.last()));
                assert forall|m: int| 0 <= m < out@.skip(n).len() implies (#[trigger] out@.skip(n)[m] matches StoreWrite::Delete(
                    d,
                ) && d@ == ids.push(t.last())[m]) by {
                    if m < ids.len() {
                        assert(out@.skip(n)[m] == before.skip(n)[m]);
                    }
                }
            }
        }
        j += 1;
    }
    assert(old_ids.take(j as int) =~= old_ids);
    out
}

/// Whether a desired row has the id.
fn has_row(desired: &Vec<Desired>, id: &str) -> (r: bool)
    ensures
        r == ids_of(desired@).contains(id@),
{
    let mut i: usize = 0;
    while i < desired.len()
        invariant
            i <= desired.len(),
            forall|j: int| 0 <= j < i ==> desired@[j].id@ != id@,
        decreases desired.len() - i,
    {
        if str_eq(desired[i].id.as_str(), id) {
            assert(ids_of(desired@)[i as int] == id@);
            return true;
        }
        i += 1;
    }
    assert(!ids_of(desired@).contains(id@)) by {
        if ids_of(desired@).contains(id@) {
            let ids = ids_of(desired@);
            let j = choose|j: int| 0 <= j < ids.len() && ids[j] == id@;
            assert(desired@[j].id@ == id@);
        }
    }
    false
}

// ---- The whole change ------------------------------------------------------------

/// The outcome of applying a change.
pub struct ApplyOutcome {
    /// The report in one line.
    pub summary: String,
    /// The report, section by section.
    pub parts: Vec<String>,
    /// The sections that wait for a restart.
    pub restart: Sections,
    /// How many submissions were shed.
    pub shed: u32,
}

/// What applying a change did.
pub struct Applied {
    /// The outcome.
    pub outcome: ApplyOutcome,
    /// What the engine now runs, in the order in which it landed.
    pub adoptions: Vec<Adoption>,
    /// The stores to bring in line, in order.
    pub reseeds: Vec<Reseed>,
}

/// Whether the overlays section changed.
pub open spec fn overlays_changed(diff: ConfigDiff) -> bool {
    crate::text::texts(diff.changed_sections@).contains("overlays"@)
}

/// Everything that a change asks of the engine, in order.
pub open spec fn change_plan(diff: ConfigDiff, next: Config, session: Session) -> Seq<EngineChange> {
    source_plan(diff.sources@) + layout_plan(diff, next, session) + (if overlays_changed(diff)
        && session.overlays_live {
        overlay_plan(diff, next)
    } else {
        Seq::empty()
    })
}

/// The names of the other changed sections, in order.
pub open spec fn other_sections(sections: Seq<Seq<char>>) -> Seq<Seq<char>>
    decreases sections.len(),
{
    if sections.len() == 0 {
        Seq::empty()
    } else if sections.last() == "overlays"@ {
        other_sections(sections.drop_last())
    } else {
        other_sections(sections.drop_last()).push(sections.last())
    }
}

/// The report of the other changed sections.
pub open spec fn section_parts(names: Seq<Seq<char>>) -> Seq<Seq<char>> {
    names.map_values(|n: Seq<char>| n + " changed"@)
}

/// The store that follows a section, if one does.
pub open spec fn section_store(name: Seq<char>) -> Option<Reseed> {
    if name == "outputs"@ {
        Some(Reseed::Outputs)
    } else if name == "probes"@ {
        Some(Reseed::Probes)
    } else if name == "devices"@ {
        Some(Reseed::Devices)
    } else if name == "sync_groups"@ {
        Some(Reseed::SyncGroups)
    } else if name == "audio"@ {
        Some(Reseed::Audio)
    } else if name == "salvos"@ {
        Some(Reseed::Salvos)
    } else if name == "tally_profiles"@ {
        Some(Reseed::TallyProfiles)
    } else {
        None
    }
}

/// The stores that follow the sections.
pub open spec fn section_stores(names: Seq<Seq<char>>) -> Seq<Reseed>
    decreases names.len(),
{
    if names.len() == 0 {
        Seq::empty()
    } else {
        match section_store(names.last()) {
            Some(r) => section_stores(names.drop_last()).push(r),
            None => section_stores(names.drop_last()),
        }
    }
}

/// A list of one where the condition holds, and of none where it does not.
pub open spec fn when<A>(condition: bool, item: A) -> Seq<A> {
    if condition {
        seq![item]
    } else {
        Seq::empty()
    }
}

/// The report of a change, section by section, given the room on the bus.
pub open spec fn change_parts(diff: ConfigDiff, next: Config, session: Session, room: nat) -> Seq<
    Seq<char>,
> {
    let n1 = source_plan(diff.sources@).len();
    let n2 = n1 + layout_plan(diff, next, session).len();
    when(diff.sources@.len() > 0, sources_part(diff.sources@)) + when(
        diff.canvas_signal_changed || diff.canvas_cosmetic_changed,
        "canvas changed"@,
    ) + when(diff.layout_changed, layout_part(diff, next, session, room > n1)) + when(
        overlays_changed(diff),
        overlays_part(diff, next, session.overlays_live, room_after(room, n2)),
    ) + section_parts(other_sections(crate::text::texts(diff.changed_sections@)))
}

/// The stores that follow a change, in order.
pub open spec fn change_stores(diff: ConfigDiff, next: Config) -> Seq<Reseed> {
    when(diff.sources@.len() > 0, Reseed::Sources) + when(
        diff.layout_changed && next.layout_body is Some,
        Reseed::WorkingLayout,
    ) + when(overlays_changed(diff), Reseed::Overlays) + section_stores(
        other_sections(crate::text::texts(diff.changed_sections@)),
    )
}

/// Whether a section waits for a restart after a change.
pub open spec fn change_waits(
    diff: ConfigDiff,
    next: Config,
    session: Session,
    room: nat,
    name: Seq<char>,
) -> bool {
    let n1 = source_plan(diff.sources@).len();
    let n2 = n1 + layout_plan(diff, next, session).len();
    ||| name == "sources"@ && sources_wait(diff.sources@)
    ||| name == "canvas"@ && (diff.canvas_signal_changed || diff.canvas_cosmetic_changed)
    ||| name == "layout"@ && diff.layout_changed && !layout_goes_live(diff, next, session)
    ||| name == "overlays"@ && overlays_changed(diff) && overlays_wait(
        diff,
        next,
        session.overlays_live,
        room_after(room, n2),
    )
    ||| other_sections(crate::text::texts(diff.changed_sections@)).contains(name)
}

/// What applying a change does and reports.
pub open spec fn applies(
    before: CommandBus,
    after: CommandBus,
    diff: ConfigDiff,
    next: Config,
    session: Session,
    a: Applied,
) -> bool {
    let plan = change_plan(diff, next, session);
    let room = before.room();
    let k = landing(room, plan.len());
    &&& landed(before, after, plan)
    &&& a.outcome.shed == cap_u32((plan.len() - k) as nat)
    &&& adopts_all(a.adoptions@, recorded(plan.take(k as int)))
    &&& a.reseeds@ == change_stores(diff, next)
    &&& crate::text::texts(a.outcome.parts@) == change_parts(diff, next, session, room)
    &&& a.outcome.restart.wf()
    &&& forall|name: Seq<char>|
        #![trigger a.outcome.restart@.contains(name)]
        a.outcome.restart@.contains(name) <==> change_waits(diff, next, session, room, name)
    &&& exists|names: Seq<Seq<char>>|
        {
            &&& #[trigger] crate::sections::names_of(a.outcome.restart@, names)
            &&& a.outcome.summary@ == crate::text::join_of(
                crate::text::texts(a.outcome.parts@) + when(
                    a.outcome.restart@ != Set::<Seq<char>>::empty(),
                    "restart pending: "@ + crate::text::join_of(names, ", "@),
                ),
                "; "@,
            )
        }
}

/// The section names.
fn store_for(name: &str) -> (r: Option<Reseed>)
    ensures
        r == section_store(name@),
{
    if str_eq(name, "outputs") {
        Some(Reseed::Outputs)
    } else if str_eq(name, "probes") {
        Some(Reseed::Probes)
    } else if str_eq(name, "devices") {
        Some(Reseed::Devices)
    } else if str_eq(name, "sync_groups") {
        Some(Reseed::SyncGroups)
    } else if str_eq(name, "audio") {
        Some(Reseed::Audio)
    } else if str_eq(name, "salvos") {
        Some(Reseed::Salvos)
    } else if str_eq(name, "tally_profiles") {
        Some(Reseed::TallyProfiles)
    } else {
        None
    }
}

/// Whether no other section is called overlays.
proof fn lemma_other_sections(sections: Seq<Seq<char>>)
    ensures
        !other_sections(sections).contains("overlays"@),
    decreases sections.len(),
{
    if sections.len() > 0 {
        lemma_other_sections(sections.drop_last());
        let rest = other_sections(sections.drop_last());
        if sections.last() != "overlays"@ {
            let all = rest.push(sections.last());
            if all.contains("overlays"@) {
                let i = choose|i: int| 0 <= i < all.len() && all[i] == "overlays"@;
                if i < rest.len() {
                    assert(rest[i] == "overlays"@);
                }
            }
        }
    }
}

/// Apply a changed configuration to the running system: submit what the engine
/// can take live, name what waits for a restart, and list the stores that
/// follow.
#[verifier::rlimit(50)]
pub fn apply_document_diff(diff: &ConfigDiff, next: &Config, session: &Session, bus: &mut CommandBus) -> (r:
    Applied)
    requires
        old(bus).wf(),
    ensures
        final(bus).wf(),
        applies(*old(bus), *final(bus), *diff, *next, *session, r),
{
    let mut restart = Sections::new();
    let mut parts: Vec<String> = Vec::new();
    let mut reseeds: Vec<Reseed> = Vec::new();
    let mut progress = Progress { shed: 0, adoptions: Vec::new() };
    let ghost start = *bus;
    let ghost room = start.room();
    let ghost p1 = source_plan(diff.sources@);
    let ghost p2 = p1 + layout_plan(*diff, *next, *session);
    let ghost none = Seq::<EngineChange>::empty();
    proof {
        start.lemma_bounded();
        assert(none.take(0) =~= none);
        assert(tracks(start, *bus, progress, none));
        assert(none + p1 =~= p1);
    }
    // Sources come first: a layout that binds a new source must find it.
    if diff.sources.len() > 0 {
        let part = apply_source_changes(
            &diff.sources,
            bus,
            &mut progress,
            &mut restart,
            Ghost(start),
            Ghost(none),
        );
        parts.push(part);
        reseeds.push(Reseed::Sources);
    } else {
        assert(p1 =~= none);
        assert(!sources_wait(diff.sources@));
    }
    assert(crate::text::texts(parts@) =~= when(diff.sources@.len() > 0, sources_part(diff.sources@)));
    assert(reseeds@ =~= when(diff.sources@.len() > 0, Reseed::Sources));
    let ghost texts1 = crate::text::texts(parts@);
    let ghost stores1 = reseeds@;
    if diff.canvas_signal_changed || diff.canvas_cosmetic_changed {
        restart.insert("canvas");
        parts.push("canvas changed".to_owned());
    }
    let ghost texts2 = texts1 + when(
        diff.canvas_signal_changed || diff.canvas_cosmetic_changed,
        "canvas changed"@,
    );
    assert(crate::text::texts(parts@) =~= texts2);
    if diff.layout_changed {
        let part = apply_layout_change(
            diff,
            next,
            session,
            bus,
            &mut progress,
            &mut restart,
            &mut reseeds,
            Ghost(start),
            Ghost(p1),
        );
        parts.push(part);
    } else {
        assert(p2 =~= p1);
    }
    let ghost texts3 = texts2 + when(
        diff.layout_changed,
        layout_part(*diff, *next, *session, room > p1.len()),
    );
    assert(crate::text::texts(parts@) =~= texts3);
    let ghost stores2 = stores1 + when(
        diff.layout_changed && next.layout_body is Some,
        Reseed::WorkingLayout,
    );
    assert(reseeds@ =~= stores2);
    let ghost p3 = change_plan(*diff, *next, *session);
    let ghost waits3 = restart@;
    if contains_text(&diff.changed_sections, "overlays") {
        let part = apply_overlay_changes(
            diff,
            next,
            session.overlays_live,
            bus,
            &mut progress,
            &mut restart,
            Ghost(start),
            Ghost(p2),
        );
        parts.push(part);
        reseeds.push(Reseed::Overlays);
    } else {
        assert(p3 =~= p2);
    }
    let ghost texts4 = texts3 + when(
        overlays_changed(*diff),
        overlays_part(*diff, *next, session.overlays_live, room_after(room, p2.len())),
    );
    assert(crate::text::texts(parts@) =~= texts4);
    let ghost stores3 = stores2 + when(overlays_changed(*diff), Reseed::Overlays);
    assert(reseeds@ =~= stores3);
    let ghost waits4 = restart@;
    proof {
        reveal_strlit("sources");
        reveal_strlit("canvas");
        reveal_strlit("layout");
        reveal_strlit("overlays");
        assert("sources"@.len() == 7 && "overlays"@.len() == 8 && "canvas"@.len() == 6
            && "layout"@.len() == 6 && "canvas"@[0] != "layout"@[0]);
        lemma_other_sections(crate::text::texts(diff.changed_sections@));
        assert forall|name: Seq<char>|
            #![trigger waits4.contains(name)]
            waits4.contains(name) <==> ({
                ||| name == "sources"@ && sources_wait(diff.sources@)
                ||| name == "canvas"@ && (diff.canvas_signal_changed || diff.canvas_cosmetic_changed)
                ||| name == "layout"@ && diff.layout_changed && !layout_goes_live(
                    *diff,
                    *next,
                    *session,
                )
                ||| name == "overlays"@ && overlays_changed(*diff) && overlays_wait(
                    *diff,
                    *next,
                    session.overlays_live,
                    room_after(room, p2.len()),
                )
            }) by {}
    }
    let ghost sections = crate::text::texts(diff.changed_sections@);
    let mut i: usize = 0;
    assert(sections.take(0) =~= Seq::<Seq<char>>::empty());
    assert(texts4 + section_parts(other_sections(sections.take(0))) =~= texts4);
    assert(stores3 + section_stores(other_sections(sections.take(0))) =~= stores3);
    while i < diff.changed_sections.len()
        invariant
            i <= diff.changed_sections.len(),
            sections == crate::text::texts(diff.changed_sections@),
            restart.wf(),
            crate::text::texts(parts@) == texts4 + section_parts(other_sections(sections.take(i as int))),
            reseeds@ == stores3 + section_stores(other_sections(sections.take(i as int))),
            forall|name: Seq<char>|
                #![trigger restart@.contains(name)]
                restart@.contains(name) <==> waits4.contains(name) || other_sections(
                    sections.take(i as int),
                ).contains(name),
        decreases diff.changed_sections.len() - i,
    {
        let section = &diff.changed_sections[i];
        let ghost t = sections.take(i + 1);
        let ghost o0 = other_sections(sections.take(i as int));
        let ghost o1 = other_sections(t);
        let ghost shown = parts@;
        let ghost were = restart@;
        assert(t.drop_last() =~= sections.take(i as int));
        assert(t.last() == section@);
        if !str_eq(section.as_str(), "overlays") {
            restart.insert(section.as_str());
            if let Some(store) = store_for(section.as_str()) {
                reseeds.push(store);
            }
            let line = cat2(section.as_str(), " changed");
            parts.push(line);
            proof {
                assert(o1 == o0.push(section@));
                assert(o1.drop_last() =~= o0);
                assert(crate::text::texts(parts@) =~= crate::text::texts(shown).push(line@));
                assert(section_parts(o1) =~= section_parts(o0).push(line@));
                assert(texts4 + section_parts(o1) =~= (texts4 + section_parts(o0)).push(line@));
                assert(reseeds@ =~= stores3 + section_stores(o1));
                assert forall|name: Seq<char>|
                    #![trigger restart@.contains(name)]
                    restart@.contains(name) <==> waits4.contains(name) || o1.contains(name) by {
                    assert(restart@.contains(name) <==> were.contains(name) || name == section@);
                    if o1.contains(name) {
                        let j = choose|j: int| 0 <= j < o1.len() && o1[j] == name;
                        if j < o0.len() {
                            assert(o0[j] == name);
                        }
                    }
                    if o0.contains(name) {
                        let j = choose|j: int| 0 <= j < o0.len() && o0[j] == name;
                        assert(o1[j] == name);
                    }
                    if name == section@ {
                        assert(o1[o0.len() as int] == name);
                    }
                }
            }
        }
        i += 1;
    }
    assert(sections.take(i as int) =~= sections);
    let section_texts = clone_texts(&parts);
    let names = restart.list();
    if !restart.is_empty() {
        let ghost shown = parts@;
        let list = join(&names, ", ");
        let tail = cat2("restart pending: ", list.as_str());
        parts.push(tail);
        assert(crate::text::texts(parts@) =~= crate::text::texts(shown) + when(true, tail@));
    } else {
        assert(crate::text::texts(parts@) =~= crate::text::texts(section_texts@) + when(
            restart@ != Set::<Seq<char>>::empty(),
            "restart pending: "@ + crate::text::join_of(crate::text::texts(names@), ", "@),
        ));
    }
    let summary = join(&parts, "; ");
    let a = Applied {
        outcome: ApplyOutcome { summary, parts: section_texts, restart, shed: progress.shed },
        adoptions: progress.adoptions,
        reseeds,
    };
    proof {
        assert(a.reseeds@ =~= change_stores(*diff, *next));
        assert(crate::text::texts(a.outcome.parts@) =~= change_parts(*diff, *next, *session, room));
        assert(crate::sections::names_of(a.outcome.restart@, crate::text::texts(names@)));
    }
    a
}

/// Every store, in the order in which they are brought in line with a
/// configuration: the audio routing only where there is one, and the working
/// layout only where it could be written down.
pub open spec fn all_stores(config: Config) -> Seq<Reseed> {
    seq![
        Reseed::Sources,
        Reseed::Outputs,
        Reseed::Overlays,
        Reseed::Probes,
        Reseed::Devices,
        Reseed::SyncGroups,
    ] + when(config.audio is Some, Reseed::Audio) + seq![Reseed::Salvos, Reseed::TallyProfiles] + when(
        config.layout_body is Some,
        Reseed::WorkingLayout,
    )
}

/// Every store that is brought in line with a configuration, in order.
pub fn resync_all_stores(config: &Config) -> (r: Vec<Reseed>)
    ensures
        r@ == all_stores(*config),
{
    let mut out: Vec<Reseed> = Vec::new();
    out.push(Reseed::Sources);
    out.push(Reseed::Outputs);
    out.push(Reseed::Overlays);
    out.push(Reseed::Probes);
    out.push(Reseed::Devices);
    out.push(Reseed::SyncGroups);
    if config.audio.is_some() {
        out.push(Reseed::Audio);
    }
    out.push(Reseed::Salvos);
    out.push(Reseed::TallyProfiles);
    if config.layout_body.is_some() {
        out.push(Reseed::WorkingLayout);
    }
    assert(out@ =~= all_stores(*config));
    out
}

// ---- Laws --------------------------------------------------------------------------

/// The ids in a store after writes.
pub open spec fn ids_after(ids: Set<Seq<char>>, writes: Seq<StoreWrite>) -> Set<Seq<char>>
    decreases writes.len(),
{
    if writes.len() == 0 {
        ids
    } else {
        let before = ids_after(ids, writes.drop_last());
        match writes.last() {
            StoreWrite::Update(row) => before.insert(row.id@),
            StoreWrite::Create(row) => before.insert(row.id@),
            StoreWrite::Delete(id) => before.remove(id@),
        }
    }
}

proof fn lemma_ids_after_rows(
    existing: Seq<Seq<char>>,
    desired: Seq<Desired>,
    writes: Seq<StoreWrite>,
    k: Seq<char>,
)
    requires
        writes.len() == desired.len(),
        forall|i: int| 0 <= i < desired.len() ==> writes_row(#[trigger] writes[i], desired[i], existing),
    ensures
        ids_after(existing.to_set(), writes).contains(k) <==> existing.contains(k) || ids_of(
            desired,
        ).contains(k),
    decreases writes.len(),
{
    let ids = ids_of(desired);
    if writes.len() > 0 {
        let d0 = desired.drop_last();
        let w0 = writes.drop_last();
        assert forall|i: int| 0 <= i < d0.len() implies writes_row(#[trigger] w0[i], d0[i], existing) by {
            assert(writes_row(writes[i], desired[i], existing));
        }
        lemma_ids_after_rows(existing, d0, w0, k);
        assert(writes_row(writes[writes.len() - 1], desired[desired.len() - 1], existing));
        let i0 = ids_of(d0);
        assert(ids =~= i0.push(desired.last().id@));
        if ids.contains(k) {
            let j = choose|j: int| 0 <= j < ids.len() && ids[j] == k;
            if j < i0.len() {
                assert(i0[j] == k);
            }
        }
        if i0.contains(k) {
            let j = choose|j: int| 0 <= j < i0.len() && i0[j] == k;
            assert(ids[j] == k);
        }
        if k == desired.last().id@ {
            assert(ids[ids.len() - 1] == k);
        }
    } else {
        assert(existing.to_set().contains(k) <==> existing.contains(k));
        assert(!ids.contains(k));
    }
}

proof fn lemma_obsolete(existing: Seq<Seq<char>>, wanted: Seq<Seq<char>>, k: Seq<char>)
    ensures
        obsolete(existing, wanted).contains(k) <==> existing.contains(k) && !wanted.contains(k),
    decreases existing.len(),
{
    if existing.len() > 0 {
        let e0 = existing.drop_last();
        lemma_obsolete(e0, wanted, k);
        let o0 = obsolete(e0, wanted);
        let o1 = obsolete(existing, wanted);
        if existing.contains(k) {
            let j = choose|j: int| 0 <= j < existing.len() && existing[j] == k;
            if j < e0.len() {
                assert(e0[j] == k);
            }
        }
        if e0.contains(k) {
            let j = choose|j: int| 0 <= j < e0.len() && e0[j] == k;
            assert(existing[j] == k);
        }
        if k == existing.last() {
            assert(existing[existing.len() - 1] == k);
        }
        if !wanted.contains(existing.last()) {
            if o0.contains(k) {
                let j = choose|j: int| 0 <= j < o0.len() && o0[j] == k;
                assert(o1[j] == k);
            }
            if o1.contains(k) {
                let j = choose|j: int| 0 <= j < o1.len() && o1[j] == k;
                if j < o0.len() {
                    assert(o0[j] == k);
                }
            }
            if k == existing.last() {
                assert(o1[o0.len() as int] == k);
            }
        }
    }
}

proof fn lemma_ids_after_deletes(
    ids: Set<Seq<char>>,
    head: Seq<StoreWrite>,
    tail: Seq<StoreWrite>,
    gone: Seq<Seq<char>>,
    k: Seq<char>,
)
    requires
        deletes(tail, gone),
    ensures
        ids_after(ids, head + tail).contains(k) <==> ids_after(ids, head).contains(k) && !gone.contains(
            k,
        ),
    decreases tail.len(),
{
    if tail.len() == 0 {
        assert(head + tail =~= head);
        assert(!gone.contains(k));
    } else {
        let t0 = tail.drop_last();
        let g0 = gone.drop_last();
        assert forall|i: int| 0 <= i < t0.len() implies (#[trigger] t0[i] matches StoreWrite::Delete(id) && id@
            == g0[i]) by {
            assert(tail[i] is Delete);
        }
        lemma_ids_after_deletes(ids, head, t0, g0, k);
        assert((head + tail).drop_last() =~= head + t0);
        assert(tail[tail.len() - 1] is Delete);
        assert((head + tail).last() == tail.last());
        if gone.contains(k) {
            let j = choose|j: int| 0 <= j < gone.len() && gone[j] == k;
            if j < g0.len() {
                assert(g0[j] == k);
            }
        }
        if g0.contains(k) {
            let j = choose|j: int| 0 <= j < g0.len() && g0[j] == k;
            assert(gone[j] == k);
        }
        if k == gone.last() {
            assert(gone[gone.len() - 1] == k);
        }
    }
}

/// After the writes, a store holds exactly the desired ids.
pub proof fn law_resync_converges(existing: Seq<Seq<char>>, desired: Seq<Desired>, writes: Seq<StoreWrite>)
    requires
        writes.len() >= desired.len(),
        forall|i: int| 0 <= i < desired.len() ==> writes_row(#[trigger] writes[i], desired[i], existing),
        deletes(writes.skip(desired.len() as int), obsolete(existing, ids_of(desired))),
    ensures
        forall|k: Seq<char>|
            ids_after(existing.to_set(), writes).contains(k) <==> ids_of(desired).contains(k),
{
    let n = desired.len() as int;
    let head = writes.take(n);
    let tail = writes.skip(n);
    assert(head + tail =~= writes);
    assert forall|i: int| 0 <= i < desired.len() implies writes_row(#[trigger] head[i], desired[i], existing) by {
        assert(writes_row(writes[i], desired[i], existing));
    }
    assert forall|k: Seq<char>|
        ids_after(existing.to_set(), writes).contains(k) <==> ids_of(desired).contains(k) by {
        lemma_ids_after_rows(existing, desired, head, k);
        lemma_ids_after_deletes(existing.to_set(), head, tail, obsolete(existing, ids_of(desired)), k);
        lemma_obsolete(existing, ids_of(desired), k);
    }
}

/// Only what landed is recorded as adopted: where nothing lands, nothing is.
pub proof fn law_shed_changes_are_not_adopted(
    bus: CommandBus,
    bus2: CommandBus,
    diff: ConfigDiff,
    next: Config,
    session: Session,
    a: Applied,
)
    requires
        applies(bus, bus2, diff, next, session, a),
    ensures
        bus.room() == 0 ==> a.adoptions@.len() == 0,
        a.adoptions@.len() <= bus2@.len() - bus@.len(),
{
    let plan = change_plan(diff, next, session);
    let k = landing(bus.room(), plan.len());
    lemma_recorded_len(plan.take(k as int));
}

proof fn lemma_recorded_len(plan: Seq<EngineChange>)
    ensures
        recorded(plan).len() <= plan.len(),
    decreases plan.len(),
{
    if plan.len() > 0 {
        lemma_recorded_len(plan.drop_last());
    }
}

/// What an engine runs, as far as a change of the configuration reaches it.
#[verifier::ext_equal]
pub struct EngineModel {
    /// The sources that it generates, by id.
    pub sources: Map<Seq<char>, Source>,
    /// The overlays that it shows, by id.
    pub overlays: Map<Seq<char>, Overlay>,
    /// The order in which it draws them, where it was told one.
    pub order: Option<Seq<Seq<char>>>,
    /// The layout that it was told last: its id, document and solution.
    pub layout: Option<(Seq<char>, LayoutDocument, SolvedLayout)>,
}

/// The engine after it took a command.
pub open spec fn after_command(m: EngineModel, c: Command) -> EngineModel {
    match c {
        Command::UpsertSource { source, .. } => EngineModel {
            sources: m.sources.insert(source.id@, *source),
            ..m
        },
        Command::RemoveSource { id, .. } => EngineModel { sources: m.sources.remove(id@), ..m },
        Command::UpsertOverlay { overlay, .. } => EngineModel {
            overlays: m.overlays.insert(overlay.id@, *overlay),
            ..m
        },
        Command::RemoveOverlay { id, .. } => EngineModel { overlays: m.overlays.remove(id@), ..m },
        Command::ReorderOverlays { order, .. } => EngineModel {
            order: Some(crate::text::texts(order@)),
            ..m
        },
        Command::ApplyLayout { layout, document, .. } => match document {
            Some(l) => EngineModel { layout: Some((layout@, l.document, l.solved)), ..m },
            None => m,
        },
        _ => m,
    }
}

/// The engine after it took some commands, in order.
pub open spec fn after_commands(m: EngineModel, commands: Seq<Command>) -> EngineModel
    decreases commands.len(),
{
    if commands.len() == 0 {
        m
    } else {
        after_command(after_commands(m, commands.drop_last()), commands.last())
    }
}

/// The engine after a change.
spec fn after_change(m: EngineModel, e: EngineChange) -> EngineModel {
    match e {
        EngineChange::UpsertSource(s) => EngineModel { sources: m.sources.insert(s.id@, s), ..m },
        EngineChange::RemoveSource(k) => EngineModel { sources: m.sources.remove(k), ..m },
        EngineChange::UpsertOverlay(o) => EngineModel {
            overlays: m.overlays.insert(o.id@, o),
            ..m
        },
        EngineChange::RemoveOverlay(k) => EngineModel { overlays: m.overlays.remove(k), ..m },
        EngineChange::ReorderOverlays(ks) => EngineModel { order: Some(ks), ..m },
        EngineChange::ApplyLayout(k, d, s) => EngineModel { layout: Some((k, d, s)), ..m },
    }
}

/// The engine after some changes.
spec fn after_plan(m: EngineModel, plan: Seq<EngineChange>) -> EngineModel
    decreases plan.len(),
{
    if plan.len() == 0 {
        m
    } else {
        after_change(after_plan(m, plan.drop_last()), plan.last())
    }
}

/// Commands do what the changes that they carry do.
proof fn lemma_commands_carry(m: EngineModel, commands: Seq<Command>, plan: Seq<EngineChange>)
    requires
        commands.len() == plan.len(),
        forall|i: int| 0 <= i < plan.len() ==> carries(commands[i], #[trigger] plan[i]),
    ensures
        after_commands(m, commands) == after_plan(m, plan),
    decreases plan.len(),
{
    if plan.len() > 0 {
        assert forall|i: int| 0 <= i < plan.drop_last().len() implies carries(
            commands.drop_last()[i],
            #[trigger] plan.drop_last()[i],
        ) by {
            assert(carries(commands[i], plan[i]));
        }
        lemma_commands_carry(m, commands.drop_last(), plan.drop_last());
        assert(carries(commands[plan.len() - 1], plan[plan.len() - 1]));
    }
}

/// Plans follow on each other.
proof fn lemma_plans_follow_on(m: EngineModel, p: Seq<EngineChange>, q: Seq<EngineChange>)
    ensures
        after_plan(m, p + q) == after_plan(after_plan(m, p), q),
    decreases q.len(),
{
    if q.len() == 0 {
        assert(p + q =~= p);
    } else {
        assert((p + q).drop_last() =~= p + q.drop_last());
        assert((p + q).last() == q.last());
        lemma_plans_follow_on(m, p, q.drop_last());
    }
}

/// The sources of a document after some changes.
pub open spec fn documented_after(d: Map<Seq<char>, Source>, changes: Seq<SourceChange>) -> Map<
    Seq<char>,
    Source,
>
    decreases changes.len(),
{
    if changes.len() == 0 {
        d
    } else {
        let before = documented_after(d, changes.drop_last());
        match changes.last() {
            SourceChange::Added(s) => before.insert(s.id@, *s),
            SourceChange::Changed { next, .. } => before.insert(next.id@, *next),
            SourceChange::Removed(id) => before.remove(id@),
        }
    }
}

/// The changes are ones of this document: what is added was not there, and what is
/// changed was there as the change says.
pub open spec fn changes_of(d: Map<Seq<char>, Source>, changes: Seq<SourceChange>) -> bool
    decreases changes.len(),
{
    changes.len() == 0 || {
        let before = documented_after(d, changes.drop_last());
        &&& changes_of(d, changes.drop_last())
        &&& match changes.last() {
            SourceChange::Added(s) => !before.contains_key(s.id@),
            SourceChange::Changed { previous, next } => before.contains_key(next.id@)
                && before[next.id@] == *previous,
            SourceChange::Removed(_) => true,
        }
    }
}

/// The sources of a document that the appliance generates itself.
pub open spec fn generated(d: Map<Seq<char>, Source>) -> Map<Seq<char>, Source> {
    Map::new(|k: Seq<char>| d.contains_key(k) && d[k].synthetic, |k: Seq<char>| d[k])
}

/// What the source changes ask for brings the engine in line with the document.
proof fn lemma_sources_in_line(
    m: EngineModel,
    d: Map<Seq<char>, Source>,
    changes: Seq<SourceChange>,
)
    requires
        changes_of(d, changes),
        m.sources == generated(d),
    ensures
        after_plan(m, source_plan(changes)) == (EngineModel {
            sources: generated(documented_after(d, changes)),
            ..m
        }),
    decreases changes.len(),
{
    if changes.len() == 0 {
        assert(source_plan(changes) =~= Seq::<EngineChange>::empty());
    } else {
        let fore = changes.drop_last();
        lemma_sources_in_line(m, d, fore);
        let step = source_step(changes.last());
        lemma_plans_follow_on(m, source_plan(fore), step);
        let mid = after_plan(m, source_plan(fore));
        let after = after_plan(mid, step);
        assert(step.len() <= 1);
        if step.len() == 1 {
            assert(step.drop_last() =~= Seq::<EngineChange>::empty());
            assert(after_plan(mid, step.drop_last()) == mid);
        }
        assert(after.sources =~= generated(documented_after(d, changes)));
    }
}

/// The overlays of a document after some changes.
pub open spec fn overlaid_after(d: Map<Seq<char>, Overlay>, changes: Seq<OverlayChange>) -> Map<
    Seq<char>,
    Overlay,
>
    decreases changes.len(),
{
    if changes.len() == 0 {
        d
    } else {
        let before = overlaid_after(d, changes.drop_last());
        match changes.last() {
            OverlayChange::Added(o) => before.insert(o.id@, *o),
            OverlayChange::Changed(o) => before.insert(o.id@, *o),
            OverlayChange::Removed(id) => before.remove(id@),
        }
    }
}

/// What the overlay changes ask for brings the engine in line with the document.
proof fn lemma_overlays_in_line(m: EngineModel, changes: Seq<OverlayChange>)
    ensures
        after_plan(m, changes.map_values(|c: OverlayChange| overlay_step(c))) == (EngineModel {
            overlays: overlaid_after(m.overlays, changes),
            ..m
        }),
    decreases changes.len(),
{
    let steps = changes.map_values(|c: OverlayChange| overlay_step(c));
    if changes.len() > 0 {
        let fore = changes.drop_last();
        lemma_overlays_in_line(m, fore);
        assert(steps.drop_last() =~= fore.map_values(|c: OverlayChange| overlay_step(c)));
        assert(steps.last() == overlay_step(changes.last()));
    }
}

/// A change reaches the engine. Where nothing was shed, an engine that generated
/// the synthetic sources of the old document and takes what was submitted generates
/// those of the new one; it shows the new overlays, and draws them in the order of
/// the new document where the order changed, if it takes overlays live; and it has
/// the new layout, under the id of the working one, where that could be written
/// down, the canvas keeps its signal, and the layout reads, solves and fits the
/// running canvas. What is not to change does not.
pub proof fn law_change_reaches_the_engine(
    bus: CommandBus,
    bus2: CommandBus,
    diff: ConfigDiff,
    next: Config,
    session: Session,
    a: Applied,
    m: EngineModel,
    document: Map<Seq<char>, Source>,
)
    requires
        applies(bus, bus2, diff, next, session, a),
        a.outcome.shed == 0,
        changes_of(document, diff.sources@),
        m.sources == generated(document),
    ensures
        bus@.is_prefix_of(bus2@),
        ({
            let after = after_commands(m, bus2@.skip(bus@.len() as int));
            let overlays_live = session.overlays_live && (exists|i: int|
                0 <= i < diff.changed_sections@.len() && (#[trigger] diff.changed_sections@[i])@
                    == "overlays"@);
            let layout_live = diff.layout_changed && next.layout_body is Some
                && !diff.canvas_signal_changed && next.layout_document is Ok
                && next.layout_solved is Ok && (session.running_canvas matches Some(c) && c.width
                == next.layout_document->Ok_0.canvas.width && c.height
                == next.layout_document->Ok_0.canvas.height && c.fps.num as int
                * next.layout_document->Ok_0.canvas.fps.den as int
                == next.layout_document->Ok_0.canvas.fps.num as int * c.fps.den as int);
            &&& after.sources == generated(documented_after(document, diff.sources@))
            &&& after.overlays == (if overlays_live {
                overlaid_after(m.overlays, diff.overlays@)
            } else {
                m.overlays
            })
            &&& after.order == (if overlays_live && diff.overlays_reordered {
                Some(next.overlays@.map_values(|o: Overlay| o.id@))
            } else {
                m.order
            })
            &&& after.layout == (if layout_live {
                Some(
                    (
                        match session.working_layout_id {
                            Some(id) => id@,
                            None => "working"@,
                        },
                        next.layout_document->Ok_0,
                        next.layout_solved->Ok_0,
                    ),
                )
            } else {
                m.layout
            })
        }),
{
    let plan = change_plan(diff, next, session);
    let n = bus@.len() as int;
    let commands = bus2@.skip(n);
    let k = landing(bus.room(), plan.len());
    assert(k == plan.len());
    assert(bus2@.take(n) =~= bus@);
    assert forall|i: int| 0 <= i < plan.len() implies carries(commands[i], #[trigger] plan[i]) by {
        assert(carries(bus2@[n + i], plan[i]));
    }
    lemma_commands_carry(m, commands, plan);
    let p1 = source_plan(diff.sources@);
    let p2 = layout_plan(diff, next, session);
    let p3 = if overlays_changed(diff) && session.overlays_live {
        overlay_plan(diff, next)
    } else {
        Seq::empty()
    };
    lemma_plans_follow_on(m, p1, p2);
    lemma_plans_follow_on(m, p1 + p2, p3);
    lemma_sources_in_line(m, document, diff.sources@);
    let m1 = after_plan(m, p1);
    let m2 = after_plan(m1, p2);
    if p2.len() > 0 {
        assert(p2.drop_last() =~= Seq::<EngineChange>::empty());
        assert(after_plan(m1, p2.drop_last()) == m1);
    }
    let names = crate::text::texts(diff.changed_sections@);
    assert(overlays_changed(diff) == (exists|i: int|
        0 <= i < diff.changed_sections@.len() && (#[trigger] diff.changed_sections@[i])@
            == "overlays"@)) by {
        if overlays_changed(diff) {
            let i = choose|i: int| 0 <= i < names.len() && names[i] == "overlays"@;
            assert(diff.changed_sections@[i]@ == "overlays"@);
        }
        if exists|i: int|
            0 <= i < diff.changed_sections@.len() && (#[trigger] diff.changed_sections@[i])@
                == "overlays"@ {
            let i = choose|i: int|
                0 <= i < diff.changed_sections@.len() && (#[trigger] diff.changed_sections@[i])@
                    == "overlays"@;
            assert(names[i] == "overlays"@);
        }
    }
    if overlays_changed(diff) && session.overlays_live {
        let steps = diff.overlays@.map_values(|c: OverlayChange| overlay_step(c));
        lemma_overlays_in_line(m2, diff.overlays@);
        if diff.overlays_reordered {
            assert(p3.drop_last() =~= steps);
        } else {
            assert(p3 =~= steps);
        }
    }
}

/// What is recorded as adopted: which sources the engine generates and which
/// overlays it shows.
#[verifier::ext_equal]
pub struct AdoptedModel {
    /// The sources, by id.
    pub sources: Map<Seq<char>, Source>,
    /// The overlays, by id.
    pub overlays: Map<Seq<char>, Overlay>,
}

/// The record after some adoptions.
pub open spec fn after_adoptions(r: AdoptedModel, adoptions: Seq<Adoption>) -> AdoptedModel
    decreases adoptions.len(),
{
    if adoptions.len() == 0 {
        r
    } else {
        let before = after_adoptions(r, adoptions.drop_last());
        match adoptions.last() {
            Adoption::Source(s) => AdoptedModel {
                sources: before.sources.insert(s.id@, *s),
                ..before
            },
            Adoption::DropSource(id) => AdoptedModel {
                sources: before.sources.remove(id@),
                ..before
            },
            Adoption::Overlay(o) => AdoptedModel {
                overlays: before.overlays.insert(o.id@, *o),
                ..before
            },
            Adoption::DropOverlay(id) => AdoptedModel {
                overlays: before.overlays.remove(id@),
                ..before
            },
            Adoption::Layout => before,
        }
    }
}

/// The record follows the plan.
proof fn lemma_record_follows(m: EngineModel, plan: Seq<EngineChange>, list: Seq<Adoption>)
    requires
        adopts_all(list, recorded(plan)),
    ensures
        after_adoptions(AdoptedModel { sources: m.sources, overlays: m.overlays }, list) == (
        AdoptedModel {
            sources: after_plan(m, plan).sources,
            overlays: after_plan(m, plan).overlays,
        }),
        (exists|i: int| 0 <= i < list.len() && #[trigger] list[i] is Layout) <==> (exists|j: int|
            0 <= j < plan.len() && #[trigger] plan[j] is ApplyLayout),
    decreases plan.len(),
{
    if plan.len() > 0 {
        let fore = plan.drop_last();
        if plan.last() is ReorderOverlays {
            lemma_record_follows(m, fore, list);
            if exists|j: int| 0 <= j < plan.len() && #[trigger] plan[j] is ApplyLayout {
                let j = choose|j: int| 0 <= j < plan.len() && #[trigger] plan[j] is ApplyLayout;
                assert(fore[j] is ApplyLayout);
            }
            if exists|j: int| 0 <= j < fore.len() && #[trigger] fore[j] is ApplyLayout {
                let j = choose|j: int| 0 <= j < fore.len() && #[trigger] fore[j] is ApplyLayout;
                assert(plan[j] is ApplyLayout);
            }
        } else {
            let rec = recorded(plan);
            assert(rec.drop_last() =~= recorded(fore));
            let init = list.drop_last();
            assert forall|i: int| 0 <= i < init.len() implies adopts(
                #[trigger] init[i],
                recorded(fore)[i],
            ) by {
                assert(adopts(list[i], rec[i]));
            }
            lemma_record_follows(m, fore, init);
            assert(adopts(list[list.len() - 1], rec[rec.len() - 1]));
            if exists|j: int| 0 <= j < plan.len() && #[trigger] plan[j] is ApplyLayout {
                let j = choose|j: int| 0 <= j < plan.len() && #[trigger] plan[j] is ApplyLayout;
                if j < fore.len() {
                    assert(fore[j] is ApplyLayout);
                    let i = choose|i: int| 0 <= i < init.len() && #[trigger] init[i] is Layout;
                    assert(list[i] is Layout);
                } else {
                    assert(list[list.len() - 1] is Layout);
                }
            }
            if exists|i: int| 0 <= i < list.len() && #[trigger] list[i] is Layout {
                let i = choose|i: int| 0 <= i < list.len() && #[trigger] list[i] is Layout;
                if i < init.len() {
                    assert(init[i] is Layout);
                    let j = choose|j: int| 0 <= j < fore.len() && #[trigger] fore[j] is ApplyLayout;
                    assert(plan[j] is ApplyLayout);
                } else {
                    assert(plan[plan.len() - 1] is ApplyLayout);
                }
            }
        }
    }
}

/// What is recorded as adopted is what the engine was told, no more and no less,
/// however much was shed: a record that held what the engine ran holds what it
/// runs, and the layout is adopted exactly where one was submitted.
pub proof fn law_adopted_is_what_the_engine_was_told(
    bus: CommandBus,
    bus2: CommandBus,
    diff: ConfigDiff,
    next: Config,
    session: Session,
    a: Applied,
    m: EngineModel,
)
    requires
        applies(bus, bus2, diff, next, session, a),
    ensures
        ({
            let commands = bus2@.skip(bus@.len() as int);
            let after = after_commands(m, commands);
            &&& after_adoptions(
                AdoptedModel { sources: m.sources, overlays: m.overlays },
                a.adoptions@,
            ) == (AdoptedModel { sources: after.sources, overlays: after.overlays })
            &&& (exists|i: int| 0 <= i < a.adoptions@.len() && #[trigger] a.adoptions@[i] is Layout)
                <==> (exists|j: int|
                0 <= j < commands.len() && #[trigger] commands[j] is ApplyLayout)
        }),
{
    let plan = change_plan(diff, next, session);
    let n = bus@.len() as int;
    let k = landing(bus.room(), plan.len()) as int;
    let commands = bus2@.skip(n);
    let told = plan.take(k);
    assert forall|i: int| 0 <= i < told.len() implies carries(commands[i], #[trigger] told[i]) by {
        assert(carries(bus2@[n + i], plan[i]));
    }
    lemma_commands_carry(m, commands, told);
    lemma_record_follows(m, told, a.adoptions@);
    if exists|j: int| 0 <= j < told.len() && #[trigger] told[j] is ApplyLayout {
        let j = choose|j: int| 0 <= j < told.len() && #[trigger] told[j] is ApplyLayout;
        assert(commands[j] is ApplyLayout);
    }
    if exists|j: int| 0 <= j < commands.len() && #[trigger] commands[j] is ApplyLayout {
        let j = choose|j: int| 0 <= j < commands.len() && #[trigger] commands[j] is ApplyLayout;
        assert(carries(commands[j], told[j]));
        assert(told[j] is ApplyLayout);
    }
}

/// A change is shed only by a full queue: where anything was shed, nothing more
/// would land.
pub proof fn law_shed_leaves_a_full_queue(
    bus: CommandBus,
    bus2: CommandBus,
    diff: ConfigDiff,
    next: Config,
    session: Session,
    a: Applied,
)
    requires
        bus.wf(),
        applies(bus, bus2, diff, next, session, a),
    ensures
        a.outcome.shed > 0 ==> bus2.room() == 0,
{
    bus.lemma_bounded();
}

/// What waits for a restart: the sources where one that the appliance does not
/// generate was added or changed, the canvas where it changed, the layout where it
/// changed and the engine was not asked to take it, the overlays where they changed
/// and the engine does not take them live, and every other section that changed.
pub proof fn law_what_waits_for_a_restart(
    bus: CommandBus,
    bus2: CommandBus,
    diff: ConfigDiff,
    next: Config,
    session: Session,
    a: Applied,
)
    requires
        applies(bus, bus2, diff, next, session, a),
        a.outcome.shed == 0,
        forall|i: int|
            0 <= i < diff.changed_sections@.len() ==> (#[trigger] diff.changed_sections@[i])@
                != "sources"@ && diff.changed_sections@[i]@ != "canvas"@
                && diff.changed_sections@[i]@ != "layout"@,
    ensures
        a.outcome.restart@.contains("sources"@) <==> (exists|i: int|
            0 <= i < diff.sources@.len() && (match #[trigger] diff.sources@[i] {
                SourceChange::Added(s) => !s.synthetic,
                SourceChange::Changed { next, .. } => !next.synthetic,
                SourceChange::Removed(_) => false,
            })),
        a.outcome.restart@.contains("canvas"@) <==> diff.canvas_signal_changed
            || diff.canvas_cosmetic_changed,
        a.outcome.restart@.contains("layout"@) <==> diff.layout_changed && (forall|j: int|
            bus@.len() <= j < bus2@.len() ==> !(#[trigger] bus2@[j] is ApplyLayout)),
        a.outcome.restart@.contains("overlays"@) <==> !session.overlays_live && (exists|i: int|
            0 <= i < diff.changed_sections@.len() && (#[trigger] diff.changed_sections@[i])@
                == "overlays"@),
        forall|i: int|
            0 <= i < diff.changed_sections@.len() && (#[trigger] diff.changed_sections@[i])@
                != "overlays"@ ==> a.outcome.restart@.contains(diff.changed_sections@[i]@),
        forall|name: Seq<char>| #[trigger]
            a.outcome.restart@.contains(name) ==> name == "sources"@ || name == "canvas"@ || name
                == "layout"@ || (exists|i: int|
                0 <= i < diff.changed_sections@.len() && (#[trigger] diff.changed_sections@[i])@
                    == name),
{
    reveal_strlit("sources");
    reveal_strlit("canvas");
    reveal_strlit("layout");
    reveal_strlit("overlays");
    assert("sources"@.len() == 7 && "canvas"@.len() == 6 && "layout"@.len() == 6
        && "overlays"@.len() == 8);
    assert("canvas"@[0] == 'c' && "layout"@[0] == 'l');
    let plan = change_plan(diff, next, session);
    let names = crate::text::texts(diff.changed_sections@);
    let others = other_sections(names);
    assert forall|name: Seq<char>| #[trigger]
        others.contains(name) <==> name != "overlays"@ && names.contains(name) by {
        lemma_among_others(names, name);
    }
    assert forall|name: Seq<char>| #[trigger] names.contains(name) <==> (exists|i: int|
        0 <= i < diff.changed_sections@.len() && (#[trigger] diff.changed_sections@[i])@ == name)
        by {
        if names.contains(name) {
            let i = choose|i: int| 0 <= i < names.len() && names[i] == name;
            assert(diff.changed_sections@[i]@ == name);
        }
        if exists|i: int|
            0 <= i < diff.changed_sections@.len() && (#[trigger] diff.changed_sections@[i])@ == name {
            let i = choose|i: int|
                0 <= i < diff.changed_sections@.len() && (#[trigger] diff.changed_sections@[i])@
                    == name;
            assert(names[i] == name);
        }
    }
    assert(!names.contains("sources"@));
    assert(!names.contains("canvas"@));
    assert(!names.contains("layout"@));
    assert(a.outcome.restart@.contains("sources"@) <==> sources_wait(diff.sources@));
    if sources_wait(diff.sources@) {
        let i = choose|i: int| 0 <= i < diff.sources@.len() && source_waits(#[trigger] diff.sources@[i]);
        assert(source_waits(diff.sources@[i]));
    }
    let p1 = source_plan(diff.sources@);
    let p2 = layout_plan(diff, next, session);
    lemma_source_plan_kinds(diff.sources@);
    let n = bus@.len() as int;
    if p2.len() > 0 {
        let j = n + p1.len();
        assert(plan[p1.len() as int] == p2[0]);
        assert(carries(bus2@[j], plan[p1.len() as int]));
        assert(bus2@[j] is ApplyLayout);
    } else {
        assert forall|j: int| bus@.len() <= j < bus2@.len() implies !(
        #[trigger] bus2@[j] is ApplyLayout) by {
            assert(carries(bus2@[n + (j - n)], plan[j - n]));
            if j - n < p1.len() {
                assert(plan[j - n] == p1[j - n]);
            }
        }
    }
    assert forall|i: int|
        0 <= i < diff.changed_sections@.len() && (#[trigger] diff.changed_sections@[i])@
            != "overlays"@ implies a.outcome.restart@.contains(diff.changed_sections@[i]@) by {
        assert(names[i] == diff.changed_sections@[i]@);
        assert(others.contains(names[i]));
    }
}

/// The other sections are the changed ones but the overlays.
proof fn lemma_among_others(names: Seq<Seq<char>>, name: Seq<char>)
    ensures
        other_sections(names).contains(name) <==> name != "overlays"@ && names.contains(name),
    decreases names.len(),
{
    let others = other_sections(names);
    if names.len() > 0 {
        let fore = names.drop_last();
        let before = other_sections(fore);
        lemma_among_others(fore, name);
        if names.contains(name) {
            let i = choose|i: int| 0 <= i < names.len() && names[i] == name;
            if i < fore.len() {
                assert(fore[i] == name);
                assert(fore.contains(name));
            }
        }
        if fore.contains(name) {
            let i = choose|i: int| 0 <= i < fore.len() && fore[i] == name;
            assert(names[i] == name);
        }
        if names.last() != "overlays"@ {
            assert(others == before.push(names.last()));
            if before.contains(name) {
                let i = choose|i: int| 0 <= i < before.len() && before[i] == name;
                assert(others[i] == name);
            }
            if name == names.last() {
                assert(others[before.len() as int] == name);
                assert(names[names.len() - 1] == name);
            }
            if others.contains(name) {
                let i = choose|i: int| 0 <= i < others.len() && others[i] == name;
                if i < before.len() {
                    assert(before[i] == name);
                    assert(before.contains(name));
                } else {
                    assert(names[names.len() - 1] == name);
                }
            }
        }
    }
}

/// The sources ask for sources.
proof fn lemma_source_plan_kinds(changes: Seq<SourceChange>)
    ensures
        forall|i: int|
            0 <= i < source_plan(changes).len() ==> (#[trigger] source_plan(changes)[i]
                is UpsertSource || source_plan(changes)[i] is RemoveSource),
    decreases changes.len(),
{
    if changes.len() > 0 {
        lemma_source_plan_kinds(changes.drop_last());
        let before = source_plan(changes.drop_last());
        let step = source_step(changes.last());
        assert forall|i: int| 0 <= i < source_plan(changes).len() implies (
        #[trigger] source_plan(changes)[i] is UpsertSource || source_plan(changes)[i]
            is RemoveSource) by {
            if i < before.len() {
                assert(source_plan(changes)[i] == before[i]);
            } else {
                assert(source_plan(changes)[i] == step[i - before.len()]);
            }
        }
    }
}

/// The rows of a store after some writes, by id.
pub open spec fn rows_after(rows: Map<Seq<char>, Desired>, writes: Seq<StoreWrite>) -> Map<
    Seq<char>,
    Desired,
>
    decreases writes.len(),
{
    if writes.len() == 0 {
        rows
    } else {
        let before = rows_after(rows, writes.drop_last());
        match writes.last() {
            StoreWrite::Update(row) => before.insert(row.id@, row),
            StoreWrite::Create(row) => before.insert(row.id@, row),
            StoreWrite::Delete(id) => before.remove(id@),
        }
    }
}

/// The writes of rows leave the last of each id.
proof fn lemma_rows_written(
    rows: Map<Seq<char>, Desired>,
    existing: Seq<Seq<char>>,
    desired: Seq<Desired>,
    head: Seq<StoreWrite>,
    i: int,
)
    requires
        head.len() == desired.len(),
        forall|j: int| 0 <= j < desired.len() ==> writes_row(#[trigger] head[j], desired[j], existing),
        forall|j: int, k: int|
            0 <= j < k < desired.len() ==> (#[trigger] desired[j]).id@ != (#[trigger] desired[k]).id@,
        0 <= i < desired.len(),
    ensures
        rows_after(rows, head).contains_key(desired[i].id@),
        rows_after(rows, head)[desired[i].id@] == desired[i],
    decreases head.len(),
{
    let n = head.len() - 1;
    assert(writes_row(head[n], desired[n], existing));
    if i < n {
        let fore = desired.drop_last();
        assert forall|j: int| 0 <= j < fore.len() implies writes_row(
            #[trigger] head.drop_last()[j],
            fore[j],
            existing,
        ) by {
            assert(writes_row(head[j], desired[j], existing));
        }
        assert forall|j: int, k: int| 0 <= j < k < fore.len() implies (#[trigger] fore[j]).id@ != (
        #[trigger] fore[k]).id@ by {
            assert(desired[j].id@ != desired[k].id@);
        }
        lemma_rows_written(rows, existing, fore, head.drop_last(), i);
        assert(fore[i] == desired[i]);
        assert(desired[i].id@ != desired[n].id@);
    }
}

/// Deleting what is not wanted leaves a wanted row alone.
proof fn lemma_deletes_leave(
    rows: Map<Seq<char>, Desired>,
    head: Seq<StoreWrite>,
    tail: Seq<StoreWrite>,
    ids: Seq<Seq<char>>,
    id: Seq<char>,
)
    requires
        deletes(tail, ids),
        !ids.contains(id),
    ensures
        rows_after(rows, head + tail).contains_key(id) == rows_after(rows, head).contains_key(id),
        rows_after(rows, head).contains_key(id) ==> rows_after(rows, head + tail)[id] == rows_after(
            rows,
            head,
        )[id],
    decreases tail.len(),
{
    if tail.len() == 0 {
        assert(head + tail =~= head);
    } else {
        let n = tail.len() - 1;
        assert((head + tail).drop_last() =~= head + tail.drop_last());
        assert((head + tail).last() == tail[n]);
        assert(tail[n] matches StoreWrite::Delete(d) && d@ == ids[n]);
        assert(ids[n] != id);
        assert forall|i: int| 0 <= i < tail.drop_last().len() implies (
        #[trigger] tail.drop_last()[i] matches StoreWrite::Delete(d) && d@ == ids.drop_last()[i]) by {
            assert(tail[i] matches StoreWrite::Delete(d) && d@ == ids[i]);
        }
        assert(!ids.drop_last().contains(id)) by {
            if ids.drop_last().contains(id) {
                let i = choose|i: int| 0 <= i < ids.drop_last().len() && ids.drop_last()[i] == id;
                assert(ids[i] == id);
            }
        }
        lemma_deletes_leave(rows, head, tail.drop_last(), ids.drop_last(), id);
    }
}

/// After the writes a store holds every desired row as it is desired. A row whose
/// id was there is replaced, any other is added, and what is not desired is deleted
/// once.
pub proof fn law_resync_leaves_the_desired_rows(
    rows: Map<Seq<char>, Desired>,
    existing: Seq<Seq<char>>,
    desired: Seq<Desired>,
    writes: Seq<StoreWrite>,
    i: int,
)
    requires
        writes.len() >= desired.len(),
        forall|j: int| 0 <= j < desired.len() ==> writes_row(#[trigger] writes[j], desired[j], existing),
        deletes(writes.skip(desired.len() as int), obsolete(existing, ids_of(desired))),
        forall|j: int, k: int|
            0 <= j < k < desired.len() ==> (#[trigger] desired[j]).id@ != (#[trigger] desired[k]).id@,
        0 <= i < desired.len(),
    ensures
        rows_after(rows, writes).contains_key(desired[i].id@),
        rows_after(rows, writes)[desired[i].id@] == desired[i],
        existing.contains(desired[i].id@) ==> writes[i] == StoreWrite::Update(desired[i]),
        !existing.contains(desired[i].id@) ==> writes[i] == StoreWrite::Create(desired[i]),
        forall|k: int| desired.len() <= k < writes.len() ==> #[trigger] writes[k] is Delete,
{
    let n = desired.len() as int;
    let head = writes.take(n);
    let tail = writes.skip(n);
    assert(head + tail =~= writes);
    assert forall|j: int| 0 <= j < desired.len() implies writes_row(
        #[trigger] head[j],
        desired[j],
        existing,
    ) by {
        assert(writes_row(writes[j], desired[j], existing));
    }
    assert(writes_row(writes[i], desired[i], existing));
    lemma_rows_written(rows, existing, desired, head, i);
    let id = desired[i].id@;
    lemma_obsolete(existing, ids_of(desired), id);
    assert(ids_of(desired)[i] == id);
    lemma_deletes_leave(rows, head, tail, obsolete(existing, ids_of(desired)), id);
    assert forall|k: int| desired.len() <= k < writes.len() implies #[trigger] writes[k] is Delete by {
        assert(tail[k - n] == writes[k]);
    }
}

/// Every source that could be written down has its row: under its id, with its
/// name or else its id as the name, and with its document. One that could not has
/// none.
pub proof fn law_every_source_has_its_row(sources: Seq<Source>, s: Source)
    ensures
        s.body is None ==> source_rows(sources.push(s)) == source_rows(sources),
        s.body is Some ==> source_rows(sources.push(s)) == source_rows(sources).push(
            DesiredView {
                id: s.id@,
                name: if s.display_name is Some {
                    s.display_name->0@
                } else {
                    s.id@
                },
                body: s.body->0@,
            },
        ),
        source_rows(Seq::empty()) == Seq::<DesiredView>::empty(),
{
    assert(sources.push(s).drop_last() =~= sources);
    assert(source_rows(sources) + Seq::<DesiredView>::empty() =~= source_rows(sources));
}

/// Every overlay that could be written down has its row, named after its id.
pub proof fn law_every_overlay_has_its_row(overlays: Seq<Overlay>, o: Overlay)
    ensures
        o.body is None ==> overlay_rows(overlays.push(o)) == overlay_rows(overlays),
        o.body is Some ==> overlay_rows(overlays.push(o)) == overlay_rows(overlays).push(
            DesiredView { id: o.id@, name: o.id@, body: o.body->0@ },
        ),
        overlay_rows(Seq::empty()) == Seq::<DesiredView>::empty(),
{
    assert(overlays.push(o).drop_last() =~= overlays);
    assert(overlay_rows(overlays) + Seq::<DesiredView>::empty() =~= overlay_rows(overlays));
}

/// Every output that could be written down has its row: it is named by its place
/// among all outputs, counted from zero, and shown by its kind.
pub proof fn law_every_output_has_its_row(outputs: Seq<Output>, o: Output)
    ensures
        o.body is None ==> output_rows(outputs.push(o)) == output_rows(outputs),
        o.body is Some ==> output_rows(outputs.push(o)) == output_rows(outputs).push(
            DesiredView {
                id: "output-"@ + crate::text::decimal(outputs.len()),
                name: if o.kind is Some {
                    o.kind->0@
                } else {
                    "output"@
                },
                body: o.body->0@,
            },
        ),
        output_rows(Seq::empty()) == Seq::<DesiredView>::empty(),
{
    assert(outputs.push(o).drop_last() =~= outputs);
    assert(output_rows(outputs) + Seq::<DesiredView>::empty() =~= output_rows(outputs));
}

/// Every other document that could be written down has its row: under its id, with
/// its name or else its id as the name.
pub proof fn law_every_document_has_its_row(documents: Seq<Document>, d: Document)
    ensures
        d.body is None ==> document_rows(documents.push(d)) == document_rows(documents),
        d.body is Some ==> document_rows(documents.push(d)) == document_rows(documents).push(
            DesiredView {
                id: d.id@,
                name: if d.display_name is Some {
                    d.display_name->0@
                } else {
                    d.id@
                },
                body: d.body->0@,
            },
        ),
        document_rows(Seq::empty()) == Seq::<DesiredView>::empty(),
{
    assert(documents.push(d).drop_last() =~= documents);
    assert(document_rows(documents) + Seq::<DesiredView>::empty() =~= document_rows(documents));
}

/// A store is among those of some sections exactly where a section names it.
proof fn lemma_section_stores(names: Seq<Seq<char>>, r: Reseed)
    ensures
        section_stores(names).contains(r) <==> exists|i: int|
            0 <= i < names.len() && section_store(#[trigger] names[i]) == Some(r),
    decreases names.len(),
{
    let all = section_stores(names);
    if names.len() > 0 {
        let fore = names.drop_last();
        let before = section_stores(fore);
        lemma_section_stores(fore, r);
        if exists|i: int| 0 <= i < fore.len() && section_store(#[trigger] fore[i]) == Some(r) {
            let i = choose|i: int| 0 <= i < fore.len() && section_store(#[trigger] fore[i]) == Some(r);
            assert(names[i] == fore[i]);
            let j = choose|j: int| 0 <= j < before.len() && before[j] == r;
            assert(all[j] == r);
        }
        if section_store(names.last()) == Some(r) {
            assert(names[names.len() - 1] == names.last());
            assert(all[before.len() as int] == r);
        }
        if all.contains(r) {
            let j = choose|j: int| 0 <= j < all.len() && all[j] == r;
            if j < before.len() {
                assert(before[j] == r);
                assert(before.contains(r));
            }
        }
        if exists|i: int| 0 <= i < names.len() && section_store(#[trigger] names[i]) == Some(r) {
            let i = choose|i: int| 0 <= i < names.len() && section_store(#[trigger] names[i]) == Some(r);
            if i < fore.len() {
                assert(fore[i] == names[i]);
            }
        }
    }
}

/// The store of a section carries the section's name.
pub open spec fn store_name(r: Reseed) -> Seq<char> {
    match r {
        Reseed::Sources => "sources"@,
        Reseed::WorkingLayout => "layout"@,
        Reseed::Overlays => "overlays"@,
        Reseed::Outputs => "outputs"@,
        Reseed::Probes => "probes"@,
        Reseed::Devices => "devices"@,
        Reseed::SyncGroups => "sync_groups"@,
        Reseed::Audio => "audio"@,
        Reseed::Salvos => "salvos"@,
        Reseed::TallyProfiles => "tally_profiles"@,
    }
}

/// The section of a store has that store.
proof fn lemma_store_names(r: Reseed)
    ensures
        r != Reseed::Sources && r != Reseed::WorkingLayout && r != Reseed::Overlays
            ==> section_store(store_name(r)) == Some(r) && store_name(r) != "overlays"@,
{
    reveal_strlit("overlays");
    reveal_strlit("outputs");
    reveal_strlit("probes");
    reveal_strlit("devices");
    reveal_strlit("sync_groups");
    reveal_strlit("audio");
    reveal_strlit("salvos");
    reveal_strlit("tally_profiles");
    assert("outputs"@.len() == 7 && "devices"@.len() == 7 && "probes"@.len() == 6);
    assert("salvos"@.len() == 6 && "audio"@.len() == 5 && "sync_groups"@.len() == 11);
    assert("tally_profiles"@.len() == 14 && "overlays"@.len() == 8);
    assert("outputs"@[0] == 'o' && "devices"@[0] == 'd');
    assert("probes"@[0] == 'p' && "salvos"@[0] == 's');
}

/// The stores follow the document, live or not: a store is brought in line where
/// its section changed, and no other store is. The working layout is, where it
/// changed and could be written down.
pub proof fn law_stores_of_changed_sections_follow(
    bus: CommandBus,
    bus2: CommandBus,
    diff: ConfigDiff,
    next: Config,
    session: Session,
    a: Applied,
    r: Reseed,
)
    requires
        applies(bus, bus2, diff, next, session, a),
    ensures
        r == Reseed::Sources ==> (a.reseeds@.contains(r) <==> diff.sources@.len() > 0),
        r == Reseed::WorkingLayout ==> (a.reseeds@.contains(r) <==> diff.layout_changed
            && next.layout_body is Some),
        r != Reseed::Sources && r != Reseed::WorkingLayout ==> (a.reseeds@.contains(r) <==> (exists|
            i: int,
        |
            0 <= i < diff.changed_sections@.len() && (#[trigger] diff.changed_sections@[i])@
                == store_name(r))),
{
    lemma_store_names(r);
    let names = crate::text::texts(diff.changed_sections@);
    let others = other_sections(names);
    let stores = section_stores(others);
    lemma_section_stores(others, r);
    lemma_among_others(names, store_name(r));
    let a1 = when(diff.sources@.len() > 0, Reseed::Sources);
    let a2 = when(diff.layout_changed && next.layout_body is Some, Reseed::WorkingLayout);
    let a3 = when(overlays_changed(diff), Reseed::Overlays);
    let all = a1 + a2 + a3 + stores;
    assert(a.reseeds@ == all);
    if a1.len() > 0 {
        assert(all[0] == Reseed::Sources);
    }
    if a2.len() > 0 {
        assert(all[a1.len() as int] == Reseed::WorkingLayout);
    }
    if a3.len() > 0 {
        assert(all[(a1.len() + a2.len()) as int] == Reseed::Overlays);
    }
    if stores.contains(r) {
        let j = choose|j: int| 0 <= j < stores.len() && stores[j] == r;
        assert(all[a1.len() + a2.len() + a3.len() + j] == r);
        let i = choose|i: int| 0 <= i < others.len() && section_store(#[trigger] others[i]) == Some(r);
        assert(others[i] == store_name(r));
    }
    if others.contains(store_name(r)) && r != Reseed::Sources && r != Reseed::WorkingLayout && r
        != Reseed::Overlays {
        let i = choose|i: int| 0 <= i < others.len() && others[i] == store_name(r);
        assert(section_store(others[i]) == Some(r));
    }
    if all.contains(r) {
        let k = choose|k: int| 0 <= k < all.len() && all[k] == r;
        if k >= a1.len() + a2.len() + a3.len() {
            assert(stores[k - a1.len() - a2.len() - a3.len()] == r);
        }
    }
    if names.contains(store_name(r)) {
        let i = choose|i: int| 0 <= i < names.len() && names[i] == store_name(r);
        assert(diff.changed_sections@[i]@ == store_name(r));
    }
    if exists|i: int|
        0 <= i < diff.changed_sections@.len() && (#[trigger] diff.changed_sections@[i])@
            == store_name(r) {
        let i = choose|i: int|
            0 <= i < diff.changed_sections@.len() && (#[trigger] diff.changed_sections@[i])@
                == store_name(r);
        assert(names[i] == store_name(r));
    }
}

/// Bringing everything in line reaches every store: each once, the audio routing
/// where the document has one, and the working layout where it could be written
/// down.
pub proof fn law_full_resync_reaches_every_store(config: Config, r: Reseed)
    ensures
        all_stores(config).contains(r) <==> (r == Reseed::Audio ==> config.audio is Some) && (r
            == Reseed::WorkingLayout ==> config.layout_body is Some),
        all_stores(config).no_duplicates(),
{
    let all = all_stores(config);
    let n = all.len() as int;
    assert(all[0] == Reseed::Sources && all[1] == Reseed::Outputs && all[2] == Reseed::Overlays);
    assert(all[3] == Reseed::Probes && all[4] == Reseed::Devices && all[5] == Reseed::SyncGroups);
    if config.audio is Some {
        assert(all[6] == Reseed::Audio && all[7] == Reseed::Salvos);
        assert(all[8] == Reseed::TallyProfiles);
        if config.layout_body is Some {
            assert(all[9] == Reseed::WorkingLayout);
        }
    } else {
        assert(all[6] == Reseed::Salvos && all[7] == Reseed::TallyProfiles);
        if config.layout_body is Some {
            assert(all[8] == Reseed::WorkingLayout);
        }
    }
}

/// What is said of a layout is what became of it: applied, shed, held back by a canvas
/// that differs, held for another reason, or not applicable at all.
pub proof fn law_layout_is_reported(diff: ConfigDiff, next: Config, session: Session, room: bool)
    ensures
        ({
            let said = layout_part(diff, next, session, room);
            let refused = crate::command::layout_refusal(
                next.layout_document,
                next.layout_solved,
                session.running_canvas,
            );
            &&& next.layout_body is None ==> said
                == "layout changed (could not serialize; applies on restart)"@
            &&& next.layout_body is Some && diff.canvas_signal_changed ==> said
                == "layout changed (Class-2 canvas; applies on restart)"@
            &&& next.layout_body is Some && !diff.canvas_signal_changed && refused is Some ==> said
                == "layout changed (held; applies on restart)"@
            &&& next.layout_body is Some && !diff.canvas_signal_changed && refused is None && room
                ==> said == "layout applied live"@
            &&& next.layout_body is Some && !diff.canvas_signal_changed && refused is None && !room
                ==> said == "layout apply shed (retried on the next poll)"@
        }),
{
}

/// Every change of a source and of an overlay is reported by its id and by what became
/// of it.
pub proof fn law_changes_are_reported_by_id(c: SourceChange, o: OverlayChange)
    ensures
        c matches SourceChange::Added(s) ==> source_line(c) == s.id@ + " added"@,
        c matches SourceChange::Changed { next, .. } ==> source_line(c) == next.id@ + " changed"@,
        c matches SourceChange::Removed(id) ==> source_line(c) == id@ + " removed"@,
        o matches OverlayChange::Added(v) ==> overlay_line(o) == v.id@ + " upserted"@,
        o matches OverlayChange::Changed(v) ==> overlay_line(o) == v.id@ + " upserted"@,
        o matches OverlayChange::Removed(id) ==> overlay_line(o) == id@ + " removed"@,
        sources_part(seq![c]) == "sources: "@ + source_line(c),
{
    let lines = seq![c].map_values(|c: SourceChange| source_line(c));
    assert(lines =~= seq![source_line(c)]);
}

/// Overlays are reported as applied where every command had room and the engine takes
/// overlays live; else they are reported as partly applied or as waiting, and the
/// section waits for a restart.
pub proof fn law_overlays_are_reported(diff: ConfigDiff, next: Config, live: bool, room: nat)
    ensures
        ({
            let steps = diff.overlays@.len() + (if diff.overlays_reordered {
                1nat
            } else {
                0nat
            });
            let lines = crate::text::join_of(overlay_lines(diff), ", "@);
            &&& overlay_plan(diff, next).len() == steps
            &&& overlay_lines(diff).len() == steps
            &&& !live ==> overlays_part(diff, next, live, room)
                == "overlays changed (applies on restart)"@
            &&& live && steps <= room ==> overlays_part(diff, next, live, room)
                == "overlays applied live: "@ + lines
            &&& live && steps > room ==> overlays_part(diff, next, live, room)
                == "overlays partially applied (shed; retried): "@ + lines
            &&& overlays_wait(diff, next, live, room) <==> !live || steps > room
            &&& diff.overlays_reordered ==> overlay_lines(diff).last()
                == "draw order re-sequenced"@
        }),
{
}

} // verus!
