//! The command bus: how the control plane talks to the engine.
//!
//! The bus is a bounded queue. A submission never waits: it lands or it is
//! shed. The engine takes what has landed whenever it likes, in the order in
//! which it landed. Every command carries an operation id by which its outcome
//! is reported later.

use vstd::prelude::*;

use crate::crypto::uuid_text;
use crate::error::ControlError;
use crate::json::{put, Json, JsonView};
use crate::model::{
    LayoutCanvas, LayoutDocument, Overlay, RouteIntent, SolvedLayout, Source, StreamKind, StreamRef,
    TallyColor, TallyTarget,
};
use crate::text::{debug_text, decimal_text, str_eq};

verus! {

/// The id by which a command's outcome is reported.
#[derive(Debug, PartialEq, Eq, Hash)]
pub struct OperationId {
    id: String,
}

impl OperationId {
    /// The id.
    pub closed spec fn view(self) -> Seq<char> {
        self.id@
    }

    /// Ids with the same text, made of the same string, are the same id.
    pub closed spec fn text(self) -> String {
        self.id
    }

    /// A fresh random id.
    pub fn new() -> (r: Self)
        ensures
            r@.len() == 36,
            forall|i: int| 0 <= i < r@.len() ==> crate::crypto::uuid_char(#[trigger] r@[i]),
    {
        OperationId { id: uuid_text() }
    }

    /// The id that `id` spells.
    pub fn from_string(id: String) -> (r: Self)
        ensures
            r@ == id@,
    {
        OperationId { id }
    }

    /// The id as text.
    pub fn as_str(&self) -> (r: &str)
        ensures
            r@ == self@,
    {
        self.id.as_str()
    }
}

impl Default for OperationId {
    fn default() -> (r: Self)
        ensures
            r@.len() == 36,
            forall|i: int| 0 <= i < r@.len() ==> crate::crypto::uuid_char(#[trigger] r@[i]),
    {
        OperationId::new()
    }
}

impl Clone for OperationId {
    fn clone(&self) -> (r: Self)
        ensures
            r == *self,
    {
        OperationId { id: self.id.clone() }
    }
}

/// A stored layout, resolved and solved before it is submitted.
#[derive(Debug, PartialEq, Eq)]
pub struct ResolvedLayout {
    /// The solved layout.
    pub solved: SolvedLayout,
    /// The document it came from.
    pub document: LayoutDocument,
}

impl ResolvedLayout {
    /// A solved layout with its document.
    pub fn new(solved: SolvedLayout, document: LayoutDocument) -> (r: Self)
        ensures
            r.solved == solved,
            r.document == document,
    {
        ResolvedLayout { solved, document }
    }
}

/// `WxH@N/D`.
pub open spec fn canvas_label(c: LayoutCanvas) -> Seq<char> {
    crate::text::decimal(c.width as nat) + "x"@ + crate::text::decimal(c.height as nat) + "@"@ + crate::text::decimal(c.fps.num as nat) + "/"@
        + crate::text::decimal(c.fps.den as nat)
}

fn canvas_text(c: &LayoutCanvas) -> (r: String)
    ensures
        r@ == canvas_label(*c),
{
    let mut out = decimal_text(c.width as u64);
    out.append("x");
    let h = decimal_text(c.height as u64);
    out.append(h.as_str());
    out.append("@");
    let n = decimal_text(c.fps.num as u64);
    out.append(n.as_str());
    out.append("/");
    let d = decimal_text(c.fps.den as u64);
    out.append(d.as_str());
    out
}

/// Why a stored layout cannot be applied to the running session.
pub enum LayoutRefusal {
    /// It does not parse.
    DoesNotParse(Seq<char>),
    /// It does not solve.
    DoesNotSolve(Seq<char>),
    /// The running canvas is not known.
    UnknownCanvas,
    /// It was made for another canvas.
    OtherCanvas(LayoutCanvas, LayoutCanvas),
}

/// How a refusal reads.
pub open spec fn refusal_text(id: Seq<char>, refusal: LayoutRefusal) -> Seq<char> {
    match refusal {
        LayoutRefusal::DoesNotParse(e) => "stored layout "@ + crate::text::debug_of(id)
            + " does not parse as a {canvas, layout, cells} document: "@ + e,
        LayoutRefusal::DoesNotSolve(e) => "stored layout "@ + crate::text::debug_of(id) + " does not solve: "@ + e,
        LayoutRefusal::UnknownCanvas => "layout "@ + crate::text::debug_of(id)
            + " cannot be applied live: the running canvas is unknown to the control plane (no pinned-canvas snapshot was seeded), so the Class-1 gate fails closed (ADR-W019)"@,
        LayoutRefusal::OtherCanvas(new, running) => "layout "@ + crate::text::debug_of(id)
            + " was authored for canvas "@ + canvas_label(new)
            + " but the running session's canvas is pinned at "@ + canvas_label(running)
            + " — a Class-2 change (output geometry/cadence cannot change live; ADR-R004)"@,
    }
}

/// Why a layout is refused, if it is: the first reason that holds.
pub open spec fn layout_refusal(
    document: Result<LayoutDocument, String>,
    solved: Result<SolvedLayout, String>,
    running: Option<LayoutCanvas>,
) -> Option<LayoutRefusal> {
    match document {
        Err(e) => Some(LayoutRefusal::DoesNotParse(e@)),
        Ok(doc) => match solved {
            Err(e) => Some(LayoutRefusal::DoesNotSolve(e@)),
            Ok(_) => match running {
                None => Some(LayoutRefusal::UnknownCanvas),
                Some(canvas) => if canvas.same_signal(doc.canvas) {
                    None
                } else {
                    Some(LayoutRefusal::OtherCanvas(doc.canvas, canvas))
                },
            },
        },
    }
}

/// Bundle a stored layout for the engine, given what parsing and solving its
/// body gave.
///
/// The output canvas is pinned for the session, so a layout that was made for
/// another canvas is refused; and so is every layout while the running canvas
/// is not known.
pub fn resolve_layout_document(
    id: &str,
    document: Result<LayoutDocument, String>,
    solved: Result<SolvedLayout, String>,
    running_canvas: Option<&LayoutCanvas>,
) -> (r: Result<ResolvedLayout, ControlError>)
    ensures
        match layout_refusal(
            document,
            solved,
            (match running_canvas {
                Some(c) => Some(*c),
                None => None,
            }),
        ) {
            None => r matches Ok(l) && l.document == document->Ok_0 && l.solved == solved->Ok_0,
            Some(refusal) => r matches Err(ControlError::Validation(t)) && t@ == refusal_text(
                id@,
                refusal,
            ),
        },
{
    let name = debug_text(id);
    let document = match document {
        Ok(d) => d,
        Err(e) => {
            let mut t = "stored layout ".to_owned();
            t.append(name.as_str());
            t.append(" does not parse as a {canvas, layout, cells} document: ");
            t.append(e.as_str());
            return Err(ControlError::Validation(t));
        },
    };
    let solved = match solved {
        Ok(s) => s,
        Err(e) => {
            let mut t = "stored layout ".to_owned();
            t.append(name.as_str());
            t.append(" does not solve: ");
            t.append(e.as_str());
            return Err(ControlError::Validation(t));
        },
    };
    let running = match running_canvas {
        Some(c) => c,
        None => {
            let mut t = "layout ".to_owned();
            t.append(name.as_str());
            t.append(
                " cannot be applied live: the running canvas is unknown to the control plane (no pinned-canvas snapshot was seeded), so the Class-1 gate fails closed (ADR-W019)",
            );
            return Err(ControlError::Validation(t));
        },
    };
    if !running.equals(&document.canvas) {
        let mut t = "layout ".to_owned();
        t.append(name.as_str());
        t.append(" was authored for canvas ");
        let new = canvas_text(&document.canvas);
        t.append(new.as_str());
        t.append(" but the running session's canvas is pinned at ");
        let pinned = canvas_text(running);
        t.append(pinned.as_str());
        t.append(" — a Class-2 change (output geometry/cadence cannot change live; ADR-R004)");
        return Err(ControlError::Validation(t));
    }
    Ok(ResolvedLayout::new(solved, document))
}

/// What a media player is asked to do.
#[derive(Debug, PartialEq, Eq)]
pub enum MediaTransportVerb {
    /// Load an asset.
    Load {
        /// The asset id.
        asset: String,
    },
    /// Cue, at a frame or at the start.
    Cue {
        /// The frame.
        frame: Option<u64>,
    },
    /// Play.
    Play,
    /// Pause.
    Pause,
    /// Stop.
    Stop,
    /// Seek to a frame.
    Seek {
        /// The frame.
        frame: Option<u64>,
    },
}

/// What a verb says in JSON: an object tagged by `verb`.
pub open spec fn verb_json(v: MediaTransportVerb) -> JsonView {
    match v {
        MediaTransportVerb::Load { asset } => JsonView::Object(
            seq![("verb"@, JsonView::Text("load"@)), ("asset"@, JsonView::Text(asset@))],
        ),
        MediaTransportVerb::Cue { frame } => frame_json("cue"@, frame),
        MediaTransportVerb::Play => JsonView::Object(seq![("verb"@, JsonView::Text("play"@))]),
        MediaTransportVerb::Pause => JsonView::Object(seq![("verb"@, JsonView::Text("pause"@))]),
        MediaTransportVerb::Stop => JsonView::Object(seq![("verb"@, JsonView::Text("stop"@))]),
        MediaTransportVerb::Seek { frame } => frame_json("seek"@, frame),
    }
}

/// A verb with an optional frame.
pub open spec fn frame_json(verb: Seq<char>, frame: Option<u64>) -> JsonView {
    match frame {
        Some(n) => JsonView::Object(
            seq![("verb"@, JsonView::Text(verb)), ("frame"@, JsonView::Unsigned(n))],
        ),
        None => JsonView::Object(seq![("verb"@, JsonView::Text(verb))]),
    }
}

/// The optional frame of a verb: absent or null is none.
pub open spec fn json_frame(j: JsonView) -> Option<Option<u64>> {
    match j.field("frame"@) {
        None => Some(None),
        Some(JsonView::Null) => Some(None),
        Some(v) => match v.unsigned() {
            Some(n) => Some(Some(n)),
            None => None,
        },
    }
}

/// Whether `v` is what the JSON says.
pub open spec fn json_is_verb(j: JsonView, v: MediaTransportVerb) -> bool {
    match v {
        MediaTransportVerb::Load { asset } => j.text_field("verb"@) == Some("load"@) && j.text_field(
            "asset"@,
        ) == Some(asset@),
        MediaTransportVerb::Cue { frame } => j.text_field("verb"@) == Some("cue"@) && json_frame(j)
            == Some(frame),
        MediaTransportVerb::Play => j.text_field("verb"@) == Some("play"@),
        MediaTransportVerb::Pause => j.text_field("verb"@) == Some("pause"@),
        MediaTransportVerb::Stop => j.text_field("verb"@) == Some("stop"@),
        MediaTransportVerb::Seek { frame } => j.text_field("verb"@) == Some("seek"@) && json_frame(j)
            == Some(frame),
    }
}

fn frame_object(verb: &str, frame: Option<u64>) -> (r: Json)
    ensures
        r@ == frame_json(verb@, frame),
{
    let mut fields: Vec<(String, Json)> = Vec::new();
    put(&mut fields, "verb", Json::string(verb));
    if let Some(n) = frame {
        put(&mut fields, "frame", Json::Unsigned(n));
    }
    let r = Json::object(fields);
    assert(r@->Object_0 =~= frame_json(verb@, frame)->Object_0);
    r
}

fn bare_object(verb: &str) -> (r: Json)
    ensures
        r@ == JsonView::Object(seq![("verb"@, JsonView::Text(verb@))]),
{
    let mut fields: Vec<(String, Json)> = Vec::new();
    put(&mut fields, "verb", Json::string(verb));
    let r = Json::object(fields);
    assert(r@->Object_0 =~= seq![("verb"@, JsonView::Text(verb@))]);
    r
}

impl MediaTransportVerb {
    /// The verb in JSON.
    pub fn to_json(&self) -> (r: Json)
        ensures
            r@ == verb_json(*self),
    {
        match self {
            MediaTransportVerb::Load { asset } => {
                let mut fields: Vec<(String, Json)> = Vec::new();
                put(&mut fields, "verb", Json::string("load"));
                put(&mut fields, "asset", Json::string(asset.as_str()));
                let r = Json::object(fields);
                assert(r@->Object_0 =~= verb_json(*self)->Object_0);
                r
            },
            MediaTransportVerb::Cue { frame } => frame_object("cue", *frame),
            MediaTransportVerb::Play => bare_object("play"),
            MediaTransportVerb::Pause => bare_object("pause"),
            MediaTransportVerb::Stop => bare_object("stop"),
            MediaTransportVerb::Seek { frame } => frame_object("seek", *frame),
        }
    }

    /// The verb that the JSON says, if it says one.
    pub fn from_json(j: &Json) -> (r: Option<Self>)
        ensures
            match r {
                Some(v) => json_is_verb(j@, v),
                None => forall|v: MediaTransportVerb| !json_is_verb(j@, v),
            },
    {
        proof {
            reveal_strlit("load");
            reveal_strlit("cue");
            reveal_strlit("play");
            reveal_strlit("pause");
            reveal_strlit("stop");
            reveal_strlit("seek");
            assert("load"@ != "play"@) by {
                assert("load"@[0] != "play"@[0]);
            }
            assert("stop"@ != "seek"@) by {
                assert("stop"@[1] != "seek"@[1]);
            }
            assert("stop"@ != "load"@) by {
                assert("stop"@[0] != "load"@[0]);
            }
            assert("stop"@ != "play"@) by {
                assert("stop"@[0] != "play"@[0]);
            }
            assert("seek"@ != "load"@) by {
                assert("seek"@[0] != "load"@[0]);
            }
            assert("seek"@ != "play"@) by {
                assert("seek"@[0] != "play"@[0]);
            }
        }
        let verb = match j.text_field("verb") {
            Some(t) => t,
            None => {
                return None;
            },
        };
        if str_eq(verb, "load") {
            return match j.text_field("asset") {
                Some(a) => Some(MediaTransportVerb::Load { asset: a.to_owned() }),
                None => None,
            };
        }
        if str_eq(verb, "play") {
            return Some(MediaTransportVerb::Play);
        }
        if str_eq(verb, "pause") {
            return Some(MediaTransportVerb::Pause);
        }
        if str_eq(verb, "stop") {
            return Some(MediaTransportVerb::Stop);
        }
        let cue = str_eq(verb, "cue");
        let seek = str_eq(verb, "seek");
        if !cue && !seek {
            return None;
        }
        let frame: Option<u64> = match j.field("frame") {
            None => None,
            Some(v) => match v {
                Json::Null => None,
                other => match other.unsigned() {
                    Some(n) => Some(n),
                    None => {
                        return None;
                    },
                },
            },
        };
        if cue {
            Some(MediaTransportVerb::Cue { frame })
        } else {
            Some(MediaTransportVerb::Seek { frame })
        }
    }
}

/// A command to the engine.
#[allow(inconsistent_fields)]
#[derive(Debug, PartialEq, Eq)]
pub enum Command {
    /// Start program output.
    Start {
        /// The operation id.
        op: OperationId,
    },
    /// Stop program output.
    Stop {
        /// The operation id.
        op: OperationId,
    },
    /// Bind another source to a tile. It means the same as routing the best video
    /// stream of that source to it.
    SwapSource {
        /// The operation id.
        op: OperationId,
        /// The tile.
        tile: String,
        /// The new source.
        source: String,
    },
    /// Feed a layout cell.
    RouteVideo {
        /// The operation id.
        op: OperationId,
        /// The cell.
        cell: String,
        /// What feeds it.
        source: StreamRef,
    },
    /// Feed a program-bus channel or a discrete track.
    RouteAudio {
        /// The operation id.
        op: OperationId,
        /// The channel or track.
        target: String,
        /// What feeds it.
        source: StreamRef,
        /// The gain in dB, as the bits of an IEEE single.
        gain_db_bits: u32,
        /// Whether the source is silent.
        mute: bool,
    },
    /// Feed a subtitle layer.
    RouteSubtitle {
        /// The operation id.
        op: OperationId,
        /// The layer.
        layer: String,
        /// What feeds it.
        source: StreamRef,
    },
    /// Make a layout active at the next frame boundary.
    ApplyLayout {
        /// The operation id.
        op: OperationId,
        /// The layout id.
        layout: String,
        /// The layout itself, where it was resolved beforehand.
        document: Option<Box<ResolvedLayout>>,
    },
    /// Stage a salvo.
    ArmSalvo {
        /// The operation id.
        op: OperationId,
        /// The salvo id.
        salvo: String,
        /// The output head, if for one alone.
        head: Option<String>,
    },
    /// Take a salvo.
    TakeSalvo {
        /// The operation id.
        op: OperationId,
        /// The salvo id, or the armed one.
        salvo: Option<String>,
        /// The output head, if for one alone.
        head: Option<String>,
    },
    /// Cancel a staged salvo.
    CancelSalvo {
        /// The operation id.
        op: OperationId,
        /// The salvo id, or the armed one.
        salvo: Option<String>,
        /// The output head, if for one alone.
        head: Option<String>,
    },
    /// Create or replace a source on the running engine.
    UpsertSource {
        /// The operation id.
        op: OperationId,
        /// The source.
        source: Box<Source>,
    },
    /// Remove a source from the running engine.
    RemoveSource {
        /// The operation id.
        op: OperationId,
        /// The source id.
        id: String,
    },
    /// Create or replace an overlay on the running engine.
    UpsertOverlay {
        /// The operation id.
        op: OperationId,
        /// The overlay.
        overlay: Box<Overlay>,
    },
    /// Remove an overlay from the running engine.
    RemoveOverlay {
        /// The operation id.
        op: OperationId,
        /// The overlay id.
        id: String,
    },
    /// Put the overlays into another draw order.
    ReorderOverlays {
        /// The operation id.
        op: OperationId,
        /// Every overlay id, in draw order.
        order: Vec<String>,
    },
    /// Force or release a tally colour.
    SetTallyOverride {
        /// The operation id.
        op: OperationId,
        /// What it applies to.
        target: TallyTarget,
        /// The colour, or nothing to release it.
        color: Option<TallyColor>,
    },
    /// Operate a media player.
    MediaTransport {
        /// The operation id.
        op: OperationId,
        /// The player id.
        player: String,
        /// What to do.
        verb: MediaTransportVerb,
    },
    /// Stage the exit of a media player.
    ArmMediaExit {
        /// The operation id.
        op: OperationId,
        /// The player id.
        player: String,
    },
    /// Take the staged exit.
    TakeMediaExit {
        /// The operation id.
        op: OperationId,
        /// The player id.
        player: String,
    },
    /// Cancel the staged exit.
    CancelMediaExit {
        /// The operation id.
        op: OperationId,
        /// The player id.
        player: String,
    },
}

impl Command {
    /// The operation id of the command.
    pub open spec fn op(self) -> OperationId {
        match self {
            Command::Start { op, .. } => op,
            Command::Stop { op, .. } => op,
            Command::SwapSource { op, .. } => op,
            Command::RouteVideo { op, .. } => op,
            Command::RouteAudio { op, .. } => op,
            Command::RouteSubtitle { op, .. } => op,
            Command::ApplyLayout { op, .. } => op,
            Command::ArmSalvo { op, .. } => op,
            Command::TakeSalvo { op, .. } => op,
            Command::CancelSalvo { op, .. } => op,
            Command::UpsertSource { op, .. } => op,
            Command::RemoveSource { op, .. } => op,
            Command::UpsertOverlay { op, .. } => op,
            Command::RemoveOverlay { op, .. } => op,
            Command::ReorderOverlays { op, .. } => op,
            Command::SetTallyOverride { op, .. } => op,
            Command::MediaTransport { op, .. } => op,
            Command::ArmMediaExit { op, .. } => op,
            Command::TakeMediaExit { op, .. } => op,
            Command::CancelMediaExit { op, .. } => op,
        }
    }

    /// The label of the command's kind.
    pub open spec fn label(self) -> Seq<char> {
        match self {
            Command::Start { .. } => "start"@,
            Command::Stop { .. } => "stop"@,
            Command::SwapSource { .. } => "swap_source"@,
            Command::RouteVideo { .. } => "route_video"@,
            Command::RouteAudio { .. } => "route_audio"@,
            Command::RouteSubtitle { .. } => "route_subtitle"@,
            Command::ApplyLayout { .. } => "apply_layout"@,
            Command::ArmSalvo { .. } => "arm_salvo"@,
            Command::TakeSalvo { .. } => "take_salvo"@,
            Command::CancelSalvo { .. } => "cancel_salvo"@,
            Command::UpsertSource { .. } => "upsert_source"@,
            Command::RemoveSource { .. } => "remove_source"@,
            Command::UpsertOverlay { .. } => "upsert_overlay"@,
            Command::RemoveOverlay { .. } => "remove_overlay"@,
            Command::ReorderOverlays { .. } => "reorder_overlays"@,
            Command::SetTallyOverride { .. } => "set_tally_override"@,
            Command::MediaTransport { verb, .. } => verb_label(verb),
            Command::ArmMediaExit { .. } => "arm_media_exit"@,
            Command::TakeMediaExit { .. } => "take_media_exit"@,
            Command::CancelMediaExit { .. } => "cancel_media_exit"@,
        }
    }

    /// The operation id by which the outcome is reported.
    pub fn operation_id(&self) -> (r: &OperationId)
        ensures
            *r == self.op(),
    {
        match self {
            Command::Start { op, .. } => op,
            Command::Stop { op, .. } => op,
            Command::SwapSource { op, .. } => op,
            Command::RouteVideo { op, .. } => op,
            Command::RouteAudio { op, .. } => op,
            Command::RouteSubtitle { op, .. } => op,
            Command::ApplyLayout { op, .. } => op,
            Command::ArmSalvo { op, .. } => op,
            Command::TakeSalvo { op, .. } => op,
            Command::CancelSalvo { op, .. } => op,
            Command::UpsertSource { op, .. } => op,
            Command::RemoveSource { op, .. } => op,
            Command::UpsertOverlay { op, .. } => op,
            Command::RemoveOverlay { op, .. } => op,
            Command::ReorderOverlays { op, .. } => op,
            Command::SetTallyOverride { op, .. } => op,
            Command::MediaTransport { op, .. } => op,
            Command::ArmMediaExit { op, .. } => op,
            Command::TakeMediaExit { op, .. } => op,
            Command::CancelMediaExit { op, .. } => op,
        }
    }

    /// A stable label for the kind of command.
    pub fn kind(&self) -> (r: &'static str)
        ensures
            r@ == self.label(),
    {
        match self {
            Command::Start { .. } => "start",
            Command::Stop { .. } => "stop",
            Command::SwapSource { .. } => "swap_source",
            Command::RouteVideo { .. } => "route_video",
            Command::RouteAudio { .. } => "route_audio",
            Command::RouteSubtitle { .. } => "route_subtitle",
            Command::ApplyLayout { .. } => "apply_layout",
            Command::ArmSalvo { .. } => "arm_salvo",
            Command::TakeSalvo { .. } => "take_salvo",
            Command::CancelSalvo { .. } => "cancel_salvo",
            Command::UpsertSource { .. } => "upsert_source",
            Command::RemoveSource { .. } => "remove_source",
            Command::UpsertOverlay { .. } => "upsert_overlay",
            Command::RemoveOverlay { .. } => "remove_overlay",
            Command::ReorderOverlays { .. } => "reorder_overlays",
            Command::SetTallyOverride { .. } => "set_tally_override",
            Command::MediaTransport { verb, .. } => match verb {
                MediaTransportVerb::Load { .. } => "media_load",
                MediaTransportVerb::Cue { .. } => "media_cue",
                MediaTransportVerb::Play => "media_play",
                MediaTransportVerb::Pause => "media_pause",
                MediaTransportVerb::Stop => "media_stop",
                MediaTransportVerb::Seek { .. } => "media_seek",
            },
            Command::ArmMediaExit { .. } => "arm_media_exit",
            Command::TakeMediaExit { .. } => "take_media_exit",
            Command::CancelMediaExit { .. } => "cancel_media_exit",
        }
    }

    /// The crosspoint change that a routing command makes.
    pub fn route_intent(&self) -> (r: Option<RouteIntent>)
        ensures
            intent_is(r, *self),
    {
        match self {
            Command::SwapSource { tile, source, .. } => Some(
                RouteIntent::Video {
                    cell: tile.clone(),
                    source: StreamRef::best(source.as_str(), StreamKind::Video),
                },
            ),
            Command::RouteVideo { cell, source, .. } => Some(
                RouteIntent::Video { cell: cell.clone(), source: source.clone() },
            ),
            Command::RouteAudio { target, source, gain_db_bits, mute, .. } => Some(
                RouteIntent::Audio {
                    target: target.clone(),
                    source: source.clone(),
                    gain_db_bits: *gain_db_bits,
                    mute: *mute,
                },
            ),
            Command::RouteSubtitle { layer, source, .. } => Some(
                RouteIntent::Subtitle { layer: layer.clone(), source: source.clone() },
            ),
            _ => None,
        }
    }
}

/// The label of a transport command.
pub open spec fn verb_label(verb: MediaTransportVerb) -> Seq<char> {
    match verb {
        MediaTransportVerb::Load { .. } => "media_load"@,
        MediaTransportVerb::Cue { .. } => "media_cue"@,
        MediaTransportVerb::Play => "media_play"@,
        MediaTransportVerb::Pause => "media_pause"@,
        MediaTransportVerb::Stop => "media_stop"@,
        MediaTransportVerb::Seek { .. } => "media_seek"@,
    }
}

/// Whether `r` is the crosspoint change that the command makes: a routing
/// command makes one, and a swap makes that of the best video stream.
pub open spec fn intent_is(r: Option<RouteIntent>, command: Command) -> bool {
    match command {
        Command::SwapSource { tile, source, .. } => {
            &&& r matches Some(RouteIntent::Video { cell, source: stream })
            &&& cell@ == tile@
            &&& stream.source@ == source@
            &&& stream.kind == StreamKind::Video
            &&& stream.selector == crate::model::StreamSelector::Best
        },
        Command::RouteVideo { cell, source, .. } => r == Some(RouteIntent::Video { cell, source }),
        Command::RouteAudio { target, source, gain_db_bits, mute, .. } => r == Some(
            RouteIntent::Audio { target, source, gain_db_bits, mute },
        ),
        Command::RouteSubtitle { layer, source, .. } => r == Some(
            RouteIntent::Subtitle { layer, source },
        ),
        _ => r is None,
    }
}

/// Why a submission did not land.
#[derive(Debug, Clone, Copy, PartialEq, Eq, Structural)]
pub enum SubmitError {
    /// The queue is full; the command is shed.
    Full,
    /// The engine is gone.
    Closed,
}

impl SubmitError {
    /// How the error reads.
    pub open spec fn text(self) -> Seq<char> {
        match self {
            SubmitError::Full => "command bus is at capacity"@,
            SubmitError::Closed => "command bus receiver is closed"@,
        }
    }

    /// How the error reads.
    pub fn message(self) -> (r: &'static str)
        ensures
            r@ == self.text(),
    {
        match self {
            SubmitError::Full => "command bus is at capacity",
            SubmitError::Closed => "command bus receiver is closed",
        }
    }
}

/// The bounded queue between the control plane and the engine.
#[derive(Debug)]
pub struct CommandBus {
    queue: Vec<Command>,
    capacity: usize,
    open: bool,
}

/// A bus with room for `capacity` commands, and for one at least.
pub fn command_bus(capacity: usize) -> (r: CommandBus)
    ensures
        r.wf(),
        r@ == Seq::<Command>::empty(),
        r.depth() == (if capacity == 0 {
            1
        } else {
            capacity
        }),
        r.is_open(),
{
    CommandBus {
        queue: Vec::new(),
        capacity: if capacity == 0 {
            1
        } else {
            capacity
        },
        open: true,
    }
}

/// What a queue holds once a command was submitted to it: the command lands at
/// its end where the engine is there and there is room, and is shed otherwise.
pub open spec fn landed(queue: Seq<Command>, depth: nat, open: bool, command: Command) -> Seq<
    Command,
> {
    if open && queue.len() < depth {
        queue.push(command)
    } else {
        queue
    }
}

impl CommandBus {
    /// The commands that have landed, oldest first.
    pub closed spec fn view(self) -> Seq<Command> {
        self.queue@
    }

    /// How many commands fit.
    pub closed spec fn depth(self) -> usize {
        self.capacity
    }

    /// Whether the engine is there.
    pub closed spec fn is_open(self) -> bool {
        self.open
    }

    /// There is room for one at least, and no more has landed than fits.
    pub closed spec fn wf(self) -> bool {
        1 <= self.capacity && self.queue@.len() <= self.capacity
    }

    /// How many more commands would land.
    pub open spec fn room(self) -> nat {
        if self.is_open() {
            (self.depth() - self@.len()) as nat
        } else {
            0
        }
    }

    /// The queue never holds more than fits.
    pub proof fn lemma_bounded(self)
        requires
            self.wf(),
        ensures
            1 <= self.depth(),
            self@.len() <= self.depth(),
    {
    }

    /// Submit a command. It lands, or it is shed at once: this never waits.
    pub fn try_submit(&mut self, command: Command) -> (r: Result<OperationId, SubmitError>)
        requires
            old(self).wf(),
        ensures
            final(self).wf(),
            final(self).depth() == old(self).depth(),
            final(self).is_open() == old(self).is_open(),
            !old(self).is_open() ==> r == Err::<OperationId, SubmitError>(SubmitError::Closed),
            old(self).is_open() && old(self).room() == 0 ==> r == Err::<OperationId, SubmitError>(
                SubmitError::Full,
            ),
            old(self).room() > 0 ==> r == Ok::<OperationId, SubmitError>(command.op()),
            final(self)@ == landed(
                old(self)@,
                old(self).depth() as nat,
                old(self).is_open(),
                command,
            ),
    {
        if !self.open {
            return Err(SubmitError::Closed);
        }
        if self.queue.len() >= self.capacity {
            return Err(SubmitError::Full);
        }
        let op = command.operation_id().clone();
        self.queue.push(command);
        Ok(op)
    }

    /// How many commands fit.
    pub fn capacity(&self) -> (r: usize)
        ensures
            r == self.depth(),
    {
        self.capacity
    }

    /// Take everything that has landed, oldest first.
    pub fn try_drain(&mut self) -> (r: Vec<Command>)
        requires
            old(self).wf(),
        ensures
            final(self).wf(),
            r@ == old(self)@,
            final(self)@ == Seq::<Command>::empty(),
            final(self).depth() == old(self).depth(),
            final(self).is_open() == old(self).is_open(),
    {
        let mut out: Vec<Command> = Vec::new();
        std::mem::swap(&mut out, &mut self.queue);
        out
    }

    /// Take the oldest command.
    pub fn next(&mut self) -> (r: Option<Command>)
        requires
            old(self).wf(),
        ensures
            final(self).wf(),
            final(self).depth() == old(self).depth(),
            final(self).is_open() == old(self).is_open(),
            match r {
                Some(c) => old(self)@.len() > 0 && c == old(self)@[0] && final(self)@
                    == old(self)@.drop_first(),
                None => old(self)@.len() == 0 && final(self)@ == old(self)@,
            },
    {
        if self.queue.len() == 0 {
            return None;
        }
        let c = self.queue.remove(0);
        assert(self.queue@ =~= old(self)@.drop_first());
        Some(c)
    }

    /// The engine is gone: nothing lands from here on.
    pub fn close(&mut self)
        requires
            old(self).wf(),
        ensures
            final(self).wf(),
            final(self)@ == old(self)@,
            final(self).depth() == old(self).depth(),
            !final(self).is_open(),
    {
        self.open = false;
    }
}

// ---- Laws --------------------------------------------------------------------

/// A swap and the routing of the best video stream of the same source to the
/// same cell make the same crosspoint change.
pub proof fn law_swap_is_best_video_route(
    swap: Command,
    route: Command,
    a: Option<RouteIntent>,
    b: Option<RouteIntent>,
)
    requires
        swap is SwapSource,
        route is RouteVideo,
        route->RouteVideo_cell@ == swap->tile@,
        route->RouteVideo_source.source@ == swap->SwapSource_source@,
        route->RouteVideo_source.kind == StreamKind::Video,
        route->RouteVideo_source.selector == crate::model::StreamSelector::Best,
        intent_is(a, swap),
        intent_is(b, route),
    ensures
        a is Some && a->0 is Video && b is Some && b->0 is Video,
        a->0->cell@ == b->0->cell@,
        a->0->Video_source.source@ == b->0->Video_source.source@,
        a->0->Video_source.kind == b->0->Video_source.kind,
        a->0->Video_source.selector == b->0->Video_source.selector,
{
}

/// The tag of a verb.
pub open spec fn verb_word(v: MediaTransportVerb) -> Seq<char> {
    match v {
        MediaTransportVerb::Load { .. } => "load"@,
        MediaTransportVerb::Cue { .. } => "cue"@,
        MediaTransportVerb::Play => "play"@,
        MediaTransportVerb::Pause => "pause"@,
        MediaTransportVerb::Stop => "stop"@,
        MediaTransportVerb::Seek { .. } => "seek"@,
    }
}

/// What a verb says in JSON is that verb, and no verb that differs from it.
pub proof fn law_verb_json_round_trip(v: MediaTransportVerb, w: MediaTransportVerb)
    ensures
        json_is_verb(verb_json(v), v),
        json_is_verb(verb_json(v), w) ==> verb_json(w) == verb_json(v),
{
    reveal_strlit("verb");
    reveal_strlit("asset");
    reveal_strlit("frame");
    reveal_strlit("load");
    reveal_strlit("cue");
    reveal_strlit("play");
    reveal_strlit("pause");
    reveal_strlit("stop");
    reveal_strlit("seek");
    assert("load"@[0] == 'l' && "play"@[0] == 'p' && "stop"@[0] == 's' && "seek"@[0] == 's');
    assert("stop"@[1] == 't' && "seek"@[1] == 'e');
    assert("asset"@[0] == 'a' && "frame"@[0] == 'f');
    let fields = verb_json(v)->Object_0;
    reveal_with_fuel(crate::json::field_of, 3);
    if fields.len() == 2 {
        assert(fields.drop_first()[0] == fields[1]);
        assert(fields.drop_first().drop_first().len() == 0);
        assert(crate::json::field_of(fields.drop_first(), fields[1].0) == Some(fields[1].1));
    } else {
        assert(fields.drop_first().len() == 0);
    }
    assert(verb_json(v).field("verb"@) == Some(fields[0].1));
    if v is Load {
        assert(verb_json(v).field("asset"@) == Some(fields[1].1));
    }
    if v is Cue || v is Seek {
        if fields.len() == 2 {
            assert(verb_json(v).field("frame"@) == Some(fields[1].1));
        } else {
            assert(verb_json(v).field("frame"@) is None);
        }
    }
    if json_is_verb(verb_json(v), w) {
        let j = verb_json(v);
        assert(fields[0].1 == JsonView::Text(verb_word(v)));
        assert(j.text_field("verb"@) == Some(verb_word(v)));
        assert(verb_word(v) == verb_word(w));
        assert("load"@ != "play"@ && "load"@ != "stop"@ && "load"@ != "seek"@ && "play"@ != "stop"@
            && "play"@ != "seek"@ && "stop"@ != "seek"@);
        assert((v is Load) == (w is Load) && (v is Cue) == (w is Cue) && (v is Seek) == (w is Seek)
            && (v is Play) == (w is Play) && (v is Pause) == (w is Pause) && (v is Stop) == (w is Stop));
        if w is Load {
            assert(j.text_field("asset"@) == fields[1].1.text());
        }
        if w is Cue || w is Seek {
            assert(json_frame(j) == json_frame(verb_json(w))) by {
                let g = verb_json(w)->Object_0;
                if g.len() == 2 {
                    assert(g.drop_first()[0] == g[1]);
                    assert(verb_json(w).field("frame"@) == Some(g[1].1));
                } else {
                    assert(verb_json(w).field("frame"@) is None);
                }
            }
        }
        assert(verb_json(w)->Object_0 =~= fields);
    }
}

/// What a queue holds once commands were submitted to it, one after the other.
pub open spec fn flooded(queue: Seq<Command>, depth: nat, commands: Seq<Command>) -> Seq<Command>
    decreases commands.len(),
{
    if commands.len() == 0 {
        queue
    } else {
        landed(flooded(queue, depth, commands.drop_last()), depth, true, commands.last())
    }
}

/// A flood never grows the queue past its depth: the first commands land, in
/// the order in which they were submitted, and the rest are shed.
pub proof fn law_flood_is_shed(queue: Seq<Command>, depth: nat, commands: Seq<Command>)
    requires
        queue.len() <= depth,
    ensures
        flooded(queue, depth, commands) == queue + commands.take(
            if commands.len() <= depth - queue.len() {
                commands.len() as int
            } else {
                depth - queue.len()
            },
        ),
        flooded(queue, depth, commands).len() <= depth,
    decreases commands.len(),
{
    if commands.len() == 0 {
        assert(queue =~= queue + commands.take(0));
    } else {
        let init = commands.drop_last();
        law_flood_is_shed(queue, depth, init);
        let before = flooded(queue, depth, init);
        let room = depth - queue.len();
        if commands.len() <= room {
            assert(init.take(init.len() as int) =~= init);
            assert(commands.take(commands.len() as int) =~= init.push(commands.last()));
            assert(before.push(commands.last()) =~= queue + commands.take(commands.len() as int));
        } else {
            assert(init.take(room) =~= commands.take(room));
        }
    }
}

/// A layout is applied where its document parses and solves and its canvas is the one
/// that runs: the same width, the same height and the same rate, however the rate is
/// written. Each of the other inputs is refused for the first thing wrong with it.
pub proof fn law_layout_needs_the_running_canvas(
    document: Result<LayoutDocument, String>,
    solved: Result<SolvedLayout, String>,
    running: Option<LayoutCanvas>,
)
    ensures
        layout_refusal(document, solved, running) is None <==> {
            &&& document is Ok
            &&& solved is Ok
            &&& running is Some
            &&& running->0.width == document->Ok_0.canvas.width
            &&& running->0.height == document->Ok_0.canvas.height
            &&& running->0.fps.num * document->Ok_0.canvas.fps.den
                == document->Ok_0.canvas.fps.num * running->0.fps.den
        },
        document is Err <==> layout_refusal(document, solved, running) matches Some(
            LayoutRefusal::DoesNotParse(_),
        ),
        document is Ok && solved is Err <==> layout_refusal(document, solved, running) matches Some(
            LayoutRefusal::DoesNotSolve(_),
        ),
        document is Ok && solved is Ok && running is None <==> layout_refusal(
            document,
            solved,
            running,
        ) matches Some(LayoutRefusal::UnknownCanvas),
        layout_refusal(document, solved, running) matches Some(LayoutRefusal::OtherCanvas(a, b))
            ==> document is Ok && running is Some && a == document->Ok_0.canvas && b == running->0,
{
}

/// A verb is written under its own word, and reads back from it.
pub proof fn law_verbs_are_spelled_out(asset: String, frame: Option<u64>, j: crate::json::JsonView)
    ensures
        j.text_field("verb"@) == Some("play"@) ==> json_is_verb(j, MediaTransportVerb::Play),
        j.text_field("verb"@) == Some("pause"@) ==> json_is_verb(j, MediaTransportVerb::Pause),
        j.text_field("verb"@) == Some("stop"@) ==> json_is_verb(j, MediaTransportVerb::Stop),
        j.text_field("verb"@) == Some("cue"@) && json_frame(j) == Some(frame) ==> json_is_verb(
            j,
            (MediaTransportVerb::Cue { frame }),
        ),
        j.text_field("verb"@) == Some("seek"@) && json_frame(j) == Some(frame) ==> json_is_verb(
            j,
            (MediaTransportVerb::Seek { frame }),
        ),
        j.text_field("verb"@) == Some("load"@) && j.text_field("asset"@) == Some(asset@)
            ==> json_is_verb(j, (MediaTransportVerb::Load { asset })),
        j.field("frame"@) is None || j.field("frame"@) == Some(crate::json::JsonView::Null)
            ==> json_frame(j) == Some(None::<u64>),
        frame is Some && j.field("frame"@) == Some(crate::json::JsonView::Unsigned(frame->0))
            ==> json_frame(j) == Some(frame),
        verb_json(MediaTransportVerb::Play).text_field("verb"@) == Some("play"@),
        verb_json(MediaTransportVerb::Pause).text_field("verb"@) == Some("pause"@),
        verb_json(MediaTransportVerb::Stop).text_field("verb"@) == Some("stop"@),
        verb_json((MediaTransportVerb::Cue { frame })).text_field("verb"@) == Some("cue"@),
        verb_json((MediaTransportVerb::Seek { frame })).text_field("verb"@) == Some("seek"@),
        verb_json((MediaTransportVerb::Load { asset })).text_field("verb"@) == Some("load"@),
        verb_json((MediaTransportVerb::Load { asset })).text_field("asset"@) == Some(asset@),
{
    reveal_strlit("verb");
    reveal_strlit("asset");
    reveal_strlit("frame");
    assert("verb"@.len() == 4 && "asset"@.len() == 5 && "frame"@[0] == 'f' && "asset"@[0] == 'a');
    reveal_with_fuel(crate::json::field_of, 4);
}

/// What is logged of a command is the word for what it does.
pub proof fn law_commands_are_named(c: Command)
    ensures
        c is Start ==> c.label() == "start"@,
        c is Stop ==> c.label() == "stop"@,
        c is SwapSource ==> c.label() == "swap_source"@,
        c is RouteVideo ==> c.label() == "route_video"@,
        c is RouteAudio ==> c.label() == "route_audio"@,
        c is RouteSubtitle ==> c.label() == "route_subtitle"@,
        c is ApplyLayout ==> c.label() == "apply_layout"@,
        c is ArmSalvo ==> c.label() == "arm_salvo"@,
        c is TakeSalvo ==> c.label() == "take_salvo"@,
        c is CancelSalvo ==> c.label() == "cancel_salvo"@,
        c is UpsertSource ==> c.label() == "upsert_source"@,
        c is RemoveSource ==> c.label() == "remove_source"@,
        c is UpsertOverlay ==> c.label() == "upsert_overlay"@,
        c is RemoveOverlay ==> c.label() == "remove_overlay"@,
        c is ReorderOverlays ==> c.label() == "reorder_overlays"@,
        c is SetTallyOverride ==> c.label() == "set_tally_override"@,
        c is ArmMediaExit ==> c.label() == "arm_media_exit"@,
        c is TakeMediaExit ==> c.label() == "take_media_exit"@,
        c is CancelMediaExit ==> c.label() == "cancel_media_exit"@,
        c matches Command::MediaTransport { verb, .. } ==> c.label() == "media_"@ + verb_word(
            verb,
        ),
{
    if let Command::MediaTransport { verb, .. } = c {
        reveal_strlit("media_");
        match verb {
            MediaTransportVerb::Load { .. } => {
                reveal_strlit("load");
                reveal_strlit("media_load");
                assert("media_load"@ =~= "media_"@ + "load"@);
            },
            MediaTransportVerb::Cue { .. } => {
                reveal_strlit("cue");
                reveal_strlit("media_cue");
                assert("media_cue"@ =~= "media_"@ + "cue"@);
            },
            MediaTransportVerb::Play => {
                reveal_strlit("play");
                reveal_strlit("media_play");
                assert("media_play"@ =~= "media_"@ + "play"@);
            },
            MediaTransportVerb::Pause => {
                reveal_strlit("pause");
                reveal_strlit("media_pause");
                assert("media_pause"@ =~= "media_"@ + "pause"@);
            },
            MediaTransportVerb::Stop => {
                reveal_strlit("stop");
                reveal_strlit("media_stop");
                assert("media_stop"@ =~= "media_"@ + "stop"@);
            },
            MediaTransportVerb::Seek { .. } => {
                reveal_strlit("seek");
                reveal_strlit("media_seek");
                assert("media_seek"@ =~= "media_"@ + "seek"@);
            },
        }
    }
}

/// The commands that route say where they route what; no other command routes.
pub proof fn law_only_routes_are_routes(c: Command, r: Option<RouteIntent>)
    requires
        intent_is(r, c),
    ensures
        r is Some <==> c is SwapSource || c is RouteVideo || c is RouteAudio || c is RouteSubtitle,
        c matches Command::RouteVideo { cell, source, .. } ==> r == Some(
            (RouteIntent::Video { cell, source }),
        ),
        c matches Command::RouteAudio { target, source, gain_db_bits, mute, .. } ==> r == Some(
            (RouteIntent::Audio { target, source, gain_db_bits, mute }),
        ),
        c matches Command::RouteSubtitle { layer, source, .. } ==> r == Some(
            (RouteIntent::Subtitle { layer, source }),
        ),
{
}

/// A queue that has room and is open takes a command at its end and gives the oldest
/// back first; one that is full or closed stays as it is.
pub proof fn law_queue_is_first_in_first_out(
    queue: Seq<Command>,
    depth: nat,
    a: Command,
    b: Command,
)
    requires
        queue.len() + 2 <= depth,
    ensures
        landed(landed(queue, depth, true, a), depth, true, b) == queue + seq![a, b],
        landed(queue, queue.len(), true, a) == queue,
        landed(queue, depth, false, a) == queue,
{
    assert(queue.push(a).push(b) =~= queue + seq![a, b]);
}

/// A layout that is refused is named, with what is wrong with it: what the parser or
/// the solver said, or both canvases by size and rate.
pub proof fn law_refused_layout_is_described(
    id: Seq<char>,
    e: Seq<char>,
    new: LayoutCanvas,
    running: LayoutCanvas,
)
    ensures
        refusal_text(id, LayoutRefusal::DoesNotParse(e)) == "stored layout "@
            + crate::text::debug_of(id)
            + " does not parse as a {canvas, layout, cells} document: "@ + e,
        refusal_text(id, LayoutRefusal::DoesNotSolve(e)) == "stored layout "@
            + crate::text::debug_of(id) + " does not solve: "@ + e,
        ("layout "@ + crate::text::debug_of(id) + " cannot be applied live"@).is_prefix_of(
            refusal_text(id, LayoutRefusal::UnknownCanvas),
        ),
        ("layout "@ + crate::text::debug_of(id) + " was authored for canvas "@ + (
        crate::text::decimal(new.width as nat) + "x"@ + crate::text::decimal(new.height as nat)
            + "@"@ + crate::text::decimal(new.fps.num as nat) + "/"@ + crate::text::decimal(
            new.fps.den as nat,
        )) + " but the running session's canvas is pinned at "@ + (crate::text::decimal(
            running.width as nat,
        ) + "x"@ + crate::text::decimal(running.height as nat) + "@"@ + crate::text::decimal(
            running.fps.num as nat,
        ) + "/"@ + crate::text::decimal(running.fps.den as nat))).is_prefix_of(
            refusal_text(id, LayoutRefusal::OtherCanvas(new, running)),
        ),
{
    reveal_strlit(" cannot be applied live");
    reveal_strlit(
        " cannot be applied live: the running canvas is unknown to the control plane (no pinned-canvas snapshot was seeded), so the Class-1 gate fails closed (ADR-W019)",
    );
    let a = "layout "@ + crate::text::debug_of(id) + " cannot be applied live"@;
    assert(refusal_text(id, LayoutRefusal::UnknownCanvas).take(a.len() as int) =~= a);
    let b = "layout "@ + crate::text::debug_of(id) + " was authored for canvas "@ + canvas_label(new)
        + " but the running session's canvas is pinned at "@ + canvas_label(running);
    assert(refusal_text(id, LayoutRefusal::OtherCanvas(new, running)).take(b.len() as int) =~= b);
}

/// A command that cannot be taken says why.
pub proof fn law_unsent_command_says_why(e: SubmitError)
    ensures
        e == SubmitError::Full ==> e.text() == "command bus is at capacity"@,
        e == SubmitError::Closed ==> e.text() == "command bus receiver is closed"@,
{
}

} // verus!
