//! The configuration documents that the control plane reads and carries.
//!
//! A document holds as plain values what the logic reads of it. The rest of it
//! rides along as its JSON text.

use vstd::prelude::*;


verus! {

/// The kind of an elementary stream.
#[derive(Debug, Clone, Copy, PartialEq, Eq, Structural)]
pub enum StreamKind {
    /// Video.
    Video,
    /// Audio.
    Audio,
    /// Subtitles.
    Subtitle,
}

/// How one stream is picked among those of a kind.
#[derive(Debug, PartialEq, Eq)]
pub enum StreamSelector {
    /// The best one.
    Best,
    /// The one in this language.
    Language(String),
}

impl StreamSelector {
    /// The stream in `language`.
    pub fn language(language: String) -> (r: Self)
        ensures
            r == StreamSelector::Language(language),
    {
        StreamSelector::Language(language)
    }
}

impl Clone for StreamSelector {
    fn clone(&self) -> (r: Self)
        ensures
            r == *self,
    {
        match self {
            StreamSelector::Best => StreamSelector::Best,
            StreamSelector::Language(l) => StreamSelector::Language(l.clone()),
        }
    }
}

/// One elementary stream of a source.
#[derive(Debug, PartialEq, Eq)]
pub struct StreamRef {
    /// The source id.
    pub source: String,
    /// The kind of stream.
    pub kind: StreamKind,
    /// Which of that kind.
    pub selector: StreamSelector,
}

impl StreamRef {
    /// The best stream of `kind` that `source` has.
    pub fn best(source: &str, kind: StreamKind) -> (r: Self)
        ensures
            r.source@ == source@,
            r.kind == kind,
            r.selector == StreamSelector::Best,
    {
        StreamRef { source: source.to_owned(), kind, selector: StreamSelector::Best }
    }
}

impl Clone for StreamRef {
    fn clone(&self) -> (r: Self)
        ensures
            r == *self,
    {
        StreamRef { source: self.source.clone(), kind: self.kind, selector: self.selector.clone() }
    }
}

/// A crosspoint change in the engine's own terms.
#[derive(Debug, PartialEq, Eq)]
pub enum RouteIntent {
    /// Feed a layout cell.
    Video {
        /// The cell.
        cell: String,
        /// What feeds it.
        source: StreamRef,
    },
    /// Feed a program-bus channel or a discrete track.
    Audio {
        /// The channel or track.
        target: String,
        /// What feeds it.
        source: StreamRef,
        /// The gain in dB, as the bits of an IEEE single.
        gain_db_bits: u32,
        /// Whether the source is silent.
        mute: bool,
    },
    /// Feed a subtitle layer.
    Subtitle {
        /// The layer.
        layer: String,
        /// What feeds it.
        source: StreamRef,
    },
}

/// A frame rate.
#[derive(Debug, Clone, Copy, PartialEq, Eq, Structural)]
pub struct Fps {
    /// Frames.
    pub num: u32,
    /// Seconds.
    pub den: u32,
}

impl Fps {
    /// Whether two rates are the same rate, reduced or not.
    pub open spec fn same_rate(self, other: Fps) -> bool {
        self.num as int * other.den as int == other.num as int * self.den as int
    }

    /// Whether two rates are the same rate, reduced or not.
    pub fn equals(self, other: Fps) -> (r: bool)
        ensures
            r == self.same_rate(other),
    {
        let (a, b, c, d): (u64, u64, u64, u64) = (
            self.num as u64,
            other.den as u64,
            other.num as u64,
            self.den as u64,
        );
        assert(a * b <= u64::MAX && c * d <= u64::MAX) by (nonlinear_arith)
            requires
                a <= u32::MAX,
                b <= u32::MAX,
                c <= u32::MAX,
                d <= u32::MAX,
        ;
        a * b == c * d
    }
}

/// The geometry and cadence of a canvas.
#[derive(Debug, Clone, Copy, PartialEq, Eq, Structural)]
pub struct LayoutCanvas {
    /// Width in pixels.
    pub width: u32,
    /// Height in pixels.
    pub height: u32,
    /// The cadence.
    pub fps: Fps,
}

impl LayoutCanvas {
    /// Whether two canvases carry the same signal.
    pub open spec fn same_signal(self, other: LayoutCanvas) -> bool {
        self.width == other.width && self.height == other.height && self.fps.same_rate(other.fps)
    }

    /// Whether two canvases carry the same signal.
    pub fn equals(&self, other: &LayoutCanvas) -> (r: bool)
        ensures
            r == self.same_signal(*other),
    {
        self.width == other.width && self.height == other.height && self.fps.equals(other.fps)
    }
}

/// A stored layout: its canvas, and the document itself.
#[derive(Debug, PartialEq, Eq)]
pub struct LayoutDocument {
    /// The canvas it was made for.
    pub canvas: LayoutCanvas,
    /// The `{canvas, layout, cells}` document.
    pub body: String,
}

impl Clone for LayoutDocument {
    fn clone(&self) -> (r: Self)
        ensures
            r == *self,
    {
        LayoutDocument { canvas: self.canvas, body: self.body.clone() }
    }
}

/// A layout solved for its canvas, ready to be swapped in.
#[derive(Debug, PartialEq, Eq)]
pub struct SolvedLayout {
    /// The stored id it is named after.
    pub name: String,
    /// The solved cells.
    pub body: String,
}

impl Clone for SolvedLayout {
    fn clone(&self) -> (r: Self)
        ensures
            r == *self,
    {
        SolvedLayout { name: self.name.clone(), body: self.body.clone() }
    }
}

/// A managed source.
#[derive(Debug, PartialEq, Eq)]
pub struct Source {
    /// Its id.
    pub id: String,
    /// The name that operators see.
    pub display_name: Option<String>,
    /// Whether the appliance generates it itself.
    pub synthetic: bool,
    /// The document, where it could be written down.
    pub body: Option<String>,
}

impl Clone for Source {
    fn clone(&self) -> (r: Self)
        ensures
            r == *self,
    {
        Source {
            id: self.id.clone(),
            display_name: clone_opt(&self.display_name),
            synthetic: self.synthetic,
            body: clone_opt(&self.body),
        }
    }
}

/// A managed overlay.
#[derive(Debug, PartialEq, Eq)]
pub struct Overlay {
    /// Its id.
    pub id: String,
    /// The document, where it could be written down.
    pub body: Option<String>,
}

impl Clone for Overlay {
    fn clone(&self) -> (r: Self)
        ensures
            r == *self,
    {
        Overlay { id: self.id.clone(), body: clone_opt(&self.body) }
    }
}

/// A copy of an optional text.
pub fn clone_opt(t: &Option<String>) -> (r: Option<String>)
    ensures
        r == *t,
{
    match t {
        Some(s) => Some(s.clone()),
        None => None,
    }
}

/// What a tally override applies to.
#[derive(Debug, PartialEq, Eq)]
pub enum TallyTarget {
    /// A tile, by its index.
    Tile {
        /// The index.
        index: u32,
    },
    /// An element, by its id.
    Element {
        /// The id.
        id: String,
    },
}

/// The colour of a tally lamp.
#[derive(Debug, Clone, Copy, PartialEq, Eq, Structural)]
pub enum TallyColor {
    /// On air.
    Red,
    /// In preview.
    Green,
    /// Attention.
    Amber,
}

/// An output of the configuration.
#[derive(Debug, PartialEq, Eq)]
pub struct Output {
    /// The kind that its document names.
    pub kind: Option<String>,
    /// The document, where it could be written down.
    pub body: Option<String>,
}

/// A probe, a device, a sync group, a salvo or a tally profile of the
/// configuration.
#[derive(Debug, PartialEq, Eq)]
pub struct Document {
    /// Its id.
    pub id: String,
    /// The name that operators see.
    pub display_name: Option<String>,
    /// The document, where it could be written down.
    pub body: Option<String>,
}

/// A whole configuration.
#[derive(Debug, PartialEq, Eq)]
pub struct Config {
    /// The sources.
    pub sources: Vec<Source>,
    /// The outputs.
    pub outputs: Vec<Output>,
    /// The overlays, in draw order.
    pub overlays: Vec<Overlay>,
    /// The probes.
    pub probes: Vec<Document>,
    /// The devices.
    pub devices: Vec<Document>,
    /// The sync groups.
    pub sync_groups: Vec<Document>,
    /// The audio routing document.
    pub audio: Option<String>,
    /// The salvos.
    pub salvos: Vec<Document>,
    /// The tally profiles.
    pub tally_profiles: Vec<Document>,
    /// The `{canvas, layout, cells}` document, where it could be written down.
    pub layout_body: Option<String>,
    /// What parsing that document gave.
    pub layout_document: Result<LayoutDocument, String>,
    /// What solving it gave.
    pub layout_solved: Result<SolvedLayout, String>,
}

/// A change of one source.
#[derive(Debug, PartialEq, Eq)]
pub enum SourceChange {
    /// A new source.
    Added(Box<Source>),
    /// Another document under the same id.
    Changed {
        /// The document before.
        previous: Box<Source>,
        /// The document now.
        next: Box<Source>,
    },
    /// The source is gone.
    Removed(String),
}

/// A change of one overlay.
#[derive(Debug, PartialEq, Eq)]
pub enum OverlayChange {
    /// A new overlay.
    Added(Box<Overlay>),
    /// Another document under the same id.
    Changed(Box<Overlay>),
    /// The overlay is gone.
    Removed(String),
}

/// How one configuration differs from another.
#[derive(Debug, PartialEq, Eq)]
pub struct ConfigDiff {
    /// The changed sources.
    pub sources: Vec<SourceChange>,
    /// The changed overlays.
    pub overlays: Vec<OverlayChange>,
    /// Whether the overlays are the same in another draw order.
    pub overlays_reordered: bool,
    /// Whether the geometry or cadence of the canvas changed.
    pub canvas_signal_changed: bool,
    /// Whether anything else of the canvas changed.
    pub canvas_cosmetic_changed: bool,
    /// Whether the layout or its cells changed.
    pub layout_changed: bool,
    /// The names of the other sections that changed, in order.
    pub changed_sections: Vec<String>,
}

impl ConfigDiff {
    /// Whether nothing differs.
    pub open spec fn nothing(self) -> bool {
        &&& self.sources@.len() == 0
        &&& self.overlays@.len() == 0
        &&& !self.overlays_reordered
        &&& !self.canvas_signal_changed
        &&& !self.canvas_cosmetic_changed
        &&& !self.layout_changed
        &&& self.changed_sections@.len() == 0
    }

    /// Whether nothing differs.
    pub fn is_empty(&self) -> (r: bool)
        ensures
            r == self.nothing(),
    {
        self.sources.len() == 0 && self.overlays.len() == 0 && !self.overlays_reordered
            && !self.canvas_signal_changed && !self.canvas_cosmetic_changed && !self.layout_changed
            && self.changed_sections.len() == 0
    }
}

} // verus!
