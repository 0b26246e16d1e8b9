//! The audio-routing document: one document at one address.
//!
//! The document always exists, configured or not, and always has a version, so
//! that the first change of it is already conditional.

use vstd::prelude::*;

use crate::concurrency::Version;

verus! {

/// The kind by which refusals and records name the document.
pub const AUDIO_ROUTING_KIND: &'static str = "audio-routing";

/// The id by which records name the document.
pub const AUDIO_ROUTING_ID: &'static str = "audio-routing";

/// An audio-routing document.
#[derive(Debug, PartialEq, Eq)]
pub struct AudioRouting {
    /// The sample rate of the program buses.
    pub sample_rate_hz: u32,
    /// The routes, as their JSON text.
    pub routes: String,
}

impl Clone for AudioRouting {
    fn clone(&self) -> (r: Self)
        ensures
            r == *self,
    {
        AudioRouting { sample_rate_hz: self.sample_rate_hz, routes: self.routes.clone() }
    }
}

/// What the store holds.
pub struct RoutingView {
    /// The document, once there is one.
    pub routing: Option<AudioRouting>,
    /// The version.
    pub version: nat,
}

/// Whether a replacement based on `expected` is made.
pub open spec fn current(slot: RoutingView, expected: nat) -> bool {
    slot.version == expected
}

/// The store after a replacement based on `expected` was asked for.
pub open spec fn replaced(slot: RoutingView, expected: nat, routing: AudioRouting) -> RoutingView {
    if current(slot, expected) {
        RoutingView {
            routing: Some(routing),
            version: crate::concurrency::next_version(slot.version),
        }
    } else {
        slot
    }
}

/// The document with its version.
#[derive(Debug)]
pub struct AudioRoutingStore {
    routing: Option<AudioRouting>,
    version: Version,
}

impl AudioRoutingStore {
    /// What the store holds.
    pub closed spec fn view(self) -> RoutingView {
        RoutingView { routing: self.routing, version: self.version@ }
    }

    /// A store without a document.
    pub fn new() -> (r: Self)
        ensures
            r@ == (RoutingView { routing: None, version: 1 }),
    {
        AudioRoutingStore::seeded(None)
    }

    /// A store with the document of the loaded configuration.
    pub fn seeded(routing: Option<AudioRouting>) -> (r: Self)
        ensures
            r@ == (RoutingView { routing, version: 1 }),
    {
        AudioRoutingStore { routing, version: Version::initial() }
    }

    /// The document and its version.
    pub fn snapshot(&self) -> (r: (Option<AudioRouting>, Version))
        ensures
            r.0 == self@.routing,
            r.1@ == self@.version,
    {
        let routing = match &self.routing {
            Some(d) => Some(d.clone()),
            None => None,
        };
        (routing, self.version)
    }

    /// The version.
    pub fn version(&self) -> (r: Version)
        ensures
            r@ == self@.version,
    {
        self.version
    }

    /// Replaces the document, where `expected` is its version. The new version,
    /// or the one that is current.
    pub fn replace_if(&mut self, expected: Version, routing: AudioRouting) -> (r: Result<
        Version,
        Version,
    >)
        ensures
            final(self)@ == replaced(old(self)@, expected@, routing),
            match r {
                Ok(v) => current(old(self)@, expected@) && v@ == final(self)@.version,
                Err(v) => !current(old(self)@, expected@) && v@ == old(self)@.version,
            },
    {
        proof {
            self.version.lemma_same(expected);
        }
        if self.version != expected {
            return Err(self.version);
        }
        self.routing = Some(routing);
        self.version = self.version.next();
        Ok(self.version)
    }
}

impl Default for AudioRoutingStore {
    fn default() -> (r: Self)
        ensures
            r@ == (RoutingView { routing: None, version: 1 }),
    {
        AudioRoutingStore::new()
    }
}

// ---- Following the configuration file ----------------------------------------------

/// How often a replacement is tried while others change the document.
pub const RESYNC_TRIES: u8 = 4;

/// What to do after a try.
#[derive(Debug, Clone, Copy, PartialEq, Eq)]
pub enum ResyncStep {
    /// The document follows the file: record it.
    Done,
    /// Try again, based on this version.
    Retry(Version),
    /// Others kept changing it: leave it.
    GiveUp,
}

/// What to do after the try number `tries` had this outcome.
pub fn after_try(outcome: Result<Version, Version>, tries: u8) -> (r: ResyncStep)
    ensures
        match outcome {
            Ok(_) => r == ResyncStep::Done,
            Err(v) => if tries < 4 {
                r == ResyncStep::Retry(v)
            } else {
                r == ResyncStep::GiveUp
            },
        },
{
    match outcome {
        Ok(_) => ResyncStep::Done,
        Err(v) => if tries < RESYNC_TRIES {
            ResyncStep::Retry(v)
        } else {
            ResyncStep::GiveUp
        },
    }
}

// ---- Laws ------------------------------------------------------------------------

/// Of two replacements that are based on the same version, one wins at most.
pub proof fn law_racing_replacements_cannot_both_win(
    slot: RoutingView,
    expected: nat,
    first: AudioRouting,
    second: AudioRouting,
)
    requires
        slot.version < u64::MAX,
        current(slot, expected),
    ensures
        !current(replaced(slot, expected, first), expected),
        replaced(replaced(slot, expected, first), expected, second) == replaced(
            slot,
            expected,
            first,
        ),
{
}

/// A try that is based on the version that the last one was told succeeds,
/// where nobody changed the document in between.
pub proof fn law_told_version_wins(slot: RoutingView, expected: nat, routing: AudioRouting)
    requires
        !current(slot, expected),
    ensures
        replaced(slot, expected, routing) == slot,
        current(slot, slot.version),
        replaced(slot, slot.version, routing).routing == Some(routing),
{
}

/// A replacement that names the version it saw is taken and moves the version on by
/// one; any other leaves the slot as it is.
pub proof fn law_replacement_needs_the_version(
    slot: RoutingView,
    expected: nat,
    routing: AudioRouting,
)
    ensures
        slot.version == expected ==> replaced(slot, expected, routing).routing == Some(routing),
        slot.version == expected && expected < u64::MAX ==> replaced(
            slot,
            expected,
            routing,
        ).version == expected + 1,
        slot.version != expected ==> replaced(slot, expected, routing) == slot,
{
}

} // verus!
