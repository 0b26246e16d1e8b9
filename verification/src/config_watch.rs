//! Watching the configuration file.
//!
//! The watcher polls the file and acts on it only when it has looked the same
//! at two polls in a row. A document that does not validate changes nothing. A
//! valid one is applied; where the engine's queue sheds part of it, nothing is
//! taken as applied and the whole change is tried again at a later poll.
//!
//! The server writes the file too. It announces each of its writes, and the
//! watcher adopts an announced content without applying it.
//!
//! Polling, reading and parsing are the caller's: [`Watcher`] is told what they
//! gave and answers what to do.

use std::collections::hash_map::DefaultHasher;
use std::hash::Hasher;

use vstd::prelude::*;
use vstd::std_specs::hash::DefaultHasherAdditionalSpecFns;

use crate::command::CommandBus;
use crate::config_apply::{apply_document_diff, Applied, Session};
use crate::model::{Config, ConfigDiff};
use crate::sections::Sections;
use crate::text::{cat3, decimal_text, str_eq};
use crate::time::{millis_of, Duration};

verus! {

/// How many announced writes are remembered.
pub const MAX_EXPECTED_TOKENS: usize = 8;

/// How many polls in a row may miss the file before that is reported.
pub const MISSING_POLLS_BEFORE_REPORT: u32 = 5;

// ---- Announced writes ------------------------------------------------------------

/// An announced write.
#[derive(Debug, Clone, Copy, PartialEq, Eq, Structural)]
pub struct ExpectedToken {
    /// The hash of the announced content.
    pub hash: u64,
    /// Whether the write has landed on disk.
    pub landed: bool,
}

/// The hash by which contents are told apart: that of `std`'s default hasher
/// over the text.
pub open spec fn hash_of(text: Seq<char>) -> u64 {
    DefaultHasher::spec_finish(seq![vstd::utf8::encode_utf8(text), seq![0xffu8]])
}

/// The hash of a content.
pub fn content_hash(text: &str) -> (r: u64)
    ensures
        r == hash_of(text@),
{
    let mut hasher = DefaultHasher::new();
    hasher.write(text.as_bytes());
    let end: [u8; 1] = [0xffu8];
    hasher.write(end.as_slice());
    assert(end@ =~= seq![0xffu8]);
    assert(hasher@ =~= seq![vstd::utf8::encode_utf8(text@), seq![0xffu8]]);
    hasher.finish()
}

/// The first announcement of the content with this hash.
pub open spec fn first_token(tokens: Seq<ExpectedToken>, hash: u64) -> Option<int>
    decreases tokens.len(),
{
    if tokens.len() == 0 {
        None
    } else if tokens[0].hash == hash {
        Some(0)
    } else {
        match first_token(tokens.drop_first(), hash) {
            Some(i) => Some(i + 1),
            None => None,
        }
    }
}

/// The last announcement of the content with this hash.
pub open spec fn last_token(tokens: Seq<ExpectedToken>, hash: u64) -> Option<int>
    decreases tokens.len(),
{
    if tokens.len() == 0 {
        None
    } else if tokens.last().hash == hash {
        Some(tokens.len() - 1)
    } else {
        last_token(tokens.drop_last(), hash)
    }
}

proof fn lemma_first_token(tokens: Seq<ExpectedToken>, hash: u64)
    ensures
        match first_token(tokens, hash) {
            Some(i) => 0 <= i < tokens.len() && tokens[i].hash == hash && forall|j: int|
                0 <= j < i ==> (#[trigger] tokens[j]).hash != hash,
            None => forall|j: int| 0 <= j < tokens.len() ==> (#[trigger] tokens[j]).hash != hash,
        },
    decreases tokens.len(),
{
    if tokens.len() > 0 && tokens[0].hash != hash {
        lemma_first_token(tokens.drop_first(), hash);
        assert forall|j: int| 0 < j < tokens.len() implies tokens[j] == tokens.drop_first()[j - 1] by {}
    }
}

proof fn lemma_last_token(tokens: Seq<ExpectedToken>, hash: u64)
    ensures
        match last_token(tokens, hash) {
            Some(i) => 0 <= i < tokens.len() && tokens[i].hash == hash && forall|j: int|
                i < j < tokens.len() ==> (#[trigger] tokens[j]).hash != hash,
            None => forall|j: int| 0 <= j < tokens.len() ==> (#[trigger] tokens[j]).hash != hash,
        },
    decreases tokens.len(),
{
    if tokens.len() > 0 && tokens.last().hash != hash {
        lemma_last_token(tokens.drop_last(), hash);
        assert forall|j: int| 0 <= j < tokens.len() - 1 implies tokens[j] == tokens.drop_last()[j] by {}
    }
}

/// The announcements after one more: the oldest makes room when all are taken.
pub open spec fn announced(tokens: Seq<ExpectedToken>, hash: u64) -> Seq<ExpectedToken> {
    let kept = if tokens.len() >= MAX_EXPECTED_TOKENS {
        tokens.drop_first()
    } else {
        tokens
    };
    kept.push(ExpectedToken { hash, landed: false })
}

/// The announcements after the first one of this content was taken back.
pub open spec fn released(tokens: Seq<ExpectedToken>, hash: u64) -> Seq<ExpectedToken> {
    match first_token(tokens, hash) {
        Some(i) => tokens.remove(i),
        None => tokens,
    }
}

/// The announcements after the latest one of this content landed.
pub open spec fn confirmed(tokens: Seq<ExpectedToken>, hash: u64) -> Seq<ExpectedToken> {
    match last_token(tokens, hash) {
        Some(i) => tokens.update(i, ExpectedToken { hash: tokens[i].hash, landed: true }),
        None => tokens,
    }
}

/// The announcements after the content was seen: its first announcement is
/// spent, and so is every older one.
pub open spec fn spent(tokens: Seq<ExpectedToken>, hash: u64) -> Seq<ExpectedToken> {
    match first_token(tokens, hash) {
        Some(i) => tokens.skip(i + 1),
        None => tokens,
    }
}

/// The announcements whose writes are still in flight.
pub open spec fn in_flight(tokens: Seq<ExpectedToken>) -> Seq<ExpectedToken>
    decreases tokens.len(),
{
    if tokens.len() == 0 {
        Seq::empty()
    } else if tokens.last().landed {
        in_flight(tokens.drop_last())
    } else {
        in_flight(tokens.drop_last()).push(tokens.last())
    }
}

proof fn lemma_in_flight_len(tokens: Seq<ExpectedToken>)
    ensures
        in_flight(tokens).len() <= tokens.len(),
    decreases tokens.len(),
{
    if tokens.len() > 0 {
        lemma_in_flight_len(tokens.drop_last());
    }
}

/// The watcher's side of the server's own writes, and its stop switch.
#[derive(Debug)]
pub struct ConfigWatchHandle {
    expected: Vec<ExpectedToken>,
    stop: bool,
}

impl ConfigWatchHandle {
    /// The announced writes, oldest first.
    pub closed spec fn tokens(self) -> Seq<ExpectedToken> {
        self.expected@
    }

    /// Whether the watcher was told to stop.
    pub closed spec fn stopping(self) -> bool {
        self.stop
    }

    /// No more writes are remembered than [`MAX_EXPECTED_TOKENS`].
    pub closed spec fn wf(self) -> bool {
        self.expected@.len() <= MAX_EXPECTED_TOKENS
    }

    /// The memory of announced writes is bounded.
    pub proof fn lemma_bounded(self)
        requires
            self.wf(),
        ensures
            self.tokens().len() <= MAX_EXPECTED_TOKENS,
    {
    }

    /// A handle with nothing announced.
    pub fn new() -> (r: Self)
        ensures
            r.wf(),
            r.tokens() == Seq::<ExpectedToken>::empty(),
            !r.stopping(),
    {
        ConfigWatchHandle { expected: Vec::new(), stop: false }
    }

    /// Announce a write of `content`.
    pub fn expect_write(&mut self, content: &str)
        requires
            old(self).wf(),
        ensures
            final(self).wf(),
            final(self).tokens() == announced(old(self).tokens(), hash_of(content@)),
            final(self).stopping() == old(self).stopping(),
    {
        if self.expected.len() >= MAX_EXPECTED_TOKENS {
            self.expected.remove(0);
            assert(self.expected@ =~= old(self).tokens().drop_first());
        }
        let hash = content_hash(content);
        self.expected.push(ExpectedToken { hash, landed: false });
    }

    /// The announced write of `content` has landed.
    pub fn mark_write_landed(&mut self, content: &str)
        requires
            old(self).wf(),
        ensures
            final(self).wf(),
            final(self).tokens() == confirmed(old(self).tokens(), hash_of(content@)),
            final(self).stopping() == old(self).stopping(),
    {
        let hash = content_hash(content);
        let mut i: usize = self.expected.len();
        proof {
            lemma_last_token(self.expected@, hash);
        }
        while i > 0
            invariant
                *self == *old(self),
                i <= self.expected.len(),
                hash == hash_of(content@),
                self.wf(),
                forall|j: int| i <= j < self.expected@.len() ==> (#[trigger] self.expected@[j]).hash != hash,
                match last_token(self.expected@, hash) {
                    Some(k) => 0 <= k < self.expected@.len() && self.expected@[k].hash == hash && forall|
                        j: int,
                    |
                        k < j < self.expected@.len() ==> (#[trigger] self.expected@[j]).hash != hash,
                    None => forall|j: int|
                        0 <= j < self.expected@.len() ==> (#[trigger] self.expected@[j]).hash != hash,
                },
            decreases i,
        {
            i -= 1;
            if self.expected[i].hash == hash {
                self.expected[i] = ExpectedToken { hash, landed: true };
                return;
            }
        }
    }

    /// Take back the announcement of `content`: the write did not happen.
    /// Answers whether there was one.
    pub fn release_write(&mut self, content: &str) -> (r: bool)
        requires
            old(self).wf(),
        ensures
            final(self).wf(),
            r == (first_token(old(self).tokens(), hash_of(content@)) is Some),
            final(self).tokens() == released(old(self).tokens(), hash_of(content@)),
            final(self).stopping() == old(self).stopping(),
    {
        match self.find(content_hash(content)) {
            Some(i) => {
                self.expected.remove(i);
                true
            },
            None => false,
        }
    }

    /// The first announcement with this hash.
    fn find(&self, hash: u64) -> (r: Option<usize>)
        ensures
            match r {
                Some(i) => first_token(self.tokens(), hash) == Some(i as int) && i < self.expected@.len(),
                None => first_token(self.tokens(), hash) is None,
            },
    {
        let mut i: usize = 0;
        proof {
            lemma_first_token(self.expected@, hash);
        }
        while i < self.expected.len()
            invariant
                i <= self.expected.len(),
                forall|j: int| 0 <= j < i ==> (#[trigger] self.expected@[j]).hash != hash,
                match first_token(self.expected@, hash) {
                    Some(k) => 0 <= k < self.expected@.len() && self.expected@[k].hash == hash && forall|
                        j: int,
                    |
                        0 <= j < k ==> (#[trigger] self.expected@[j]).hash != hash,
                    None => forall|j: int|
                        0 <= j < self.expected@.len() ==> (#[trigger] self.expected@[j]).hash != hash,
                },
            decreases self.expected.len() - i,
        {
            if self.expected[i].hash == hash {
                return Some(i);
            }
            i += 1;
        }
        None
    }

    /// Tell the watcher to stop.
    pub fn stop(&mut self)
        ensures
            final(self).tokens() == old(self).tokens(),
            final(self).stopping(),
            old(self).wf() ==> final(self).wf(),
    {
        self.stop = true;
    }

    /// Whether the watcher was told to stop.
    pub fn is_stopping(&self) -> (r: bool)
        ensures
            r == self.stopping(),
    {
        self.stop
    }

    /// Spend the announcement of `text`, and every older one. Answers whether
    /// the text was announced.
    pub fn consume_expected_for(&mut self, text: &str) -> (r: bool)
        requires
            old(self).wf(),
        ensures
            final(self).wf(),
            r == (first_token(old(self).tokens(), hash_of(text@)) is Some),
            final(self).tokens() == spent(old(self).tokens(), hash_of(text@)),
            final(self).stopping() == old(self).stopping(),
    {
        match self.find(content_hash(text)) {
            Some(i) => {
                let rest = self.expected.split_off(i + 1);
                self.expected = rest;
                assert(self.expected@ =~= old(self).tokens().skip(i + 1));
                true
            },
            None => false,
        }
    }

    /// Forget the announcements whose writes have landed.
    pub fn drain_landed(&mut self)
        requires
            old(self).wf(),
        ensures
            final(self).wf(),
            final(self).tokens() == in_flight(old(self).tokens()),
            final(self).stopping() == old(self).stopping(),
    {
        let mut kept: Vec<ExpectedToken> = Vec::new();
        let mut i: usize = 0;
        let ghost all = self.expected@;
        assert(all.take(0) =~= Seq::<ExpectedToken>::empty());
        while i < self.expected.len()
            invariant
                i <= self.expected.len(),
                self.expected@ == all,
                kept@ == in_flight(all.take(i as int)),
            decreases self.expected.len() - i,
        {
            let t = self.expected[i];
            assert(all.take(i + 1).drop_last() =~= all.take(i as int));
            if !t.landed {
                kept.push(t);
            }
            i += 1;
        }
        assert(all.take(i as int) =~= all);
        proof {
            lemma_in_flight_len(all);
        }
        self.expected = kept;
    }
}

impl Default for ConfigWatchHandle {
    fn default() -> (r: Self)
        ensures
            r.wf(),
            r.tokens() == Seq::<ExpectedToken>::empty(),
            !r.stopping(),
    {
        ConfigWatchHandle::new()
    }
}

/// Announce one of the server's own writes before it is made.
pub fn expect_server_write(handle: &mut ConfigWatchHandle, content: &str)
    requires
        old(handle).wf(),
    ensures
        final(handle).wf(),
        final(handle).tokens() == announced(old(handle).tokens(), hash_of(content@)),
        final(handle).stopping() == old(handle).stopping(),
{
    handle.expect_write(content);
}

/// Confirm one of the server's own writes once it is on disk.
pub fn confirm_server_write(handle: &mut ConfigWatchHandle, content: &str)
    requires
        old(handle).wf(),
    ensures
        final(handle).wf(),
        final(handle).tokens() == confirmed(old(handle).tokens(), hash_of(content@)),
        final(handle).stopping() == old(handle).stopping(),
{
    handle.mark_write_landed(content);
}

// ---- The watcher -------------------------------------------------------------------

/// What the file looks like without reading it.
#[derive(Debug, Clone, Copy, PartialEq, Eq, Structural)]
pub struct Fingerprint {
    /// Its length in bytes.
    pub len: u64,
    /// When it was last modified, in nanoseconds, where that is known.
    pub modified: Option<u128>,
    /// Which file it is.
    pub inode: u64,
}

/// Something that the caller does on the watcher's behalf.
#[derive(Debug, PartialEq, Eq)]
pub enum Effect {
    /// Record a rejection and raise the warning that the file is invalid.
    Reject(String),
    /// Clear that warning.
    ClearInvalid(String),
    /// Bring every store in line with the watcher's baseline.
    ResyncAll,
    /// Raise the warning that a change is applied in part; so many submissions
    /// were shed.
    RaiseIncomplete(u32),
    /// Clear that warning.
    ClearIncomplete,
    /// Record a rejection, without a warning.
    RecordRejected(String),
    /// Record what was applied.
    RecordApplied(String),
    /// Raise the warning that these sections wait for a restart.
    RequiresRestart(Vec<String>),
    /// Tell the persister that the running state changed.
    RunningChanged,
}

/// What an effect says.
pub enum EffectView {
    /// See [`Effect::Reject`].
    Reject(Seq<char>),
    /// See [`Effect::ClearInvalid`].
    ClearInvalid(Seq<char>),
    /// See [`Effect::ResyncAll`].
    ResyncAll,
    /// See [`Effect::RaiseIncomplete`].
    RaiseIncomplete(u32),
    /// See [`Effect::ClearIncomplete`].
    ClearIncomplete,
    /// See [`Effect::RecordRejected`].
    RecordRejected(Seq<char>),
    /// See [`Effect::RecordApplied`].
    RecordApplied(Seq<char>),
    /// See [`Effect::RequiresRestart`].
    RequiresRestart(Seq<Seq<char>>),
    /// See [`Effect::RunningChanged`].
    RunningChanged,
}

impl Effect {
    /// What the effect says.
    pub open spec fn view(self) -> EffectView {
        match self {
            Effect::Reject(t) => EffectView::Reject(t@),
            Effect::ClearInvalid(t) => EffectView::ClearInvalid(t@),
            Effect::ResyncAll => EffectView::ResyncAll,
            Effect::RaiseIncomplete(n) => EffectView::RaiseIncomplete(n),
            Effect::ClearIncomplete => EffectView::ClearIncomplete,
            Effect::RecordRejected(t) => EffectView::RecordRejected(t@),
            Effect::RecordApplied(t) => EffectView::RecordApplied(t@),
            Effect::RequiresRestart(names) => EffectView::RequiresRestart(crate::text::texts(names@)),
            Effect::RunningChanged => EffectView::RunningChanged,
        }
    }
}

/// What a list of effects says.
pub open spec fn effects_view(effects: Seq<Effect>) -> Seq<EffectView> {
    effects.map_values(|e: Effect| e@)
}

/// What the watcher remembers between polls.
#[verifier::ext_equal]
pub struct WatcherView {
    /// The fingerprint whose content is applied.
    pub applied: Option<Fingerprint>,
    /// The fingerprint that was rejected last.
    pub rejected: Option<Fingerprint>,
    /// The fingerprint that was seen at the last poll, once.
    pub candidate: Option<Fingerprint>,
    /// How many polls in a row have missed the file.
    pub missing_polls: u32,
    /// Whether that was reported.
    pub missing_reported: bool,
    /// Whether the warning that the file is invalid stands.
    pub invalid_active: bool,
    /// Whether the warning that a change is applied in part stands.
    pub incomplete_active: bool,
    /// The content that was adopted last.
    pub last_observed: Option<Seq<char>>,
    /// The announced writes.
    pub tokens: Seq<ExpectedToken>,
    /// The sections that have changed since the start and wait for a restart.
    pub restart_pending: Set<Seq<char>>,
}

/// The watcher of the configuration file.
pub struct Watcher {
    baseline: Config,
    applied: Option<Fingerprint>,
    rejected: Option<Fingerprint>,
    candidate: Option<Fingerprint>,
    missing_polls: u32,
    missing_reported: bool,
    invalid_active: bool,
    incomplete_active: bool,
    last_observed: Option<String>,
    handle: ConfigWatchHandle,
    restart_pending: Sections,
}

/// The watcher's settings.
pub struct WatchOptions {
    /// The time between two polls.
    pub poll_interval: Duration,
    /// The content that the run was started with, where the running state was
    /// resumed from elsewhere.
    pub initial_observed: Option<String>,
    /// The handle through which writes were announced before there was a
    /// watcher.
    pub handle: Option<ConfigWatchHandle>,
}

impl WatchOptions {
    /// The handle, where there is one, is one that its operations can reach.
    pub open spec fn wf(self) -> bool {
        self.handle matches Some(h) ==> h.wf()
    }
}

/// The writes that were announced through an optional handle.
pub open spec fn handle_tokens(handle: Option<ConfigWatchHandle>) -> Seq<ExpectedToken> {
    match handle {
        Some(h) => h.tokens(),
        None => Seq::empty(),
    }
}

/// Whether an optional handle was told to stop.
pub open spec fn handle_stopping(handle: Option<ConfigWatchHandle>) -> bool {
    match handle {
        Some(h) => h.stopping(),
        None => false,
    }
}

impl Default for WatchOptions {
    fn default() -> (r: Self)
        ensures
            r.poll_interval@ == 1_000_000_000,
            r.initial_observed is None,
            r.handle is None,
    {
        WatchOptions {
            poll_interval: Duration::from_secs(1),
            initial_observed: None,
            handle: None,
        }
    }
}

impl WatchOptions {
    /// The settings with another time between polls.
    pub fn with_poll_interval(self, poll_interval: Duration) -> (r: Self)
        ensures
            r == (WatchOptions { poll_interval, ..self }),
    {
        WatchOptions { poll_interval, ..self }
    }

    /// The settings with the content that the run was started with.
    pub fn with_initial_observed(self, content: String) -> (r: Self)
        ensures
            r == (WatchOptions { initial_observed: Some(content), ..self }),
    {
        WatchOptions { initial_observed: Some(content), ..self }
    }

    /// The settings with a handle that was made before the watcher: what was
    /// announced through it is announced to the watcher.
    pub fn with_handle(self, handle: ConfigWatchHandle) -> (r: Self)
        ensures
            r == (WatchOptions { handle: Some(handle), ..self }),
    {
        WatchOptions { handle: Some(handle), ..self }
    }
}

/// The effects of finding the file as it should be: the standing warnings are
/// cleared, and where a change was applied in part the stores are brought back
/// in line.
pub open spec fn settle_effects(v: WatcherView, reason: Seq<char>) -> Seq<EffectView> {
    (if v.invalid_active {
        seq![EffectView::ClearInvalid(reason)]
    } else {
        Seq::empty()
    }) + (if v.incomplete_active {
        seq![EffectView::ResyncAll, EffectView::ClearIncomplete, EffectView::RunningChanged]
    } else {
        Seq::empty()
    })
}

/// What a poll does: the new memory, the effects, and whether to read the file.
pub open spec fn poll_effect(v: WatcherView, probe: Option<Fingerprint>) -> (
    WatcherView,
    Seq<EffectView>,
    bool,
) {
    match probe {
        None => {
            let missing = if v.missing_polls == u32::MAX {
                u32::MAX
            } else {
                (v.missing_polls + 1) as u32
            };
            let report = missing >= MISSING_POLLS_BEFORE_REPORT && !v.missing_reported;
            (
                WatcherView {
                    candidate: None,
                    missing_polls: missing,
                    missing_reported: v.missing_reported || report,
                    invalid_active: v.invalid_active || report,
                    ..v
                },
                if report {
                    seq![EffectView::Reject("the watched config file is missing"@)]
                } else {
                    Seq::empty()
                },
                false,
            )
        },
        Some(now) => {
            let w = WatcherView { missing_polls: 0, missing_reported: false, ..v };
            if v.applied == Some(now) {
                (
                    WatcherView {
                        candidate: None,
                        invalid_active: false,
                        incomplete_active: false,
                        ..w
                    },
                    settle_effects(v, "the file is back at the already-applied content"@),
                    false,
                )
            } else if v.rejected == Some(now) {
                (WatcherView { candidate: None, ..w }, Seq::empty(), false)
            } else if v.candidate != Some(now) {
                (WatcherView { candidate: Some(now), ..w }, Seq::empty(), false)
            } else {
                (WatcherView { candidate: None, ..w }, Seq::empty(), true)
            }
        },
    }
}

/// What a poll asks of the caller.
pub struct PollStep {
    /// What to do.
    pub effects: Vec<Effect>,
    /// Whether to read the file and report its content.
    pub read: bool,
}

/// How an unreadable file is reported.
pub open spec fn unreadable(error: Seq<char>) -> Seq<char> {
    "the file cannot be read: "@ + error
}

/// How a change that was applied in part is recorded.
pub open spec fn shed_record(shed: u32) -> Seq<char> {
    "partially applied: "@ + crate::text::decimal(shed as nat)
        + " engine command(s) shed on a full command bus; the watcher retries the whole change on its next poll"@
}

/// What reading a settled file did.
pub struct TextStep {
    /// What to do, after the stores and adoptions of `applied`.
    pub effects: Vec<Effect>,
    /// What applying the content did, where it was applied.
    pub applied: Option<Applied>,
    /// The document, where part of it was shed: the stores follow it, and it
    /// does not run yet.
    pub pending: Option<Config>,
}

/// The effects of an empty change: the file says what runs.
pub open spec fn empty_change_effects(v: WatcherView) -> Seq<EffectView> {
    (if v.incomplete_active {
        seq![EffectView::ResyncAll, EffectView::ClearIncomplete]
    } else {
        Seq::empty()
    }) + (if v.invalid_active {
        seq![EffectView::ClearInvalid("a subsequent valid write applied"@)]
    } else {
        Seq::empty()
    }) + seq![EffectView::RunningChanged]
}

/// The first effect of a valid change.
pub open spec fn valid_change_effects(v: WatcherView) -> Seq<EffectView> {
    if v.invalid_active {
        seq![EffectView::ClearInvalid("a subsequent valid write applied"@)]
    } else {
        Seq::empty()
    }
}

/// What reading a settled content does: the new memory and baseline, the queue,
/// the effects, and what was applied.
pub open spec fn text_effect(
    v: WatcherView,
    baseline: Config,
    bus: CommandBus,
    now: Fingerprint,
    text: Seq<char>,
    parsed: Result<(Config, ConfigDiff), String>,
    session: Session,
    v2: WatcherView,
    baseline2: Config,
    bus2: CommandBus,
    step: TextStep,
) -> bool {
    let effects = effects_view(step.effects@);
    let settled = WatcherView {
        applied: Some(now),
        rejected: None,
        last_observed: Some(text),
        ..v
    };
    if first_token(v.tokens, hash_of(text)) is Some {
        // The server's own write: adopt it without applying it.
        &&& bus2 == bus && effects == Seq::<EffectView>::empty() && step.applied is None && step.pending is None
        &&& match parsed {
            Ok((next, _)) => baseline2 == next && v2 == (WatcherView {
                tokens: spent(v.tokens, hash_of(text)),
                ..settled
            }),
            Err(_) => baseline2 == baseline && v2 == (WatcherView {
                tokens: spent(v.tokens, hash_of(text)),
                rejected: Some(now),
                ..v
            }),
        }
    } else if v.last_observed == Some(text) {
        // Nothing new in the file.
        &&& bus2 == bus && baseline2 == baseline && step.applied is None && step.pending is None
        &&& effects == settle_effects(v, "the file is back at the last-observed content"@)
        &&& v2 == (WatcherView {
            applied: Some(now),
            rejected: None,
            invalid_active: false,
            incomplete_active: false,
            tokens: in_flight(v.tokens),
            ..v
        })
    } else {
        match parsed {
            Err(reason) => {
                // An invalid document changes nothing.
                &&& bus2 == bus && baseline2 == baseline && step.applied is None && step.pending is None
                &&& effects == seq![EffectView::Reject(reason@)]
                &&& v2 == (WatcherView {
                    rejected: Some(now),
                    invalid_active: true,
                    tokens: in_flight(v.tokens),
                    ..v
                })
            },
            Ok((next, diff)) => if diff.nothing() {
                &&& bus2 == bus && baseline2 == next && step.applied is None && step.pending is None
                &&& effects == empty_change_effects(v)
                &&& v2 == (WatcherView {
                    invalid_active: false,
                    incomplete_active: false,
                    tokens: in_flight(v.tokens),
                    ..settled
                })
            } else {
                &&& step.applied matches Some(a)
                &&& crate::config_apply::applies(bus, bus2, diff, next, session, a)
                &&& if a.outcome.shed > 0 {
                    // Part of it was shed: nothing counts as applied.
                    &&& baseline2 == baseline && step.pending == Some(next)
                    &&& effects == valid_change_effects(v) + seq![
                        EffectView::RecordRejected(shed_record(a.outcome.shed)),
                        EffectView::RaiseIncomplete(a.outcome.shed),
                    ]
                    &&& v2 == (WatcherView {
                        invalid_active: false,
                        incomplete_active: true,
                        tokens: in_flight(v.tokens),
                        ..v
                    })
                } else {
                    &&& baseline2 == next && step.pending is None
                    &&& v2 == (WatcherView {
                        invalid_active: false,
                        incomplete_active: false,
                        tokens: in_flight(v.tokens),
                        restart_pending: v.restart_pending.union(a.outcome.restart@),
                        ..settled
                    })
                    &&& exists|names: Seq<Seq<char>>|
                        #[trigger] crate::sections::names_of(v2.restart_pending, names) && effects
                            == applied_effects(v, a, names)
                }
            },
        }
    }
}

/// The effects of a change that was applied whole.
pub open spec fn applied_effects(v: WatcherView, a: Applied, pending: Seq<Seq<char>>) -> Seq<EffectView> {
    valid_change_effects(v) + (if v.incomplete_active {
        seq![EffectView::ClearIncomplete]
    } else {
        Seq::empty()
    }) + seq![EffectView::RunningChanged, EffectView::RecordApplied(a.outcome.summary@)] + (
    if a.outcome.restart@ != Set::<Seq<char>>::empty() {
        seq![EffectView::RequiresRestart(pending)]
    } else {
        Seq::empty()
    })
}

impl Watcher {
    /// What the watcher remembers.
    pub closed spec fn view(self) -> WatcherView {
        WatcherView {
            applied: self.applied,
            rejected: self.rejected,
            candidate: self.candidate,
            missing_polls: self.missing_polls,
            missing_reported: self.missing_reported,
            invalid_active: self.invalid_active,
            incomplete_active: self.incomplete_active,
            last_observed: crate::text::text_opt(self.last_observed),
            tokens: self.handle.tokens(),
            restart_pending: self.restart_pending@,
        }
    }

    /// The configuration that runs.
    pub closed spec fn running(self) -> Config {
        self.baseline
    }

    /// The watcher is one that the operations below can reach.
    pub closed spec fn wf(self) -> bool {
        self.handle.wf() && self.restart_pending.wf()
    }

    /// Whether the watcher was told to stop.
    pub closed spec fn stopping(self) -> bool {
        self.handle.stopping()
    }

    /// A watcher of a run that was started with `baseline`.
    pub fn new(baseline: Config, options: WatchOptions) -> (r: Self)
        requires
            options.wf(),
        ensures
            r.wf(),
            r.running() == baseline,
            r.stopping() == handle_stopping(options.handle),
            r@ == (WatcherView {
                applied: None,
                rejected: None,
                candidate: None,
                missing_polls: 0,
                missing_reported: false,
                invalid_active: false,
                incomplete_active: false,
                last_observed: crate::text::text_opt(options.initial_observed),
                tokens: handle_tokens(options.handle),
                restart_pending: Set::empty(),
            }),
    {
        let handle = match options.handle {
            Some(h) => h,
            None => ConfigWatchHandle::new(),
        };
        Watcher {
            baseline,
            applied: None,
            rejected: None,
            candidate: None,
            missing_polls: 0,
            missing_reported: false,
            invalid_active: false,
            incomplete_active: false,
            last_observed: options.initial_observed,
            handle,
            restart_pending: Sections::new(),
        }
    }

    /// The configuration that runs.
    pub fn baseline(&self) -> (r: &Config)
        ensures
            *r == self.running(),
    {
        &self.baseline
    }

    /// Tell the watcher to stop.
    pub fn stop(&mut self)
        requires
            old(self).wf(),
        ensures
            final(self).wf(),
            final(self).running() == old(self).running(),
            final(self)@ == old(self)@,
            final(self).stopping(),
    {
        self.handle.stop();
    }

    /// Whether the watcher was told to stop.
    pub fn is_stopping(&self) -> (r: bool)
        ensures
            r == self.stopping(),
    {
        self.handle.is_stopping()
    }

    /// Announce one of the server's own writes.
    pub fn expect_write(&mut self, content: &str)
        requires
            old(self).wf(),
        ensures
            final(self).wf(),
            final(self).running() == old(self).running(),
            final(self).stopping() == old(self).stopping(),
            final(self)@ == (WatcherView {
                tokens: announced(old(self)@.tokens, hash_of(content@)),
                ..old(self)@
            }),
    {
        expect_server_write(&mut self.handle, content);
    }

    /// Confirm one of the server's own writes.
    pub fn mark_write_landed(&mut self, content: &str)
        requires
            old(self).wf(),
        ensures
            final(self).wf(),
            final(self).running() == old(self).running(),
            final(self).stopping() == old(self).stopping(),
            final(self)@ == (WatcherView {
                tokens: confirmed(old(self)@.tokens, hash_of(content@)),
                ..old(self)@
            }),
    {
        confirm_server_write(&mut self.handle, content);
    }

    /// Take back the announcement of one of the server's own writes.
    pub fn release_write(&mut self, content: &str) -> (r: bool)
        requires
            old(self).wf(),
        ensures
            final(self).wf(),
            final(self).running() == old(self).running(),
            final(self).stopping() == old(self).stopping(),
            r == (first_token(old(self)@.tokens, hash_of(content@)) is Some),
            final(self)@ == (WatcherView {
                tokens: released(old(self)@.tokens, hash_of(content@)),
                ..old(self)@
            }),
    {
        self.handle.release_write(content)
    }

    /// A poll found the file, or did not.
    pub fn on_poll(&mut self, probe: Option<Fingerprint>) -> (r: PollStep)
        requires
            old(self).wf(),
        ensures
            final(self).wf(),
            final(self).running() == old(self).running(),
            final(self).stopping() == old(self).stopping(),
            ({
                let (v, effects, read) = poll_effect(old(self)@, probe);
                final(self)@ == v && effects_view(r.effects@) == effects && r.read == read
            }),
    {
        let mut effects: Vec<Effect> = Vec::new();
        let now = match probe {
            None => {
                self.candidate = None;
                self.missing_polls = self.missing_polls.saturating_add(1);
                if self.missing_polls >= MISSING_POLLS_BEFORE_REPORT && !self.missing_reported {
                    self.missing_reported = true;
                    self.invalid_active = true;
                    effects.push(Effect::Reject("the watched config file is missing".to_owned()));
                }
                assert(effects_view(effects@) =~= poll_effect(old(self)@, probe).1);
                return PollStep { effects, read: false };
            },
            Some(f) => f,
        };
        self.missing_polls = 0;
        self.missing_reported = false;
        let is_applied = match self.applied {
            Some(f) => f == now,
            None => false,
        };
        if is_applied {
            self.candidate = None;
            self.settle(&mut effects, "the file is back at the already-applied content");
            assert(effects_view(effects@) =~= poll_effect(old(self)@, probe).1);
            return PollStep { effects, read: false };
        }
        let is_rejected = match self.rejected {
            Some(f) => f == now,
            None => false,
        };
        assert(effects_view(effects@) =~= Seq::<EffectView>::empty());
        if is_rejected {
            self.candidate = None;
            return PollStep { effects, read: false };
        }
        let is_candidate = match self.candidate {
            Some(f) => f == now,
            None => false,
        };
        if !is_candidate {
            self.candidate = Some(now);
            return PollStep { effects, read: false };
        }
        self.candidate = None;
        PollStep { effects, read: true }
    }

    /// Clear the standing warnings, and bring the stores in line where a change
    /// was applied in part.
    fn settle(&mut self, effects: &mut Vec<Effect>, reason: &str)
        requires
            old(self).wf(),
        ensures
            final(self).wf(),
            final(self).running() == old(self).running(),
            final(self).stopping() == old(self).stopping(),
            final(self)@ == (WatcherView {
                invalid_active: false,
                incomplete_active: false,
                ..old(self)@
            }),
            effects_view(final(effects)@) == effects_view(old(effects)@) + settle_effects(
                old(self)@,
                reason@,
            ),
    {
        if self.invalid_active {
            self.invalid_active = false;
            effects.push(Effect::ClearInvalid(reason.to_owned()));
        }
        if self.incomplete_active {
            self.incomplete_active = false;
            effects.push(Effect::ResyncAll);
            effects.push(Effect::ClearIncomplete);
            effects.push(Effect::RunningChanged);
        }
        assert(effects_view(effects@) =~= effects_view(old(effects)@) + settle_effects(
            old(self)@,
            reason@,
        ));
    }

    /// The file could not be read.
    pub fn on_unreadable(&mut self, now: Fingerprint, error: &str) -> (r: Vec<Effect>)
        requires
            old(self).wf(),
        ensures
            final(self).wf(),
            final(self).running() == old(self).running(),
            final(self).stopping() == old(self).stopping(),
            final(self)@ == (WatcherView {
                rejected: Some(now),
                invalid_active: true,
                ..old(self)@
            }),
            effects_view(r@) == seq![EffectView::Reject(unreadable(error@))],
    {
        self.rejected = Some(now);
        self.invalid_active = true;
        let mut effects: Vec<Effect> = Vec::new();
        effects.push(Effect::Reject(crate::text::cat2("the file cannot be read: ", error)));
        assert(effects_view(effects@) =~= seq![EffectView::Reject(unreadable(error@))]);
        effects
    }

    /// The file held `text`. `parsed` is what reading it as a configuration
    /// gave, and how that differs from the running one.
    pub fn on_text(
        &mut self,
        now: Fingerprint,
        text: String,
        parsed: Result<(Config, ConfigDiff), String>,
        session: &Session,
        bus: &mut CommandBus,
    ) -> (r: TextStep)
        requires
            old(self).wf(),
            old(bus).wf(),
        ensures
            final(self).wf(),
            final(bus).wf(),
            final(self).stopping() == old(self).stopping(),
            text_effect(
                old(self)@,
                old(self).running(),
                *old(bus),
                now,
                text@,
                parsed,
                *session,
                final(self)@,
                final(self).running(),
                *final(bus),
                r,
            ),
    {
        let mut effects: Vec<Effect> = Vec::new();
        let ghost v = self@;
        assert(effects_view(effects@) =~= Seq::<EffectView>::empty());
        if self.handle.consume_expected_for(text.as_str()) {
            match parsed {
                Ok((next, _)) => {
                    self.baseline = next;
                    self.applied = Some(now);
                    self.rejected = None;
                    self.last_observed = Some(text);
                },
                Err(_) => {
                    self.rejected = Some(now);
                },
            }
            return TextStep { effects, applied: None, pending: None };
        }
        self.handle.drain_landed();
        let unchanged = match &self.last_observed {
            Some(t) => str_eq(t.as_str(), text.as_str()),
            None => false,
        };
        if unchanged {
            self.applied = Some(now);
            self.rejected = None;
            self.settle(&mut effects, "the file is back at the last-observed content");
            assert(effects_view(effects@) =~= settle_effects(
                v,
                "the file is back at the last-observed content"@,
            ));
            return TextStep { effects, applied: None, pending: None };
        }
        self.apply_change(now, text, parsed, session, bus, Ghost(v))
    }

    /// Apply a content that is neither announced nor already observed.
    fn apply_change(
        &mut self,
        now: Fingerprint,
        text: String,
        parsed: Result<(Config, ConfigDiff), String>,
        session: &Session,
        bus: &mut CommandBus,
        Ghost(v): Ghost<WatcherView>,
    ) -> (r: TextStep)
        requires
            old(self).wf(),
            old(bus).wf(),
            first_token(v.tokens, hash_of(text@)) is None,
            v.last_observed != Some(text@),
            old(self)@ == (WatcherView { tokens: in_flight(v.tokens), ..v }),
        ensures
            final(self).wf(),
            final(bus).wf(),
            final(self).stopping() == old(self).stopping(),
            text_effect(
                v,
                old(self).running(),
                *old(bus),
                now,
                text@,
                parsed,
                *session,
                final(self)@,
                final(self).running(),
                *final(bus),
                r,
            ),
    {
        let mut effects: Vec<Effect> = Vec::new();
        let (next, diff) = match parsed {
            Ok(pair) => pair,
            Err(reason) => {
                self.rejected = Some(now);
                self.invalid_active = true;
                effects.push(Effect::Reject(reason));
                assert(effects_view(effects@) =~= seq![EffectView::Reject(reason@)]);
                return TextStep { effects, applied: None, pending: None };
            },
        };
        if diff.is_empty() {
            if self.incomplete_active {
                self.incomplete_active = false;
                effects.push(Effect::ResyncAll);
                effects.push(Effect::ClearIncomplete);
            }
            self.baseline = next;
            if self.invalid_active {
                self.invalid_active = false;
                effects.push(Effect::ClearInvalid("a subsequent valid write applied".to_owned()));
            }
            effects.push(Effect::RunningChanged);
            self.applied = Some(now);
            self.rejected = None;
            self.last_observed = Some(text);
            assert(effects_view(effects@) =~= empty_change_effects(v));
            return TextStep { effects, applied: None, pending: None };
        }
        let applied = apply_document_diff(&diff, &next, session, bus);
        if self.invalid_active {
            self.invalid_active = false;
            effects.push(Effect::ClearInvalid("a subsequent valid write applied".to_owned()));
        }
        assert(effects_view(effects@) =~= valid_change_effects(v));
        if applied.outcome.shed > 0 {
            let n = decimal_text(applied.outcome.shed as u64);
            let record = cat3(
                "partially applied: ",
                n.as_str(),
                " engine command(s) shed on a full command bus; the watcher retries the whole change on its next poll",
            );
            effects.push(Effect::RecordRejected(record));
            effects.push(Effect::RaiseIncomplete(applied.outcome.shed));
            self.incomplete_active = true;
            assert(effects_view(effects@) =~= valid_change_effects(v) + seq![
                EffectView::RecordRejected(shed_record(applied.outcome.shed)),
                EffectView::RaiseIncomplete(applied.outcome.shed),
            ]);
            return TextStep { effects, applied: Some(applied), pending: Some(next) };
        }
        self.baseline = next;
        if self.incomplete_active {
            self.incomplete_active = false;
            effects.push(Effect::ClearIncomplete);
        }
        effects.push(Effect::RunningChanged);
        effects.push(Effect::RecordApplied(applied.outcome.summary.clone()));
        let ghost were = self.restart_pending@;
        self.restart_pending.extend(&applied.outcome.restart);
        let pending = self.restart_pending.list();
        let ghost names = crate::text::texts(pending@);
        if !applied.outcome.restart.is_empty() {
            effects.push(Effect::RequiresRestart(pending));
        }
        self.applied = Some(now);
        self.rejected = None;
        self.last_observed = Some(text);
        proof {
            assert(effects_view(effects@) =~= applied_effects(v, applied, names));
            assert(crate::sections::names_of(self@.restart_pending, names));
        }
        TextStep { effects, applied: Some(applied), pending: None }
    }
}

// ---- Warnings ----------------------------------------------------------------------

/// What a health warning is about.
#[derive(Debug, Clone, Copy, PartialEq, Eq, Structural)]
pub enum WarningCode {
    /// The file is invalid.
    ConfigFileInvalid,
    /// A change is applied in part.
    ConfigFileApplyIncomplete,
    /// Sections wait for a restart.
    ConfigFileRequiresRestart,
}

/// A health warning about the configuration file.
#[derive(Debug, PartialEq, Eq)]
pub struct HealthWarning {
    /// What it is about.
    pub code: WarningCode,
    /// What is wrong.
    pub message: String,
    /// What to do.
    pub remediation: String,
    /// Since when, in nanoseconds.
    pub since: i64,
    /// Whether it is raised or cleared.
    pub active: bool,
}

/// The subsystem of every warning about the configuration file.
pub fn warning_subsystem() -> (r: &'static str)
    ensures
        r@ == "config"@,
{
    "config"
}

/// The warning that the file is invalid.
pub fn invalid_warning(path: &str, reason: &str, since: i64, active: bool) -> (r: HealthWarning)
    ensures
        r.code == WarningCode::ConfigFileInvalid,
        r.message@ == "The config file "@ + path@
            + " changed on disk but the new document is invalid ("@ + reason@
            + "); NOTHING was applied — the run keeps the last-good configuration."@,
        r.remediation@
            == "Fix the file (run `multiview validate` against it); the next valid write applies and clears this warning."@,
        r.since == since,
        r.active == active,
{
    let mut message = cat3(
        "The config file ",
        path,
        " changed on disk but the new document is invalid (",
    );
    message.append(reason);
    message.append("); NOTHING was applied — the run keeps the last-good configuration.");
    HealthWarning {
        code: WarningCode::ConfigFileInvalid,
        message,
        remediation: "Fix the file (run `multiview validate` against it); the next valid write applies and clears this warning.".to_owned(),
        since,
        active,
    }
}

/// The warning that a change is applied in part.
pub fn apply_incomplete_warning(path: &str, shed: u32, since: i64, active: bool) -> (r: HealthWarning)
    ensures
        r.code == WarningCode::ConfigFileApplyIncomplete,
        r.message@ == "A valid change to the config file "@ + path@
            + " is only PARTIALLY applied: "@ + crate::text::decimal(shed as nat)
            + " engine command(s) were shed on a full command bus; the watcher retries the whole change on its next poll."@,
        r.remediation@
            == "No action needed — the watcher retries automatically and clears this warning when the apply completes; investigate a persistently full command bus if it does not."@,
        r.since == since,
        r.active == active,
{
    let mut message = cat3(
        "A valid change to the config file ",
        path,
        " is only PARTIALLY applied: ",
    );
    let n = decimal_text(shed as u64);
    message.append(n.as_str());
    message.append(
        " engine command(s) were shed on a full command bus; the watcher retries the whole change on its next poll.",
    );
    HealthWarning {
        code: WarningCode::ConfigFileApplyIncomplete,
        message,
        remediation: "No action needed — the watcher retries automatically and clears this warning when the apply completes; investigate a persistently full command bus if it does not.".to_owned(),
        since,
        active,
    }
}

/// The warning that sections wait for a restart.
pub fn requires_restart_warning(pending: &Vec<String>, since: i64) -> (r: HealthWarning)
    ensures
        r.code == WarningCode::ConfigFileRequiresRestart,
        r.message@ == "Section(s) ["@ + crate::text::join_of(crate::text::texts(pending@), ", "@)
            + "] of the config file changed since boot in ways that cannot hot-apply; the running process may differ from the file until a restart."@,
        r.remediation@
            == "Restart multiview to apply these sections (live-appliable changes were already applied)."@,
        r.since == since,
        r.active,
{
    let sections = crate::text::join(pending, ", ");
    let message = cat3(
        "Section(s) [",
        sections.as_str(),
        "] of the config file changed since boot in ways that cannot hot-apply; the running process may differ from the file until a restart.",
    );
    HealthWarning {
        code: WarningCode::ConfigFileRequiresRestart,
        message,
        remediation: "Restart multiview to apply these sections (live-appliable changes were already applied).".to_owned(),
        since,
        active: true,
    }
}

/// The millisecond stamp of a record, from the clock in nanoseconds.
pub fn now_ms(nanos: i64) -> (r: i64)
    ensures
        r == nanos as int / 1_000_000,
{
    millis_of(nanos)
}

// ---- Laws --------------------------------------------------------------------------

/// The file is read only when it looks as it did at the poll before, and that
/// look is neither applied nor rejected.
pub proof fn law_reads_only_a_settled_file(v: WatcherView, probe: Option<Fingerprint>)
    requires
        poll_effect(v, probe).2,
    ensures
        probe is Some,
        v.candidate == probe,
        v.applied != probe,
        v.rejected != probe,
{
}

/// A new look is read at the second poll in a row that shows it, and not
/// before.
pub proof fn law_new_content_is_read_at_the_second_poll(v: WatcherView, now: Fingerprint)
    requires
        v.applied != Some(now),
        v.rejected != Some(now),
        v.candidate != Some(now),
    ensures
        !poll_effect(v, Some(now)).2,
        poll_effect(poll_effect(v, Some(now)).0, Some(now)).2,
{
}

/// A rejected look is left alone until the file changes.
pub proof fn law_rejection_is_reported_once(v: WatcherView, now: Fingerprint)
    requires
        v.rejected == Some(now),
        v.applied != Some(now),
    ensures
        !poll_effect(v, Some(now)).2,
        poll_effect(v, Some(now)).1 == Seq::<EffectView>::empty(),
        poll_effect(v, Some(now)).0.rejected == Some(now),
{
}

/// A missing file is reported once, until it is seen again.
pub proof fn law_missing_file_is_reported_once(v: WatcherView)
    ensures
        v.missing_reported ==> poll_effect(v, None).1 == Seq::<EffectView>::empty() && poll_effect(
            v,
            None,
        ).0.missing_reported,
        poll_effect(v, None).1.len() > 0 ==> poll_effect(v, None).0.missing_reported,
        v.missing_polls + 1 < MISSING_POLLS_BEFORE_REPORT ==> poll_effect(v, None).1 == Seq::<
            EffectView,
        >::empty(),
{
}

/// A document that does not validate changes nothing: the run keeps its
/// configuration, nothing is submitted, and nothing is applied.
pub proof fn law_invalid_document_changes_nothing(
    v: WatcherView,
    baseline: Config,
    bus: CommandBus,
    now: Fingerprint,
    text: Seq<char>,
    parsed: Result<(Config, ConfigDiff), String>,
    session: Session,
    v2: WatcherView,
    baseline2: Config,
    bus2: CommandBus,
    step: TextStep,
)
    requires
        text_effect(v, baseline, bus, now, text, parsed, session, v2, baseline2, bus2, step),
        parsed is Err,
    ensures
        baseline2 == baseline,
        bus2 == bus,
        step.applied is None && step.pending is None,
        v2.last_observed == v.last_observed,
        v2.restart_pending == v.restart_pending,
{
}

/// A change of which part was shed is not taken as applied, and two more polls
/// of the same file read it again.
pub proof fn law_shed_change_is_retried(
    v: WatcherView,
    baseline: Config,
    bus: CommandBus,
    now: Fingerprint,
    text: Seq<char>,
    parsed: Result<(Config, ConfigDiff), String>,
    session: Session,
    v2: WatcherView,
    baseline2: Config,
    bus2: CommandBus,
    step: TextStep,
)
    requires
        text_effect(v, baseline, bus, now, text, parsed, session, v2, baseline2, bus2, step),
        step.applied is Some,
        step.applied->0.outcome.shed > 0,
        v.applied != Some(now),
        v.rejected != Some(now),
        v.candidate != Some(now),
    ensures
        baseline2 == baseline,
        v2.applied == v.applied,
        v2.last_observed == v.last_observed,
        v2.incomplete_active,
        poll_effect(poll_effect(v2, Some(now)).0, Some(now)).2,
{
}

/// Something is shed exactly where the change asks for more than the queue has
/// room for.
pub proof fn law_shed_means_no_room(
    bus: CommandBus,
    bus2: CommandBus,
    diff: ConfigDiff,
    next: Config,
    session: Session,
    a: Applied,
)
    requires
        crate::config_apply::applies(bus, bus2, diff, next, session, a),
    ensures
        a.outcome.shed > 0 <==> crate::config_apply::change_plan(diff, next, session).len() > bus.room(),
{
}

/// An announced content is adopted without being applied: nothing is submitted
/// and nothing is reported.
pub proof fn law_announced_write_is_not_applied(
    v: WatcherView,
    baseline: Config,
    bus: CommandBus,
    now: Fingerprint,
    text: Seq<char>,
    parsed: Result<(Config, ConfigDiff), String>,
    session: Session,
    v2: WatcherView,
    baseline2: Config,
    bus2: CommandBus,
    step: TextStep,
)
    requires
        v.tokens.len() > 0,
        v.tokens.last().hash == hash_of(text),
        text_effect(v, baseline, bus, now, text, parsed, session, v2, baseline2, bus2, step),
    ensures
        bus2 == bus,
        step.applied is None && step.pending is None,
        step.effects@.len() == 0,
        parsed is Ok ==> baseline2 == parsed->Ok_0.0 && v2.applied == Some(now),
{
    lemma_first_token(v.tokens, hash_of(text));
    assert(v.tokens[v.tokens.len() - 1].hash == hash_of(text));
    assert(effects_view(step.effects@).len() == step.effects@.len());
}

/// An announcement is there to be matched, whatever was announced before.
pub proof fn law_announcement_is_remembered(tokens: Seq<ExpectedToken>, hash: u64)
    ensures
        first_token(announced(tokens, hash), hash) is Some,
        tokens.len() <= MAX_EXPECTED_TOKENS ==> announced(tokens, hash).len() <= MAX_EXPECTED_TOKENS,
{
    let all = announced(tokens, hash);
    lemma_first_token(all, hash);
    assert(all[all.len() - 1].hash == hash);
}

/// A content that matches no announcement supersedes the writes that have
/// landed; the ones in flight stay announced.
pub proof fn law_landed_announcements_are_superseded(tokens: Seq<ExpectedToken>)
    ensures
        forall|i: int| 0 <= i < in_flight(tokens).len() ==> !(#[trigger] in_flight(tokens)[i]).landed,
        forall|i: int|
            0 <= i < tokens.len() && !(#[trigger] tokens[i]).landed ==> in_flight(tokens).contains(
                tokens[i],
            ),
    decreases tokens.len(),
{
    if tokens.len() > 0 {
        let rest = tokens.drop_last();
        law_landed_announcements_are_superseded(rest);
        let kept = in_flight(rest);
        let all = in_flight(tokens);
        assert forall|i: int| 0 <= i < tokens.len() && !(#[trigger] tokens[i]).landed implies all.contains(
            tokens[i],
        ) by {
            if i < rest.len() {
                assert(rest[i] == tokens[i]);
                let j = choose|j: int| 0 <= j < kept.len() && kept[j] == tokens[i];
                assert(all[j] == tokens[i]);
            } else {
                assert(all[kept.len() as int] == tokens[i]);
            }
        }
    }
}

/// The sections that wait for a restart are never forgotten.
pub proof fn law_restart_pending_is_latched(
    v: WatcherView,
    baseline: Config,
    bus: CommandBus,
    now: Fingerprint,
    text: Seq<char>,
    parsed: Result<(Config, ConfigDiff), String>,
    session: Session,
    v2: WatcherView,
    baseline2: Config,
    bus2: CommandBus,
    step: TextStep,
    probe: Option<Fingerprint>,
)
    requires
        text_effect(v, baseline, bus, now, text, parsed, session, v2, baseline2, bus2, step),
    ensures
        v.restart_pending.subset_of(v2.restart_pending),
        poll_effect(v, probe).0.restart_pending == v.restart_pending,
{
}

/// How many announcements there are of the content with this hash.
pub open spec fn token_count(tokens: Seq<ExpectedToken>, hash: u64) -> nat
    decreases tokens.len(),
{
    if tokens.len() == 0 {
        0
    } else if tokens[0].hash == hash {
        1 + token_count(tokens.drop_first(), hash)
    } else {
        token_count(tokens.drop_first(), hash)
    }
}

/// The announcements of every other content, oldest first.
pub open spec fn other_tokens(tokens: Seq<ExpectedToken>, hash: u64) -> Seq<ExpectedToken>
    decreases tokens.len(),
{
    if tokens.len() == 0 {
        Seq::empty()
    } else if tokens[0].hash == hash {
        other_tokens(tokens.drop_first(), hash)
    } else {
        seq![tokens[0]] + other_tokens(tokens.drop_first(), hash)
    }
}

/// The announcements after those of this content were taken back `n` times.
pub open spec fn released_times(tokens: Seq<ExpectedToken>, hash: u64, n: nat) -> Seq<ExpectedToken>
    decreases n,
{
    if n == 0 {
        tokens
    } else {
        released(released_times(tokens, hash, (n - 1) as nat), hash)
    }
}

/// Taking an announcement back takes back one of this content, where there is
/// one, and no other.
proof fn lemma_released(tokens: Seq<ExpectedToken>, hash: u64)
    ensures
        first_token(tokens, hash) is Some <==> token_count(tokens, hash) > 0,
        token_count(released(tokens, hash), hash) == (if token_count(tokens, hash) > 0 {
            token_count(tokens, hash) - 1
        } else {
            0
        }),
        other_tokens(released(tokens, hash), hash) == other_tokens(tokens, hash),
    decreases tokens.len(),
{
    if tokens.len() > 0 {
        let rest = tokens.drop_first();
        lemma_released(rest, hash);
        lemma_first_token(rest, hash);
        if tokens[0].hash == hash {
            assert(tokens.remove(0) =~= rest);
        } else if first_token(rest, hash) is Some {
            let i = first_token(rest, hash)->0;
            let after = tokens.remove(i + 1);
            assert(released(tokens, hash) == after);
            assert(after[0] == tokens[0]);
            assert(after.drop_first() =~= rest.remove(i));
        }
    }
}

/// So many announcements of a content are taken back by so many calls: each of
/// them finds one, the next finds none, and the announcements of every other
/// content stay as they are and in their order.
pub proof fn law_announcements_are_taken_back_one_by_one(
    tokens: Seq<ExpectedToken>,
    hash: u64,
    n: nat,
)
    ensures
        first_token(released_times(tokens, hash, n), hash) is Some <==> n < token_count(
            tokens,
            hash,
        ),
        token_count(released_times(tokens, hash, n), hash) == (if n < token_count(tokens, hash) {
            token_count(tokens, hash) - n
        } else {
            0
        }),
        other_tokens(released_times(tokens, hash, n), hash) == other_tokens(tokens, hash),
    decreases n,
{
    if n > 0 {
        law_announcements_are_taken_back_one_by_one(tokens, hash, (n - 1) as nat);
        lemma_released(released_times(tokens, hash, (n - 1) as nat), hash);
    }
    lemma_released(released_times(tokens, hash, n), hash);
}

/// One poll of a file that is there: how it looked, and, where it was read, what
/// reading its text as a configuration gave, what ran, the queue before and
/// after, and what came of it.
pub struct FilePoll {
    /// How the file looked.
    pub look: Fingerprint,
    /// What reading its text as a configuration gives.
    pub parsed: Result<(Config, ConfigDiff), String>,
    /// What the engine runs.
    pub session: Session,
    /// The queue before the poll.
    pub before: CommandBus,
    /// The queue after it.
    pub after: CommandBus,
    /// What came of reading the file, where it was read.
    pub step: Option<TextStep>,
}

/// A poll of a file with this text took the watcher from one memory and
/// configuration to the next.
pub open spec fn polled(
    text: Seq<char>,
    v: WatcherView,
    baseline: Config,
    poll: FilePoll,
    v2: WatcherView,
    baseline2: Config,
) -> bool {
    let (w, _, read) = poll_effect(v, Some(poll.look));
    match poll.step {
        Some(step) => {
            &&& read
            &&& text_effect(
                w,
                baseline,
                poll.before,
                poll.look,
                text,
                poll.parsed,
                poll.session,
                v2,
                baseline2,
                poll.after,
                step,
            )
        },
        None => !read && v2 == w && baseline2 == baseline && poll.after == poll.before,
    }
}

/// A run of polls of a file that has the same text at each of them.
pub open spec fn polls_of(
    text: Seq<char>,
    views: Seq<WatcherView>,
    baselines: Seq<Config>,
    polls: Seq<FilePoll>,
) -> bool {
    &&& views.len() == polls.len() + 1
    &&& baselines.len() == polls.len() + 1
    &&& forall|i: int|
        0 <= i < polls.len() ==> polled(
            text,
            views[i],
            baselines[i],
            #[trigger] polls[i],
            views[i + 1],
            baselines[i + 1],
        )
}

/// A poll left everything alone: nothing was submitted, nothing was told, and
/// nothing was applied.
pub open spec fn left_alone(v: WatcherView, poll: FilePoll) -> bool {
    &&& poll.after == poll.before
    &&& poll_effect(v, Some(poll.look)).1 == Seq::<EffectView>::empty()
    &&& poll.step matches Some(step) ==> step.effects@.len() == 0 && step.applied is None
        && step.pending is None
}

/// A resumed run is left alone: where the watcher starts with the text that the
/// file had when the run was started, and no write is announced, no number of
/// polls of that text changes anything, whatever the text says as a
/// configuration and whatever the file looks like. The run keeps what it resumed.
pub proof fn law_unchanged_file_leaves_the_run_alone(
    text: Seq<char>,
    views: Seq<WatcherView>,
    baselines: Seq<Config>,
    polls: Seq<FilePoll>,
    n: int,
)
    requires
        polls_of(text, views, baselines, polls),
        views[0] == (WatcherView {
            applied: None,
            rejected: None,
            candidate: None,
            missing_polls: 0,
            missing_reported: false,
            invalid_active: false,
            incomplete_active: false,
            last_observed: Some(text),
            tokens: Seq::empty(),
            restart_pending: Set::empty(),
        }),
        0 <= n <= polls.len(),
    ensures
        baselines[n] == baselines[0],
        views[n].last_observed == Some(text),
        views[n].restart_pending == Set::<Seq<char>>::empty(),
        forall|i: int| 0 <= i < n ==> left_alone(views[i], #[trigger] polls[i]),
        !views[n].invalid_active && !views[n].incomplete_active,
        views[n].tokens == Seq::<ExpectedToken>::empty(),
    decreases n,
{
    if n > 0 {
        law_unchanged_file_leaves_the_run_alone(text, views, baselines, polls, n - 1);
        let v = views[n - 1];
        let poll = polls[n - 1];
        assert(polled(text, v, baselines[n - 1], poll, views[n - 1 + 1], baselines[n - 1 + 1]));
        assert(poll_effect(v, Some(poll.look)).1 =~= Seq::<EffectView>::empty());
        if let Some(step) = poll.step {
            assert(in_flight(v.tokens) =~= Seq::<ExpectedToken>::empty());
            assert(effects_view(step.effects@) =~= Seq::<EffectView>::empty());
            assert(effects_view(step.effects@).len() == step.effects@.len());
        }
        assert(left_alone(v, poll));
    }
}

/// A file that is gone is looked for four times in silence; at the fifth it is
/// reported, once, and a file that comes back starts the count again.
pub proof fn law_missing_file_is_reported_at_the_fifth_look(v: WatcherView, back: Fingerprint)
    requires
        !v.missing_reported,
    ensures
        v.missing_polls < 4 ==> poll_effect(v, None).1.len() == 0 && poll_effect(
            v,
            None,
        ).0.missing_polls == v.missing_polls + 1 && !poll_effect(v, None).0.missing_reported
            && poll_effect(v, None).0.invalid_active == v.invalid_active,
        v.missing_polls == 4 ==> poll_effect(v, None).1 == seq![
            EffectView::Reject("the watched config file is missing"@),
        ] && poll_effect(v, None).0.missing_reported && poll_effect(v, None).0.invalid_active,
        !poll_effect(v, None).2,
        poll_effect(v, Some(back)).0.missing_polls == 0,
        !poll_effect(v, Some(back)).0.missing_reported,
{
}

/// A file that is back at what runs takes every complaint back: an invalid document
/// is no longer pending, and a change that was applied in part is undone by bringing
/// every store back in line.
pub proof fn law_file_back_at_what_runs_settles(v: WatcherView, now: Fingerprint)
    requires
        v.applied == Some(now),
    ensures
        ({
            let (w, effects, read) = poll_effect(v, Some(now));
            &&& !read
            &&& !w.invalid_active && !w.incomplete_active
            &&& w.candidate is None
            &&& w.applied == v.applied && w.last_observed == v.last_observed
            &&& !v.invalid_active && !v.incomplete_active ==> effects.len() == 0
            &&& v.invalid_active ==> effects.first() == EffectView::ClearInvalid(
                "the file is back at the already-applied content"@,
            )
            &&& v.incomplete_active ==> effects.len() >= 3 && effects[effects.len() - 3]
                == EffectView::ResyncAll && effects[effects.len() - 2]
                == EffectView::ClearIncomplete && effects.last() == EffectView::RunningChanged
        }),
{
}

/// A valid change that the engine took whole is what runs from then on: it is the
/// baseline of the next one, it is recorded, and it takes the complaints about the
/// file back.
pub proof fn law_applied_change_is_adopted(
    v: WatcherView,
    baseline: Config,
    bus: CommandBus,
    now: Fingerprint,
    text: Seq<char>,
    next: Config,
    diff: ConfigDiff,
    session: Session,
    v2: WatcherView,
    baseline2: Config,
    bus2: CommandBus,
    step: TextStep,
)
    requires
        text_effect(
            v,
            baseline,
            bus,
            now,
            text,
            Ok((next, diff)),
            session,
            v2,
            baseline2,
            bus2,
            step,
        ),
        first_token(v.tokens, hash_of(text)) is None,
        v.last_observed != Some(text),
        !diff.nothing(),
        step.applied matches Some(a) && a.outcome.shed == 0,
    ensures
        baseline2 == next,
        v2.applied == Some(now),
        v2.rejected is None,
        v2.last_observed == Some(text),
        !v2.invalid_active,
        !v2.incomplete_active,
        step.pending is None,
        effects_view(step.effects@).contains(EffectView::RunningChanged),
        effects_view(step.effects@).contains(
            EffectView::RecordApplied(step.applied->0.outcome.summary@),
        ),
        v.invalid_active ==> effects_view(step.effects@).contains(
            EffectView::ClearInvalid("a subsequent valid write applied"@),
        ),
        v.incomplete_active ==> effects_view(step.effects@).contains(EffectView::ClearIncomplete),
        step.applied->0.outcome.restart@ != Set::<Seq<char>>::empty() ==> effects_view(
            step.effects@,
        ).last() is RequiresRestart,
{
    let a = step.applied->0;
    let effects = effects_view(step.effects@);
    let names = choose|names: Seq<Seq<char>>|
        #[trigger] crate::sections::names_of(v2.restart_pending, names) && effects
            == applied_effects(v, a, names);
    assert(effects == applied_effects(v, a, names));
    let i = (if v.invalid_active { 1int } else { 0int });
    let j = i + (if v.incomplete_active { 1int } else { 0int });
    assert(effects[j] == EffectView::RunningChanged);
    assert(effects[j + 1] == EffectView::RecordApplied(a.outcome.summary@));
    if v.invalid_active {
        assert(effects[0] == EffectView::ClearInvalid("a subsequent valid write applied"@));
    }
    if v.incomplete_active {
        assert(effects[i] == EffectView::ClearIncomplete);
    }
}

/// A change that the engine did not take whole is owed: nothing counts as applied,
/// what runs stays the baseline, the document is kept for the stores, and the count
/// of what was shed is recorded and raised.
pub proof fn law_partly_applied_change_is_owed(
    v: WatcherView,
    baseline: Config,
    bus: CommandBus,
    now: Fingerprint,
    text: Seq<char>,
    next: Config,
    diff: ConfigDiff,
    session: Session,
    v2: WatcherView,
    baseline2: Config,
    bus2: CommandBus,
    step: TextStep,
)
    requires
        text_effect(
            v,
            baseline,
            bus,
            now,
            text,
            Ok((next, diff)),
            session,
            v2,
            baseline2,
            bus2,
            step,
        ),
        first_token(v.tokens, hash_of(text)) is None,
        v.last_observed != Some(text),
        !diff.nothing(),
        step.applied matches Some(a) && a.outcome.shed > 0,
    ensures
        baseline2 == baseline,
        step.pending == Some(next),
        v2.applied == v.applied,
        v2.rejected == v.rejected,
        v2.last_observed == v.last_observed,
        v2.incomplete_active,
        !v2.invalid_active,
        effects_view(step.effects@).last() == EffectView::RaiseIncomplete(
            step.applied->0.outcome.shed,
        ),
        effects_view(step.effects@).contains(
            EffectView::RecordRejected(
                "partially applied: "@ + crate::text::decimal(
                    step.applied->0.outcome.shed as nat,
                )
                    + " engine command(s) shed on a full command bus; the watcher retries the whole change on its next poll"@,
            ),
        ),
{
    let effects = effects_view(step.effects@);
    let i = (if v.invalid_active { 1int } else { 0int });
    assert(effects[i] == EffectView::RecordRejected(shed_record(step.applied->0.outcome.shed)));
}

/// A valid document that differs from what runs in nothing that matters is adopted
/// without a command to the engine.
pub proof fn law_equivalent_document_is_adopted(
    v: WatcherView,
    baseline: Config,
    bus: CommandBus,
    now: Fingerprint,
    text: Seq<char>,
    next: Config,
    diff: ConfigDiff,
    session: Session,
    v2: WatcherView,
    baseline2: Config,
    bus2: CommandBus,
    step: TextStep,
)
    requires
        text_effect(
            v,
            baseline,
            bus,
            now,
            text,
            Ok((next, diff)),
            session,
            v2,
            baseline2,
            bus2,
            step,
        ),
        first_token(v.tokens, hash_of(text)) is None,
        v.last_observed != Some(text),
        diff.nothing(),
    ensures
        baseline2 == next,
        bus2 == bus,
        v2.applied == Some(now) && v2.last_observed == Some(text) && v2.rejected is None,
        !v2.invalid_active && !v2.incomplete_active,
        step.applied is None && step.pending is None,
        effects_view(step.effects@).last() == EffectView::RunningChanged,
        v.incomplete_active ==> effects_view(step.effects@)[0] == EffectView::ResyncAll
            && effects_view(step.effects@)[1] == EffectView::ClearIncomplete,
        v.invalid_active ==> effects_view(step.effects@).contains(
            EffectView::ClearInvalid("a subsequent valid write applied"@),
        ),
{
    let effects = effects_view(step.effects@);
    if v.invalid_active {
        let i = (if v.incomplete_active { 2int } else { 0int });
        assert(effects[i] == EffectView::ClearInvalid("a subsequent valid write applied"@));
    }
}

/// A write of the server's own becomes the baseline as it stands: nothing is sent,
/// raised or recorded, and its announcement is spent with all that were made before.
pub proof fn law_own_write_becomes_the_baseline(
    v: WatcherView,
    baseline: Config,
    bus: CommandBus,
    now: Fingerprint,
    text: Seq<char>,
    next: Config,
    diff: ConfigDiff,
    session: Session,
    v2: WatcherView,
    baseline2: Config,
    bus2: CommandBus,
    step: TextStep,
    k: int,
)
    requires
        text_effect(
            v,
            baseline,
            bus,
            now,
            text,
            Ok((next, diff)),
            session,
            v2,
            baseline2,
            bus2,
            step,
        ),
        0 <= k < v.tokens.len(),
        v.tokens[k].hash == hash_of(text),
        forall|j: int| 0 <= j < k ==> (#[trigger] v.tokens[j]).hash != hash_of(text),
    ensures
        baseline2 == next,
        bus2 == bus,
        step.effects@.len() == 0,
        v2.applied == Some(now) && v2.last_observed == Some(text) && v2.rejected is None,
        v2.tokens == v.tokens.skip(k + 1),
        v2.invalid_active == v.invalid_active && v2.incomplete_active == v.incomplete_active,
{
    lemma_first_of_hash(v.tokens, hash_of(text), k);
    assert(effects_view(step.effects@).len() == 0);
}

/// The first announcement of a text is found.
proof fn lemma_first_of_hash(tokens: Seq<ExpectedToken>, hash: u64, k: int)
    requires
        0 <= k < tokens.len(),
        tokens[k].hash == hash,
        forall|j: int| 0 <= j < k ==> (#[trigger] tokens[j]).hash != hash,
    ensures
        first_token(tokens, hash) == Some(k),
    decreases tokens.len(),
{
    if k > 0 {
        assert forall|j: int| 0 <= j < k - 1 implies (#[trigger] tokens.drop_first()[j]).hash
            != hash by {
            assert(tokens.drop_first()[j] == tokens[j + 1]);
        }
        assert(tokens[0].hash != hash);
        lemma_first_of_hash(tokens.drop_first(), hash, k - 1);
    }
}

/// Eight announcements are remembered: a ninth takes the place of the oldest.
pub proof fn law_eight_announcements_are_remembered(tokens: Seq<ExpectedToken>, hash: u64)
    requires
        tokens.len() <= 8,
    ensures
        announced(tokens, hash).len() <= 8,
        announced(tokens, hash).last().hash == hash,
        !announced(tokens, hash).last().landed,
        tokens.len() < 8 ==> announced(tokens, hash).drop_last() == tokens,
        tokens.len() == 8 ==> announced(tokens, hash).drop_last() == tokens.drop_first(),
{
    if tokens.len() < 8 {
        assert(announced(tokens, hash).drop_last() =~= tokens);
    } else {
        assert(announced(tokens, hash).drop_last() =~= tokens.drop_first());
    }
}

/// An announcement that landed is dropped when other text is seen, and one that is in
/// flight is kept.
pub proof fn law_only_landed_announcements_go(tokens: Seq<ExpectedToken>, t: ExpectedToken)
    ensures
        in_flight(tokens).contains(t) <==> tokens.contains(t) && !t.landed,
    decreases tokens.len(),
{
    if tokens.len() > 0 {
        let init = tokens.drop_last();
        law_only_landed_announcements_go(init, t);
        assert(tokens =~= init.push(tokens.last()));
        if init.contains(t) {
            let k = choose|k: int| 0 <= k < init.len() && init[k] == t;
            assert(tokens[k] == t);
        }
        if !tokens.last().landed {
            let kept = in_flight(init);
            assert(in_flight(tokens)[kept.len() as int] == tokens.last());
            if kept.contains(t) {
                let k = choose|k: int| 0 <= k < kept.len() && kept[k] == t;
                assert(in_flight(tokens)[k] == t);
            }
        }
    }
}

/// A file that cannot be read is refused with what the system said.
pub proof fn law_unreadable_file_is_described(error: Seq<char>)
    ensures
        unreadable(error) == "the file cannot be read: "@ + error,
{
}

/// A file that shows new content is first noted and read when it still shows the same;
/// one that shows other content meanwhile is noted anew.
pub proof fn law_file_is_read_when_it_holds_still(v: WatcherView, a: Fingerprint, b: Fingerprint)
    requires
        v.applied != Some(a) && v.applied != Some(b),
        v.rejected != Some(a) && v.rejected != Some(b),
        v.candidate is None,
        a != b,
    ensures
        ({
            let first = poll_effect(v, Some(a));
            let same = poll_effect(first.0, Some(a));
            let other = poll_effect(first.0, Some(b));
            &&& !first.2 && first.0.candidate == Some(a)
            &&& same.2 && same.0.candidate is None
            &&& !other.2 && other.0.candidate == Some(b)
            &&& first.1.len() == 0 && same.1.len() == 0 && other.1.len() == 0
        }),
{
}

} // verus!
