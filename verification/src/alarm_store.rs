//! The control plane's mirror of the engine's alarms.
//!
//! The engine publishes its alarms, and the store keeps the latest record of
//! each. An operator acknowledges an alarm. Every change moves the version that
//! a request can be based on.

use vstd::prelude::*;

use crate::concurrency::Version;
use crate::error::ControlError;
use crate::table::Table;
use crate::text::str_eq;
use crate::time::MediaTime;

verus! {

/// The name of the collection.
pub const ALARM_KIND: &'static str = "alarm";

/// How bad an alarm is, from the mildest to the worst.
#[derive(Debug, Clone, Copy, PartialEq, Eq, PartialOrd, Ord, Structural)]
pub enum PerceivedSeverity {
    /// Over.
    Cleared,
    /// Not known.
    Indeterminate,
    /// A fault may be coming.
    Warning,
    /// A fault that does not affect the service.
    Minor,
    /// A fault that affects the service.
    Major,
    /// The service is gone.
    Critical,
}

impl PerceivedSeverity {
    /// The place among the severities.
    pub open spec fn rank(self) -> int {
        match self {
            PerceivedSeverity::Cleared => 0,
            PerceivedSeverity::Indeterminate => 1,
            PerceivedSeverity::Warning => 2,
            PerceivedSeverity::Minor => 3,
            PerceivedSeverity::Major => 4,
            PerceivedSeverity::Critical => 5,
        }
    }

    fn level(self) -> (r: u8)
        ensures
            r == self.rank(),
    {
        match self {
            PerceivedSeverity::Cleared => 0,
            PerceivedSeverity::Indeterminate => 1,
            PerceivedSeverity::Warning => 2,
            PerceivedSeverity::Minor => 3,
            PerceivedSeverity::Major => 4,
            PerceivedSeverity::Critical => 5,
        }
    }
}

/// What an alarm is about.
#[derive(Debug, PartialEq, Eq)]
pub enum AlarmScope {
    /// A probe.
    Probe {
        /// Its id.
        probe: String,
    },
    /// A tile.
    Tile {
        /// Its place in the layout.
        index: u32,
    },
    /// A group.
    Group {
        /// Its id.
        group: String,
    },
    /// The whole system.
    System,
    /// Anything else, by its document.
    Other(String),
}

/// What an alarm is about.
pub enum ScopeView {
    /// A probe.
    Probe(Seq<char>),
    /// A tile.
    Tile(u32),
    /// A group.
    Group(Seq<char>),
    /// The whole system.
    System,
    /// Anything else.
    Other(Seq<char>),
}

impl AlarmScope {
    /// What the alarm is about.
    pub open spec fn view(self) -> ScopeView {
        match self {
            AlarmScope::Probe { probe } => ScopeView::Probe(probe@),
            AlarmScope::Tile { index } => ScopeView::Tile(index),
            AlarmScope::Group { group } => ScopeView::Group(group@),
            AlarmScope::System => ScopeView::System,
            AlarmScope::Other(text) => ScopeView::Other(text@),
        }
    }

    fn same(&self, other: &AlarmScope) -> (r: bool)
        ensures
            r == (self@ == other@),
    {
        match (self, other) {
            (AlarmScope::Probe { probe: a }, AlarmScope::Probe { probe: b }) => str_eq(
                a.as_str(),
                b.as_str(),
            ),
            (AlarmScope::Tile { index: a }, AlarmScope::Tile { index: b }) => *a == *b,
            (AlarmScope::Group { group: a }, AlarmScope::Group { group: b }) => str_eq(
                a.as_str(),
                b.as_str(),
            ),
            (AlarmScope::System, AlarmScope::System) => true,
            (AlarmScope::Other(a), AlarmScope::Other(b)) => str_eq(a.as_str(), b.as_str()),
            _ => false,
        }
    }
}

impl Clone for AlarmScope {
    fn clone(&self) -> (r: Self)
        ensures
            r@ == self@,
    {
        match self {
            AlarmScope::Probe { probe } => AlarmScope::Probe { probe: probe.clone() },
            AlarmScope::Tile { index } => AlarmScope::Tile { index: *index },
            AlarmScope::Group { group } => AlarmScope::Group { group: group.clone() },
            AlarmScope::System => AlarmScope::System,
            AlarmScope::Other(text) => AlarmScope::Other(text.clone()),
        }
    }
}

/// Whether an operator has seen the alarm.
#[derive(Debug, PartialEq, Eq)]
pub enum AckState {
    /// Nobody has.
    Unacked,
    /// Someone has.
    Acked {
        /// Who.
        who: String,
        /// When.
        when: MediaTime,
    },
}

/// Whether an operator has seen the alarm.
pub enum AckView {
    /// Nobody has.
    Unacked,
    /// Someone has.
    Acked(Seq<char>, MediaTime),
}

impl AckState {
    /// Whether an operator has seen the alarm.
    pub open spec fn view(self) -> AckView {
        match self {
            AckState::Unacked => AckView::Unacked,
            AckState::Acked { who, when } => AckView::Acked(who@, when),
        }
    }

    /// Seen by `who`.
    pub fn acked(who: &str, when: MediaTime) -> (r: Self)
        ensures
            r@ == AckView::Acked(who@, when),
    {
        AckState::Acked { who: who.to_owned(), when }
    }

    /// Whether anyone has seen it.
    pub fn is_acked(&self) -> (r: bool)
        ensures
            r == (self@ is Acked),
    {
        match self {
            AckState::Unacked => false,
            AckState::Acked { .. } => true,
        }
    }

    fn same(&self, other: &AckState) -> (r: bool)
        ensures
            r == (self@ == other@),
    {
        match (self, other) {
            (AckState::Unacked, AckState::Unacked) => true,
            (
                AckState::Acked { who: a, when: t },
                AckState::Acked { who: b, when: u },
            ) => str_eq(a.as_str(), b.as_str()) && *t == *u,
            _ => false,
        }
    }
}

impl Clone for AckState {
    fn clone(&self) -> (r: Self)
        ensures
            r@ == self@,
    {
        match self {
            AckState::Unacked => AckState::Unacked,
            AckState::Acked { who, when } => AckState::Acked { who: who.clone(), when: *when },
        }
    }
}

/// One alarm as the engine publishes it.
#[derive(Debug, PartialEq, Eq)]
pub struct AlarmRecord {
    /// Its id.
    pub id: String,
    /// What is wrong.
    pub kind: String,
    /// How bad it is.
    pub severity: PerceivedSeverity,
    /// What it is about.
    pub scope: AlarmScope,
    /// When it was raised.
    pub raised_at: MediaTime,
    /// Whether an operator has seen it.
    pub ack: AckState,
    /// The rest of the record, as its JSON text.
    pub rest: String,
}

/// One alarm.
#[verifier::ext_equal]
pub struct RecordView {
    /// Its id.
    pub id: Seq<char>,
    /// What is wrong.
    pub kind: Seq<char>,
    /// How bad it is.
    pub severity: PerceivedSeverity,
    /// What it is about.
    pub scope: ScopeView,
    /// When it was raised.
    pub raised_at: MediaTime,
    /// Whether an operator has seen it.
    pub ack: AckView,
    /// The rest of the record.
    pub rest: Seq<char>,
}

impl AlarmRecord {
    /// The alarm.
    pub open spec fn view(self) -> RecordView {
        RecordView {
            id: self.id@,
            kind: self.kind@,
            severity: self.severity,
            scope: self.scope@,
            raised_at: self.raised_at,
            ack: self.ack@,
            rest: self.rest@,
        }
    }

    /// An alarm that nobody has seen.
    pub fn new(
        id: &str,
        kind: &str,
        severity: PerceivedSeverity,
        scope: AlarmScope,
        raised_at: MediaTime,
    ) -> (r: Self)
        ensures
            r@ == (RecordView {
                id: id@,
                kind: kind@,
                severity,
                scope: scope@,
                raised_at,
                ack: AckView::Unacked,
                rest: Seq::empty(),
            }),
    {
        let rest = String::new();
        assert(rest@ =~= Seq::<char>::empty());
        AlarmRecord {
            id: id.to_owned(),
            kind: kind.to_owned(),
            severity,
            scope,
            raised_at,
            ack: AckState::Unacked,
            rest,
        }
    }

    /// Whether the alarm is still on.
    pub fn is_active(&self) -> (r: bool)
        ensures
            r == active(self@),
    {
        match self.severity {
            PerceivedSeverity::Cleared => false,
            _ => true,
        }
    }

    fn same(&self, other: &AlarmRecord) -> (r: bool)
        ensures
            r == (self@ == other@),
    {
        str_eq(self.id.as_str(), other.id.as_str()) && str_eq(
            self.kind.as_str(),
            other.kind.as_str(),
        ) && self.severity == other.severity && self.scope.same(&other.scope) && self.raised_at
            == other.raised_at && self.ack.same(&other.ack) && str_eq(
            self.rest.as_str(),
            other.rest.as_str(),
        )
    }
}

impl Clone for AlarmRecord {
    fn clone(&self) -> (r: Self)
        ensures
            r@ == self@,
    {
        AlarmRecord {
            id: self.id.clone(),
            kind: self.kind.clone(),
            severity: self.severity,
            scope: self.scope.clone(),
            raised_at: self.raised_at,
            ack: self.ack.clone(),
            rest: self.rest.clone(),
        }
    }
}

/// Whether an alarm is still on.
pub open spec fn active(record: RecordView) -> bool {
    record.severity != PerceivedSeverity::Cleared
}

/// The name of the kind of thing that an alarm is about.
pub open spec fn scope_name(record: RecordView) -> Seq<char> {
    match record.scope {
        ScopeView::Probe(_) => "probe"@,
        ScopeView::Tile(_) => "tile"@,
        ScopeView::Group(_) => "group"@,
        ScopeView::System => "system"@,
        ScopeView::Other(_) => "other"@,
    }
}

/// The name of the kind of thing that an alarm is about.
pub fn scope_tag(record: &AlarmRecord) -> (r: &'static str)
    ensures
        r@ == scope_name(record@),
{
    match &record.scope {
        AlarmScope::Probe { .. } => "probe",
        AlarmScope::Tile { .. } => "tile",
        AlarmScope::Group { .. } => "group",
        AlarmScope::System => "system",
        AlarmScope::Other(_) => "other",
    }
}

/// A stored alarm with its version.
#[derive(Debug, PartialEq, Eq)]
pub struct VersionedAlarm {
    /// The version.
    pub version: Version,
    /// The alarm.
    pub record: AlarmRecord,
}

/// A stored alarm with its version.
#[verifier::ext_equal]
pub struct VersionedView {
    /// The version.
    pub version: nat,
    /// The alarm.
    pub record: RecordView,
}

impl VersionedAlarm {
    /// The stored alarm.
    pub open spec fn view(self) -> VersionedView {
        VersionedView { version: self.version@, record: self.record@ }
    }
}

impl Clone for VersionedAlarm {
    fn clone(&self) -> (r: Self)
        ensures
            r@ == self@,
    {
        VersionedAlarm { version: self.version, record: self.record.clone() }
    }
}

/// Which alarms are asked for. A part that is absent asks for all.
#[derive(Debug, PartialEq, Eq)]
pub struct AlarmFilter {
    /// Those at least this bad.
    pub min_severity: Option<PerceivedSeverity>,
    /// Those that are still on, or those that are over.
    pub active: Option<bool>,
    /// Those about this kind of thing.
    pub scope_kind: Option<String>,
}

/// Whether an alarm is asked for.
pub open spec fn asked_for(
    record: RecordView,
    min_severity: Option<PerceivedSeverity>,
    want_active: Option<bool>,
    scope_kind: Option<Seq<char>>,
) -> bool {
    &&& min_severity matches Some(min) ==> record.severity.rank() >= min.rank()
    &&& want_active matches Some(a) ==> active(record) == a
    &&& scope_kind matches Some(k) ==> scope_name(record) == k
}

impl AlarmFilter {
    /// Whether the filter asks for `record`.
    pub open spec fn asks_for(self, record: RecordView) -> bool {
        asked_for(record, self.min_severity, self.active, crate::text::text_opt(self.scope_kind))
    }

    /// Whether the filter asks for `record`.
    pub fn matches(&self, record: &AlarmRecord) -> (r: bool)
        ensures
            r == self.asks_for(record@),
    {
        if let Some(min) = self.min_severity {
            if record.severity.level() < min.level() {
                return false;
            }
        }
        if let Some(want) = self.active {
            if record.is_active() != want {
                return false;
            }
        }
        if let Some(scope) = &self.scope_kind {
            if !str_eq(scope_tag(record), scope.as_str()) {
                return false;
            }
        }
        true
    }
}

impl Default for AlarmFilter {
    fn default() -> (r: Self)
        ensures
            r.min_severity is None,
            r.active is None,
            r.scope_kind is None,
    {
        AlarmFilter { min_severity: None, active: None, scope_kind: None }
    }
}

/// The alarms of a list.
pub open spec fn alarm_views(list: Seq<VersionedAlarm>) -> Seq<VersionedView> {
    list.map_values(|a: VersionedAlarm| a@)
}

/// The ids of some alarms.
pub open spec fn alarm_ids(list: Seq<VersionedView>) -> Seq<Seq<char>> {
    list.map_values(|a: VersionedView| a.record.id)
}

/// The stored alarm after the engine published `record`: a new one starts at
/// the first version, a changed one moves on, and one that is the same stays.
pub open spec fn mirrored(alarms: Map<Seq<char>, VersionedView>, record: RecordView) -> VersionedView {
    if !alarms.contains_key(record.id) {
        VersionedView { version: 1, record }
    } else if alarms[record.id].record == record {
        alarms[record.id]
    } else {
        VersionedView {
            version: crate::concurrency::next_version(alarms[record.id].version),
            record,
        }
    }
}

/// The stored alarm after `who` acknowledged it.
pub open spec fn acknowledged(alarm: VersionedView, who: Seq<char>, when: MediaTime) -> VersionedView {
    VersionedView {
        version: crate::concurrency::next_version(alarm.version),
        record: RecordView { ack: AckView::Acked(who, when), ..alarm.record },
    }
}

/// Whether a refusal says that there is no alarm `id`.
pub open spec fn says_not_found(e: ControlError, id: Seq<char>) -> bool {
    e matches ControlError::NotFound { kind, id: i } && kind@ == ALARM_KIND@ && i@ == id
}

/// A store of alarms. One that keeps them elsewhere may fail, and then nothing
/// has changed.
pub trait AlarmRepository {
    /// The stored alarms by their ids.
    spec fn alarms(&self) -> Map<Seq<char>, VersionedView>;

    /// The store is one that its operations can reach.
    spec fn wf(&self) -> bool;

    /// The alarms that the filter asks for, in the order of their ids.
    fn list(&self, filter: &AlarmFilter) -> (r: Result<Vec<VersionedAlarm>, ControlError>)
        requires
            self.wf(),
        ensures
            match r {
                Ok(list) => {
                    let rows = alarm_views(list@);
                    &&& crate::table::strictly_sorted(alarm_ids(rows))
                    &&& forall|a: VersionedView| #[trigger]
                        rows.contains(a) <==> self.alarms().contains_key(a.record.id)
                            && self.alarms()[a.record.id] == a && filter.asks_for(a.record)
                },
                Err(e) => e is Repository,
            },
    ;

    /// The alarm `id`.
    fn get(&self, id: &str) -> (r: Result<VersionedAlarm, ControlError>)
        requires
            self.wf(),
        ensures
            match r {
                Ok(a) => self.alarms().contains_key(id@) && a@ == self.alarms()[id@],
                Err(e) => e is Repository || (says_not_found(e, id@) && !self.alarms().contains_key(
                    id@,
                )),
            },
    ;

    /// Takes over the record that the engine published.
    fn upsert(&mut self, record: AlarmRecord) -> (r: Result<VersionedAlarm, ControlError>)
        requires
            old(self).wf(),
        ensures
            final(self).wf(),
            match r {
                Ok(a) => {
                    &&& a@ == mirrored(old(self).alarms(), record@)
                    &&& final(self).alarms() == old(self).alarms().insert(record.id@, a@)
                },
                Err(e) => e is Repository && final(self).alarms() == old(self).alarms(),
            },
    ;

    /// Notes that `who` has seen the alarm.
    fn acknowledge(&mut self, id: &str, who: &str, when: MediaTime) -> (r: Result<
        VersionedAlarm,
        ControlError,
    >)
        requires
            old(self).wf(),
        ensures
            final(self).wf(),
            match r {
                Ok(a) => {
                    &&& old(self).alarms().contains_key(id@)
                    &&& a@ == acknowledged(old(self).alarms()[id@], who@, when)
                    &&& final(self).alarms() == old(self).alarms().insert(id@, a@)
                },
                Err(e) => {
                    &&& final(self).alarms() == old(self).alarms()
                    &&& e is Repository || (says_not_found(e, id@)
                        && !old(self).alarms().contains_key(id@))
                },
            },
    ;
}

/// A store in memory. It never fails.
#[derive(Debug)]
pub struct InMemoryAlarmStore {
    rows: Table<VersionedAlarm>,
}

impl InMemoryAlarmStore {
    /// An empty store.
    pub fn new() -> (r: Self)
        ensures
            r.wf(),
            r.alarms() == Map::<Seq<char>, VersionedView>::empty(),
    {
        let r = InMemoryAlarmStore { rows: Table::new() };
        assert(r.alarms() =~= Map::<Seq<char>, VersionedView>::empty());
        r
    }
}

impl Default for InMemoryAlarmStore {
    fn default() -> (r: Self)
        ensures
            r.wf(),
            r.alarms() == Map::<Seq<char>, VersionedView>::empty(),
    {
        InMemoryAlarmStore::new()
    }
}

fn no_alarm(id: &str) -> (r: ControlError)
    ensures
        says_not_found(r, id@),
{
    ControlError::NotFound { kind: ALARM_KIND, id: id.to_owned() }
}

impl AlarmRepository for InMemoryAlarmStore {
    closed spec fn alarms(&self) -> Map<Seq<char>, VersionedView> {
        self.rows@.map_values(|a: VersionedAlarm| a@)
    }

    closed spec fn wf(&self) -> bool {
        &&& self.rows.wf()
        &&& forall|k: Seq<char>| #[trigger]
            self.rows@.contains_key(k) ==> self.rows@[k].record.id@ == k
    }

    fn list(&self, filter: &AlarmFilter) -> (r: Result<Vec<VersionedAlarm>, ControlError>)
        ensures
            r is Ok,
    {
        let mut out: Vec<VersionedAlarm> = Vec::new();
        let mut i: usize = 0;
        proof {
            self.rows.lemma_rows();
            assert(alarm_views(out@) =~= Seq::<VersionedView>::empty());
        }
        while i < self.rows.len()
            invariant
                self.wf(),
                i <= self.rows.keys().len(),
                self.rows.keys().len() == self.rows.values().len(),
                crate::table::strictly_sorted(self.rows.keys()),
                forall|j: int|
                    0 <= j < self.rows.keys().len() ==> self.rows@.contains_key(
                        #[trigger] self.rows.keys()[j],
                    ) && self.rows@[self.rows.keys()[j]] == self.rows.values()[j],
                listed(
                    alarm_views(out@),
                    alarm_views(self.rows.values()),
                    *filter,
                    i as int,
                ),
            decreases self.rows.keys().len() - i,
        {
            let row = self.rows.value_at(i);
            let ghost all = alarm_views(self.rows.values());
            let ghost before = alarm_views(out@);
            assert(all[i as int] == row@);
            assert(self.rows@.contains_key(self.rows.keys()[i as int]));
            if filter.matches(&row.record) {
                let copy = row.clone();
                let ghost cv = copy@;
                out.push(copy);
                assert(alarm_views(out@) =~= before.push(cv));
                proof {
                    self.lemma_ids(i as int);
                    assert forall|j: int| 0 <= j < i implies crate::text::lex_lt(
                        (#[trigger] all[j]).record.id,
                        all[i as int].record.id,
                    ) by {
                        self.lemma_ids(j);
                        assert(crate::text::lex_lt(self.rows.keys()[j], self.rows.keys()[i as int]));
                    }
                    lemma_listed_push(before, all, *filter, i as int);
                }
            } else {
                proof {
                    lemma_listed_skip(before, all, *filter, i as int);
                }
            }
            i += 1;
        }
        proof {
            let rows = alarm_views(out@);
            let all = alarm_views(self.rows.values());
            assert forall|a: VersionedView| #[trigger]
                rows.contains(a) <==> self.alarms().contains_key(a.record.id)
                    && self.alarms()[a.record.id] == a && filter.asks_for(a.record) by {
                if rows.contains(a) {
                    let j = choose|j: int|
                        0 <= j < all.len() && #[trigger] all[j] == a && filter.asks_for(a.record);
                    self.lemma_ids(j);
                }
                if self.alarms().contains_key(a.record.id) && self.alarms()[a.record.id] == a
                    && filter.asks_for(a.record) {
                    let j = self.rows.lemma_find(a.record.id);
                    assert(all[j] == a);
                }
            }
        }
        Ok(out)
    }

    fn get(&self, id: &str) -> (r: Result<VersionedAlarm, ControlError>)
        ensures
            r is Ok <==> self.alarms().contains_key(id@),
    {
        match self.rows.get(id) {
            Some(row) => {
                assert(self.alarms()[id@] == row@);
                Ok(row.clone())
            },
            None => Err(no_alarm(id)),
        }
    }

    fn upsert(&mut self, record: AlarmRecord) -> (r: Result<VersionedAlarm, ControlError>)
        ensures
            r is Ok,
    {
        let ghost before = self.alarms();
        let ghost rv = record@;
        let key = record.id.clone();
        let next = match self.rows.get(key.as_str()) {
            Some(existing) => {
                assert(before.contains_key(key@) && before[key@] == existing@);
                if existing.record.same(&record) {
                    let same = existing.clone();
                    assert(before.insert(key@, same@) =~= before);
                    return Ok(same);
                }
                VersionedAlarm { version: existing.version.next(), record }
            },
            None => VersionedAlarm { version: Version::initial(), record },
        };
        let copy = next.clone();
        let ghost nv = next@;
        self.rows.insert(key, next);
        assert(self.alarms() =~= before.insert(rv.id, nv));
        Ok(copy)
    }

    fn acknowledge(&mut self, id: &str, who: &str, when: MediaTime) -> (r: Result<
        VersionedAlarm,
        ControlError,
    >)
        ensures
            r is Ok <==> old(self).alarms().contains_key(id@),
    {
        let ghost before = self.alarms();
        let next = match self.rows.get(id) {
            Some(existing) => {
                assert(before.contains_key(id@) && before[id@] == existing@);
                let mut record = existing.record.clone();
                record.ack = AckState::acked(who, when);
                VersionedAlarm { version: existing.version.next(), record }
            },
            None => {
                return Err(no_alarm(id));
            },
        };
        let copy = next.clone();
        let ghost nv = next@;
        self.rows.insert(id.to_owned(), next);
        assert(self.alarms() =~= before.insert(id@, nv));
        Ok(copy)
    }
}

impl InMemoryAlarmStore {
    /// A row stands under the id of its alarm.
    proof fn lemma_ids(self, j: int)
        requires
            self.wf(),
            0 <= j < self.rows.keys().len(),
        ensures
            alarm_views(self.rows.values()).len() == self.rows.keys().len(),
            alarm_views(self.rows.values())[j].record.id == self.rows.keys()[j],
            self.alarms().contains_key(self.rows.keys()[j]),
            self.alarms()[self.rows.keys()[j]] == alarm_views(self.rows.values())[j],
    {
        self.rows.lemma_rows();
        assert(self.rows@.contains_key(self.rows.keys()[j]));
    }
}

/// Whether `out` lists, in order, those of the first `n` alarms that the filter
/// asks for.
spec fn listed(out: Seq<VersionedView>, all: Seq<VersionedView>, filter: AlarmFilter, n: int) -> bool {
    &&& crate::table::strictly_sorted(alarm_ids(out))
    &&& forall|a: VersionedView| #[trigger] out.contains(a) <==> among(a, all, filter, n)
}

spec fn among(a: VersionedView, all: Seq<VersionedView>, filter: AlarmFilter, n: int) -> bool {
    exists|j: int| 0 <= j < n && #[trigger] all[j] == a && filter.asks_for(a.record)
}

proof fn lemma_listed_push(
    out: Seq<VersionedView>,
    all: Seq<VersionedView>,
    filter: AlarmFilter,
    n: int,
)
    requires
        0 <= n < all.len(),
        listed(out, all, filter, n),
        filter.asks_for(all[n].record),
        forall|j: int|
            0 <= j < n ==> crate::text::lex_lt((#[trigger] all[j]).record.id, all[n].record.id),
    ensures
        listed(out.push(all[n]), all, filter, n + 1),
{
    let after = out.push(all[n]);
    let ids = alarm_ids(after);
    assert forall|i: int, j: int| 0 <= i < j < ids.len() implies crate::text::lex_lt(
        #[trigger] ids[i],
        #[trigger] ids[j],
    ) by {
        assert(after[i] == out[i]);
        assert(ids[i] == alarm_ids(out)[i]);
        if j < out.len() {
            assert(after[j] == out[j]);
            assert(ids[j] == alarm_ids(out)[j]);
        } else {
            assert(out.contains(out[i]));
            assert(among(out[i], all, filter, n));
        }
    }
    assert forall|a: VersionedView| #[trigger] after.contains(a) <==> among(a, all, filter, n + 1) by {
        if after.contains(a) {
            let i = choose|i: int| 0 <= i < after.len() && after[i] == a;
            if i < out.len() {
                assert(out[i] == a);
                assert(out.contains(a));
                assert(among(a, all, filter, n));
            } else {
                assert(all[n] == a);
            }
        }
        if among(a, all, filter, n + 1) {
            let j = choose|j: int|
                0 <= j < n + 1 && #[trigger] all[j] == a && filter.asks_for(a.record);
            if j < n {
                assert(among(a, all, filter, n));
                assert(out.contains(a));
                let i = choose|i: int| 0 <= i < out.len() && out[i] == a;
                assert(after[i] == a);
            } else {
                assert(after[out.len() as int] == a);
            }
        }
    }
}

proof fn lemma_listed_skip(
    out: Seq<VersionedView>,
    all: Seq<VersionedView>,
    filter: AlarmFilter,
    n: int,
)
    requires
        0 <= n < all.len(),
        listed(out, all, filter, n),
        !filter.asks_for(all[n].record),
    ensures
        listed(out, all, filter, n + 1),
{
    assert forall|a: VersionedView| #[trigger] out.contains(a) <==> among(a, all, filter, n + 1) by {
        if among(a, all, filter, n) {
            let j = choose|j: int| 0 <= j < n && #[trigger] all[j] == a && filter.asks_for(a.record);
            assert(all[j] == a);
        }
        if among(a, all, filter, n + 1) {
            let j = choose|j: int|
                0 <= j < n + 1 && #[trigger] all[j] == a && filter.asks_for(a.record);
            assert(j < n);
            assert(among(a, all, filter, n));
        }
    }
}

// ---- Laws ------------------------------------------------------------------------

/// Publishing the same record again changes nothing, so no request that is
/// based on the version is refused for it.
pub proof fn law_same_record_keeps_the_version(
    alarms: Map<Seq<char>, VersionedView>,
    record: RecordView,
)
    ensures
        ({
            let stored = mirrored(alarms, record);
            let after = alarms.insert(record.id, stored);
            &&& mirrored(after, record) == stored
            &&& after.insert(record.id, mirrored(after, record)) == after
        }),
{
    let stored = mirrored(alarms, record);
    let after = alarms.insert(record.id, stored);
    assert(after.insert(record.id, stored) =~= after);
}

/// A changed record and an acknowledgement move the version, until the versions
/// run out.
pub proof fn law_changes_move_the_version(
    alarms: Map<Seq<char>, VersionedView>,
    record: RecordView,
    who: Seq<char>,
    when: MediaTime,
)
    requires
        alarms.contains_key(record.id),
        alarms[record.id].version < u64::MAX,
    ensures
        alarms[record.id].record != record ==> mirrored(alarms, record).version
            == alarms[record.id].version + 1,
        acknowledged(alarms[record.id], who, when).version == alarms[record.id].version + 1,
{
}

/// The engine has the last word: what it published last is what is stored, with
/// its acknowledgement.
pub proof fn law_engine_is_authoritative(
    alarms: Map<Seq<char>, VersionedView>,
    record: RecordView,
)
    ensures
        mirrored(alarms, record).record == record,
{
}

/// An acknowledgement changes who has seen the alarm, and nothing else of it.
pub proof fn law_acknowledgement_changes_the_ack_alone(
    alarm: VersionedView,
    who: Seq<char>,
    when: MediaTime,
)
    ensures
        acknowledged(alarm, who, when).record == (RecordView {
            ack: AckView::Acked(who, when),
            ..alarm.record
        }),
        active(acknowledged(alarm, who, when).record) == active(alarm.record),
{
}

/// A filter asks for the alarms that are at least as severe as it says, that are
/// active or cleared as it says, and whose scope is of the kind that it names.
pub proof fn law_filter_asks_for_what_it_names(r: RecordView, min: PerceivedSeverity, kind: Seq<char>)
    ensures
        asked_for(r, None, None, None),
        asked_for(r, Some(r.severity), None, None),
        asked_for(r, Some(PerceivedSeverity::Cleared), None, None),
        min == PerceivedSeverity::Critical ==> (asked_for(r, Some(min), None, None) <==> r.severity
            == PerceivedSeverity::Critical),
        min == PerceivedSeverity::Major ==> (asked_for(r, Some(min), None, None) <==> r.severity
            == PerceivedSeverity::Critical || r.severity == PerceivedSeverity::Major),
        min == PerceivedSeverity::Minor ==> (asked_for(r, Some(min), None, None) <==> r.severity
            == PerceivedSeverity::Critical || r.severity == PerceivedSeverity::Major || r.severity
            == PerceivedSeverity::Minor),
        min == PerceivedSeverity::Warning ==> (asked_for(r, Some(min), None, None) <==> r.severity
            != PerceivedSeverity::Cleared && r.severity != PerceivedSeverity::Indeterminate),
        min == PerceivedSeverity::Indeterminate ==> (asked_for(r, Some(min), None, None)
            <==> r.severity != PerceivedSeverity::Cleared),
        asked_for(r, None, Some(true), None) <==> r.severity != PerceivedSeverity::Cleared,
        asked_for(r, None, Some(false), None) <==> r.severity == PerceivedSeverity::Cleared,
        r.scope is Probe ==> (asked_for(r, None, None, Some(kind)) <==> kind == "probe"@),
        r.scope is Tile ==> (asked_for(r, None, None, Some(kind)) <==> kind == "tile"@),
        r.scope is Group ==> (asked_for(r, None, None, Some(kind)) <==> kind == "group"@),
        r.scope is System ==> (asked_for(r, None, None, Some(kind)) <==> kind == "system"@),
        r.scope is Other ==> (asked_for(r, None, None, Some(kind)) <==> kind == "other"@),
{
}

/// The parts of a filter are asked for together.
pub proof fn law_filter_parts_are_joined(
    r: RecordView,
    min: Option<PerceivedSeverity>,
    want: Option<bool>,
    kind: Option<Seq<char>>,
)
    ensures
        asked_for(r, min, want, kind) <==> asked_for(r, min, None, None) && asked_for(
            r,
            None,
            want,
            None,
        ) && asked_for(r, None, None, kind),
{
}

/// A new alarm starts at version one with what the engine said of it; one that
/// changed moves one version on; one that did not stays.
pub proof fn law_versions_follow_the_engine(
    alarms: Map<Seq<char>, VersionedView>,
    a: RecordView,
    b: RecordView,
)
    requires
        !alarms.contains_key(a.id),
        a.id == b.id,
        a != b,
    ensures
        ({
            let first = mirrored(alarms, a);
            let same = mirrored(alarms.insert(a.id, first), a);
            let second = mirrored(alarms.insert(a.id, first), b);
            &&& first.version == 1 && first.record == a
            &&& same == first
            &&& second.version == 2 && second.record == b
        }),
{
}

/// An acknowledgement says who and when, and moves the version on by one.
pub proof fn law_acknowledgement_says_who_and_when(
    alarm: VersionedView,
    who: Seq<char>,
    when: MediaTime,
)
    ensures
        acknowledged(alarm, who, when).record.ack == AckView::Acked(who, when),
        acknowledged(alarm, who, when).record.severity == alarm.record.severity,
        acknowledged(alarm, who, when).record.id == alarm.record.id,
        alarm.version < u64::MAX ==> acknowledged(alarm, who, when).version == alarm.version + 1,
{
}

} // verus!
