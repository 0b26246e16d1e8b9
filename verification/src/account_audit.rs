//! The record of what was done to the account: claims, leases, consents and
//! remote actions, each with who did it and when.
//!
//! Entries are appended and read, never changed or removed by a caller. The
//! store keeps the newest ones up to its capacity.

use vstd::prelude::*;

use std::collections::VecDeque;

use crate::json::{copy_json, Json, JsonView};
use crate::time::MediaTime;

pub use self::AccountAuditStore as AccountAuditRepository;

verus! {

/// The name of the collection.
pub const ACCOUNT_AUDIT_KIND: &'static str = "account-audit";

/// How many entries a store keeps unless told otherwise.
pub const DEFAULT_ACCOUNT_AUDIT_CAPACITY: usize = 10_000;

/// What was done.
#[derive(Debug, Clone, Copy, PartialEq, Eq, Hash, Structural)]
pub enum AccountAuditKind {
    /// A machine was claimed.
    Claim,
    /// A device was transferred.
    Transfer,
    /// A lease was granted.
    LeaseGrant,
    /// A lease was installed here.
    LeaseInstall,
    /// The enforcement level changed.
    EnforcementChange,
    /// The telemetry consent changed.
    ConsentChange,
    /// The relay was switched on or off.
    RelayToggle,
    /// A support pack was exported.
    ContextPackExport,
    /// A data request was approved here.
    DataRequestApprove,
    /// A data request was denied here.
    DataRequestDeny,
    /// An action was requested.
    ActionRequested,
    /// A requested action was cancelled here.
    ActionCancelled,
    /// A requested action was carried out.
    ActionExecuted,
}

/// One entry.
#[derive(Debug, PartialEq, Eq)]
pub struct AccountAuditEntry {
    /// Its number.
    pub seq: u64,
    /// When it was recorded, in nanoseconds of the media clock.
    pub at_nanos: i64,
    /// Who did it.
    pub actor: String,
    /// What was done.
    pub kind: AccountAuditKind,
    /// What else is to be said of it.
    pub detail: Option<Json>,
}

/// One entry.
#[verifier::ext_equal]
pub struct EntryView {
    /// Its number.
    pub seq: u64,
    /// When it was recorded.
    pub at_nanos: i64,
    /// Who did it.
    pub actor: Seq<char>,
    /// What was done.
    pub kind: AccountAuditKind,
    /// What else is to be said of it.
    pub detail: Option<JsonView>,
}

/// What an optional detail says.
pub open spec fn detail_view(detail: Option<Json>) -> Option<JsonView> {
    match detail {
        Some(j) => Some(j@),
        None => None,
    }
}

impl AccountAuditEntry {
    /// The entry.
    pub open spec fn view(self) -> EntryView {
        EntryView {
            seq: self.seq,
            at_nanos: self.at_nanos,
            actor: self.actor@,
            kind: self.kind,
            detail: detail_view(self.detail),
        }
    }
}

impl Clone for AccountAuditEntry {
    fn clone(&self) -> (r: Self)
        ensures
            r@ == self@,
    {
        AccountAuditEntry {
            seq: self.seq,
            at_nanos: self.at_nanos,
            actor: self.actor.clone(),
            kind: self.kind,
            detail: match &self.detail {
                Some(j) => Some(copy_json(j)),
                None => None,
            },
        }
    }
}

/// The entries of a list.
pub open spec fn entry_views(entries: Seq<AccountAuditEntry>) -> Seq<EntryView> {
    entries.map_values(|e: AccountAuditEntry| e@)
}

/// Some entries, and where to go on.
#[derive(Debug, PartialEq, Eq)]
pub struct AccountAuditPage {
    /// The entries, oldest first.
    pub entries: Vec<AccountAuditEntry>,
    /// The cursor of the next page, where there is one.
    pub next_cursor: Option<u64>,
}

/// What a store holds.
#[verifier::ext_equal]
pub struct AuditLog {
    /// How many entries it keeps.
    pub capacity: nat,
    /// The entries, oldest first.
    pub entries: Seq<EntryView>,
    /// The number of the next entry.
    pub next_seq: u64,
}

/// The number after `seq`. The last one is its own successor.
pub open spec fn next_seq(seq: u64) -> u64 {
    if seq < u64::MAX {
        (seq + 1) as u64
    } else {
        seq
    }
}

/// The newest entries, up to `capacity` of them.
pub open spec fn newest(entries: Seq<EntryView>, capacity: nat) -> Seq<EntryView> {
    if entries.len() > capacity {
        entries.skip(entries.len() - capacity)
    } else {
        entries
    }
}

/// The store after an entry was appended.
pub open spec fn recorded(
    log: AuditLog,
    actor: Seq<char>,
    kind: AccountAuditKind,
    at_nanos: i64,
    detail: Option<JsonView>,
) -> AuditLog {
    AuditLog {
        entries: newest(
            log.entries.push(EntryView { seq: log.next_seq, at_nanos, actor, kind, detail }),
            log.capacity,
        ),
        next_seq: next_seq(log.next_seq),
        ..log
    }
}

/// Whether an entry lies behind the cursor and is of the kind that is asked for.
pub open spec fn asked_for(
    e: EntryView,
    cursor: Option<u64>,
    filter: Option<AccountAuditKind>,
) -> bool {
    &&& cursor matches Some(c) ==> e.seq > c
    &&& filter matches Some(k) ==> e.kind == k
}

/// The entries behind the cursor that are of the kind that is asked for.
pub open spec fn matching(
    entries: Seq<EntryView>,
    cursor: Option<u64>,
    filter: Option<AccountAuditKind>,
) -> Seq<EntryView>
    decreases entries.len(),
{
    if entries.len() == 0 {
        Seq::empty()
    } else {
        let before = matching(entries.drop_last(), cursor, filter);
        if asked_for(entries.last(), cursor, filter) {
            before.push(entries.last())
        } else {
            before
        }
    }
}

/// How many entries a page holds at most: one at least.
pub open spec fn page_size(limit: nat) -> nat {
    if limit == 0 {
        1
    } else {
        limit
    }
}

/// Whether a page is the one that is asked for: the oldest of the matching
/// entries, and a cursor where more of them are left.
pub open spec fn is_page(
    page: AccountAuditPage,
    entries: Seq<EntryView>,
    cursor: Option<u64>,
    filter: Option<AccountAuditKind>,
    limit: nat,
) -> bool {
    let all = matching(entries, cursor, filter);
    let n = page_size(limit);
    if all.len() > n {
        &&& entry_views(page.entries@) == all.take(n as int)
        &&& page.next_cursor == Some(all[n - 1].seq)
    } else {
        &&& entry_views(page.entries@) == all
        &&& page.next_cursor is None
    }
}

/// The numbers of some entries ascend, until the last number, which is given
/// again and again.
pub open spec fn numbers_ascend(entries: Seq<EntryView>) -> bool {
    forall|i: int, j: int|
        0 <= i < j < entries.len() ==> (#[trigger] entries[i]).seq < (#[trigger] entries[j]).seq
            || entries[j].seq == u64::MAX
}

/// The numbers of the entries ascend, and the next one is behind them all, until
/// the numbers run out.
pub open spec fn numbered(log: AuditLog) -> bool {
    &&& numbers_ascend(log.entries)
    &&& forall|i: int|
        0 <= i < log.entries.len() ==> (#[trigger] log.entries[i]).seq < log.next_seq
            || log.next_seq == u64::MAX
}

/// An append-only store of account entries. There is no way to change or to
/// remove one.
pub trait AccountAuditStore {
    /// What the store holds.
    spec fn log(&self) -> AuditLog;

    /// The store is one that its operations can reach.
    spec fn wf(&self) -> bool;

    /// Appends an entry. The number that it got.
    fn record(
        &mut self,
        actor: &str,
        kind: AccountAuditKind,
        at: MediaTime,
        detail: Option<Json>,
    ) -> (r: u64)
        requires
            old(self).wf(),
        ensures
            final(self).wf(),
            numbered(final(self).log()),
            r == old(self).log().next_seq,
            final(self).log() == recorded(
                old(self).log(),
                actor@,
                kind,
                at@ as i64,
                detail_view(detail),
            ),
    ;

    /// The oldest entries behind the cursor, of the kind that is asked for, at
    /// most `limit` of them but one at least.
    fn page(&self, cursor: Option<u64>, filter: Option<AccountAuditKind>, limit: usize) -> (r:
        AccountAuditPage)
        requires
            self.wf(),
        ensures
            is_page(r, self.log().entries, cursor, filter, limit as nat),
            numbers_ascend(entry_views(r.entries@)),
    ;
}

/// A store in memory.
#[derive(Debug)]
pub struct InMemoryAccountAudit {
    capacity: usize,
    entries: VecDeque<AccountAuditEntry>,
    next_seq: u64,
}

impl InMemoryAccountAudit {
    /// An empty store with the default capacity.
    pub fn new() -> (r: Self)
        ensures
            r.wf(),
            r.log() == (AuditLog {
                capacity: DEFAULT_ACCOUNT_AUDIT_CAPACITY as nat,
                entries: Seq::empty(),
                next_seq: 0,
            }),
    {
        InMemoryAccountAudit::with_capacity(DEFAULT_ACCOUNT_AUDIT_CAPACITY)
    }

    /// An empty store that keeps the newest `capacity` entries, but one at
    /// least.
    pub fn with_capacity(capacity: usize) -> (r: Self)
        ensures
            r.wf(),
            r.log() == (AuditLog {
                capacity: page_size(capacity as nat),
                entries: Seq::empty(),
                next_seq: 0,
            }),
    {
        let capacity: usize = if capacity == 0 {
            1
        } else {
            capacity
        };
        let r = InMemoryAccountAudit { capacity, entries: VecDeque::new(), next_seq: 0 };
        assert(r.log().entries =~= Seq::<EntryView>::empty());
        r
    }

    /// A store that its operations can reach holds no more than it may, and its
    /// entries are numbered.
    pub proof fn lemma_wf(self)
        requires
            self.wf(),
        ensures
            1 <= self.log().capacity,
            self.log().entries.len() <= self.log().capacity,
            numbered(self.log()),
    {
    }
}

impl Default for InMemoryAccountAudit {
    fn default() -> (r: Self)
        ensures
            r.wf(),
            r.log() == (AuditLog {
                capacity: DEFAULT_ACCOUNT_AUDIT_CAPACITY as nat,
                entries: Seq::empty(),
                next_seq: 0,
            }),
    {
        InMemoryAccountAudit::new()
    }
}

impl AccountAuditStore for InMemoryAccountAudit {
    closed spec fn log(&self) -> AuditLog {
        AuditLog {
            capacity: self.capacity as nat,
            entries: entry_views(self.entries@),
            next_seq: self.next_seq,
        }
    }

    closed spec fn wf(&self) -> bool {
        &&& 1 <= self.capacity
        &&& self.entries@.len() <= self.capacity
        &&& numbered(self.log())
    }

    fn record(
        &mut self,
        actor: &str,
        kind: AccountAuditKind,
        at: MediaTime,
        detail: Option<Json>,
    ) -> (r: u64) {
        let ghost before = self.log();
        let ghost d = detail_view(detail);
        proof {
            at.lemma_range();
        }
        let seq: u64 = self.next_seq;
        self.next_seq = seq.saturating_add(1);
        let entry = AccountAuditEntry {
            seq,
            at_nanos: at.as_nanos(),
            actor: actor.to_owned(),
            kind,
            detail,
        };
        let ghost ev = entry@;
        self.entries.push_back(entry);
        assert(entry_views(self.entries@) =~= before.entries.push(ev));
        let ghost pushed = self.entries@;
        if self.entries.len() > self.capacity {
            self.entries.pop_front();
            assert(self.entries@ =~= pushed.skip(1));
            assert(entry_views(self.entries@) =~= entry_views(pushed).skip(1));
        }
        assert(self.log() =~= recorded(before, actor@, kind, at@ as i64, d));
        proof {
            lemma_recorded_is_numbered(before, actor@, kind, at@ as i64, d);
        }
        seq
    }

    fn page(&self, cursor: Option<u64>, filter: Option<AccountAuditKind>, limit: usize) -> (r:
        AccountAuditPage) {
        let limit: usize = if limit == 0 {
            1
        } else {
            limit
        };
        let ghost rows = entry_views(self.entries@);
        let mut entries: Vec<AccountAuditEntry> = Vec::new();
        let mut more = false;
        let mut i: usize = 0;
        assert(rows.take(0) =~= Seq::<EntryView>::empty());
        assert(entry_views(entries@) =~= Seq::<EntryView>::empty());
        while i < self.entries.len()
            invariant
                i <= self.entries@.len(),
                1 <= limit,
                rows == entry_views(self.entries@),
                more ==> matching(rows.take(i as int), cursor, filter).len() > limit,
                !more ==> matching(rows.take(i as int), cursor, filter).len() <= limit,
                entry_views(entries@) == (if more {
                    matching(rows.take(i as int), cursor, filter).take(limit as int)
                } else {
                    matching(rows.take(i as int), cursor, filter)
                }),
            decreases self.entries@.len() - i,
        {
            let ghost seen = matching(rows.take(i as int), cursor, filter);
            let e = &self.entries[i];
            assert(rows.take(i + 1).drop_last() =~= rows.take(i as int));
            assert(rows.take(i + 1).last() == e@);
            let behind = match cursor {
                Some(c) => e.seq > c,
                None => true,
            };
            let of_kind = match filter {
                Some(k) => e.kind == k,
                None => true,
            };
            if behind && of_kind {
                let ghost after = seen.push(e@);
                assert(matching(rows.take(i + 1), cursor, filter) == after);
                if entries.len() < limit {
                    assert(entry_views(entries@).len() == entries@.len());
                    assert(!more);
                    let ghost old_entries = entries@;
                    let copy = e.clone();
                    let ghost cv = copy@;
                    entries.push(copy);
                    assert(entry_views(entries@) =~= entry_views(old_entries).push(cv));
                } else {
                    if !more {
                        assert(seen =~= seen.take(limit as int));
                    }
                    assert(after.take(limit as int) =~= seen.take(limit as int));
                    more = true;
                }
            }
            i += 1;
        }
        assert(rows.take(i as int) =~= rows);
        let next_cursor = if more {
            let n: usize = entries.len();
            assert(entry_views(entries@)[n - 1] == entries@[n - 1]@);
            Some(entries[n - 1].seq)
        } else {
            None
        };
        proof {
            lemma_matching_ascends(rows, cursor, filter);
        }
        AccountAuditPage { entries, next_cursor }
    }
}

/// An appended entry is numbered.
proof fn lemma_recorded_is_numbered(
    log: AuditLog,
    actor: Seq<char>,
    kind: AccountAuditKind,
    at_nanos: i64,
    detail: Option<JsonView>,
)
    requires
        numbered(log),
    ensures
        numbered(recorded(log, actor, kind, at_nanos, detail)),
{
    let after = recorded(log, actor, kind, at_nanos, detail);
    let pushed = log.entries.push(
        EntryView { seq: log.next_seq, at_nanos, actor, kind, detail },
    );
    let cut = pushed.len() - after.entries.len();
    assert forall|i: int, j: int| 0 <= i < j < after.entries.len() implies (
    #[trigger] after.entries[i]).seq < (#[trigger] after.entries[j]).seq || after.entries[j].seq
        == u64::MAX by {
        assert(after.entries[i] == pushed[i + cut]);
        assert(after.entries[j] == pushed[j + cut]);
    }
    assert forall|i: int| 0 <= i < after.entries.len() implies (#[trigger] after.entries[i]).seq
        < after.next_seq || after.next_seq == u64::MAX by {
        assert(after.entries[i] == pushed[i + cut]);
    }
}

/// What is asked for ascends where the entries do.
proof fn lemma_matching_ascends(
    entries: Seq<EntryView>,
    cursor: Option<u64>,
    filter: Option<AccountAuditKind>,
)
    requires
        numbers_ascend(entries),
    ensures
        numbers_ascend(matching(entries, cursor, filter)),
    decreases entries.len(),
{
    if entries.len() > 0 {
        let fore = entries.drop_last();
        assert(numbers_ascend(fore)) by {
            assert forall|i: int, j: int| 0 <= i < j < fore.len() implies (#[trigger] fore[i]).seq
                < (#[trigger] fore[j]).seq || fore[j].seq == u64::MAX by {
                assert(fore[i] == entries[i] && fore[j] == entries[j]);
            }
        }
        lemma_matching_ascends(fore, cursor, filter);
        let before = matching(fore, cursor, filter);
        let all = matching(entries, cursor, filter);
        assert forall|i: int, j: int| 0 <= i < j < all.len() implies (#[trigger] all[i]).seq < (
        #[trigger] all[j]).seq || all[j].seq == u64::MAX by {
            if j < before.len() {
                assert(all[i] == before[i] && all[j] == before[j]);
            } else {
                assert(all[i] == before[i]);
                let at = lemma_matching_from(fore, cursor, filter, i);
                assert(fore[at] == entries[at]);
                assert(entries[at].seq < entries[entries.len() - 1].seq || entries[entries.len()
                    - 1].seq == u64::MAX);
            }
        }
    }
}

// ---- Laws ------------------------------------------------------------------------

/// The numbers of the entries grow, and the next one is behind them all.
pub open spec fn ordered(log: AuditLog) -> bool {
    &&& forall|i: int, j: int|
        0 <= i < j < log.entries.len() ==> (#[trigger] log.entries[i]).seq < (
        #[trigger] log.entries[j]).seq
    &&& forall|i: int| 0 <= i < log.entries.len() ==> (#[trigger] log.entries[i]).seq < log.next_seq
}

/// Every entry gets a number of its own, above those of all entries before it,
/// until the numbers run out.
pub proof fn law_numbers_grow(
    log: AuditLog,
    actor: Seq<char>,
    kind: AccountAuditKind,
    at_nanos: i64,
    detail: Option<JsonView>,
)
    requires
        numbered(log),
        log.next_seq < u64::MAX,
    ensures
        ordered(log),
        ordered(recorded(log, actor, kind, at_nanos, detail)),
        recorded(log, actor, kind, at_nanos, detail).next_seq > log.next_seq,
{
    let after = recorded(log, actor, kind, at_nanos, detail);
    let pushed = log.entries.push(
        EntryView { seq: log.next_seq, at_nanos, actor, kind, detail },
    );
    let cut = pushed.len() - after.entries.len();
    assert forall|i: int, j: int| 0 <= i < j < after.entries.len() implies (
    #[trigger] after.entries[i]).seq < (#[trigger] after.entries[j]).seq by {
        assert(after.entries[i] == pushed[i + cut]);
        assert(after.entries[j] == pushed[j + cut]);
    }
    assert forall|i: int| 0 <= i < after.entries.len() implies (#[trigger] after.entries[i]).seq
        < after.next_seq by {
        assert(after.entries[i] == pushed[i + cut]);
    }
}

/// An appended entry is there, last, and every other entry is one that was
/// there before, unchanged and in its place.
pub proof fn law_append_only(
    log: AuditLog,
    actor: Seq<char>,
    kind: AccountAuditKind,
    at_nanos: i64,
    detail: Option<JsonView>,
)
    requires
        log.capacity >= 1,
    ensures
        ({
            let after = recorded(log, actor, kind, at_nanos, detail).entries;
            &&& after.len() >= 1
            &&& after.last() == (EntryView { seq: log.next_seq, at_nanos, actor, kind, detail })
            &&& after.drop_last().is_suffix_of(log.entries)
            &&& after.len() <= log.capacity || after.len() == log.entries.len() + 1
        }),
{
    let pushed = log.entries.push(
        EntryView { seq: log.next_seq, at_nanos, actor, kind, detail },
    );
    let after = recorded(log, actor, kind, at_nanos, detail).entries;
    let cut = pushed.len() - after.len();
    assert(after =~= pushed.skip(cut));
    assert(after.drop_last() =~= log.entries.skip(cut));
}

/// A store never holds more than its capacity.
pub proof fn law_capacity_bounds_the_store(
    log: AuditLog,
    actor: Seq<char>,
    kind: AccountAuditKind,
    at_nanos: i64,
    detail: Option<JsonView>,
)
    requires
        log.entries.len() <= log.capacity,
    ensures
        recorded(log, actor, kind, at_nanos, detail).entries.len() <= log.capacity,
        recorded(log, actor, kind, at_nanos, detail).capacity == log.capacity,
{
}

/// What is asked for is an entry of the log.
proof fn lemma_matching_from(
    entries: Seq<EntryView>,
    cursor: Option<u64>,
    filter: Option<AccountAuditKind>,
    k: int,
) -> (i: int)
    requires
        0 <= k < matching(entries, cursor, filter).len(),
    ensures
        0 <= i < entries.len(),
        entries[i] == matching(entries, cursor, filter)[k],
        asked_for(entries[i], cursor, filter),
    decreases entries.len(),
{
    let before = matching(entries.drop_last(), cursor, filter);
    if k < before.len() {
        let i = lemma_matching_from(entries.drop_last(), cursor, filter, k);
        assert(entries.drop_last()[i] == entries[i]);
        i
    } else {
        entries.len() - 1
    }
}

/// Nothing lies behind a cursor that no entry exceeds.
proof fn lemma_nothing_behind(
    entries: Seq<EntryView>,
    cursor: u64,
    filter: Option<AccountAuditKind>,
)
    requires
        forall|i: int| 0 <= i < entries.len() ==> (#[trigger] entries[i]).seq <= cursor,
    ensures
        matching(entries, Some(cursor), filter).len() == 0,
    decreases entries.len(),
{
    if entries.len() > 0 {
        assert forall|i: int| 0 <= i < entries.drop_last().len() implies (
        #[trigger] entries.drop_last()[i]).seq <= cursor by {
            assert(entries.drop_last()[i] == entries[i]);
        }
        lemma_nothing_behind(entries.drop_last(), cursor, filter);
        assert(entries.last().seq <= cursor) by {
            assert(entries[entries.len() - 1].seq <= cursor);
        }
    }
}

/// Pages follow on each other without a gap and without a repetition: what lies
/// behind the cursor of a page is what the page left over.
pub proof fn law_pages_follow_on(
    entries: Seq<EntryView>,
    cursor: Option<u64>,
    filter: Option<AccountAuditKind>,
    n: int,
)
    requires
        forall|i: int, j: int|
            0 <= i < j < entries.len() ==> (#[trigger] entries[i]).seq < (
            #[trigger] entries[j]).seq,
        0 < n <= matching(entries, cursor, filter).len(),
    ensures
        matching(entries, cursor, filter).take(n) + matching(
            entries,
            Some(matching(entries, cursor, filter)[n - 1].seq),
            filter,
        ) == matching(entries, cursor, filter),
    decreases entries.len(),
{
    let all = matching(entries, cursor, filter);
    let c = all[n - 1].seq;
    let rest = matching(entries, Some(c), filter);
    let fore = entries.drop_last();
    let last = entries.last();
    assert forall|i: int, j: int| 0 <= i < j < fore.len() implies (#[trigger] fore[i]).seq < (
    #[trigger] fore[j]).seq by {
        assert(fore[i] == entries[i] && fore[j] == entries[j]);
    }
    let before = matching(fore, cursor, filter);
    if n <= before.len() {
        law_pages_follow_on(fore, cursor, filter, n);
        assert(all[n - 1] == before[n - 1]);
        let left = matching(fore, Some(c), filter);
        assert(before.take(n) + left =~= before);
        let at = lemma_matching_from(fore, cursor, filter, n - 1);
        assert(fore[at] == entries[at]);
        assert(entries[at].seq < entries[entries.len() - 1].seq);
        if asked_for(last, cursor, filter) {
            assert(asked_for(last, Some(c), filter));
            assert(all =~= before.push(last));
            assert(rest =~= left.push(last));
            assert(all.take(n) =~= before.take(n));
        } else {
            assert(!asked_for(last, Some(c), filter)) by {
                if filter is None || last.kind == filter->0 {
                    assert(asked_for(fore[at], cursor, filter));
                    assert(cursor is Some && last.seq <= cursor->0);
                }
            }
            assert(all =~= before);
            assert(rest =~= left);
        }
        assert(all.take(n) + rest =~= all);
    } else {
        assert(all =~= before.push(last));
        assert(n == all.len());
        assert(c == last.seq);
        assert forall|i: int| 0 <= i < entries.len() implies (#[trigger] entries[i]).seq <= c by {
            if i < entries.len() - 1 {
                assert(entries[i].seq < entries[entries.len() - 1].seq);
            }
        }
        lemma_nothing_behind(entries, c, filter);
        assert(rest =~= Seq::<EntryView>::empty());
        assert(all.take(n) + rest =~= all);
    }
}

/// Where a walk stands before its `i`th page: at its start, or where the page
/// before says to go on.
pub open spec fn cursor_before(
    pages: Seq<AccountAuditPage>,
    cursor: Option<u64>,
    i: int,
) -> Option<u64> {
    if i <= 0 {
        cursor
    } else {
        pages[i - 1].next_cursor
    }
}

/// The pages of a walk, in order: each is the one that is asked for with the
/// cursor of the page before, which has one.
pub open spec fn walk(
    pages: Seq<AccountAuditPage>,
    entries: Seq<EntryView>,
    cursor: Option<u64>,
    filter: Option<AccountAuditKind>,
    limit: nat,
) -> bool {
    &&& forall|i: int|
        0 <= i < pages.len() ==> is_page(
            #[trigger] pages[i],
            entries,
            cursor_before(pages, cursor, i),
            filter,
            limit,
        )
    &&& forall|i: int| 0 <= i < pages.len() - 1 ==> (#[trigger] pages[i]).next_cursor is Some
}

/// What the pages of a walk hold together.
pub open spec fn walked(pages: Seq<AccountAuditPage>) -> Seq<EntryView>
    decreases pages.len(),
{
    if pages.len() == 0 {
        Seq::empty()
    } else {
        walked(pages.drop_last()) + entry_views(pages.last().entries@)
    }
}

/// What the pages of a walk hold and what lies behind the last one is what was
/// asked for at its start.
proof fn lemma_walk(
    pages: Seq<AccountAuditPage>,
    entries: Seq<EntryView>,
    cursor: Option<u64>,
    filter: Option<AccountAuditKind>,
    limit: nat,
)
    requires
        pages.len() > 0,
        walk(pages, entries, cursor, filter, limit),
        forall|i: int, j: int|
            0 <= i < j < entries.len() ==> (#[trigger] entries[i]).seq < (
            #[trigger] entries[j]).seq,
    ensures
        pages.last().next_cursor is None ==> walked(pages) == matching(entries, cursor, filter),
        pages.last().next_cursor is Some ==> {
            let rest = matching(entries, pages.last().next_cursor, filter);
            &&& walked(pages) + rest == matching(entries, cursor, filter)
            &&& rest.len() > 0
            &&& walked(pages).len() >= pages.len()
        },
        pages.len() <= matching(entries, cursor, filter).len() || pages.len() == 1,
    decreases pages.len(),
{
    let n = pages.len();
    let last = pages[n - 1];
    let at = cursor_before(pages, cursor, n - 1);
    let all = matching(entries, at, filter);
    let size = page_size(limit);
    assert(is_page(last, entries, at, filter, limit));
    let fore = pages.drop_last();
    if n > 1 {
        assert(walk(fore, entries, cursor, filter, limit)) by {
            assert forall|i: int| 0 <= i < fore.len() implies is_page(
                #[trigger] fore[i],
                entries,
                cursor_before(fore, cursor, i),
                filter,
                limit,
            ) by {
                assert(fore[i] == pages[i]);
                if i > 0 {
                    assert(fore[i - 1] == pages[i - 1]);
                }
            }
            assert forall|i: int| 0 <= i < fore.len() - 1 implies (
            #[trigger] fore[i]).next_cursor is Some by {
                assert(fore[i] == pages[i]);
            }
        }
        lemma_walk(fore, entries, cursor, filter, limit);
        assert(fore.last() == pages[n - 2]);
        assert(pages[n - 2].next_cursor is Some);
        assert(walked(fore) + all == matching(entries, cursor, filter));
    } else {
        assert(walked(fore) =~= Seq::<EntryView>::empty());
        assert(walked(fore) + all =~= matching(entries, cursor, filter));
    }
    if all.len() > size {
        law_pages_follow_on(entries, at, filter, size as int);
        let rest = matching(entries, last.next_cursor, filter);
        assert(entry_views(last.entries@) + rest == all);
        assert(walked(pages) + rest =~= walked(fore) + (entry_views(last.entries@) + rest));
        assert(all.take(size as int).len() == size);
        assert((all.take(size as int) + rest).len() == all.len());
    }
}

/// A reader that starts anywhere and follows the cursors until there is none has
/// seen every entry that was asked for exactly once, in the order of their
/// numbers, and was done after no more pages than there were entries, or after
/// one. Once the last number is given a second time the store tells no two
/// entries with it apart, so the numbers differ here.
pub proof fn law_walk_sees_every_entry_once(
    pages: Seq<AccountAuditPage>,
    entries: Seq<EntryView>,
    cursor: Option<u64>,
    filter: Option<AccountAuditKind>,
    limit: nat,
)
    requires
        pages.len() > 0,
        walk(pages, entries, cursor, filter, limit),
        forall|i: int, j: int|
            0 <= i < j < entries.len() ==> (#[trigger] entries[i]).seq < (
            #[trigger] entries[j]).seq,
    ensures
        pages.len() <= matching(entries, cursor, filter).len() || pages.len() == 1,
        pages.last().next_cursor is None ==> {
            &&& walked(pages) == matching(entries, cursor, filter)
            &&& forall|i: int, j: int|
                0 <= i < j < walked(pages).len() ==> (#[trigger] walked(pages)[i]).seq < (
                #[trigger] walked(pages)[j]).seq
            &&& forall|e: EntryView| #[trigger]
                walked(pages).contains(e) <==> entries.contains(e) && asked_for(e, cursor, filter)
        },
{
    lemma_walk(pages, entries, cursor, filter, limit);
    lemma_matching_strictly(entries, cursor, filter);
    let all = matching(entries, cursor, filter);
    assert forall|e: EntryView| #[trigger]
        all.contains(e) <==> entries.contains(e) && asked_for(e, cursor, filter) by {
        lemma_matching_holds(entries, cursor, filter, e);
    }
}

/// What is asked for has ascending numbers where the entries have.
proof fn lemma_matching_strictly(
    entries: Seq<EntryView>,
    cursor: Option<u64>,
    filter: Option<AccountAuditKind>,
)
    requires
        forall|i: int, j: int|
            0 <= i < j < entries.len() ==> (#[trigger] entries[i]).seq < (
            #[trigger] entries[j]).seq,
    ensures
        forall|i: int, j: int|
            0 <= i < j < matching(entries, cursor, filter).len() ==> (#[trigger] matching(
                entries,
                cursor,
                filter,
            )[i]).seq < (#[trigger] matching(entries, cursor, filter)[j]).seq,
    decreases entries.len(),
{
    if entries.len() > 0 {
        let fore = entries.drop_last();
        assert forall|i: int, j: int| 0 <= i < j < fore.len() implies (#[trigger] fore[i]).seq < (
        #[trigger] fore[j]).seq by {
            assert(fore[i] == entries[i] && fore[j] == entries[j]);
        }
        lemma_matching_strictly(fore, cursor, filter);
        let before = matching(fore, cursor, filter);
        let all = matching(entries, cursor, filter);
        assert forall|i: int, j: int| 0 <= i < j < all.len() implies (#[trigger] all[i]).seq < (
        #[trigger] all[j]).seq by {
            assert(all[i] == before[i]);
            if j < before.len() {
                assert(all[j] == before[j]);
            } else {
                let at = lemma_matching_from(fore, cursor, filter, i);
                assert(fore[at] == entries[at]);
                assert(entries[at].seq < entries[entries.len() - 1].seq);
            }
        }
    }
}

/// What is asked for is exactly the entries that are.
proof fn lemma_matching_holds(
    entries: Seq<EntryView>,
    cursor: Option<u64>,
    filter: Option<AccountAuditKind>,
    e: EntryView,
)
    ensures
        matching(entries, cursor, filter).contains(e) <==> entries.contains(e) && asked_for(
            e,
            cursor,
            filter,
        ),
    decreases entries.len(),
{
    let all = matching(entries, cursor, filter);
    if all.contains(e) {
        let k = choose|k: int| 0 <= k < all.len() && all[k] == e;
        let i = lemma_matching_from(entries, cursor, filter, k);
        assert(entries[i] == e);
    }
    if entries.contains(e) && asked_for(e, cursor, filter) {
        let i = choose|i: int| 0 <= i < entries.len() && entries[i] == e;
        let before = matching(entries.drop_last(), cursor, filter);
        if i == entries.len() - 1 {
            assert(all[before.len() as int] == e);
        } else {
            assert(entries.drop_last()[i] == e);
            lemma_matching_holds(entries.drop_last(), cursor, filter, e);
            let k = choose|k: int| 0 <= k < before.len() && before[k] == e;
            assert(all[k] == e);
        }
    }
}

/// What is recorded is the newest entry, as it was given, under the next number; where
/// the store is full the oldest entry goes for it.
pub proof fn law_recorded_entry_is_the_newest(
    log: AuditLog,
    actor: Seq<char>,
    kind: AccountAuditKind,
    at_nanos: i64,
    detail: Option<JsonView>,
)
    requires
        1 <= log.capacity,
        log.entries.len() <= log.capacity,
        log.next_seq < u64::MAX,
    ensures
        ({
            let after = recorded(log, actor, kind, at_nanos, detail);
            &&& after.entries.last() == (EntryView {
                seq: log.next_seq,
                at_nanos,
                actor,
                kind,
                detail,
            })
            &&& after.next_seq == log.next_seq + 1
            &&& log.entries.len() < log.capacity ==> after.entries.drop_last() == log.entries
            &&& log.entries.len() == log.capacity ==> after.entries.drop_last()
                == log.entries.drop_first()
        }),
{
    let after = recorded(log, actor, kind, at_nanos, detail);
    if log.entries.len() < log.capacity {
        assert(after.entries.drop_last() =~= log.entries);
    } else {
        assert(after.entries.drop_last() =~= log.entries.drop_first());
    }
}

/// A page holds entries behind its cursor and of its kind alone, no more than its
/// limit; and where no further page follows it holds every such entry.
pub proof fn law_page_holds_what_was_asked_for(
    page: AccountAuditPage,
    entries: Seq<EntryView>,
    cursor: Option<u64>,
    filter: Option<AccountAuditKind>,
    limit: nat,
    e: EntryView,
)
    requires
        is_page(page, entries, cursor, filter, limit),
        1 <= limit,
    ensures
        entry_views(page.entries@).len() <= limit,
        entry_views(page.entries@).contains(e) ==> {
            &&& entries.contains(e)
            &&& cursor is Some ==> e.seq > cursor->0
            &&& filter is Some ==> e.kind == filter->0
        },
        page.next_cursor is None && entries.contains(e) && (cursor is Some ==> e.seq > cursor->0)
            && (filter is Some ==> e.kind == filter->0) ==> entry_views(page.entries@).contains(e),
        page.next_cursor is Some ==> entry_views(page.entries@).len() == limit && page.next_cursor
            == Some(entry_views(page.entries@).last().seq),
{
    let all = matching(entries, cursor, filter);
    lemma_matching_is_asked_for(entries, cursor, filter, e);
    if entry_views(page.entries@).contains(e) {
        let k = choose|k: int|
            0 <= k < entry_views(page.entries@).len() && entry_views(page.entries@)[k] == e;
        assert(all[k] == e);
    }
}

/// The matching entries are those that are asked for.
proof fn lemma_matching_is_asked_for(
    entries: Seq<EntryView>,
    cursor: Option<u64>,
    filter: Option<AccountAuditKind>,
    e: EntryView,
)
    ensures
        matching(entries, cursor, filter).contains(e) <==> entries.contains(e) && asked_for(
            e,
            cursor,
            filter,
        ),
    decreases entries.len(),
{
    if entries.len() > 0 {
        let init = entries.drop_last();
        let before = matching(init, cursor, filter);
        lemma_matching_is_asked_for(init, cursor, filter, e);
        assert(entries =~= init.push(entries.last()));
        if init.contains(e) {
            let k = choose|k: int| 0 <= k < init.len() && init[k] == e;
            assert(entries[k] == e);
        }
        if asked_for(entries.last(), cursor, filter) {
            let now = matching(entries, cursor, filter);
            assert(now[before.len() as int] == entries.last());
            if before.contains(e) {
                let k = choose|k: int| 0 <= k < before.len() && before[k] == e;
                assert(now[k] == e);
            }
        }
    }
}

/// A store holds ten thousand entries unless it is told otherwise, and one at least.
pub proof fn law_default_capacity(capacity: nat)
    ensures
        DEFAULT_ACCOUNT_AUDIT_CAPACITY == 10_000,
        page_size(0) == 1,
        1 <= capacity ==> page_size(capacity) == capacity,
{
}

} // verus!
