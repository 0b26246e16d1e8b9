//! Optimistic concurrency and the deduplication of retried requests.
//!
//! A mutable resource carries a version that renders as a weak entity tag. A
//! mutating request names the version that it is based on, and is refused where
//! another one is current. A request may carry an idempotency key: a retry
//! under the same key is answered with the operation of the first request.

use vstd::prelude::*;

use crate::command::OperationId;
use crate::error::ControlError;
use crate::table::Table;
use crate::text::{decimal_text, parse_unsigned, str_eq, strip_prefix, trim, CharClass};

verus! {

/// The version of a resource. It grows with every change.
#[derive(Debug, Clone, Copy, PartialEq, Eq, PartialOrd, Ord, Hash, Structural)]
pub struct Version(u64);

/// The weak entity tag of a version: `W/"N"`.
pub open spec fn etag_of(version: nat) -> Seq<char> {
    "W/\""@ + crate::text::decimal(version) + "\""@
}

/// The text without the mark of a weak entity tag.
pub open spec fn without_weak(s: Seq<char>) -> Seq<char> {
    if "W/"@.is_prefix_of(s) {
        s.skip("W/"@.len() as int)
    } else {
        s
    }
}

/// The version that an entity tag names, weak or strong, quoted or bare.
pub open spec fn version_in(raw: Seq<char>) -> Option<nat> {
    crate::text::unsigned_of(
        crate::text::trim_of(
            crate::text::trim_of(
                without_weak(crate::text::trim_of(raw, CharClass::White)),
                CharClass::White,
            ),
            CharClass::Only('"'),
        ),
        u64::MAX as nat,
    )
}

impl Version {
    /// The counter.
    pub closed spec fn view(self) -> nat {
        self.0 as nat
    }

    /// The version of a resource that was just created.
    pub fn initial() -> (r: Self)
        ensures
            r@ == 1,
    {
        Version(1)
    }

    /// The version with this counter.
    pub fn new(value: u64) -> (r: Self)
        ensures
            r@ == value,
    {
        Version(value)
    }

    /// The counter.
    pub fn get(self) -> (r: u64)
        ensures
            r == self@,
    {
        self.0
    }

    /// The next version. The last one is its own successor.
    pub fn next(self) -> (r: Self)
        ensures
            r@ == next_version(self@),
    {
        Version(self.0.saturating_add(1))
    }

    /// The weak entity tag.
    pub fn to_etag(self) -> (r: String)
        ensures
            r@ == etag_of(self@),
    {
        let mut out = "W/\"".to_owned();
        let n = decimal_text(self.0);
        out.append(n.as_str());
        out.append("\"");
        out
    }

    /// The version that an `ETag` or `If-Match` header names: `W/"5"`, `"5"` or
    /// `5`. Anything else names none.
    pub fn parse_etag(raw: &str) -> (r: Option<Self>)
        ensures
            match r {
                Some(v) => version_in(raw@) == Some(v@),
                None => version_in(raw@) is None,
            },
    {
        let trimmed = trim(raw, CharClass::White);
        let bare = match strip_prefix(trimmed, "W/") {
            Some(rest) => rest,
            None => trimmed,
        };
        assert(bare@ =~= without_weak(trimmed@));
        let inner = trim(trim(bare, CharClass::White), CharClass::Only('"'));
        match parse_unsigned(inner, u64::MAX) {
            Some(n) => Some(Version(n)),
            None => None,
        }
    }

    /// Versions with the same counter are the same version.
    pub proof fn lemma_same(self, other: Version)
        ensures
            self@ == other@ <==> self == other,
    {
    }
}

/// The counter after `n`. The last one is its own successor.
pub open spec fn next_version(n: nat) -> nat {
    if n < u64::MAX {
        n + 1
    } else {
        u64::MAX as nat
    }
}

/// The precondition of a mutating request.
#[derive(Debug, PartialEq, Eq)]
pub struct IfMatch {
    /// The version that the request is based on, if it names one.
    pub expected: Option<Version>,
    /// The header as it came.
    pub raw: Option<String>,
}

impl IfMatch {
    /// The precondition that a header states. One that names no version counts
    /// as none.
    pub fn from_header(raw: Option<String>) -> (r: Self)
        ensures
            r.raw == raw,
            match r.expected {
                Some(v) => raw is Some && version_in(raw->0@) == Some(v@),
                None => raw is Some ==> version_in(raw->0@) is None,
            },
    {
        let expected = match &raw {
            Some(text) => Version::parse_etag(text.as_str()),
            None => None,
        };
        IfMatch { expected, raw }
    }

    /// Holds the precondition against the version that is current.
    pub fn require(&self, kind: &'static str, id: &str, current: Version) -> (r: Result<
        (),
        ControlError,
    >)
        ensures
            match self.expected {
                None => r == Err::<(), ControlError>(ControlError::PreconditionRequired { kind }),
                Some(v) => if v == current {
                    r is Ok
                } else {
                    r matches Err(
                        ControlError::VersionConflict { kind: k, id: i, expected, actual },
                    ) && k == kind && i@ == id@ && expected@ == crate::text::decimal(v@) && actual@
                        == crate::text::decimal(current@)
                },
            },
    {
        match self.expected {
            None => Err(ControlError::PreconditionRequired { kind }),
            Some(v) => {
                if v == current {
                    Ok(())
                } else {
                    Err(
                        ControlError::VersionConflict {
                            kind,
                            id: id.to_owned(),
                            expected: decimal_text(v.get()),
                            actual: decimal_text(current.get()),
                        },
                    )
                }
            },
        }
    }
}

/// The idempotency key of a request.
#[derive(Debug, PartialEq, Eq)]
pub struct IdempotencyKey(pub Option<String>);

/// What a key was found to be.
#[derive(Debug, PartialEq, Eq)]
pub enum Reservation {
    /// Unseen: this is the operation to submit.
    Fresh(OperationId),
    /// Seen before: this is the operation of the first request, which is not
    /// submitted again.
    Replay(OperationId),
}

/// What a key was found to be.
pub enum ReservationView {
    /// Unseen.
    Fresh(Seq<char>),
    /// Seen before.
    Replay(Seq<char>),
}

impl Reservation {
    /// What the key was found to be.
    pub open spec fn view(self) -> ReservationView {
        match self {
            Reservation::Fresh(op) => ReservationView::Fresh(op@),
            Reservation::Replay(op) => ReservationView::Replay(op@),
        }
    }
}

/// The keys after a request came with `key`, where a fresh operation would be
/// `drawn`.
pub open spec fn reserved(seen: Map<Seq<char>, Seq<char>>, key: Option<Seq<char>>, drawn: Seq<char>) -> Map<
    Seq<char>,
    Seq<char>,
> {
    match key {
        Some(k) if !seen.contains_key(k) => seen.insert(k, drawn),
        _ => seen,
    }
}

/// What a request with `key` is answered, where a fresh operation would be
/// `drawn`.
pub open spec fn reservation(seen: Map<Seq<char>, Seq<char>>, key: Option<Seq<char>>, drawn: Seq<char>) -> ReservationView {
    match key {
        Some(k) if seen.contains_key(k) => ReservationView::Replay(seen[k]),
        _ => ReservationView::Fresh(drawn),
    }
}

/// Whether `key` stands for the operation `op`.
pub open spec fn stands_for(seen: Map<Seq<char>, Seq<char>>, key: Seq<char>, op: Seq<char>) -> bool {
    seen.contains_key(key) && seen[key] == op
}

/// The keys after the operation `op` under `key` was given up.
pub open spec fn released(seen: Map<Seq<char>, Seq<char>>, key: Option<Seq<char>>, op: Seq<char>) -> Map<
    Seq<char>,
    Seq<char>,
> {
    match key {
        Some(k) if stands_for(seen, k, op) => seen.remove(k),
        _ => seen,
    }
}

/// The keys after `to` took the place of the operation `from` under `key`.
pub open spec fn rebound(
    seen: Map<Seq<char>, Seq<char>>,
    key: Option<Seq<char>>,
    from: Seq<char>,
    to: Seq<char>,
) -> Map<Seq<char>, Seq<char>> {
    match key {
        Some(k) if stands_for(seen, k, from) => seen.insert(k, to),
        _ => seen,
    }
}

/// The text of an optional key.
pub open spec fn key_text(key: Option<&str>) -> Option<Seq<char>> {
    match key {
        Some(k) => Some(k@),
        None => None,
    }
}

/// The keys of earlier requests, with the operation that each stands for.
#[derive(Debug)]
pub struct IdempotencyStore {
    seen: Table<OperationId>,
}

impl IdempotencyStore {
    /// The operation that each key stands for.
    pub closed spec fn view(self) -> Map<Seq<char>, Seq<char>> {
        self.seen@.map_values(|op: OperationId| op@)
    }

    /// The store is one that the operations below can reach.
    pub closed spec fn wf(self) -> bool {
        self.seen.wf()
    }

    /// A store without keys.
    pub fn new() -> (r: Self)
        ensures
            r.wf(),
            r@ == Map::<Seq<char>, Seq<char>>::empty(),
    {
        let r = IdempotencyStore { seen: Table::new() };
        assert(r@ =~= Map::<Seq<char>, Seq<char>>::empty());
        r
    }

    /// Answers a request with `key`, where `drawn` is the operation to record
    /// if the key is unseen. Without a key nothing is recorded.
    pub fn reserve_as(&mut self, key: Option<&str>, drawn: OperationId) -> (r: Reservation)
        requires
            old(self).wf(),
        ensures
            final(self).wf(),
            final(self)@ == reserved(old(self)@, key_text(key), drawn@),
            r@ == reservation(old(self)@, key_text(key), drawn@),
    {
        match key {
            None => Reservation::Fresh(drawn),
            Some(k) => {
                if let Some(op) = self.seen.get(k) {
                    return Reservation::Replay(op.clone());
                }
                let ghost before = self@;
                let copy = drawn.clone();
                self.seen.insert(k.to_owned(), copy);
                assert(self@ =~= before.insert(k@, drawn@));
                Reservation::Fresh(drawn)
            },
        }
    }

    /// Answers a request with `key`: the recorded operation, or a fresh one
    /// with a random id.
    pub fn reserve(&mut self, key: Option<&str>) -> (r: Reservation)
        requires
            old(self).wf(),
        ensures
            final(self).wf(),
            exists|drawn: Seq<char>|
                crate::crypto::is_uuid(drawn) && final(self)@ == #[trigger] reserved(
                    old(self)@,
                    key_text(key),
                    drawn,
                ) && r@ == reservation(old(self)@, key_text(key), drawn),
            key is Some && old(self)@.contains_key(key->0@) ==> r@ == ReservationView::Replay(
                old(self)@[key->0@],
            ) && final(self)@ == old(self)@,
    {
        let drawn = OperationId::new();
        let ghost op = drawn@;
        let r = self.reserve_as(key, drawn);
        assert(self@ == reserved(old(self)@, key_text(key), op));
        r
    }

    /// Gives up the operation `op` under `key`, which never reached the engine.
    /// A key that stands for another operation by now is left alone.
    pub fn release(&mut self, key: Option<&str>, op: &OperationId)
        requires
            old(self).wf(),
        ensures
            final(self).wf(),
            final(self)@ == released(old(self)@, key_text(key), op@),
    {
        if let Some(k) = key {
            let mine = match self.seen.get(k) {
                Some(current) => str_eq(current.as_str(), op.as_str()),
                None => false,
            };
            if mine {
                let ghost before = self@;
                self.seen.remove(k);
                assert(self@ =~= before.remove(k@));
            }
        }
    }

    /// Lets `key` stand for the running operation `to` in place of `from`. A
    /// key that stands for another operation by now is left alone.
    pub fn rebind(&mut self, key: Option<&str>, from: &OperationId, to: OperationId)
        requires
            old(self).wf(),
        ensures
            final(self).wf(),
            final(self)@ == rebound(old(self)@, key_text(key), from@, to@),
    {
        if let Some(k) = key {
            let mine = match self.seen.get(k) {
                Some(current) => str_eq(current.as_str(), from.as_str()),
                None => false,
            };
            if mine {
                let ghost before = self@;
                let ghost t = to@;
                self.seen.insert(k.to_owned(), to);
                assert(self@ =~= before.insert(k@, t));
            }
        }
    }
}

impl Default for IdempotencyStore {
    fn default() -> (r: Self)
        ensures
            r.wf(),
            r@ == Map::<Seq<char>, Seq<char>>::empty(),
    {
        IdempotencyStore::new()
    }
}

// ---- Laws ----------------------------------------------------------------------

/// The entity tag of a version names that version.
pub proof fn law_etag_round_trip(version: nat)
    requires
        version <= u64::MAX,
    ensures
        version_in(etag_of(version)) == Some(version),
{
    let d = crate::text::decimal(version);
    let tag = etag_of(version);
    reveal_strlit("W/\"");
    reveal_strlit("W/");
    reveal_strlit("\"");
    crate::text::lemma_decimal(version);
    crate::text::lemma_decimal_read(version, u64::MAX as nat);
    assert(tag[0] == 'W' && tag.last() == '"');
    crate::text::lemma_trim_keeps(tag, CharClass::White);
    let quoted = seq!['"'] + d + seq!['"'];
    assert("W/"@.is_prefix_of(tag));
    assert(without_weak(tag) =~= quoted);
    assert(quoted[0] == '"' && quoted.last() == '"');
    crate::text::lemma_trim_keeps(quoted, CharClass::White);
    let class = CharClass::Only('"');
    let open = d + seq!['"'];
    assert(quoted.drop_first() =~= open);
    assert(crate::text::is_digit(d[0]));
    assert(open[0] == d[0]);
    assert(crate::text::trim_start_of(quoted, class) == crate::text::trim_start_of(open, class));
    assert(crate::text::trim_start_of(open, class) == open);
    assert(open.drop_last() =~= d);
    assert(crate::text::is_digit(d.last()));
    assert(crate::text::trim_end_of(open, class) == crate::text::trim_end_of(d, class));
    assert(crate::text::trim_end_of(d, class) == d);
}

/// A version never goes back, and every change short of the last version is
/// seen.
pub proof fn law_versions_grow(version: nat)
    requires
        version <= u64::MAX,
    ensures
        next_version(version) >= version,
        version < u64::MAX ==> next_version(version) != version,
{
}

/// A retry under the same key is answered with the operation of the first
/// request and changes nothing.
pub proof fn law_retry_replays(
    seen: Map<Seq<char>, Seq<char>>,
    key: Seq<char>,
    drawn: Seq<char>,
    again: Seq<char>,
)
    ensures
        ({
            let after = reserved(seen, Some(key), drawn);
            let op = match reservation(seen, Some(key), drawn) {
                ReservationView::Fresh(op) => op,
                ReservationView::Replay(op) => op,
            };
            &&& reservation(after, Some(key), again) == ReservationView::Replay(op)
            &&& reserved(after, Some(key), again) == after
        }),
{
}

/// A request without a key is always fresh and leaves no trace.
pub proof fn law_no_key_no_dedupe(seen: Map<Seq<char>, Seq<char>>, drawn: Seq<char>)
    ensures
        reservation(seen, None, drawn) == ReservationView::Fresh(drawn),
        reserved(seen, None, drawn) == seen,
{
}

/// Giving up a fresh reservation undoes it: the next request under the key is
/// fresh again.
pub proof fn law_release_undoes_a_fresh_reservation(
    seen: Map<Seq<char>, Seq<char>>,
    key: Seq<char>,
    drawn: Seq<char>,
    again: Seq<char>,
)
    requires
        !seen.contains_key(key),
    ensures
        released(reserved(seen, Some(key), drawn), Some(key), drawn) == seen,
        reservation(
            released(reserved(seen, Some(key), drawn), Some(key), drawn),
            Some(key),
            again,
        ) == ReservationView::Fresh(again),
{
    assert(seen.insert(key, drawn).remove(key) =~= seen);
}

/// A late release or rebind with another operation than the one that the key
/// stands for changes nothing.
pub proof fn law_live_reservation_survives(
    seen: Map<Seq<char>, Seq<char>>,
    key: Seq<char>,
    stale: Seq<char>,
    to: Seq<char>,
)
    requires
        !stands_for(seen, key, stale),
    ensures
        released(seen, Some(key), stale) == seen,
        rebound(seen, Some(key), stale, to) == seen,
{
}

/// After a fresh reservation was bound to the running operation, the key
/// replays the running one.
pub proof fn law_rebound_key_replays_the_running_operation(
    seen: Map<Seq<char>, Seq<char>>,
    key: Seq<char>,
    drawn: Seq<char>,
    running: Seq<char>,
    again: Seq<char>,
)
    requires
        !seen.contains_key(key),
    ensures
        reservation(
            rebound(reserved(seen, Some(key), drawn), Some(key), drawn, running),
            Some(key),
            again,
        ) == ReservationView::Replay(running),
{
}

/// An entity tag is weak and quotes the version in decimal.
pub proof fn law_etag_quotes_the_version(version: nat)
    ensures
        ({
            let e = etag_of(version);
            let n = e.len() as int;
            &&& n > 4
            &&& e[0] == 'W' && e[1] == '/' && e[2] == '"' && e[n - 1] == '"'
            &&& e.subrange(3, n - 1) == crate::text::decimal(version)
            &&& crate::text::digits_value(e.subrange(3, n - 1)) == version
        }),
{
    reveal_strlit("W/\"");
    reveal_strlit("\"");
    crate::text::lemma_decimal(version);
    let e = etag_of(version);
    assert(e.subrange(3, e.len() - 1) =~= crate::text::decimal(version));
}

/// A precondition may name the version without quotes, in quotes, or as a weak tag.
pub proof fn law_every_spelling_of_a_version_is_read(version: u64)
    ensures
        version_in(crate::text::decimal(version as nat)) == Some(version as nat),
        version_in("\""@ + crate::text::decimal(version as nat) + "\""@) == Some(version as nat),
        version_in("W/"@ + crate::text::decimal(version as nat)) == Some(version as nat),
{
    reveal_strlit("W/");
    reveal_strlit("\"");
    let d = crate::text::decimal(version as nat);
    crate::text::lemma_decimal(version as nat);
    crate::text::lemma_decimal_read(version as nat, u64::MAX as nat);
    assert(crate::text::is_digit(d[0]));
    assert(crate::text::is_digit(d.last()));
    crate::text::lemma_trim_keeps(d, CharClass::White);
    crate::text::lemma_trim_keeps(d, CharClass::Only('"'));
    assert(!"W/"@.is_prefix_of(d)) by {
        assert("W/"@[0] == 'W');
    }
    let q = "\""@ + d + "\""@;
    assert(q[0] == '"' && q.last() == '"');
    crate::text::lemma_trim_keeps(q, CharClass::White);
    assert(!"W/"@.is_prefix_of(q)) by {
        assert("W/"@[0] == 'W');
    }
    let tail = q.drop_first();
    assert(tail[0] == d[0]);
    assert(crate::text::trim_start_of(tail, CharClass::Only('"')) == tail);
    assert(crate::text::trim_start_of(q, CharClass::Only('"')) == tail);
    assert(tail.last() == '"');
    assert(tail.drop_last() =~= d);
    assert(crate::text::trim_end_of(d, CharClass::Only('"')) == d);
    assert(crate::text::trim_end_of(tail, CharClass::Only('"')) == d);
    let w = "W/"@ + d;
    assert(w[0] == 'W' && w.last() == d.last());
    crate::text::lemma_trim_keeps(w, CharClass::White);
    assert("W/"@.is_prefix_of(w));
    assert(w.skip(2) =~= d);
}

/// Versions count up by one.
pub proof fn law_next_version_is_one_more(n: nat)
    requires
        n < u64::MAX,
    ensures
        next_version(n) == n + 1,
{
}

/// A key stands for the first operation that was reserved under it, and one key's
/// operations say nothing of another's.
pub proof fn law_keys_are_independent(
    seen: Map<Seq<char>, Seq<char>>,
    key: Seq<char>,
    other: Seq<char>,
    first: Seq<char>,
    second: Seq<char>,
)
    requires
        key != other,
        !seen.contains_key(key),
        !seen.contains_key(other),
    ensures
        reservation(seen, Some(key), first) == ReservationView::Fresh(first),
        reservation(reserved(seen, Some(key), first), Some(key), second)
            == ReservationView::Replay(first),
        reservation(reserved(seen, Some(key), first), Some(other), second)
            == ReservationView::Fresh(second),
        released(reserved(seen, Some(key), first), Some(key), second) == reserved(
            seen,
            Some(key),
            first,
        ) || first == second,
        rebound(reserved(seen, Some(key), first), Some(key), first, second)[key] == second,
{
}

} // verus!
