//! The cast sessions that run without a saved device. They are never part of
//! the configuration.

use vstd::prelude::*;

use crate::model::clone_opt;
use crate::table::Table;

verus! {

/// One cast session.
#[derive(Debug, PartialEq, Eq)]
pub struct CastSessionRecord {
    /// Its id.
    pub id: String,
    /// What operators call it.
    pub name: Option<String>,
    /// The receiver.
    pub address: String,
    /// The output that it shows.
    pub output: String,
    /// The address from which the receiver fetches it.
    pub media_url: String,
    /// When the receiver first took it, in Unix nanoseconds.
    pub started_unix_ns: Option<i64>,
}

impl Clone for CastSessionRecord {
    fn clone(&self) -> (r: Self)
        ensures
            r == *self,
    {
        CastSessionRecord {
            id: self.id.clone(),
            name: clone_opt(&self.name),
            address: self.address.clone(),
            output: self.output.clone(),
            media_url: self.media_url.clone(),
            started_unix_ns: self.started_unix_ns,
        }
    }
}

/// The ids of a list of records.
pub open spec fn record_ids(list: Seq<CastSessionRecord>) -> Seq<Seq<char>> {
    list.map_values(|r: CastSessionRecord| r.id@)
}

/// A record, stamped with when it started unless it already was.
pub open spec fn stamped(r: CastSessionRecord, at: i64) -> CastSessionRecord {
    if r.started_unix_ns is None {
        CastSessionRecord { started_unix_ns: Some(at), ..r }
    } else {
        r
    }
}

/// The cast sessions that run.
pub struct CastSessionStore {
    inner: Table<CastSessionRecord>,
}

impl CastSessionStore {
    /// The sessions by their ids.
    pub closed spec fn view(self) -> Map<Seq<char>, CastSessionRecord> {
        self.inner@
    }

    /// Every record stands under its id.
    pub closed spec fn wf(self) -> bool {
        &&& self.inner.wf()
        &&& forall|k: Seq<char>| #[trigger]
            self.inner@.contains_key(k) ==> self.inner@[k].id@ == k
    }

    /// No session.
    pub fn new() -> (r: Self)
        ensures
            r.wf(),
            r@ == Map::<Seq<char>, CastSessionRecord>::empty(),
    {
        CastSessionStore { inner: Table::new() }
    }

    /// Add a session, in place of one with its id.
    pub fn insert(&mut self, record: CastSessionRecord)
        requires
            old(self).wf(),
        ensures
            final(self).wf(),
            final(self)@ == old(self)@.insert(record.id@, record),
    {
        self.inner.insert(record.id.clone(), record);
    }

    /// A session.
    pub fn get(&self, id: &str) -> (r: Option<CastSessionRecord>)
        requires
            self.wf(),
        ensures
            match r {
                Some(c) => self@.contains_key(id@) && c == self@[id@],
                None => !self@.contains_key(id@),
            },
    {
        match self.inner.get(id) {
            Some(c) => Some(c.clone()),
            None => None,
        }
    }

    /// Remove a session, and give its record.
    pub fn remove(&mut self, id: &str) -> (r: Option<CastSessionRecord>)
        requires
            old(self).wf(),
        ensures
            final(self).wf(),
            final(self)@ == old(self)@.remove(id@),
            match r {
                Some(c) => old(self)@.contains_key(id@) && c == old(self)@[id@],
                None => !old(self)@.contains_key(id@),
            },
    {
        self.inner.remove(id)
    }

    /// A session started. The first time counts, and an unknown id is left
    /// alone.
    pub fn mark_started(&mut self, id: &str, started_unix_ns: i64)
        requires
            old(self).wf(),
        ensures
            final(self).wf(),
            final(self)@ == if old(self)@.contains_key(id@) {
                old(self)@.insert(id@, stamped(old(self)@[id@], started_unix_ns))
            } else {
                old(self)@
            },
    {
        match self.inner.remove(id) {
            Some(c) => {
                let next = if c.started_unix_ns.is_none() {
                    CastSessionRecord {
                        id: c.id,
                        name: c.name,
                        address: c.address,
                        output: c.output,
                        media_url: c.media_url,
                        started_unix_ns: Some(started_unix_ns),
                    }
                } else {
                    c
                };
                self.inner.insert(id.to_owned(), next);
                assert(self@ =~= old(self)@.insert(id@, stamped(old(self)@[id@], started_unix_ns)));
            },
            None => {
                assert(self@ =~= old(self)@);
            },
        }
    }

    /// Every session, in id order.
    pub fn list(&self) -> (r: Vec<CastSessionRecord>)
        requires
            self.wf(),
        ensures
            crate::table::strictly_sorted(record_ids(r@)),
            forall|k: Seq<char>| record_ids(r@).contains(k) <==> self@.contains_key(k),
            forall|i: int| 0 <= i < r@.len() ==> #[trigger] r@[i] == self@[r@[i].id@],
    {
        let mut out: Vec<CastSessionRecord> = Vec::new();
        let mut i: usize = 0;
        proof {
            self.inner.lemma_rows();
        }
        while i < self.inner.len()
            invariant
                self.wf(),
                i <= self.inner.keys().len(),
                self.inner.keys().len() == self.inner.values().len(),
                forall|j: int|
                    0 <= j < self.inner.keys().len() ==> self.inner@.contains_key(
                        #[trigger] self.inner.keys()[j],
                    ) && self.inner@[self.inner.keys()[j]] == self.inner.values()[j],
                record_ids(out@) == self.inner.keys().take(i as int),
                forall|j: int| 0 <= j < out@.len() ==> #[trigger] out@[j] == self@[out@[j].id@],
            decreases self.inner.keys().len() - i,
        {
            let ghost before = out@;
            let c = self.inner.value_at(i).clone();
            assert(self.inner@.contains_key(self.inner.keys()[i as int]));
            out.push(c);
            assert(record_ids(out@) =~= record_ids(before).push(c.id@));
            assert(self.inner.keys().take(i + 1) =~= self.inner.keys().take(i as int).push(
                self.inner.keys()[i as int],
            ));
            i += 1;
        }
        assert(self.inner.keys().take(i as int) =~= self.inner.keys());
        out
    }
}

impl Default for CastSessionStore {
    fn default() -> (r: Self)
        ensures
            r.wf(),
            r@ == Map::<Seq<char>, CastSessionRecord>::empty(),
    {
        CastSessionStore::new()
    }
}

// ---- Laws --------------------------------------------------------------------

/// The start of a session never moves: stamping twice keeps the first stamp.
pub proof fn law_first_start_counts(r: CastSessionRecord, first: i64, later: i64)
    ensures
        stamped(stamped(r, first), later) == stamped(r, first),
        stamped(r, first).started_unix_ns is Some,
{
}

} // verus!
