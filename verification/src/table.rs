//! An ordered table keyed by text.
//!
//! [`Table`] is the map behind every registry of this crate. It keeps its rows
//! in strictly increasing key order, so a listing is id-sorted without a sort.

use vstd::prelude::*;

use crate::text::{str_eq, str_less};

verus! {

/// A map from text to `V`, iterated in key order.
#[derive(Debug)]
pub struct Table<V> {
    rows: Vec<(String, V)>,
}

/// Whether the keys are strictly increasing.
pub open spec fn strictly_sorted(keys: Seq<Seq<char>>) -> bool {
    forall|i: int, j: int| 0 <= i < j < keys.len() ==> crate::text::lex_lt(#[trigger] keys[i], #[trigger] keys[j])
}

impl<V> Table<V> {
    /// The keys, in order.
    pub closed spec fn keys(self) -> Seq<Seq<char>> {
        self.rows@.map_values(|r: (String, V)| r.0@)
    }

    /// The values, in the order of their keys.
    pub closed spec fn values(self) -> Seq<V> {
        self.rows@.map_values(|r: (String, V)| r.1)
    }

    /// The row that holds `k`.
    spec fn row_of(self, k: Seq<char>) -> int {
        choose|i: int| 0 <= i < self.rows@.len() && #[trigger] self.rows@[i].0@ == k
    }

    /// The table as a map.
    pub closed spec fn view(self) -> Map<Seq<char>, V> {
        Map::new(|k: Seq<char>| self.keys().contains(k), |k: Seq<char>| self.rows@[self.row_of(k)].1)
    }

    /// The keys are strictly increasing.
    pub closed spec fn wf(self) -> bool {
        strictly_sorted(self.keys())
    }

    /// Every key has one row, and rows are in strictly increasing key order.
    pub proof fn lemma_rows(self)
        requires
            self.wf(),
        ensures
            strictly_sorted(self.keys()),
            self.keys().len() == self.values().len(),
            self.keys().no_duplicates(),
            forall|k: Seq<char>| self@.contains_key(k) <==> self.keys().contains(k),
            forall|i: int|
                0 <= i < self.keys().len() ==> self@.contains_key(#[trigger] self.keys()[i])
                    && self@[self.keys()[i]] == self.values()[i],
            self.keys().len() == 0 ==> self@ == Map::<Seq<char>, V>::empty(),
    {
        if self.keys().len() == 0 {
            assert(self@ =~= Map::<Seq<char>, V>::empty());
        }
        assert forall|i: int| 0 <= i < self.keys().len() implies self@.contains_key(
            #[trigger] self.keys()[i],
        ) && self@[self.keys()[i]] == self.values()[i] by {
            self.lemma_row(i);
        }
        assert forall|i: int, j: int|
            0 <= i < self.keys().len() && 0 <= j < self.keys().len() && i
                != j implies self.keys()[i] != self.keys()[j] by {
            crate::text::lemma_lex_irreflexive(self.keys()[i]);
        }
    }

    /// The row of a key.
    pub proof fn lemma_find(self, k: Seq<char>) -> (i: int)
        requires
            self.wf(),
            self@.contains_key(k),
        ensures
            0 <= i < self.keys().len(),
            i < self.values().len(),
            self.keys()[i] == k,
            self.values()[i] == self@[k],
    {
        let i = choose|i: int| 0 <= i < self.keys().len() && self.keys()[i] == k;
        self.lemma_row(i);
        i
    }

    /// The table has as many keys as rows.
    pub proof fn lemma_len(self)
        requires
            self.wf(),
        ensures
            self@.dom().finite(),
            self@.dom().len() == self.keys().len(),
    {
        self.lemma_rows();
        self.keys().unique_seq_to_set();
        assert(self.keys().to_set() =~= self@.dom());
    }

    proof fn lemma_row(self, i: int)
        requires
            self.wf(),
            0 <= i < self.rows@.len(),
        ensures
            self.row_of(self.rows@[i].0@) == i,
            self.keys()[i] == self.rows@[i].0@,
            self.values()[i] == self.rows@[i].1,
            self@.contains_key(self.rows@[i].0@),
            self@[self.rows@[i].0@] == self.rows@[i].1,
    {
        let k = self.rows@[i].0@;
        let j = self.row_of(k);
        assert(self.rows@[i].0@ == k);
        assert(0 <= j < self.rows@.len() && self.rows@[j].0@ == k);
        assert(self.keys()[i] == k && self.keys()[j] == k);
        crate::text::lemma_lex_irreflexive(k);
    }

    /// An empty table.
    pub fn new() -> (r: Self)
        ensures
            r.wf(),
            r@ == Map::<Seq<char>, V>::empty(),
            r.keys().len() == 0,
    {
        let r = Table { rows: Vec::new() };
        assert(r@ =~= Map::<Seq<char>, V>::empty());
        r
    }

    /// The number of rows.
    pub fn len(&self) -> (n: usize)
        ensures
            n == self.keys().len(),
            n == self.values().len(),
    {
        self.rows.len()
    }

    /// The key of row `i`.
    pub fn key_at(&self, i: usize) -> (k: &String)
        requires
            i < self.keys().len(),
        ensures
            k@ == self.keys()[i as int],
    {
        &self.rows[i].0
    }

    /// The value of row `i`.
    pub fn value_at(&self, i: usize) -> (v: &V)
        requires
            i < self.values().len(),
        ensures
            *v == self.values()[i as int],
    {
        &self.rows[i].1
    }

    /// The first row whose key does not precede `key`.
    fn seek(&self, key: &str) -> (i: usize)
        requires
            self.wf(),
        ensures
            i <= self.rows@.len(),
            forall|j: int| 0 <= j < i ==> crate::text::lex_lt(#[trigger] self.keys()[j], key@),
            forall|j: int| i <= j < self.rows@.len() ==> !crate::text::lex_lt(#[trigger] self.keys()[j], key@),
    {
        let mut i: usize = 0;
        while i < self.rows.len()
            invariant
                i <= self.rows@.len(),
                self.wf(),
                forall|j: int| 0 <= j < i ==> crate::text::lex_lt(#[trigger] self.keys()[j], key@),
            decreases self.rows@.len() - i,
        {
            if !str_less(self.rows[i].0.as_str(), key) {
                assert forall|j: int| i <= j < self.rows@.len() implies !crate::text::lex_lt(
                    #[trigger] self.keys()[j],
                    key@,
                ) by {
                    if crate::text::lex_lt(self.keys()[j], key@) {
                        if i < j {
                            crate::text::lemma_lex_transitive(self.keys()[i as int], self.keys()[j], key@);
                        }
                        assert(self.keys()[i as int] == self.rows@[i as int].0@);
                    }
                }
                return i;
            }
            assert(self.keys()[i as int] == self.rows@[i as int].0@);
            i += 1;
        }
        i
    }

    /// Whether row `i`, found by `seek`, holds `key`; no other row does.
    proof fn lemma_seek(self, i: int, key: Seq<char>)
        requires
            self.wf(),
            0 <= i <= self.rows@.len(),
            forall|j: int| 0 <= j < i ==> crate::text::lex_lt(#[trigger] self.keys()[j], key),
            forall|j: int| i <= j < self.rows@.len() ==> !crate::text::lex_lt(#[trigger] self.keys()[j], key),
        ensures
            self@.contains_key(key) <==> (i < self.rows@.len() && self.rows@[i].0@ == key),
            forall|j: int| 0 <= j < self.rows@.len() && j != i ==> #[trigger] self.keys()[j] != key,
            forall|j: int|
                i <= j < self.rows@.len() && !self@.contains_key(key) ==> crate::text::lex_lt(
                    key,
                    #[trigger] self.keys()[j],
                ),
            forall|j: int| i < j < self.rows@.len() ==> crate::text::lex_lt(key, #[trigger] self.keys()[j]),
    {
        crate::text::lemma_lex_irreflexive(key);
        assert forall|j: int| i < j < self.rows@.len() implies crate::text::lex_lt(
            key,
            #[trigger] self.keys()[j],
        ) by {
            crate::text::lemma_lex_total(self.keys()[i], key);
            assert(!crate::text::lex_lt(self.keys()[i], key));
            assert(crate::text::lex_lt(self.keys()[i], self.keys()[j]));
            if self.keys()[i] != key {
                crate::text::lemma_lex_transitive(key, self.keys()[i], self.keys()[j]);
            }
        }
        if i < self.rows@.len() {
            crate::text::lemma_lex_total(self.keys()[i], key);
            assert(self.keys()[i] == self.rows@[i].0@);
        }
        if self.keys().contains(key) {
            let j = choose|j: int| 0 <= j < self.keys().len() && self.keys()[j] == key;
            assert(j == i);
        }
    }

    /// The value under `key`.
    pub fn get(&self, key: &str) -> (r: Option<&V>)
        requires
            self.wf(),
        ensures
            match r {
                Some(v) => self@.contains_key(key@) && *v == self@[key@],
                None => !self@.contains_key(key@),
            },
    {
        let i = self.seek(key);
        proof {
            self.lemma_seek(i as int, key@);
        }
        if i < self.rows.len() && str_eq(self.rows[i].0.as_str(), key) {
            proof {
                self.lemma_row(i as int);
            }
            Some(&self.rows[i].1)
        } else {
            None
        }
    }

    /// Whether a row holds `key`.
    pub fn contains(&self, key: &str) -> (r: bool)
        requires
            self.wf(),
        ensures
            r == self@.contains_key(key@),
    {
        self.get(key).is_some()
    }

    /// Put `value` under `key`, handing back what stood there.
    pub fn insert(&mut self, key: String, value: V) -> (r: Option<V>)
        requires
            old(self).wf(),
        ensures
            final(self).wf(),
            final(self)@ == old(self)@.insert(key@, value),
            match r {
                Some(v) => old(self)@.contains_key(key@) && v == old(self)@[key@],
                None => !old(self)@.contains_key(key@),
            },
    {
        let i = self.seek(key.as_str());
        let ghost before = *self;
        proof {
            before.lemma_seek(i as int, key@);
            before.lemma_rows();
        }
        let mut replaced: Option<V> = None;
        if i < self.rows.len() && str_eq(self.rows[i].0.as_str(), key.as_str()) {
            proof {
                before.lemma_row(i as int);
            }
            let row = self.rows.remove(i);
            replaced = Some(row.1);
        }
        let ghost k = key@;
        self.rows.insert(i, (key, value));
        proof {
            let shift: int = if before@.contains_key(k) {
                0
            } else {
                1
            };
            assert forall|j: int| 0 <= j < self.keys().len() && j != i implies #[trigger] self.keys()[j]
                == before.keys()[if j < i { j } else { j - shift }] by {}
            assert(self.keys()[i as int] == k);
            assert(strictly_sorted(self.keys()));
            self.lemma_rows();
            assert forall|q: Seq<char>| self@.contains_key(q) <==> before@.insert(k, value).contains_key(q) by {
                if before.keys().contains(q) {
                    let j = choose|j: int| 0 <= j < before.keys().len() && before.keys()[j] == q;
                    if q != k {
                        let m = if j < i { j } else { j + shift };
                        assert(self.keys()[m] == q);
                    }
                }
                if self.keys().contains(q) && q != k {
                    let j = choose|j: int| 0 <= j < self.keys().len() && self.keys()[j] == q;
                    let m = if j < i { j } else { j - shift };
                    assert(before.keys()[m] == q);
                }
            }
            assert forall|q: Seq<char>| self@.contains_key(q) implies self@[q] == before@.insert(k, value)[q] by {
                let j = choose|j: int| 0 <= j < self.keys().len() && self.keys()[j] == q;
                self.lemma_row(j);
                if q != k {
                    let m = if j < i { j } else { j - shift };
                    before.lemma_row(m);
                }
            }
            assert(self@ =~= before@.insert(k, value));
        }
        replaced
    }

    /// Take the row of `key` out.
    pub fn remove(&mut self, key: &str) -> (r: Option<V>)
        requires
            old(self).wf(),
        ensures
            final(self).wf(),
            final(self)@ == old(self)@.remove(key@),
            match r {
                Some(v) => old(self)@.contains_key(key@) && v == old(self)@[key@],
                None => !old(self)@.contains_key(key@) && *final(self) == *old(self),
            },
    {
        let i = self.seek(key);
        let ghost before = *self;
        proof {
            before.lemma_seek(i as int, key@);
            before.lemma_rows();
        }
        if i < self.rows.len() && str_eq(self.rows[i].0.as_str(), key) {
            proof {
                before.lemma_row(i as int);
            }
            let row = self.rows.remove(i);
            proof {
                assert forall|j: int| 0 <= j < self.keys().len() implies #[trigger] self.keys()[j]
                    == before.keys()[if j < i { j } else { j + 1 }] by {}
                assert(strictly_sorted(self.keys()));
                self.lemma_rows();
                assert forall|q: Seq<char>| self@.contains_key(q) <==> before@.remove(key@).contains_key(q) by {
                    if before.keys().contains(q) && q != key@ {
                        let j = choose|j: int| 0 <= j < before.keys().len() && before.keys()[j] == q;
                        let m = if j < i { j } else { j - 1 };
                        assert(self.keys()[m] == q);
                    }
                    if self.keys().contains(q) {
                        let j = choose|j: int| 0 <= j < self.keys().len() && self.keys()[j] == q;
                        let m = if j < i { j } else { j + 1 };
                        assert(before.keys()[m] == q);
                    }
                }
                assert forall|q: Seq<char>| self@.contains_key(q) implies self@[q] == before@.remove(key@)[q] by {
                    let j = choose|j: int| 0 <= j < self.keys().len() && self.keys()[j] == q;
                    self.lemma_row(j);
                    let m = if j < i { j } else { j + 1 };
                    before.lemma_row(m);
                }
                assert(self@ =~= before@.remove(key@));
            }
            Some(row.1)
        } else {
            assert(self@ =~= before@.remove(key@));
            None
        }
    }

    /// Take the last row out.
    pub fn pop(&mut self) -> (r: Option<(String, V)>)
        requires
            old(self).wf(),
        ensures
            final(self).wf(),
            match r {
                Some(row) => {
                    &&& old(self)@.contains_key(row.0@)
                    &&& row.1 == old(self)@[row.0@]
                    &&& final(self)@ == old(self)@.remove(row.0@)
                    &&& final(self).keys() == old(self).keys().drop_last()
                    &&& old(self).keys().len() > 0
                },
                None => {
                    &&& old(self)@ == Map::<Seq<char>, V>::empty()
                    &&& *final(self) == *old(self)
                    &&& old(self).keys().len() == 0
                },
            },
    {
        let n: usize = self.rows.len();
        if n == 0 {
            assert(self@ =~= Map::<Seq<char>, V>::empty());
            return None;
        }
        let ghost before = *self;
        proof {
            before.lemma_row(n - 1);
            before.lemma_rows();
        }
        let row = self.rows.remove(n - 1);
        proof {
            assert(self.keys() =~= before.keys().drop_last());
            assert(strictly_sorted(self.keys()));
            assert forall|q: Seq<char>| self@.contains_key(q) <==> before@.remove(row.0@).contains_key(q) by {
                if before.keys().contains(q) && q != row.0@ {
                    let j = choose|j: int| 0 <= j < before.keys().len() && before.keys()[j] == q;
                    assert(self.keys()[j] == q);
                }
                if self.keys().contains(q) {
                    let j = choose|j: int| 0 <= j < self.keys().len() && self.keys()[j] == q;
                    assert(before.keys()[j] == q);
                    assert(before.keys()[n - 1] == row.0@);
                }
            }
            assert forall|q: Seq<char>| self@.contains_key(q) implies self@[q] == before@.remove(row.0@)[q] by {
                let j = choose|j: int| 0 <= j < self.keys().len() && self.keys()[j] == q;
                self.lemma_row(j);
                before.lemma_row(j);
            }
            assert(self@ =~= before@.remove(row.0@));
        }
        Some(row)
    }

    /// Drop every row.
    pub fn clear(&mut self)
        ensures
            final(self).wf(),
            final(self)@ == Map::<Seq<char>, V>::empty(),
            final(self).keys().len() == 0,
    {
        self.rows.clear();
        assert(self@ =~= Map::<Seq<char>, V>::empty());
    }
}

/// Two strictly sorted key lists with the same members are the same list.
pub proof fn lemma_sorted_keys_unique(a: Seq<Seq<char>>, b: Seq<Seq<char>>)
    requires
        strictly_sorted(a),
        strictly_sorted(b),
        forall|k: Seq<char>| a.contains(k) <==> b.contains(k),
    ensures
        a == b,
    decreases a.len(),
{
    if a.len() == 0 {
        if b.len() > 0 {
            assert(b.contains(b[0]));
        }
        assert(a =~= b);
    } else {
        assert(a.contains(a[0]));
        assert(b.len() > 0) by {
            assert(b.contains(a[0]));
        }
        let la = a.last();
        let lb = b.last();
        assert(a.contains(la) && b.contains(lb));
        let ja = choose|j: int| 0 <= j < b.len() && b[j] == la;
        let jb = choose|j: int| 0 <= j < a.len() && a[j] == lb;
        assert(la == lb) by {
            if la != lb {
                assert(crate::text::lex_lt(la, lb));
                assert(crate::text::lex_lt(lb, la));
                crate::text::lemma_lex_transitive(la, lb, la);
                crate::text::lemma_lex_irreflexive(la);
            }
        }
        let a1 = a.drop_last();
        let b1 = b.drop_last();
        assert forall|k: Seq<char>| a1.contains(k) <==> b1.contains(k) by {
            crate::text::lemma_lex_irreflexive(la);
            if a1.contains(k) {
                let j = choose|j: int| 0 <= j < a1.len() && a1[j] == k;
                assert(a[j] == k && crate::text::lex_lt(a[j], la));
                assert(a.contains(k));
                let m = choose|m: int| 0 <= m < b.len() && b[m] == k;
                assert(b1[m] == k);
            }
            if b1.contains(k) {
                let j = choose|j: int| 0 <= j < b1.len() && b1[j] == k;
                assert(b[j] == k && crate::text::lex_lt(b[j], lb));
                assert(b.contains(k));
                let m = choose|m: int| 0 <= m < a.len() && a[m] == k;
                assert(a1[m] == k);
            }
        }
        lemma_sorted_keys_unique(a1, b1);
        assert(a =~= a1.push(la));
        assert(b =~= b1.push(lb));
    }
}

} // verus!
