//! A set of section names, listed in order.

use vstd::prelude::*;

use crate::table::Table;

verus! {

/// A set of section names.
pub struct Sections {
    names: Table<bool>,
}

impl Sections {
    /// The names.
    pub closed spec fn view(self) -> Set<Seq<char>> {
        self.names@.dom()
    }

    /// The set is one that the operations below can reach.
    pub closed spec fn wf(self) -> bool {
        self.names.wf()
    }

    /// No name.
    pub fn new() -> (r: Self)
        ensures
            r.wf(),
            r@ == Set::<Seq<char>>::empty(),
    {
        let r = Sections { names: Table::new() };
        assert(r@ =~= Set::<Seq<char>>::empty());
        r
    }

    /// Add a name.
    pub fn insert(&mut self, name: &str)
        requires
            old(self).wf(),
        ensures
            final(self).wf(),
            final(self)@ == old(self)@.insert(name@),
    {
        self.names.insert(name.to_owned(), true);
        assert(self@ =~= old(self)@.insert(name@));
    }

    /// Take a name out.
    pub fn remove(&mut self, name: &str)
        requires
            old(self).wf(),
        ensures
            final(self).wf(),
            final(self)@ == old(self)@.remove(name@),
    {
        self.names.remove(name);
        assert(self@ =~= old(self)@.remove(name@));
    }

    /// Whether the set holds a name.
    pub fn contains(&self, name: &str) -> (r: bool)
        requires
            self.wf(),
        ensures
            r == self@.contains(name@),
    {
        self.names.contains(name)
    }

    /// Whether the set holds no name.
    pub fn is_empty(&self) -> (r: bool)
        requires
            self.wf(),
        ensures
            r == (self@ == Set::<Seq<char>>::empty()),
    {
        proof {
            self.names.lemma_rows();
            self.names.lemma_len();
            if self@ == Set::<Seq<char>>::empty() {
                if self.names.keys().len() > 0 {
                    assert(self.names.keys().contains(self.names.keys()[0]));
                    assert(self@.contains(self.names.keys()[0]));
                }
            } else {
                if self.names.keys().len() == 0 {
                    assert(self@ =~= Set::<Seq<char>>::empty());
                }
            }
        }
        self.names.len() == 0
    }

    /// The names, in order.
    pub fn list(&self) -> (r: Vec<String>)
        requires
            self.wf(),
        ensures
            names_of(self@, crate::text::texts(r@)),
    {
        let mut out: Vec<String> = Vec::new();
        let mut i: usize = 0;
        proof {
            self.names.lemma_rows();
        }
        while i < self.names.len()
            invariant
                i <= self.names.keys().len(),
                crate::text::texts(out@) == self.names.keys().take(i as int),
            decreases self.names.keys().len() - i,
        {
            let ghost before = out@;
            let k = self.names.key_at(i).clone();
            out.push(k);
            assert(crate::text::texts(out@) =~= crate::text::texts(before).push(k@));
            assert(self.names.keys().take(i + 1) =~= self.names.keys().take(i as int).push(
                self.names.keys()[i as int],
            ));
            i += 1;
        }
        assert(self.names.keys().take(i as int) =~= self.names.keys());
        out
    }

    /// Add every name of another set.
    pub fn extend(&mut self, other: &Sections)
        requires
            old(self).wf(),
            other.wf(),
        ensures
            final(self).wf(),
            final(self)@ == old(self)@.union(other@),
    {
        let names = other.list();
        let mut i: usize = 0;
        while i < names.len()
            invariant
                i <= names.len(),
                self.wf(),
                names_of(other@, crate::text::texts(names@)),
                forall|k: Seq<char>| #[trigger]
                    self@.contains(k) <==> old(self)@.contains(k) || crate::text::texts(names@).take(
                        i as int,
                    ).contains(k),
            decreases names.len() - i,
        {
            let ghost before = self@;
            let ghost list = crate::text::texts(names@);
            self.insert(names[i].as_str());
            proof {
                let t0 = list.take(i as int);
                let t1 = list.take(i + 1);
                assert(t1 =~= t0.push(list[i as int]));
                assert forall|k: Seq<char>| #[trigger]
                    self@.contains(k) <==> old(self)@.contains(k) || t1.contains(k) by {
                    assert(self@.contains(k) <==> before.contains(k) || k == list[i as int]);
                    if t1.contains(k) {
                        let j = choose|j: int| 0 <= j < t1.len() && t1[j] == k;
                        if j < i {
                            assert(t0[j] == k);
                        }
                    }
                    if t0.contains(k) {
                        let j = choose|j: int| 0 <= j < t0.len() && t0[j] == k;
                        assert(t1[j] == k);
                    }
                    if k == list[i as int] {
                        assert(t1[i as int] == k);
                    }
                }
            }
            i += 1;
        }
        assert(crate::text::texts(names@).take(i as int) =~= crate::text::texts(names@));
        assert(self@ =~= old(self)@.union(other@));
    }
}

/// Whether `list` is the names of `set`, in order.
pub open spec fn names_of(set: Set<Seq<char>>, list: Seq<Seq<char>>) -> bool {
    crate::table::strictly_sorted(list) && forall|k: Seq<char>| list.contains(k) <==> set.contains(k)
}

/// A list of names holds each name of the set once, in order.
pub proof fn law_names_are_listed_once(set: Set<Seq<char>>, list: Seq<Seq<char>>, i: int, j: int)
    requires
        names_of(set, list),
        0 <= i < j < list.len(),
    ensures
        list[i] != list[j],
        crate::text::lex_lt(list[i], list[j]),
        set.contains(list[i]),
{
    crate::text::lemma_lex_irreflexive(list[i]);
    assert(crate::text::lex_lt(list[i], list[j]));
    assert(list.contains(list[i]));
}

} // verus!
