//! A domain-keyed association table.
//!
//! The actor owns a handful of per-address-family tables keyed by domain
//! name.  Each is a vector of `(String, V)` pairs with pairwise distinct
//! keys, abstracted as a `Map<Seq<char>, V::V>` keyed by the domain's
//! character sequence, so that two distinct `String` allocations spelling
//! the same domain address the same entry.

use vstd::prelude::*;

verus! {

pub struct DomainMap<V> {
    entries: Vec<(String, V)>,
}

impl<V: View> DomainMap<V> {
    /// No two entries share a key.
    pub closed spec fn wf(&self) -> bool {
        forall|i: int, j: int|
            0 <= i < j < self.entries@.len() ==> self.entries@[i].0@ != self.entries@[j].0@
    }

    /// Some entry of `s` carries the key `k`.
    spec fn has_key(s: Seq<(String, V)>, k: Seq<char>) -> bool {
        exists|i: int| 0 <= i < s.len() && s[i].0@ == k
    }

    /// The map folded from the entries, later entries winning.
    spec fn map_of(s: Seq<(String, V)>) -> Map<Seq<char>, V::V>
        decreases s.len(),
    {
        if s.len() == 0 {
            Map::empty()
        } else {
            Self::map_of(s.drop_last()).insert(s.last().0@, s.last().1@)
        }
    }

    spec fn distinct(s: Seq<(String, V)>) -> bool {
        forall|i: int, j: int| 0 <= i < j < s.len() ==> s[i].0@ != s[j].0@
    }

    /// Under key distinctness, `map_of` is characterised entrywise: its
    /// domain holds exactly the keys that occur, and the value at an
    /// occurring key is that entry's value.
    proof fn lemma_map_of(s: Seq<(String, V)>)
        requires
            Self::distinct(s),
        ensures
            Self::map_of(s).dom().finite(),
            Self::map_of(s).dom().len() == s.len(),
            forall|k: Seq<char>| #[trigger] Self::map_of(s).dom().contains(k) <==> Self::has_key(s, k),
            forall|i: int|
                0 <= i < s.len() ==> Self::map_of(s).dom().contains(#[trigger] s[i].0@)
                    && Self::map_of(s)[s[i].0@] == s[i].1@,
        decreases s.len(),
    {
        if s.len() == 0 {
            assert(Self::map_of(s).dom() =~= Set::<Seq<char>>::empty());
        } else {
            let s0 = s.drop_last();
            let lastk = s.last().0@;
            Self::lemma_map_of(s0);
            assert(!Self::has_key(s0, lastk));
            assert(!Self::map_of(s0).dom().contains(lastk));
            assert forall|k: Seq<char>| #[trigger] Self::map_of(s).dom().contains(k) implies
                Self::has_key(s, k) by {
                if k == lastk {
                    assert(s[s.len() - 1].0@ == k);
                } else {
                    let i = choose|i: int| 0 <= i < s0.len() && s0[i].0@ == k;
                    assert(s[i].0@ == k);
                }
            }
            assert forall|k: Seq<char>| Self::has_key(s, k) implies
                #[trigger] Self::map_of(s).dom().contains(k) by {
                let i = choose|i: int| 0 <= i < s.len() && s[i].0@ == k;
                if i < s.len() - 1 {
                    assert(s0[i].0@ == k);
                }
            }
            assert forall|i: int| 0 <= i < s.len() implies
                Self::map_of(s).dom().contains(#[trigger] s[i].0@)
                    && Self::map_of(s)[s[i].0@] == s[i].1@ by {
                if i < s.len() - 1 {
                    assert(s0[i].0@ == s[i].0@ && s0[i].1@ == s[i].1@);
                    assert(s[i].0@ != lastk);
                }
            }
        }
    }

    /// A well-formed table abstracts to a finite map.
    pub proof fn lemma_dom_finite(&self)
        requires
            self.wf(),
        ensures
            self@.dom().finite(),
    {
        Self::lemma_map_of(self.entries@);
    }

    pub fn with_capacity(capacity: usize) -> (r: Self)
        ensures
            r.wf(),
            r@ == Map::<Seq<char>, V::V>::empty(),
    {
        DomainMap { entries: Vec::with_capacity(capacity) }
    }

    /// The number of entries, which equals the cardinality of the
    /// abstract map's domain.
    pub fn len(&self) -> (r: usize)
        requires
            self.wf(),
        ensures
            r == self@.dom().len(),
    {
        proof {
            Self::lemma_map_of(self.entries@);
        }
        self.entries.len()
    }

    /// Index of the entry keyed `d`, if any.
    fn find(&self, d: &String) -> (r: Option<usize>)
        ensures
            match r {
                Some(i) => i < self.entries@.len() && self.entries@[i as int].0@ == d@,
                None => !Self::has_key(self.entries@, d@),
            },
    {
        let n = self.entries.len();
        let mut i: usize = 0;
        while i < n
            invariant
                n == self.entries@.len(),
                i <= n,
                forall|j: int| 0 <= j < i ==> self.entries@[j].0@ != d@,
            decreases n - i,
        {
            if self.entries[i].0.eq(d) {
                return Some(i);
            }
            i += 1;
        }
        None
    }

    pub fn contains_key(&self, d: &String) -> (r: bool)
        requires
            self.wf(),
        ensures
            r == self@.dom().contains(d@),
    {
        proof {
            Self::lemma_map_of(self.entries@);
        }
        self.find(d).is_some()
    }

    /// Borrow the value stored under `d`.
    pub fn get<'a>(&'a self, d: &String) -> (r: Option<&'a V>)
        requires
            self.wf(),
        ensures
            match r {
                Some(v) => self@.dom().contains(d@) && v@ == self@[d@],
                None => !self@.dom().contains(d@),
            },
    {
        proof {
            Self::lemma_map_of(self.entries@);
        }
        match self.find(d) {
            Some(i) => Some(&self.entries[i].1),
            None => None,
        }
    }

    /// Remove and return the value stored under `d`, if any.
    pub fn remove(&mut self, d: &String) -> (r: Option<V>)
        requires
            old(self).wf(),
        ensures
            final(self).wf(),
            final(self)@ == old(self)@.remove(d@),
            match r {
                Some(v) => old(self)@.dom().contains(d@) && v@ == old(self)@[d@],
                None => !old(self)@.dom().contains(d@) && final(self)@ == old(self)@,
            },
    {
        proof {
            Self::lemma_map_of(self.entries@);
        }
        match self.find(d) {
            Some(i) => {
                let ghost s_old = self.entries@;
                let (_, v) = self.entries.swap_remove(i);
                proof {
                    let s_new = self.entries@;
                    assert forall|a: int, b: int| 0 <= a < b < s_new.len() implies
                        s_new[a].0@ != s_new[b].0@ by {
                        assert(s_new[a] == s_old[if a == i { s_old.len() - 1 } else { a }]);
                        assert(s_new[b] == s_old[if b == i { s_old.len() - 1 } else { b }]);
                    }
                    Self::lemma_map_of(s_new);
                    assert forall|k: Seq<char>| #[trigger] Self::map_of(s_new).dom().contains(k) implies
                        Self::map_of(s_old).remove(d@).dom().contains(k)
                            && Self::map_of(s_new)[k] == Self::map_of(s_old).remove(d@)[k] by {
                        let a = choose|a: int| 0 <= a < s_new.len() && s_new[a].0@ == k;
                        let a0: int = if a == i { s_old.len() - 1 } else { a };
                        assert(s_new[a] == s_old[a0]);
                        assert(k != d@);
                    }
                    assert forall|k: Seq<char>| Self::map_of(s_old).remove(d@).dom().contains(k) implies
                        #[trigger] Self::map_of(s_new).dom().contains(k) by {
                        let a = choose|a: int| 0 <= a < s_old.len() && s_old[a].0@ == k;
                        assert(a != i);
                        if a == s_old.len() - 1 {
                            assert(s_new[i as int].0@ == k);
                        } else {
                            assert(s_new[a].0@ == k);
                        }
                    }
                    assert(Self::map_of(s_new) =~= Self::map_of(s_old).remove(d@));
                }
                Some(v)
            }
            None => {
                proof {
                    assert(self@ =~= self@.remove(d@));
                }
                None
            }
        }
    }

    /// Insert `value` under `key`, replacing any previous entry.
    pub fn insert(&mut self, key: String, value: V)
        requires
            old(self).wf(),
        ensures
            final(self).wf(),
            final(self)@ == old(self)@.insert(key@, value@),
    {
        self.remove(&key);
        let ghost s_mid = self.entries@;
        proof {
            Self::lemma_map_of(s_mid);
        }
        self.entries.push((key, value));
        proof {
            assert(self.entries@.drop_last() =~= s_mid);
            assert(self@ =~= Self::map_of(s_mid).insert(self.entries@.last().0@, self.entries@.last().1@));
            assert(old(self)@.remove(self.entries@.last().0@).insert(self.entries@.last().0@, value@)
                =~= old(self)@.insert(self.entries@.last().0@, value@));
        }
    }

    /// A snapshot of the keys currently present, one per entry.
    pub fn keys(&self) -> (r: Vec<String>)
        requires
            self.wf(),
        ensures
            forall|i: int, j: int| 0 <= i < j < r@.len() ==> r@[i]@ != r@[j]@,
            forall|i: int| 0 <= i < r@.len() ==> self@.dom().contains(#[trigger] r@[i]@),
            forall|k: Seq<char>| self@.dom().contains(k)
                ==> exists|i: int| 0 <= i < r@.len() && #[trigger] r@[i]@ == k,
    {
        proof {
            Self::lemma_map_of(self.entries@);
        }
        let n = self.entries.len();
        let mut r: Vec<String> = Vec::with_capacity(n);
        let mut i: usize = 0;
        while i < n
            invariant
                n == self.entries@.len(),
                i <= n,
                r@.len() == i,
                forall|j: int| 0 <= j < i ==> r@[j]@ == self.entries@[j].0@,
            decreases n - i,
        {
            r.push(self.entries[i].0.clone());
            i += 1;
        }
        proof {
            assert forall|k: Seq<char>| self@.dom().contains(k) implies
                exists|i: int| 0 <= i < r@.len() && #[trigger] r@[i]@ == k by {
                let a = choose|a: int| 0 <= a < self.entries@.len() && self.entries@[a].0@ == k;
                assert(r@[a]@ == k);
            }
        }
        r
    }
}

impl<V: View> View for DomainMap<V> {
    type V = Map<Seq<char>, V::V>;

    closed spec fn view(&self) -> Map<Seq<char>, V::V> {
        Self::map_of(self.entries@)
    }
}

} // verus!
