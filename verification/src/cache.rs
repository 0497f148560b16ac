//! The live cache paired with its expiry timer index.
//!
//! Each cached record owns exactly one slot in the timer index, keyed by
//! the absolute instant at which the record must leave the cache.  A
//! fresher answer for the same domain reuses the existing slot, so a
//! domain never holds two timers, and no timer outlives its entry.

use vstd::prelude::*;

use crate::domain_map::DomainMap;
use crate::record::{RecordModel, ResolvedRecord};

verus! {

/// Mathematical model of a [`CachedRecord`].
pub ghost struct CachedRecordModel {
    pub record: RecordModel,
    pub expire_at: u64,
    pub expire_key: usize,
}

/// A cache entry: the record, its expiry instant, and the slot it owns in
/// the timer index.
struct CachedRecord {
    inner: ResolvedRecord,
    expire_at: u64,
    expire_key: usize,
}

impl View for CachedRecord {
    type V = CachedRecordModel;

    closed spec fn view(&self) -> CachedRecordModel {
        CachedRecordModel {
            record: self.inner@,
            expire_at: self.expire_at,
            expire_key: self.expire_key,
        }
    }
}

/// Abstract content of one cache entry: the timer slot is hidden.
pub ghost struct CacheEntryModel {
    pub record: RecordModel,
    pub expire_at: u64,
}

/// Per-address-family cache of live records with its expiry index.
pub struct CacheTable {
    map: DomainMap<CachedRecord>,
    timers: Vec<Option<(String, u64)>>,
}

impl View for CacheTable {
    type V = Map<Seq<char>, CacheEntryModel>;

    closed spec fn view(&self) -> Map<Seq<char>, CacheEntryModel> {
        Map::new(
            |d: Seq<char>| self.map@.dom().contains(d),
            |d: Seq<char>| CacheEntryModel {
                record: self.map@[d].record,
                expire_at: self.map@[d].expire_at,
            },
        )
    }
}

impl CacheTable {
    /// Every entry is keyed by its record's domain and owns a live timer
    /// slot that names it back; every live timer slot belongs to exactly
    /// the entry it names.  No orphaned timers, no entry without a
    /// scheduled expiry.
    pub closed spec fn wf(&self) -> bool {
        &&& self.map.wf()
        &&& forall|d: Seq<char>| #[trigger] self.map@.dom().contains(d) ==> {
            let e = self.map@[d];
            let slot = self.timers@[e.expire_key as int];
            &&& e.record.domain == d
            &&& e.expire_key < self.timers@.len()
            &&& slot is Some
            &&& (slot->0).0@ == d
            &&& (slot->0).1 == e.expire_at
        }
        &&& forall|k: int|
            0 <= k < self.timers@.len() && (#[trigger] self.timers@[k]) is Some ==> {
                let t = self.timers@[k]->0;
                &&& self.map@.dom().contains(t.0@)
                &&& self.map@[t.0@].expire_at == t.1
                &&& self.map@[t.0@].expire_key == k
            }
    }

    /// A well-formed cache abstracts to a finite map.
    pub proof fn lemma_dom_finite(&self)
        requires
            self.wf(),
        ensures
            self@.dom().finite(),
    {
        self.map.lemma_dom_finite();
        assert(self@.dom() =~= self.map@.dom());
    }

    pub fn with_capacity(capacity: usize) -> (r: Self)
        ensures
            r.wf(),
            r@ == Map::<Seq<char>, CacheEntryModel>::empty(),
    {
        let r = CacheTable {
            map: DomainMap::with_capacity(capacity),
            timers: Vec::with_capacity(capacity),
        };
        proof {
            assert(r@ =~= Map::<Seq<char>, CacheEntryModel>::empty());
        }
        r
    }

    /// The number of cached domains.
    pub fn len(&self) -> (r: usize)
        requires
            self.wf(),
        ensures
            r == self@.dom().len(),
    {
        proof {
            assert(self@.dom() =~= self.map@.dom());
        }
        self.map.len()
    }

    /// Borrow the live record cached for `d`, without side effects.
    pub fn lookup<'a>(&'a self, d: &String) -> (r: Option<&'a ResolvedRecord>)
        requires
            self.wf(),
        ensures
            match r {
                Some(rec) => self@.dom().contains(d@) && rec@ == self@[d@].record,
                None => !self@.dom().contains(d@),
            },
    {
        match self.map.get(d) {
            Some(e) => Some(&e.inner),
            None => None,
        }
    }

    /// Fill a slot for `domain`, claiming a free one or growing the index.
    fn alloc_timer(&mut self, domain: String, expire_at: u64) -> (k: usize)
        ensures
            final(self).map == old(self).map,
            k < final(self).timers@.len(),
            final(self).timers@[k as int] == Some((domain, expire_at)),
            k < old(self).timers@.len() ==> old(self).timers@[k as int] is None
                && final(self).timers@.len() == old(self).timers@.len(),
            k >= old(self).timers@.len() ==> k == old(self).timers@.len()
                && final(self).timers@.len() == old(self).timers@.len() + 1,
            forall|j: int|
                0 <= j < old(self).timers@.len() && j != k
                    ==> final(self).timers@[j] == old(self).timers@[j],
    {
        let n = self.timers.len();
        let mut k: usize = 0;
        while k < n
            invariant
                *old(self) == *self,
                n == self.timers@.len(),
                k <= n,
            decreases n - k,
        {
            if self.timers[k].is_none() {
                self.timers.set(k, Some((domain, expire_at)));
                return k;
            }
            k += 1;
        }
        self.timers.push(Some((domain, expire_at)));
        n
    }

    /// Insert or refresh the entry for `record`'s domain, rescheduling the
    /// existing timer slot in place when there is one.
    pub fn upsert(&mut self, record: ResolvedRecord, expire_at: u64)
        requires
            old(self).wf(),
        ensures
            final(self).wf(),
            final(self)@ == old(self)@.insert(
                record@.domain,
                CacheEntryModel { record: record@, expire_at },
            ),
    {
        let ghost d = record@.domain;
        let ghost m0 = old(self).map@;
        let ghost t0 = old(self).timers@;
        let domain = record.domain.clone();
        match self.map.remove(&domain) {
            Some(old_e) => {
                let ghost k0 = old_e@.expire_key as int;
                self.timers.set(old_e.expire_key, Some((domain.clone(), expire_at)));
                self.map.insert(
                    domain,
                    CachedRecord { inner: record, expire_at, expire_key: old_e.expire_key },
                );
                proof {
                    let m1 = self.map@;
                    let t1 = self.timers@;
                    assert forall|d2: Seq<char>| #[trigger] m1.dom().contains(d2) && d2 != d implies
                        m0.dom().contains(d2) && m1[d2] == m0[d2] && m0[d2].expire_key != k0 by {
                        assert((t0[m0[d2].expire_key as int]->0).0@ == d2);
                        assert((t0[k0]->0).0@ == d);
                    }
                    assert forall|k2: int|
                        0 <= k2 < t1.len() && (#[trigger] t1[k2]) is Some && k2 != k0 implies
                        t0[k2] == t1[k2] && (t0[k2]->0).0@ != d by {
                        assert(m0[(t0[k2]->0).0@].expire_key == k2);
                    }
                }
            }
            None => {
                let k = self.alloc_timer(domain.clone(), expire_at);
                self.map.insert(domain, CachedRecord { inner: record, expire_at, expire_key: k });
                proof {
                    let m1 = self.map@;
                    let t1 = self.timers@;
                    assert forall|d2: Seq<char>| #[trigger] m1.dom().contains(d2) && d2 != d implies
                        m0.dom().contains(d2) && m1[d2] == m0[d2] && m0[d2].expire_key != k by {
                        assert(t0[m0[d2].expire_key as int] is Some);
                    }
                    assert forall|k2: int|
                        0 <= k2 < t1.len() && (#[trigger] t1[k2]) is Some && k2 != k implies
                        k2 < t0.len() && t0[k2] == t1[k2] && (t0[k2]->0).0@ != d by {
                    }
                }
            }
        }
        proof {
            assert(self@ =~= old(self)@.insert(
                d,
                CacheEntryModel { record: record@, expire_at },
            ));
        }
    }

    /// Consume one fired expiry slot, removing and returning its record.
    /// Returns `None` exactly when no cached record has expired by `now`.
    pub fn take_expired(&mut self, now: u64) -> (r: Option<ResolvedRecord>)
        requires
            old(self).wf(),
        ensures
            final(self).wf(),
            match r {
                Some(rec) => {
                    &&& old(self)@.dom().contains(rec@.domain)
                    &&& old(self)@[rec@.domain].expire_at <= now
                    &&& rec@ == old(self)@[rec@.domain].record
                    &&& final(self)@ == old(self)@.remove(rec@.domain)
                },
                None => {
                    &&& final(self)@ == old(self)@
                    &&& forall|d: Seq<char>|
                        #[trigger] old(self)@.dom().contains(d) ==> old(self)@[d].expire_at > now
                },
            },
    {
        let ghost m0 = old(self).map@;
        let ghost t0 = old(self).timers@;
        let n = self.timers.len();
        let mut k: usize = 0;
        while k < n
            invariant
                *old(self) == *self,
                m0 == self.map@,
                t0 == self.timers@,
                self.wf(),
                n == self.timers@.len(),
                k <= n,
                forall|j: int|
                    0 <= j < k && (#[trigger] self.timers@[j]) is Some
                        ==> (self.timers@[j]->0).1 > now,
            decreases n - k,
        {
            let elem: &Option<(String, u64)> = vstd::slice::slice_index_get(self.timers.as_slice(), k);
            proof {
                assert(*elem == t0[k as int]);
            }
            let fired: Option<String> = match elem {
                Some(t) => {
                    proof {
                        assert(*t == t0[k as int]->0);
                    }
                    if t.1 <= now {
                        let d0 = t.0.clone();
                        proof {
                            assert(d0 == (t0[k as int]->0).0);
                        }
                        Some(d0)
                    } else {
                        None
                    }
                }
                None => None,
            };
            if let Some(domain) = fired {
                proof {
                    assert(t0[k as int] is Some && (t0[k as int]->0).0@ == domain@);
                    assert(m0.dom().contains(domain@) && m0[domain@].expire_key == k as int);
                }
                self.timers.set(k, None);
                let e = self.map.remove(&domain);
                let rec = e.unwrap().inner;
                proof {
                    let m1 = self.map@;
                    let t1 = self.timers@;
                    assert(rec@.domain == domain@);
                    assert forall|d2: Seq<char>| #[trigger] m1.dom().contains(d2) implies
                        m0.dom().contains(d2) && m1[d2] == m0[d2]
                            && m0[d2].expire_key != k as int by {
                        assert((t0[m0[d2].expire_key as int]->0).0@ == d2);
                    }
                    assert forall|k2: int|
                        0 <= k2 < t1.len() && (#[trigger] t1[k2]) is Some implies
                        k2 != k as int && t0[k2] == t1[k2] && (t0[k2]->0).0@ != domain@ by {
                        assert(m0[(t0[k2]->0).0@].expire_key == k2);
                    }
                    assert(self@ =~= old(self)@.remove(rec@.domain));
                }
                return Some(rec);
            }
            k += 1;
        }
        proof {
            assert(self@ =~= old(self)@);
            assert forall|d: Seq<char>| #[trigger] old(self)@.dom().contains(d) implies
                old(self)@[d].expire_at > now by {
                assert(t0[m0[d].expire_key as int] is Some);
            }
        }
        None
    }
}

} // verus!
