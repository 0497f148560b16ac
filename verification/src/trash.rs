//! The trash (grace) store: expired-but-still-usable records.
//!
//! When a cache entry expires and its record carries a vanish instant,
//! the record is demoted here and keeps serving as a stale fallback —
//! while a refresh is in flight, or when a fresh query fails — until a
//! sweep finds its vanish instant passed.

use vstd::prelude::*;

use crate::domain_map::DomainMap;
use crate::record::{RecordModel, ResolvedRecord};

verus! {

/// Mathematical model of a trash entry.
pub ghost struct TrashEntryModel {
    pub record: RecordModel,
    pub vanish_at: u64,
}

/// An expired record kept as a stale fallback until its vanish instant.
struct TrashedRecord {
    inner: ResolvedRecord,
    vanish_at: u64,
}

impl View for TrashedRecord {
    type V = TrashEntryModel;

    closed spec fn view(&self) -> TrashEntryModel {
        TrashEntryModel { record: self.inner@, vanish_at: self.vanish_at }
    }
}

/// The trash store after dropping every entry vanished by `now`.
pub open spec fn spec_swept(
    trash: Map<Seq<char>, TrashEntryModel>,
    now: u64,
) -> Map<Seq<char>, TrashEntryModel> {
    Map::new(
        |d: Seq<char>| trash.dom().contains(d) && trash[d].vanish_at > now,
        |d: Seq<char>| trash[d],
    )
}

/// Per-address-family trash store.
pub struct TrashTable {
    map: DomainMap<TrashedRecord>,
}

impl View for TrashTable {
    type V = Map<Seq<char>, TrashEntryModel>;

    closed spec fn view(&self) -> Map<Seq<char>, TrashEntryModel> {
        self.map@
    }
}

impl TrashTable {
    pub closed spec fn wf(&self) -> bool {
        self.map.wf()
    }

    pub fn with_capacity(capacity: usize) -> (r: Self)
        ensures
            r.wf(),
            r@ == Map::<Seq<char>, TrashEntryModel>::empty(),
    {
        TrashTable { map: DomainMap::with_capacity(capacity) }
    }

    /// The number of trashed domains.
    pub fn len(&self) -> (r: usize)
        requires
            self.wf(),
        ensures
            r == self@.dom().len(),
    {
        self.map.len()
    }

    /// Store an expired record as the domain's stale fallback,
    /// superseding any older one.
    pub fn demote(&mut self, domain: String, record: ResolvedRecord, vanish_at: u64)
        requires
            old(self).wf(),
        ensures
            final(self).wf(),
            final(self)@ == old(self)@.insert(
                domain@,
                TrashEntryModel { record: record@, vanish_at },
            ),
    {
        self.map.insert(domain, TrashedRecord { inner: record, vanish_at });
    }

    /// Borrow the domain's stale fallback, without side effects.
    pub fn lookup<'a>(&'a self, d: &String) -> (r: Option<&'a ResolvedRecord>)
        requires
            self.wf(),
        ensures
            match r {
                Some(rec) => self@.dom().contains(d@) && rec@ == self@[d@].record,
                None => !self@.dom().contains(d@),
            },
    {
        match self.map.get(d) {
            Some(t) => Some(&t.inner),
            None => None,
        }
    }

    /// Remove the domain's entry: a fresh acceptable record supersedes
    /// the stale fallback.
    pub fn promote_out(&mut self, d: &String)
        requires
            old(self).wf(),
        ensures
            final(self).wf(),
            final(self)@ == old(self)@.remove(d@),
    {
        self.map.remove(d);
    }

    /// Drop every entry whose vanish instant has passed.
    pub fn sweep(&mut self, now: u64)
        requires
            old(self).wf(),
        ensures
            final(self).wf(),
            final(self)@ == spec_swept(old(self)@, now),
    {
        let keys = self.map.keys();
        let ghost t0 = self.map@;
        let n = keys.len();
        let mut i: usize = 0;
        while i < n
            invariant
                self.wf(),
                t0 == old(self)@,
                n == keys@.len(),
                i <= n,
                forall|a: int, b: int| 0 <= a < b < n ==> keys@[a]@ != keys@[b]@,
                forall|j: int| 0 <= j < n ==> t0.dom().contains(#[trigger] keys@[j]@),
                forall|d: Seq<char>| t0.dom().contains(d)
                    ==> exists|j: int| 0 <= j < n && #[trigger] keys@[j]@ == d,
                forall|j: int|
                    i <= j < n ==> self.map@.dom().contains(#[trigger] keys@[j]@)
                        && self.map@[keys@[j]@] == t0[keys@[j]@],
                forall|d: Seq<char>|
                    #[trigger] self.map@.dom().contains(d) ==> t0.dom().contains(d)
                        && self.map@[d] == t0[d],
                forall|j: int|
                    0 <= j < i ==> (self.map@.dom().contains(#[trigger] keys@[j]@)
                        <==> t0[keys@[j]@].vanish_at > now),
            decreases n - i,
        {
            let d = &keys[i];
            let drop_it = match self.map.get(d) {
                Some(t) => t.vanish_at <= now,
                None => false,
            };
            if drop_it {
                self.map.remove(d);
            }
            i += 1;
        }
        proof {
            assert forall|d: Seq<char>| #[trigger] spec_swept(t0, now).dom().contains(d) implies
                self.map@.dom().contains(d) by {
                let j = choose|j: int| 0 <= j < n && keys@[j]@ == d;
                assert(self.map@.dom().contains(keys@[j]@) <==> t0[keys@[j]@].vanish_at > now);
            }
            assert forall|d: Seq<char>| #[trigger] self.map@.dom().contains(d) implies
                spec_swept(t0, now).dom().contains(d) by {
                let j = choose|j: int| 0 <= j < n && keys@[j]@ == d;
                assert(self.map@.dom().contains(keys@[j]@) <==> t0[keys@[j]@].vanish_at > now);
            }
            assert(self.map@ =~= spec_swept(t0, now));
        }
    }
}

} // verus!
