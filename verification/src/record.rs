//! Resolved records: the immutable value produced by one completed lookup.

use vstd::prelude::*;

verus! {

/// The address family a lookup was made for.
#[derive(Clone, Copy, Debug, PartialEq, Eq, Structural)]
pub enum AddressFamily {
    V4,
    V6,
}

/// Why a particular record was handed to a caller.
#[derive(Clone, Copy, Debug, PartialEq, Eq, Structural)]
pub enum ResolvedRecordSource {
    /// Answered from the live cache.
    Cache,
    /// Answered from the grace-period (trash) store.
    Trash,
    /// Answered directly by a driver query.
    Query,
}

/// Mathematical model of a [`ResolvedRecord`].
pub ghost struct RecordModel {
    pub domain: Seq<char>,
    pub acceptable: bool,
    pub expire: Option<u64>,
    pub vanish: Option<u64>,
}

/// A completed lookup (success or usable negative answer, or a transient
/// failure) for one domain and address family.
///
/// `expire` is the absolute instant after which the record must leave the
/// live cache (absent: the record is never cached).  `vanish` is the later
/// absolute instant beyond which the record may no longer serve even as a
/// stale fallback (absent: the record is never moved to the trash store).
pub struct ResolvedRecord {
    pub domain: String,
    pub acceptable: bool,
    pub expire: Option<u64>,
    pub vanish: Option<u64>,
}

impl View for ResolvedRecord {
    type V = RecordModel;

    open spec fn view(&self) -> RecordModel {
        RecordModel {
            domain: self.domain@,
            acceptable: self.acceptable,
            expire: self.expire,
            vanish: self.vanish,
        }
    }
}

impl Clone for ResolvedRecord {
    fn clone(&self) -> (r: Self)
        ensures
            r == *self,
    {
        ResolvedRecord {
            domain: self.domain.clone(),
            acceptable: self.acceptable,
            expire: self.expire,
            vanish: self.vanish,
        }
    }
}

impl RecordModel {
    /// A record is well formed when its vanish instant, if any, lies
    /// strictly after its expiry instant, which must then be present.
    pub open spec fn wf(self) -> bool {
        self.vanish is Some ==> self.expire is Some && self.expire->0 < self.vanish->0
    }
}

/// Mathematical model of a [`Delivery`].
pub ghost struct DeliveryModel {
    pub waiter: u64,
    pub record: RecordModel,
    pub source: ResolvedRecordSource,
}

/// One reply owed to one waiter: the engine returns these and the
/// surrounding runtime pushes each onto the waiter's one-shot channel.
pub struct Delivery {
    pub waiter: u64,
    pub record: ResolvedRecord,
    pub source: ResolvedRecordSource,
}

impl View for Delivery {
    type V = DeliveryModel;

    open spec fn view(&self) -> DeliveryModel {
        DeliveryModel { waiter: self.waiter, record: self.record@, source: self.source }
    }
}

} // verus!
