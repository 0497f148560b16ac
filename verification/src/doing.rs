//! The in-flight (doing) tracker: request deduplication.
//!
//! Per domain, the tracker holds the insertion-ordered waiter tokens of
//! every caller blocked on a query already dispatched to the driver.
//! An entry with an empty waiter list records a background refresh that
//! nobody is waiting on.

use vstd::prelude::*;

use crate::domain_map::DomainMap;

verus! {

/// Per-address-family in-flight tracker.
pub struct DoingTable {
    map: DomainMap<Vec<u64>>,
}

impl View for DoingTable {
    type V = Map<Seq<char>, Seq<u64>>;

    closed spec fn view(&self) -> Map<Seq<char>, Seq<u64>> {
        self.map@
    }
}

impl DoingTable {
    pub closed spec fn wf(&self) -> bool {
        self.map.wf()
    }

    pub fn with_capacity(capacity: usize) -> (r: Self)
        ensures
            r.wf(),
            r@ == Map::<Seq<char>, Seq<u64>>::empty(),
    {
        DoingTable { map: DomainMap::with_capacity(capacity) }
    }

    /// The number of domains with a query in flight.
    pub fn len(&self) -> (r: usize)
        requires
            self.wf(),
        ensures
            r == self@.dom().len(),
    {
        self.map.len()
    }

    /// Queue `waiter` behind an existing in-flight query, or record a
    /// new one with `[waiter]`.  Returns whether a new query must be
    /// dispatched: true exactly once per domain, however many callers
    /// arrive before the query completes.
    pub fn join_or_start(&mut self, domain: String, waiter: u64) -> (started: bool)
        requires
            old(self).wf(),
        ensures
            final(self).wf(),
            started == !old(self)@.dom().contains(domain@),
            final(self)@ == old(self)@.insert(
                domain@,
                if old(self)@.dom().contains(domain@) {
                    old(self)@[domain@].push(waiter)
                } else {
                    seq![waiter]
                },
            ),
    {
        let ghost d = domain@;
        match self.map.remove(&domain) {
            Some(mut ws) => {
                ws.push(waiter);
                self.map.insert(domain, ws);
                proof {
                    assert(self@ =~= old(self)@.insert(d, old(self)@[d].push(waiter)));
                }
                false
            }
            None => {
                let mut ws: Vec<u64> = Vec::new();
                ws.push(waiter);
                self.map.insert(domain, ws);
                proof {
                    assert(ws@ =~= seq![waiter]);
                }
                true
            }
        }
    }

    /// When answering from trash: make sure a background refresh is
    /// under way, recording one with an empty waiter list if no entry
    /// exists yet.  Returns whether a refresh query must be dispatched.
    pub fn start_background_refresh_if_absent(&mut self, domain: String) -> (started: bool)
        requires
            old(self).wf(),
        ensures
            final(self).wf(),
            started == !old(self)@.dom().contains(domain@),
            final(self)@ == if old(self)@.dom().contains(domain@) {
                old(self)@
            } else {
                old(self)@.insert(domain@, Seq::<u64>::empty())
            },
    {
        if self.map.contains_key(&domain) {
            false
        } else {
            let ws: Vec<u64> = Vec::new();
            proof {
                assert(ws@ =~= Seq::<u64>::empty());
            }
            self.map.insert(domain, ws);
            true
        }
    }

    /// A response arrived: remove the domain's entry and hand back all
    /// queued waiters, in the order they joined.
    pub fn complete(&mut self, domain: &String) -> (ws: Vec<u64>)
        requires
            old(self).wf(),
        ensures
            final(self).wf(),
            final(self)@ == old(self)@.remove(domain@),
            ws@ == if old(self)@.dom().contains(domain@) {
                old(self)@[domain@]
            } else {
                Seq::<u64>::empty()
            },
    {
        match self.map.remove(domain) {
            Some(ws) => ws,
            None => {
                let ws: Vec<u64> = Vec::new();
                proof {
                    assert(ws@ =~= Seq::<u64>::empty());
                }
                ws
            }
        }
    }
}

} // verus!
