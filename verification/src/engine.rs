//! The resolver cache engine: the single-owner state behind the actor.
//!
//! The engine owns, per address family, the live cache with its expiry
//! index, the in-flight (doing) tracker, and the trash (grace) store, and
//! implements every state transition of the actor loop as a function from
//! plain values to plain values.  The surrounding runtime owns the
//! channels, the timers and the driver tasks; it feeds each event into
//! the matching handler and performs the deliveries and dispatches the
//! handler returns.
//!
//! Each handler's behaviour is pinned by a specification twin: a spec
//! function over the mathematical model of the state that computes the
//! exact successor state and outputs.

use vstd::prelude::*;

use crate::cache::{CacheEntryModel, CacheTable};
use crate::doing::DoingTable;
use crate::record::{
    AddressFamily, Delivery, DeliveryModel, RecordModel, ResolvedRecord, ResolvedRecordSource,
};
use crate::trash::{spec_swept, TrashEntryModel, TrashTable};

verus! {

/// The engine's configuration: the two numeric knobs this core reads,
/// and an opaque driver descriptor handed back with dispatch decisions.
pub struct ResolverConfig<D> {
    pub initial_cache_capacity: usize,
    pub batch_request_count: usize,
    pub driver: D,
}

/// A control-surface command, consumed at the top of an iteration.
pub enum ResolverCommand<D> {
    /// Hot-swap the configuration (and with it the driver) in place.
    /// The surrounding runtime validates a new configuration before
    /// sending it; one it could not apply is never handed to the engine,
    /// so the previous configuration stays active on failure.
    Update(ResolverConfig<D>),
    /// Drain and terminate.
    Quit,
}

/// A client request: resolve a domain for one address family, replying
/// to the given waiter token.
pub enum ResolveDriverRequest {
    GetV4(String, u64),
    GetV6(String, u64),
}

/// Mathematical model of a [`ResolveDriverRequest`].
pub ghost struct RequestModel {
    pub family: AddressFamily,
    pub domain: Seq<char>,
    pub waiter: u64,
}

impl View for ResolveDriverRequest {
    type V = RequestModel;

    open spec fn view(&self) -> RequestModel {
        match self {
            ResolveDriverRequest::GetV4(d, w) => RequestModel {
                family: AddressFamily::V4,
                domain: d@,
                waiter: *w,
            },
            ResolveDriverRequest::GetV6(d, w) => RequestModel {
                family: AddressFamily::V6,
                domain: d@,
                waiter: *w,
            },
        }
    }
}

/// A completed driver lookup being fed back into the engine.
pub enum ResolveDriverResponse {
    V4(ResolvedRecord),
    V6(ResolvedRecord),
}

/// Mathematical model of a [`ResolveDriverResponse`].
pub ghost struct ResponseModel {
    pub family: AddressFamily,
    pub record: RecordModel,
}

impl View for ResolveDriverResponse {
    type V = ResponseModel;

    open spec fn view(&self) -> ResponseModel {
        match self {
            ResolveDriverResponse::V4(r) => ResponseModel { family: AddressFamily::V4, record: r@ },
            ResolveDriverResponse::V6(r) => ResponseModel { family: AddressFamily::V6, record: r@ },
        }
    }
}

/// An instruction to the surrounding runtime: start one driver query for
/// this domain and family, reporting back on the response channel.
pub struct DispatchAction {
    pub family: AddressFamily,
    pub domain: String,
}

/// Mathematical model of a [`DispatchAction`].
pub ghost struct DispatchModel {
    pub family: AddressFamily,
    pub domain: Seq<char>,
}

impl View for DispatchAction {
    type V = DispatchModel;

    open spec fn view(&self) -> DispatchModel {
        DispatchModel { family: self.family, domain: self.domain@ }
    }
}

/// Gauge lengths for one address family's three stores.
pub struct FamilyMemoryStats {
    pub cache_length: usize,
    pub doing_length: usize,
    pub trash_length: usize,
}

/// Gauge lengths for both address families, pushed to the metrics sink
/// by the surrounding runtime.
pub struct MemoryStats {
    pub v4: FamilyMemoryStats,
    pub v6: FamilyMemoryStats,
}

/// Mathematical model of one address family's share of the engine.
pub ghost struct FamilyModel {
    pub cache: Map<Seq<char>, CacheEntryModel>,
    pub doing: Map<Seq<char>, Seq<u64>>,
    pub trash: Map<Seq<char>, TrashEntryModel>,
}

/// One address family's share of the engine: live cache, in-flight
/// tracker, and grace-period store.
struct FamilyState {
    cache: CacheTable,
    doing: DoingTable,
    trash: TrashTable,
}

impl View for FamilyState {
    type V = FamilyModel;

    closed spec fn view(&self) -> FamilyModel {
        FamilyModel { cache: self.cache@, doing: self.doing@, trash: self.trash@ }
    }
}

/// The views of a sequence of deliveries.
pub open spec fn delivery_views(s: Seq<Delivery>) -> Seq<DeliveryModel> {
    s.map_values(|x: Delivery| x@)
}

/// The views of a sequence of dispatch actions.
pub open spec fn dispatch_views(s: Seq<DispatchAction>) -> Seq<DispatchModel> {
    s.map_values(|x: DispatchAction| x@)
}

/// The views of a sequence of responses.
pub open spec fn response_views(s: Seq<ResolveDriverResponse>) -> Seq<ResponseModel> {
    s.map_values(|x: ResolveDriverResponse| x@)
}

/// The views of a sequence of requests.
pub open spec fn request_views(s: Seq<ResolveDriverRequest>) -> Seq<RequestModel> {
    s.map_values(|x: ResolveDriverRequest| x@)
}

/// Fan a freshly resolved record out to the waiters of one in-flight
/// query, in the order they joined.  The last waiter queued is treated
/// as the one whose request caused the query and is tagged `Query`; all
/// earlier waiters are tagged `Cache`.  The tag is observability
/// metadata only; every waiter receives the same record.
pub open spec fn spec_fan_out(ws: Seq<u64>, r: RecordModel) -> Seq<DeliveryModel> {
    Seq::new(
        ws.len(),
        |i: int| DeliveryModel {
            waiter: ws[i],
            record: r,
            source: if i == ws.len() - 1 {
                ResolvedRecordSource::Query
            } else {
                ResolvedRecordSource::Cache
            },
        },
    )
}

/// Fan a stale fallback record out to every waiter, tagged `Trash`.
pub open spec fn spec_fan_out_trash(ws: Seq<u64>, r: RecordModel) -> Seq<DeliveryModel> {
    Seq::new(
        ws.len(),
        |i: int| DeliveryModel { waiter: ws[i], record: r, source: ResolvedRecordSource::Trash },
    )
}

/// The request algorithm: answer from cache, else from trash (starting a
/// background refresh if none is under way), else join or start an
/// in-flight query.  Returns the successor state, the immediate reply if
/// any, and whether a driver query must be dispatched.
pub open spec fn spec_handle_req(m: FamilyModel, domain: Seq<char>, waiter: u64) -> (
    FamilyModel,
    Option<DeliveryModel>,
    bool,
) {
    if m.cache.dom().contains(domain) {
        let reply = DeliveryModel {
            waiter,
            record: m.cache[domain].record,
            source: ResolvedRecordSource::Cache,
        };
        (m, Some(reply), false)
    } else if m.trash.dom().contains(domain) {
        let reply = DeliveryModel {
            waiter,
            record: m.trash[domain].record,
            source: ResolvedRecordSource::Trash,
        };
        let dispatch = !m.doing.dom().contains(domain);
        let doing1 = if dispatch {
            m.doing.insert(domain, Seq::empty())
        } else {
            m.doing
        };
        (FamilyModel { cache: m.cache, doing: doing1, trash: m.trash }, Some(reply), dispatch)
    } else if m.doing.dom().contains(domain) {
        let doing1 = m.doing.insert(domain, m.doing[domain].push(waiter));
        (FamilyModel { cache: m.cache, doing: doing1, trash: m.trash }, None, false)
    } else {
        let doing1 = m.doing.insert(domain, seq![waiter]);
        (FamilyModel { cache: m.cache, doing: doing1, trash: m.trash }, None, true)
    }
}

/// The response algorithm.  A non-acceptable record is masked by a trash
/// fallback when one exists and is never cached; an acceptable record
/// invalidates any trash entry; either way the record fans out to all
/// in-flight waiters and, when it carries an expiry, enters the cache.
pub open spec fn spec_handle_rsp(m: FamilyModel, r: RecordModel) -> (
    FamilyModel,
    Seq<DeliveryModel>,
) {
    if !r.acceptable && m.trash.dom().contains(r.domain) {
        let ws = if m.doing.dom().contains(r.domain) {
            m.doing[r.domain]
        } else {
            Seq::empty()
        };
        let m1 = FamilyModel { cache: m.cache, doing: m.doing.remove(r.domain), trash: m.trash };
        (m1, spec_fan_out_trash(ws, m.trash[r.domain].record))
    } else {
        let trash1 = if r.acceptable {
            m.trash.remove(r.domain)
        } else {
            m.trash
        };
        let ws = if m.doing.dom().contains(r.domain) {
            m.doing[r.domain]
        } else {
            Seq::empty()
        };
        let cache1 = if r.expire is Some {
            m.cache.insert(r.domain, CacheEntryModel { record: r, expire_at: r.expire->0 })
        } else {
            m.cache
        };
        let m1 = FamilyModel { cache: cache1, doing: m.doing.remove(r.domain), trash: trash1 };
        (m1, spec_fan_out(ws, r))
    }
}

/// Expiry of one cached domain: the entry leaves the cache and, if its
/// record carries a vanish instant, is demoted into trash; otherwise it
/// is dropped outright.
pub open spec fn spec_expire_one(m: FamilyModel, domain: Seq<char>) -> FamilyModel {
    let rec = m.cache[domain].record;
    let trash1 = if rec.vanish is Some {
        m.trash.insert(domain, TrashEntryModel { record: rec, vanish_at: rec.vanish->0 })
    } else {
        m.trash
    };
    FamilyModel { cache: m.cache.remove(domain), doing: m.doing, trash: trash1 }
}

/// The domains whose cache entries have expired by `now`.
pub open spec fn spec_expired_set(m: FamilyModel, now: u64) -> Set<Seq<char>> {
    Set::new(|d: Seq<char>| m.cache.dom().contains(d) && m.cache[d].expire_at <= now)
}

/// Some cache entry has expired by `now`.
pub open spec fn spec_has_expired(m: FamilyModel, now: u64) -> bool {
    exists|d: Seq<char>| #[trigger] m.cache.dom().contains(d) && m.cache[d].expire_at <= now
}

/// The trash entries demoted when the domains in `s` expire: those whose
/// cached record carries a vanish instant.
pub open spec fn spec_demoted_of(m: FamilyModel, s: Set<Seq<char>>) -> Map<
    Seq<char>,
    TrashEntryModel,
> {
    Map::new(
        |d: Seq<char>| s.contains(d) && m.cache.dom().contains(d)
            && m.cache[d].record.vanish is Some,
        |d: Seq<char>| TrashEntryModel {
            record: m.cache[d].record,
            vanish_at: m.cache[d].record.vanish->0,
        },
    )
}

/// One family after draining every expiry timer fired by `now`: expired
/// entries leave the cache, and those carrying a vanish instant are
/// demoted into trash, superseding any older trash entry.
pub open spec fn spec_expire_family(m: FamilyModel, now: u64) -> FamilyModel {
    FamilyModel {
        cache: m.cache.remove_keys(spec_expired_set(m, now)),
        doing: m.doing,
        trash: m.trash.union_prefer_right(spec_demoted_of(m, spec_expired_set(m, now))),
    }
}

impl FamilyState {
    spec fn wf(&self) -> bool {
        &&& self.cache.wf()
        &&& self.doing.wf()
        &&& self.trash.wf()
    }

    fn with_capacity(capacity: usize) -> (r: Self)
        ensures
            r.wf(),
            r@.cache == Map::<Seq<char>, CacheEntryModel>::empty(),
            r@.doing == Map::<Seq<char>, Seq<u64>>::empty(),
            r@.trash == Map::<Seq<char>, TrashEntryModel>::empty(),
    {
        FamilyState {
            cache: CacheTable::with_capacity(capacity),
            doing: DoingTable::with_capacity(capacity),
            trash: TrashTable::with_capacity(capacity),
        }
    }

    /// The request algorithm (one family): reply and dispatch flag.
    fn handle_req(&mut self, domain: String, waiter: u64) -> (r: (Option<Delivery>, bool))
        requires
            old(self).wf(),
        ensures
            final(self).wf(),
            ({
                let (m1, reply, dispatch) = spec_handle_req(old(self)@, domain@, waiter);
                &&& final(self)@ == m1
                &&& match r.0 {
                    Some(del) => reply == Some(del@),
                    None => reply is None,
                }
                &&& r.1 == dispatch
            }),
    {
        let cached: Option<ResolvedRecord> = match self.cache.lookup(&domain) {
            Some(rec) => Some(rec.clone()),
            None => None,
        };
        if let Some(rec) = cached {
            return (
                Some(Delivery { waiter, record: rec, source: ResolvedRecordSource::Cache }),
                false,
            );
        }
        let trashed: Option<ResolvedRecord> = match self.trash.lookup(&domain) {
            Some(rec) => Some(rec.clone()),
            None => None,
        };
        if let Some(rec) = trashed {
            let dispatch = self.doing.start_background_refresh_if_absent(domain);
            return (
                Some(Delivery { waiter, record: rec, source: ResolvedRecordSource::Trash }),
                dispatch,
            );
        }
        let started = self.doing.join_or_start(domain, waiter);
        (None, started)
    }

    /// The response algorithm (one family): successor state and fan-out.
    fn handle_rsp(&mut self, record: ResolvedRecord) -> (deliveries: Vec<Delivery>)
        requires
            old(self).wf(),
        ensures
            final(self).wf(),
            ({
                let (m1, ds) = spec_handle_rsp(old(self)@, record@);
                &&& final(self)@ == m1
                &&& delivery_views(deliveries@) == ds
            }),
    {
        let domain = record.domain.clone();
        if !record.acceptable {
            let fallback: Option<ResolvedRecord> = match self.trash.lookup(&domain) {
                Some(rec) => Some(rec.clone()),
                None => None,
            };
            if let Some(trec) = fallback {
                let ws = self.doing.complete(&domain);
                return fan_out_trash(&ws, trec);
            }
        } else {
            self.trash.promote_out(&domain);
        }
        let ws = self.doing.complete(&domain);
        let out = fan_out(&ws, &record);
        if let Some(expire_at) = record.expire {
            self.cache.upsert(record, expire_at);
        }
        out
    }

    /// Consume one fired expiry timer, if any has fired by `now`.
    fn handle_expired(&mut self, now: u64) -> (r: Option<ResolvedRecord>)
        requires
            old(self).wf(),
        ensures
            final(self).wf(),
            match r {
                Some(rec) => {
                    &&& old(self)@.cache.dom().contains(rec@.domain)
                    &&& old(self)@.cache[rec@.domain].expire_at <= now
                    &&& rec@ == old(self)@.cache[rec@.domain].record
                    &&& final(self)@ == spec_expire_one(old(self)@, rec@.domain)
                },
                None => {
                    &&& final(self)@ == old(self)@
                    &&& forall|d: Seq<char>|
                        #[trigger] old(self)@.cache.dom().contains(d)
                            ==> old(self)@.cache[d].expire_at > now
                },
            },
    {
        match self.cache.take_expired(now) {
            Some(rec) => {
                let vanish = rec.vanish;
                if let Some(vanish_at) = vanish {
                    let domain = rec.domain.clone();
                    let rec2 = rec.clone();
                    self.trash.demote(domain, rec2, vanish_at);
                }
                Some(rec)
            }
            None => None,
        }
    }

    /// Drain every fired expiry timer, demoting as needed.  Returns
    /// whether anything expired.
    fn drain_expired(&mut self, now: u64) -> (mutated: bool)
        requires
            old(self).wf(),
        ensures
            final(self).wf(),
            final(self)@ == spec_expire_family(old(self)@, now),
            mutated == spec_has_expired(old(self)@, now),
    {
        let ghost m0 = self@;
        let ghost mut processed: Set<Seq<char>> = Set::empty();
        let mut mutated = false;
        proof {
            assert(self@.cache =~= m0.cache.remove_keys(processed));
            assert(self@.trash =~= m0.trash.union_prefer_right(spec_demoted_of(m0, processed)));
            self.cache.lemma_dom_finite();
        }
        loop
            invariant
                self.wf(),
                m0 == old(self)@,
                processed.subset_of(spec_expired_set(m0, now)),
                self@.cache == m0.cache.remove_keys(processed),
                self@.doing == m0.doing,
                self@.trash == m0.trash.union_prefer_right(spec_demoted_of(m0, processed)),
                mutated ==> spec_has_expired(m0, now),
                !mutated ==> (processed =~= Set::<Seq<char>>::empty()),
                self@.cache.dom().finite(),
            decreases self@.cache.dom().len(),
        {
            let ghost pre = self@;
            match self.handle_expired(now) {
                Some(rec) => {
                    proof {
                        let d = rec@.domain;
                        assert(pre.cache.dom().contains(d));
                        assert(m0.cache.dom().contains(d) && m0.cache[d] == pre.cache[d]);
                        processed = processed.insert(d);
                        assert(self@.cache =~= m0.cache.remove_keys(processed));
                        assert(self@.trash =~= m0.trash.union_prefer_right(
                            spec_demoted_of(m0, processed),
                        ));
                        self.cache.lemma_dom_finite();
                        assert(self@.cache.dom() =~= pre.cache.dom().remove(d));
                    }
                    mutated = true;
                }
                None => {
                    proof {
                        assert forall|d: Seq<char>| spec_expired_set(m0, now).contains(d) implies
                            processed.contains(d) by {
                            if !processed.contains(d) {
                                assert(self@.cache.dom().contains(d));
                                assert(self@.cache[d] == m0.cache[d]);
                            }
                        }
                        assert(processed =~= spec_expired_set(m0, now));
                        if !mutated {
                            assert forall|d: Seq<char>|
                                !(#[trigger] m0.cache.dom().contains(d)
                                    && m0.cache[d].expire_at <= now) by {
                                if m0.cache.dom().contains(d) && m0.cache[d].expire_at <= now {
                                    assert(spec_expired_set(m0, now).contains(d));
                                    assert(processed.contains(d));
                                }
                            }
                        }
                    }
                    return mutated;
                }
            }
        }
    }

    /// Gauge snapshot for one family.
    fn mem_stats(&self) -> (r: FamilyMemoryStats)
        requires
            self.wf(),
        ensures
            r.cache_length == self@.cache.dom().len(),
            r.doing_length == self@.doing.dom().len(),
            r.trash_length == self@.trash.dom().len(),
    {
        FamilyMemoryStats {
            cache_length: self.cache.len(),
            doing_length: self.doing.len(),
            trash_length: self.trash.len(),
        }
    }

    /// Drop every trash entry whose vanish instant has passed.
    fn clean_trash(&mut self, now: u64)
        requires
            old(self).wf(),
        ensures
            final(self).wf(),
            final(self)@.cache == old(self)@.cache,
            final(self)@.doing == old(self)@.doing,
            final(self)@.trash == spec_swept(old(self)@.trash, now),
    {
        self.trash.sweep(now);
    }
}

/// Mathematical model of the whole engine.
pub ghost struct RuntimeModel<D> {
    pub v4: FamilyModel,
    pub v6: FamilyModel,
    pub config: ResolverConfig<D>,
}

/// The model of the family `f` within `m`.
pub open spec fn family_of<D>(m: RuntimeModel<D>, f: AddressFamily) -> FamilyModel {
    match f {
        AddressFamily::V4 => m.v4,
        AddressFamily::V6 => m.v6,
    }
}

/// `m` with the family `f` replaced by `fm`.
pub open spec fn with_family<D>(m: RuntimeModel<D>, f: AddressFamily, fm: FamilyModel) -> RuntimeModel<D> {
    match f {
        AddressFamily::V4 => RuntimeModel { v4: fm, v6: m.v6, config: m.config },
        AddressFamily::V6 => RuntimeModel { v4: m.v4, v6: fm, config: m.config },
    }
}

/// A control command: `Update` swaps in the new configuration and driver
/// while leaving every cache, in-flight and trash entry untouched;
/// `Quit` is handled by the loop itself and changes nothing here.
pub open spec fn spec_handle_cmd<D>(m: RuntimeModel<D>, cmd: ResolverCommand<D>) -> RuntimeModel<D> {
    match cmd {
        ResolverCommand::Update(config) => RuntimeModel { v4: m.v4, v6: m.v6, config },
        ResolverCommand::Quit => m,
    }
}

/// The request algorithm routed to its family, with the dispatch flag
/// turned into the concrete action the runtime must perform.
pub open spec fn spec_handle_req_rt<D>(m: RuntimeModel<D>, req: RequestModel) -> (
    RuntimeModel<D>,
    Option<DeliveryModel>,
    Option<DispatchModel>,
) {
    let (fm1, reply, dispatch) = spec_handle_req(family_of(m, req.family), req.domain, req.waiter);
    let action = if dispatch {
        Some(DispatchModel { family: req.family, domain: req.domain })
    } else {
        None
    };
    (with_family(m, req.family, fm1), reply, action)
}

/// The response algorithm routed to its family.
pub open spec fn spec_handle_rsp_rt<D>(m: RuntimeModel<D>, rsp: ResponseModel) -> (
    RuntimeModel<D>,
    Seq<DeliveryModel>,
) {
    let (fm1, ds) = spec_handle_rsp(family_of(m, rsp.family), rsp.record);
    (with_family(m, rsp.family, fm1), ds)
}

/// Both families with their vanished trash entries purged.
pub open spec fn spec_clean_trash_rt<D>(m: RuntimeModel<D>, now: u64) -> RuntimeModel<D> {
    RuntimeModel {
        v4: FamilyModel { cache: m.v4.cache, doing: m.v4.doing, trash: spec_swept(m.v4.trash, now) },
        v6: FamilyModel { cache: m.v6.cache, doing: m.v6.doing, trash: spec_swept(m.v6.trash, now) },
        config: m.config,
    }
}

/// Both families with every fired expiry timer drained.
pub open spec fn spec_expire_rt<D>(m: RuntimeModel<D>, now: u64) -> RuntimeModel<D> {
    RuntimeModel {
        v4: spec_expire_family(m.v4, now),
        v6: spec_expire_family(m.v6, now),
        config: m.config,
    }
}

/// Responses applied in arrival order, their deliveries concatenated.
pub open spec fn spec_apply_responses<D>(m: RuntimeModel<D>, rs: Seq<ResponseModel>) -> (
    RuntimeModel<D>,
    Seq<DeliveryModel>,
)
    decreases rs.len(),
{
    if rs.len() == 0 {
        (m, Seq::empty())
    } else {
        let (m1, ds1) = spec_apply_responses(m, rs.drop_last());
        let (m2, ds2) = spec_handle_rsp_rt(m1, rs.last());
        (m2, ds1 + ds2)
    }
}

/// Requests applied in arrival order, collecting replies and dispatches.
pub open spec fn spec_apply_requests<D>(m: RuntimeModel<D>, qs: Seq<RequestModel>) -> (
    RuntimeModel<D>,
    Seq<DeliveryModel>,
    Seq<DispatchModel>,
)
    decreases qs.len(),
{
    if qs.len() == 0 {
        (m, Seq::empty(), Seq::empty())
    } else {
        let (m1, ds1, as1) = spec_apply_requests(m, qs.drop_last());
        let (m2, reply, action) = spec_handle_req_rt(m1, qs.last());
        let ds2 = if reply is Some {
            ds1.push(reply->0)
        } else {
            ds1
        };
        let as2 = if action is Some {
            as1.push(action->0)
        } else {
            as1
        };
        (m2, ds2, as2)
    }
}

/// Mathematical model of one iteration's outcome.
pub ghost struct IterationModel<D> {
    pub state: RuntimeModel<D>,
    pub deliveries: Seq<DeliveryModel>,
    pub dispatches: Seq<DispatchModel>,
    pub gauges: Option<RuntimeModel<D>>,
    pub quit: bool,
}

/// One actor-loop iteration under the fixed priority order: the control
/// command first (a `Quit` ends the loop at once), then the trash sweep,
/// then every ready driver response, then every fired expiry timer, then
/// at most `batch_request_count` client requests.  Gauges are refreshed
/// once, from the state right after response and expiry processing, and
/// only when one of those two steps mutated anything.
pub open spec fn spec_run_iteration<D>(
    m: RuntimeModel<D>,
    cmd: Option<ResolverCommand<D>>,
    rs: Seq<ResponseModel>,
    now: u64,
    qs: Seq<RequestModel>,
) -> IterationModel<D> {
    if cmd matches Some(ResolverCommand::Quit) {
        IterationModel {
            state: m,
            deliveries: Seq::empty(),
            dispatches: Seq::empty(),
            gauges: None,
            quit: true,
        }
    } else {
        let m1 = if cmd is Some {
            spec_handle_cmd(m, cmd->0)
        } else {
            m
        };
        let m2 = spec_clean_trash_rt(m1, now);
        let (m3, ds1) = spec_apply_responses(m2, rs);
        let m4 = spec_expire_rt(m3, now);
        let mutated = rs.len() > 0 || spec_has_expired(m3.v4, now) || spec_has_expired(m3.v6, now);
        let count: int = if qs.len() <= m4.config.batch_request_count {
            qs.len() as int
        } else {
            m4.config.batch_request_count as int
        };
        let (m5, ds2, actions) = spec_apply_requests(m4, qs.take(count));
        IterationModel {
            state: m5,
            deliveries: ds1 + ds2,
            dispatches: actions,
            gauges: if mutated {
                Some(m4)
            } else {
                None
            },
            quit: false,
        }
    }
}

/// The view of an optional delivery.
pub open spec fn opt_delivery_view(o: Option<Delivery>) -> Option<DeliveryModel> {
    match o {
        Some(x) => Some(x@),
        None => None,
    }
}

/// The view of an optional dispatch action.
pub open spec fn opt_dispatch_view(o: Option<DispatchAction>) -> Option<DispatchModel> {
    match o {
        Some(x) => Some(x@),
        None => None,
    }
}

/// The reply and dispatch decided for one client request.
pub struct RequestOutcome {
    pub reply: Option<Delivery>,
    pub dispatch: Option<DispatchAction>,
}

/// Everything one iteration asks the surrounding runtime to do.
pub struct IterationOutcome {
    pub deliveries: Vec<Delivery>,
    pub dispatches: Vec<DispatchAction>,
    pub memory_stats: Option<MemoryStats>,
    pub quit: bool,
}

/// The resolver cache engine: the single owner of all resolution state
/// for both address families.
pub struct ResolverRuntime<D> {
    v4: FamilyState,
    v6: FamilyState,
    config: ResolverConfig<D>,
}

impl<D> View for ResolverRuntime<D> {
    type V = RuntimeModel<D>;

    closed spec fn view(&self) -> RuntimeModel<D> {
        RuntimeModel { v4: self.v4@, v6: self.v6@, config: self.config }
    }
}

impl<D> ResolverRuntime<D> {
    /// The engine's tables are well formed.
    pub closed spec fn wf(&self) -> bool {
        self.v4.wf() && self.v6.wf()
    }

    /// A fresh engine: empty caches, no in-flight queries, empty trash,
    /// the given configuration active.
    pub fn new(config: ResolverConfig<D>) -> (r: Self)
        ensures
            r.wf(),
            r@.config == config,
            r@.v4.cache == Map::<Seq<char>, CacheEntryModel>::empty(),
            r@.v4.doing == Map::<Seq<char>, Seq<u64>>::empty(),
            r@.v4.trash == Map::<Seq<char>, TrashEntryModel>::empty(),
            r@.v6.cache == Map::<Seq<char>, CacheEntryModel>::empty(),
            r@.v6.doing == Map::<Seq<char>, Seq<u64>>::empty(),
            r@.v6.trash == Map::<Seq<char>, TrashEntryModel>::empty(),
    {
        let capacity = config.initial_cache_capacity;
        ResolverRuntime {
            v4: FamilyState::with_capacity(capacity),
            v6: FamilyState::with_capacity(capacity),
            config,
        }
    }

    /// The number of client requests the engine accepts per iteration.
    pub fn batch_request_count(&self) -> (r: usize)
        ensures
            r == self@.config.batch_request_count,
    {
        self.config.batch_request_count
    }

    /// Apply a control command.  `Update` hot-swaps the configuration
    /// and driver in place; queries already dispatched to the old driver
    /// still complete against it, and no cache, in-flight or trash state
    /// is touched.  `Quit` is a no-op here: the loop reads it itself.
    pub fn handle_cmd(&mut self, cmd: ResolverCommand<D>)
        requires
            old(self).wf(),
        ensures
            final(self).wf(),
            final(self)@ == spec_handle_cmd(old(self)@, cmd),
    {
        match cmd {
            ResolverCommand::Update(config) => {
                self.config = config;
            }
            ResolverCommand::Quit => {}
        }
    }

    /// The request algorithm for one client request.
    pub fn handle_req(&mut self, req: ResolveDriverRequest) -> (r: RequestOutcome)
        requires
            old(self).wf(),
        ensures
            final(self).wf(),
            ({
                let (m1, reply, action) = spec_handle_req_rt(old(self)@, req@);
                &&& final(self)@ == m1
                &&& opt_delivery_view(r.reply) == reply
                &&& opt_dispatch_view(r.dispatch) == action
            }),
    {
        match req {
            ResolveDriverRequest::GetV4(domain, waiter) => {
                let action_domain = domain.clone();
                let (reply, dispatch) = self.v4.handle_req(domain, waiter);
                let action = if dispatch {
                    Some(DispatchAction { family: AddressFamily::V4, domain: action_domain })
                } else {
                    None
                };
                RequestOutcome { reply, dispatch: action }
            }
            ResolveDriverRequest::GetV6(domain, waiter) => {
                let action_domain = domain.clone();
                let (reply, dispatch) = self.v6.handle_req(domain, waiter);
                let action = if dispatch {
                    Some(DispatchAction { family: AddressFamily::V6, domain: action_domain })
                } else {
                    None
                };
                RequestOutcome { reply, dispatch: action }
            }
        }
    }

    /// The response algorithm for one completed driver lookup.
    pub fn handle_rsp(&mut self, rsp: ResolveDriverResponse) -> (deliveries: Vec<Delivery>)
        requires
            old(self).wf(),
        ensures
            final(self).wf(),
            ({
                let (m1, ds) = spec_handle_rsp_rt(old(self)@, rsp@);
                &&& final(self)@ == m1
                &&& delivery_views(deliveries@) == ds
            }),
    {
        match rsp {
            ResolveDriverResponse::V4(record) => self.v4.handle_rsp(record),
            ResolveDriverResponse::V6(record) => self.v6.handle_rsp(record),
        }
    }

    /// Consume one fired expiry timer of the given family, if any.
    pub fn handle_expired(&mut self, family: AddressFamily, now: u64) -> (r: Option<
        ResolvedRecord,
    >)
        requires
            old(self).wf(),
        ensures
            final(self).wf(),
            final(self)@.config == old(self)@.config,
            ({
                let fm0 = family_of(old(self)@, family);
                match r {
                    Some(rec) => {
                        &&& fm0.cache.dom().contains(rec@.domain)
                        &&& fm0.cache[rec@.domain].expire_at <= now
                        &&& rec@ == fm0.cache[rec@.domain].record
                        &&& final(self)@ == with_family(
                            old(self)@,
                            family,
                            spec_expire_one(fm0, rec@.domain),
                        )
                    },
                    None => {
                        &&& final(self)@ == old(self)@
                        &&& forall|d: Seq<char>|
                            #[trigger] fm0.cache.dom().contains(d) ==> fm0.cache[d].expire_at > now
                    },
                }
            }),
    {
        match family {
            AddressFamily::V4 => self.v4.handle_expired(now),
            AddressFamily::V6 => self.v6.handle_expired(now),
        }
    }

    /// Purge vanished trash entries of both families.
    pub fn clean_trash(&mut self, now: u64)
        requires
            old(self).wf(),
        ensures
            final(self).wf(),
            final(self)@ == spec_clean_trash_rt(old(self)@, now),
    {
        self.v4.clean_trash(now);
        self.v6.clean_trash(now);
    }

    /// One actor-loop iteration under the fixed priority order of
    /// [`spec_run_iteration`].  `responses` must hold every response
    /// ready when the iteration starts; of `requests`, only the first
    /// `batch_request_count` are processed (the fairness bound), so the
    /// caller should hand over at most that many and keep the rest
    /// queued.  The returned outcome carries everything the surrounding
    /// runtime must perform: replies to send, queries to dispatch, and
    /// gauges to push.
    pub fn run_iteration(
        &mut self,
        cmd: Option<ResolverCommand<D>>,
        responses: Vec<ResolveDriverResponse>,
        now: u64,
        requests: Vec<ResolveDriverRequest>,
    ) -> (out: IterationOutcome)
        requires
            old(self).wf(),
        ensures
            final(self).wf(),
            ({
                let it = spec_run_iteration(
                    old(self)@,
                    cmd,
                    response_views(responses@),
                    now,
                    request_views(requests@),
                );
                &&& final(self)@ == it.state
                &&& delivery_views(out.deliveries@) == it.deliveries
                &&& dispatch_views(out.dispatches@) == it.dispatches
                &&& out.quit == it.quit
                &&& (out.memory_stats is Some) == (it.gauges is Some)
                &&& match out.memory_stats {
                    Some(ms) => {
                        let g = it.gauges->0;
                        &&& ms.v4.cache_length == g.v4.cache.dom().len()
                        &&& ms.v4.doing_length == g.v4.doing.dom().len()
                        &&& ms.v4.trash_length == g.v4.trash.dom().len()
                        &&& ms.v6.cache_length == g.v6.cache.dom().len()
                        &&& ms.v6.doing_length == g.v6.doing.dom().len()
                        &&& ms.v6.trash_length == g.v6.trash.dom().len()
                    },
                    None => true,
                }
            }),
    {
        let ghost rs_views = response_views(responses@);
        let ghost qs_views = request_views(requests@);
        let is_quit = match &cmd {
            Some(ResolverCommand::Quit) => true,
            Some(ResolverCommand::Update(_)) => false,
            None => false,
        };
        if is_quit {
            proof {
                assert(delivery_views(Seq::<Delivery>::empty()) =~= Seq::<DeliveryModel>::empty());
                assert(dispatch_views(Seq::<DispatchAction>::empty())
                    =~= Seq::<DispatchModel>::empty());
            }
            return IterationOutcome {
                deliveries: Vec::new(),
                dispatches: Vec::new(),
                memory_stats: None,
                quit: true,
            };
        }
        if let Some(c) = cmd {
            self.handle_cmd(c);
        }
        self.clean_trash(now);
        let ghost m2 = self@;

        let mut responses = responses;
        let mut deliveries: Vec<Delivery> = Vec::new();
        let n = responses.len();
        let mut i: usize = 0;
        proof {
            assert(rs_views.take(0) =~= Seq::<ResponseModel>::empty());
            assert(delivery_views(deliveries@) =~= Seq::<DeliveryModel>::empty());
        }
        while i < n
            invariant
                self.wf(),
                n == rs_views.len(),
                i <= n,
                responses@.len() == n - i,
                forall|j: int|
                    0 <= j < n - i ==> (#[trigger] responses@[j])@ == rs_views[i + j],
                ({
                    let (mm, ds) = spec_apply_responses(m2, rs_views.take(i as int));
                    &&& self@ == mm
                    &&& delivery_views(deliveries@) == ds
                }),
            decreases n - i,
        {
            let ghost pre_responses = responses@;
            let ghost pre_deliveries = deliveries@;
            let rsp = responses.remove(0);
            proof {
                assert(rsp@ == rs_views[i as int]);
                assert forall|j: int| 0 <= j < n - i - 1 implies
                    (#[trigger] responses@[j])@ == rs_views[i + 1 + j] by {
                    assert(responses@[j] == pre_responses[j + 1]);
                }
            }
            let mut ds = self.handle_rsp(rsp);
            let ghost ds_snap = ds@;
            deliveries.append(&mut ds);
            i += 1;
            proof {
                assert(rs_views.take(i as int).drop_last() =~= rs_views.take(i - 1));
                assert(rs_views.take(i as int).last() == rs_views[i - 1]);
                assert(delivery_views(pre_deliveries + ds_snap)
                    =~= delivery_views(pre_deliveries) + delivery_views(ds_snap));
            }
        }
        proof {
            assert(rs_views.take(n as int) =~= rs_views);
        }
        let ghost m3 = self@;
        let ghost ds1 = delivery_views(deliveries@);

        let mutated_v4 = self.v4.drain_expired(now);
        let mutated_v6 = self.v6.drain_expired(now);
        proof {
            assert(self@ == spec_expire_rt(m3, now));
        }
        let mutated = n > 0 || mutated_v4 || mutated_v6;
        let memory_stats = if mutated {
            Some(self.update_mem_stats())
        } else {
            None
        };
        let ghost m4 = self@;

        let mut requests = requests;
        let batch = self.config.batch_request_count;
        let qn = requests.len();
        let count = if qn < batch {
            qn
        } else {
            batch
        };
        let ghost taken = qs_views.take(count as int);
        let mut dispatches: Vec<DispatchAction> = Vec::new();
        let mut j: usize = 0;
        proof {
            assert(taken.take(0) =~= Seq::<RequestModel>::empty());
            assert(dispatch_views(dispatches@) =~= Seq::<DispatchModel>::empty());
        }
        while j < count
            invariant
                self.wf(),
                count <= qn,
                qn == qs_views.len(),
                taken == qs_views.take(count as int),
                j <= count,
                requests@.len() == qn - j,
                forall|k: int|
                    0 <= k < qn - j ==> (#[trigger] requests@[k])@ == qs_views[j + k],
                ({
                    let (mm, ds, acts) = spec_apply_requests(m4, taken.take(j as int));
                    &&& self@ == mm
                    &&& delivery_views(deliveries@) == ds1 + ds
                    &&& dispatch_views(dispatches@) == acts
                }),
            decreases count - j,
        {
            let ghost pre_requests = requests@;
            let ghost pre_deliveries = deliveries@;
            let ghost pre_dispatches = dispatches@;
            let req = requests.remove(0);
            proof {
                assert(req@ == qs_views[j as int]);
                assert(taken[j as int] == qs_views[j as int]);
                assert forall|k: int| 0 <= k < qn - j - 1 implies
                    (#[trigger] requests@[k])@ == qs_views[j + 1 + k] by {
                    assert(requests@[k] == pre_requests[k + 1]);
                }
            }
            let outcome = self.handle_req(req);
            if let Some(d) = outcome.reply {
                deliveries.push(d);
            }
            if let Some(a) = outcome.dispatch {
                dispatches.push(a);
            }
            j += 1;
            proof {
                assert(taken.take(j as int).drop_last() =~= taken.take(j - 1));
                assert(taken.take(j as int).last() == taken[j - 1]);
                if outcome.reply is Some {
                    assert(delivery_views(pre_deliveries.push(outcome.reply->0))
                        =~= delivery_views(pre_deliveries).push(outcome.reply->0@));
                }
                if outcome.dispatch is Some {
                    assert(dispatch_views(pre_dispatches.push(outcome.dispatch->0))
                        =~= dispatch_views(pre_dispatches).push(outcome.dispatch->0@));
                }
            }
        }
        proof {
            assert(taken.take(count as int) =~= taken);
        }
        IterationOutcome { deliveries, dispatches, memory_stats, quit: false }
    }

    /// A snapshot of the cache, in-flight and trash gauge lengths.
    pub fn update_mem_stats(&self) -> (r: MemoryStats)
        requires
            self.wf(),
        ensures
            r.v4.cache_length == self@.v4.cache.dom().len(),
            r.v4.doing_length == self@.v4.doing.dom().len(),
            r.v4.trash_length == self@.v4.trash.dom().len(),
            r.v6.cache_length == self@.v6.cache.dom().len(),
            r.v6.doing_length == self@.v6.doing.dom().len(),
            r.v6.trash_length == self@.v6.trash.dom().len(),
    {
        MemoryStats { v4: self.v4.mem_stats(), v6: self.v6.mem_stats() }
    }
}

/// Build the fan-out deliveries for a fresh record, per the last-waiter
/// provenance rule.
fn fan_out(ws: &Vec<u64>, record: &ResolvedRecord) -> (out: Vec<Delivery>)
    ensures
        delivery_views(out@) == spec_fan_out(ws@, record@),
{
    let n = ws.len();
    let mut out: Vec<Delivery> = Vec::with_capacity(n);
    let mut i: usize = 0;
    while i < n
        invariant
            n == ws@.len(),
            i <= n,
            out@.len() == i,
            forall|j: int| 0 <= j < i ==> #[trigger] out@[j]@ == spec_fan_out(ws@, record@)[j],
        decreases n - i,
    {
        let source = if i + 1 == n {
            ResolvedRecordSource::Query
        } else {
            ResolvedRecordSource::Cache
        };
        out.push(Delivery { waiter: ws[i], record: record.clone(), source });
        i += 1;
    }
    proof {
        assert(delivery_views(out@) =~= spec_fan_out(ws@, record@));
    }
    out
}

/// Build the fan-out deliveries for a stale fallback record.
fn fan_out_trash(ws: &Vec<u64>, record: ResolvedRecord) -> (out: Vec<Delivery>)
    ensures
        delivery_views(out@) == spec_fan_out_trash(ws@, record@),
{
    let n = ws.len();
    let mut out: Vec<Delivery> = Vec::with_capacity(n);
    let mut i: usize = 0;
    while i < n
        invariant
            n == ws@.len(),
            i <= n,
            out@.len() == i,
            forall|j: int|
                0 <= j < i ==> #[trigger] out@[j]@ == spec_fan_out_trash(ws@, record@)[j],
        decreases n - i,
    {
        out.push(Delivery {
            waiter: ws[i],
            record: record.clone(),
            source: ResolvedRecordSource::Trash,
        });
        i += 1;
    }
    proof {
        assert(delivery_views(out@) =~= spec_fan_out_trash(ws@, record@));
    }
    out
}

} // verus!
