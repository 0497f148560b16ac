//! Engine-wide guarantees, each proved against the specification twins
//! that pin down the executable handlers.

use vstd::prelude::*;

use crate::engine::{
    spec_expire_one, spec_handle_cmd, spec_handle_req, spec_handle_rsp, FamilyModel,
    ResolverCommand, ResolverConfig, RuntimeModel,
};
use crate::record::{RecordModel, ResolvedRecordSource};
use crate::trash::spec_swept;

verus! {

/// A batch of requests for one domain applied back to back, as when many
/// callers resolve the same name concurrently: the resulting state and
/// how many driver queries were dispatched along the way.
pub open spec fn spec_handle_reqs(m: FamilyModel, domain: Seq<char>, ws: Seq<u64>) -> (
    FamilyModel,
    nat,
)
    decreases ws.len(),
{
    if ws.len() == 0 {
        (m, 0)
    } else {
        let (m1, count) = spec_handle_reqs(m, domain, ws.drop_last());
        let (m2, reply, dispatch) = spec_handle_req(m1, domain, ws.last());
        (m2, count + if dispatch {
            1nat
        } else {
            0nat
        })
    }
}

/// Deduplication: any number of concurrent requests for a domain with no
/// cache or trash entry dispatch exactly one driver query, and every
/// caller is queued on the one in-flight entry, in order.
pub proof fn lemma_dedup_single_dispatch(m: FamilyModel, domain: Seq<char>, ws: Seq<u64>)
    requires
        !m.cache.dom().contains(domain),
        !m.trash.dom().contains(domain),
        !m.doing.dom().contains(domain),
        ws.len() >= 1,
    ensures
        ({
            let (m1, count) = spec_handle_reqs(m, domain, ws);
            &&& count == 1
            &&& m1.doing.dom().contains(domain)
            &&& m1.doing[domain] == ws
            &&& m1.cache == m.cache
            &&& m1.trash == m.trash
        }),
    decreases ws.len(),
{
    if ws.len() == 1 {
        assert(spec_handle_reqs(m, domain, ws.drop_last()).0 == m) by {
            reveal_with_fuel(spec_handle_reqs, 2);
        }
        assert(spec_handle_reqs(m, domain, ws.drop_last()).1 == 0) by {
            reveal_with_fuel(spec_handle_reqs, 2);
        }
        assert(m.doing.insert(domain, seq![ws.last()])[domain] =~= ws);
    } else {
        lemma_dedup_single_dispatch(m, domain, ws.drop_last());
        let (m1, count) = spec_handle_reqs(m, domain, ws.drop_last());
        assert(m1.doing[domain].push(ws.last()) =~= ws);
    }
}

/// Deduplication, completed: when the one query's response arrives,
/// every queued caller receives that same record.
pub proof fn lemma_dedup_fan_out(m: FamilyModel, domain: Seq<char>, ws: Seq<u64>, r: RecordModel)
    requires
        !m.cache.dom().contains(domain),
        !m.trash.dom().contains(domain),
        !m.doing.dom().contains(domain),
        ws.len() >= 1,
        r.domain == domain,
    ensures
        ({
            let (m1, count) = spec_handle_reqs(m, domain, ws);
            let (m2, ds) = spec_handle_rsp(m1, r);
            &&& count == 1
            &&& ds.len() == ws.len()
            &&& forall|i: int| 0 <= i < ds.len() ==> ds[i].waiter == ws[i] && ds[i].record == r
            &&& !m2.doing.dom().contains(domain)
        }),
{
    lemma_dedup_single_dispatch(m, domain, ws);
}

/// Cache-hit precedence: a request for a domain with a live cache entry
/// is answered synchronously from the cache, tagged `Cache`, without
/// dispatching a driver query or changing any state.
pub proof fn lemma_cache_hit(m: FamilyModel, domain: Seq<char>, waiter: u64)
    requires
        m.cache.dom().contains(domain),
    ensures
        ({
            let (m1, reply, dispatch) = spec_handle_req(m, domain, waiter);
            &&& m1 == m
            &&& !dispatch
            &&& reply == Some(
                crate::record::DeliveryModel {
                    waiter,
                    record: m.cache[domain].record,
                    source: ResolvedRecordSource::Cache,
                },
            )
        }),
{
}

/// Expiry-to-trash transition: when a cached record carrying a vanish
/// instant expires, it leaves the cache and becomes available as a
/// trash answer, tagged `Trash`, no longer as `Cache`.  For a well
/// formed record scheduled at its own expiry instant, the grace window
/// opens strictly after the cache entry closed.
pub proof fn lemma_expire_to_trash(m: FamilyModel, domain: Seq<char>, waiter: u64)
    requires
        m.cache.dom().contains(domain),
        m.cache[domain].record.vanish is Some,
        m.cache[domain].record.wf(),
        m.cache[domain].expire_at == m.cache[domain].record.expire->0,
    ensures
        ({
            let m1 = spec_expire_one(m, domain);
            let (m2, reply, dispatch) = spec_handle_req(m1, domain, waiter);
            &&& !m1.cache.dom().contains(domain)
            &&& m1.trash.dom().contains(domain)
            &&& m1.trash[domain].record == m.cache[domain].record
            &&& m1.trash[domain].vanish_at == m.cache[domain].record.vanish->0
            &&& m1.trash[domain].vanish_at > m.cache[domain].expire_at
            &&& reply == Some(
                crate::record::DeliveryModel {
                    waiter,
                    record: m.cache[domain].record,
                    source: ResolvedRecordSource::Trash,
                },
            )
        }),
{
}

/// Grace purge: once its vanish instant has passed, a trash entry is
/// removed by the sweep, and a request for the domain falls through to a
/// fresh driver dispatch with no synchronous reply.
pub proof fn lemma_grace_purge(m: FamilyModel, domain: Seq<char>, waiter: u64, now: u64)
    requires
        m.trash.dom().contains(domain),
        m.trash[domain].vanish_at <= now,
        !m.cache.dom().contains(domain),
        !m.doing.dom().contains(domain),
    ensures
        ({
            let m1 = FamilyModel { cache: m.cache, doing: m.doing, trash: spec_swept(m.trash, now) };
            let (m2, reply, dispatch) = spec_handle_req(m1, domain, waiter);
            &&& !m1.trash.dom().contains(domain)
            &&& reply is None
            &&& dispatch
        }),
{
}

/// Stale-while-revalidate: requests answered from trash trigger at most
/// one background refresh, however many arrive before it completes, and
/// each is answered with the trash record at once.
pub proof fn lemma_single_background_refresh(m: FamilyModel, domain: Seq<char>, ws: Seq<u64>)
    requires
        !m.cache.dom().contains(domain),
        m.trash.dom().contains(domain),
    ensures
        ({
            let (m1, count) = spec_handle_reqs(m, domain, ws);
            &&& count <= 1
            &&& ws.len() >= 1 && !m.doing.dom().contains(domain) ==> count == 1
            &&& m.doing.dom().contains(domain) ==> count == 0
            &&& m1.cache == m.cache
            &&& m1.trash == m.trash
        }),
    decreases ws.len(),
{
    if ws.len() > 0 {
        lemma_single_background_refresh(m, domain, ws.drop_last());
    }
}

/// Failure fallback: a non-acceptable response for a domain holding a
/// valid trash entry hands that trash record to every waiter, tagged
/// `Trash`, and leaves the cache and trash state untouched; the failed
/// record itself is never cached.
pub proof fn lemma_failure_fallback(m: FamilyModel, r: RecordModel)
    requires
        !r.acceptable,
        m.trash.dom().contains(r.domain),
    ensures
        ({
            let (m1, ds) = spec_handle_rsp(m, r);
            let ws = if m.doing.dom().contains(r.domain) {
                m.doing[r.domain]
            } else {
                Seq::<u64>::empty()
            };
            &&& m1.cache == m.cache
            &&& m1.trash == m.trash
            &&& m1.doing == m.doing.remove(r.domain)
            &&& ds.len() == ws.len()
            &&& forall|i: int|
                0 <= i < ds.len() ==> ds[i].waiter == ws[i]
                    && ds[i].record == m.trash[r.domain].record
                    && ds[i].source == ResolvedRecordSource::Trash
        }),
{
}

/// Hot-reload isolation: applying a configuration update swaps the
/// driver and configuration but leaves every cache, trash and in-flight
/// entry of both families intact, so queries already in flight against
/// the old driver keep their waiters and complete normally.
pub proof fn lemma_update_isolated<D>(m: RuntimeModel<D>, config: ResolverConfig<D>)
    ensures
        ({
            let m1 = spec_handle_cmd(m, ResolverCommand::Update(config));
            &&& m1.config == config
            &&& m1.v4 == m.v4
            &&& m1.v6 == m.v6
        }),
{
}

/// For one domain, the live cache and the trash store are mutually
/// exclusive; each of the three per-event transitions preserves this.
pub open spec fn spec_cache_trash_exclusive(m: FamilyModel) -> bool {
    forall|d: Seq<char>| !(m.cache.dom().contains(d) && #[trigger] m.trash.dom().contains(d))
}

/// The request algorithm preserves cache/trash exclusivity.
pub proof fn lemma_exclusive_after_req(m: FamilyModel, domain: Seq<char>, waiter: u64)
    requires
        spec_cache_trash_exclusive(m),
    ensures
        spec_cache_trash_exclusive(spec_handle_req(m, domain, waiter).0),
{
}

/// The response algorithm preserves cache/trash exclusivity.
pub proof fn lemma_exclusive_after_rsp(m: FamilyModel, r: RecordModel)
    requires
        spec_cache_trash_exclusive(m),
    ensures
        spec_cache_trash_exclusive(spec_handle_rsp(m, r).0),
{
    let (m1, ds) = spec_handle_rsp(m, r);
    assert forall|d: Seq<char>|
        !(m1.cache.dom().contains(d) && #[trigger] m1.trash.dom().contains(d)) by {
        if !r.acceptable && m.trash.dom().contains(r.domain) {
        } else {
            if d == r.domain && r.expire is Some {
                assert(!m1.trash.dom().contains(r.domain));
            }
        }
    }
}

/// Expiry of one domain preserves cache/trash exclusivity.
pub proof fn lemma_exclusive_after_expire(m: FamilyModel, domain: Seq<char>)
    requires
        spec_cache_trash_exclusive(m),
        m.cache.dom().contains(domain),
    ensures
        spec_cache_trash_exclusive(spec_expire_one(m, domain)),
{
}

/// Draining all fired expiry timers preserves cache/trash exclusivity.
pub proof fn lemma_exclusive_after_expire_all(m: FamilyModel, now: u64)
    requires
        spec_cache_trash_exclusive(m),
    ensures
        spec_cache_trash_exclusive(crate::engine::spec_expire_family(m, now)),
{
}

/// The trash sweep preserves cache/trash exclusivity.
pub proof fn lemma_exclusive_after_sweep(m: FamilyModel, now: u64)
    requires
        spec_cache_trash_exclusive(m),
    ensures
        spec_cache_trash_exclusive(
            FamilyModel { cache: m.cache, doing: m.doing, trash: spec_swept(m.trash, now) },
        ),
{
}

} // verus!
