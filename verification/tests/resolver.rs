use g3_resolver::engine::{
    ResolveDriverRequest, ResolveDriverResponse, ResolverCommand, ResolverConfig, ResolverRuntime,
};
use g3_resolver::record::{AddressFamily, ResolvedRecord, ResolvedRecordSource};

fn config(driver: u64) -> ResolverConfig<u64> {
    ResolverConfig { initial_cache_capacity: 8, batch_request_count: 16, driver }
}

fn record(domain: &str, acceptable: bool, expire: Option<u64>, vanish: Option<u64>) -> ResolvedRecord {
    ResolvedRecord { domain: domain.to_owned(), acceptable, expire, vanish }
}

fn get_v4(domain: &str, waiter: u64) -> ResolveDriverRequest {
    ResolveDriverRequest::GetV4(domain.to_owned(), waiter)
}

#[test]
fn dedup_one_dispatch_for_concurrent_resolves() {
    let mut rt = ResolverRuntime::new(config(0));
    let mut dispatches = 0;
    for w in 1..=3u64 {
        let out = rt.handle_req(get_v4("example.net", w));
        assert!(out.reply.is_none());
        if out.dispatch.is_some() {
            dispatches += 1;
        }
    }
    assert_eq!(dispatches, 1);

    let ds = rt.handle_rsp(ResolveDriverResponse::V4(record(
        "example.net",
        true,
        Some(60),
        None,
    )));
    assert_eq!(ds.len(), 3);
    for d in &ds {
        assert_eq!(d.record.domain, "example.net");
        assert!(d.record.acceptable);
    }
    let waiters: Vec<u64> = ds.iter().map(|d| d.waiter).collect();
    assert_eq!(waiters, vec![1, 2, 3]);
    assert_eq!(ds[2].source, ResolvedRecordSource::Query);
    assert_eq!(ds[0].source, ResolvedRecordSource::Cache);
    assert_eq!(ds[1].source, ResolvedRecordSource::Cache);
}

#[test]
fn cache_hit_answers_without_driver() {
    let mut rt = ResolverRuntime::new(config(0));
    rt.handle_req(get_v4("cached.test", 1));
    rt.handle_rsp(ResolveDriverResponse::V4(record("cached.test", true, Some(60), None)));

    let out = rt.handle_req(get_v4("cached.test", 2));
    let reply = out.reply.expect("cache hit must answer synchronously");
    assert_eq!(reply.source, ResolvedRecordSource::Cache);
    assert_eq!(reply.record.domain, "cached.test");
    assert!(out.dispatch.is_none());
}

#[test]
fn families_are_independent() {
    let mut rt = ResolverRuntime::new(config(0));
    rt.handle_req(get_v4("dual.test", 1));
    rt.handle_rsp(ResolveDriverResponse::V4(record("dual.test", true, Some(60), None)));

    // The same domain over the other family misses the v4 cache.
    let out = rt.handle_req(ResolveDriverRequest::GetV6("dual.test".to_owned(), 2));
    assert!(out.reply.is_none());
    let action = out.dispatch.expect("v6 miss must dispatch");
    assert_eq!(action.family, AddressFamily::V6);
    assert_eq!(action.domain, "dual.test");
}

#[test]
fn v6_resolution_round_trip() {
    let mut rt = ResolverRuntime::new(config(0));
    let out = rt.handle_req(ResolveDriverRequest::GetV6("six.test".to_owned(), 1));
    assert!(out.dispatch.is_some());
    let ds = rt.handle_rsp(ResolveDriverResponse::V6(record("six.test", true, Some(60), None)));
    assert_eq!(ds.len(), 1);
    assert_eq!(ds[0].source, ResolvedRecordSource::Query);

    let out = rt.handle_req(ResolveDriverRequest::GetV6("six.test".to_owned(), 2));
    assert_eq!(out.reply.expect("cache").source, ResolvedRecordSource::Cache);
    let stats = rt.update_mem_stats();
    assert_eq!(stats.v6.cache_length, 1);
    assert_eq!(stats.v4.cache_length, 0);
}

#[test]
fn expiry_moves_record_to_trash() {
    let mut rt = ResolverRuntime::new(config(0));
    rt.handle_req(get_v4("stale.test", 1));
    rt.handle_rsp(ResolveDriverResponse::V4(record("stale.test", true, Some(60), Some(120))));

    // Not yet expired.
    assert!(rt.handle_expired(AddressFamily::V4, 59).is_none());
    // Expired: the record leaves the cache.
    let fired = rt.handle_expired(AddressFamily::V4, 65).expect("timer must fire");
    assert_eq!(fired.domain, "stale.test");
    assert!(rt.handle_expired(AddressFamily::V4, 65).is_none());

    let out = rt.handle_req(get_v4("stale.test", 2));
    let reply = out.reply.expect("trash hit must answer synchronously");
    assert_eq!(reply.source, ResolvedRecordSource::Trash);
    assert_eq!(reply.record.domain, "stale.test");
    // A background refresh is dispatched.
    assert!(out.dispatch.is_some());
}

#[test]
fn expired_record_without_vanish_is_dropped() {
    let mut rt = ResolverRuntime::new(config(0));
    rt.handle_req(get_v4("short.test", 1));
    rt.handle_rsp(ResolveDriverResponse::V4(record("short.test", true, Some(60), None)));
    rt.handle_expired(AddressFamily::V4, 61).expect("timer must fire");

    // No trash fallback: the request starts over with the driver.
    let out = rt.handle_req(get_v4("short.test", 2));
    assert!(out.reply.is_none());
    assert!(out.dispatch.is_some());
}

#[test]
fn grace_purge_after_vanish() {
    let mut rt = ResolverRuntime::new(config(0));
    rt.handle_req(get_v4("gone.test", 1));
    rt.handle_rsp(ResolveDriverResponse::V4(record("gone.test", true, Some(60), Some(120))));
    rt.handle_expired(AddressFamily::V4, 65).expect("timer must fire");

    // Before the vanish instant the trash still answers.
    rt.clean_trash(119);
    let out = rt.handle_req(get_v4("gone.test", 2));
    assert_eq!(out.reply.expect("trash answer").source, ResolvedRecordSource::Trash);

    // Once vanish passes, the entry is purged and the next request
    // falls through to a fresh dispatch.
    rt.clean_trash(125);
    let out = rt.handle_req(get_v4("gone.test", 3));
    assert!(out.reply.is_none());
    // The earlier trash hit left a background-refresh entry, so the new
    // request joins it rather than dispatching again.
    assert!(out.dispatch.is_none());
}

#[test]
fn boundary_instants_are_inclusive() {
    let mut rt = ResolverRuntime::new(config(0));
    rt.handle_req(get_v4("edge.test", 1));
    rt.handle_rsp(ResolveDriverResponse::V4(record("edge.test", true, Some(60), Some(120))));

    // A timer fires exactly at its expiry instant.
    assert!(rt.handle_expired(AddressFamily::V4, 60).is_some());

    // A trash entry is purged exactly at its vanish instant.
    rt.clean_trash(120);
    let out = rt.handle_req(get_v4("edge.test", 2));
    assert!(out.reply.is_none());
    assert!(out.dispatch.is_some());
}

#[test]
fn stale_while_revalidate_single_refresh() {
    let mut rt = ResolverRuntime::new(config(0));
    rt.handle_req(get_v4("swr.test", 1));
    rt.handle_rsp(ResolveDriverResponse::V4(record("swr.test", true, Some(60), Some(120))));
    rt.handle_expired(AddressFamily::V4, 65).expect("timer must fire");

    let mut dispatches = 0;
    for w in 2..=5u64 {
        let out = rt.handle_req(get_v4("swr.test", w));
        assert_eq!(out.reply.expect("trash answer").source, ResolvedRecordSource::Trash);
        if out.dispatch.is_some() {
            dispatches += 1;
        }
    }
    assert_eq!(dispatches, 1);
}

#[test]
fn failure_fallback_serves_trash() {
    let mut rt = ResolverRuntime::new(config(0));
    rt.handle_req(get_v4("flaky.test", 1));
    rt.handle_rsp(ResolveDriverResponse::V4(record("flaky.test", true, Some(60), Some(120))));
    rt.handle_expired(AddressFamily::V4, 65).expect("timer must fire");

    // Two callers hit trash; the first starts the background refresh.
    rt.handle_req(get_v4("flaky.test", 2));
    rt.handle_req(get_v4("flaky.test", 3));

    // The refresh fails; its non-acceptable record is masked by trash.
    let ds = rt.handle_rsp(ResolveDriverResponse::V4(record("flaky.test", false, None, None)));
    for d in &ds {
        assert_eq!(d.source, ResolvedRecordSource::Trash);
        assert!(d.record.acceptable);
    }

    // The trash entry is unchanged by the failed response.
    let out = rt.handle_req(get_v4("flaky.test", 4));
    assert_eq!(out.reply.expect("trash answer").source, ResolvedRecordSource::Trash);
}

#[test]
fn failure_without_fallback_is_delivered_verbatim() {
    let mut rt = ResolverRuntime::new(config(0));
    rt.handle_req(get_v4("down.test", 1));
    let ds = rt.handle_rsp(ResolveDriverResponse::V4(record("down.test", false, None, None)));
    assert_eq!(ds.len(), 1);
    assert_eq!(ds[0].waiter, 1);
    assert_eq!(ds[0].source, ResolvedRecordSource::Query);
    assert!(!ds[0].record.acceptable);

    // Nothing was cached: the next request dispatches again.
    let out = rt.handle_req(get_v4("down.test", 2));
    assert!(out.reply.is_none());
    assert!(out.dispatch.is_some());
}

#[test]
fn hot_reload_keeps_queries_in_flight() {
    let mut rt = ResolverRuntime::new(config(1));
    rt.handle_req(get_v4("reload.test", 1));

    // Swap the driver while the query is in flight.
    rt.handle_cmd(ResolverCommand::Update(config(2)));
    assert_eq!(rt.batch_request_count(), 16);

    // The old driver's response still reaches its waiter.
    let ds = rt.handle_rsp(ResolveDriverResponse::V4(record("reload.test", true, Some(60), None)));
    assert_eq!(ds.len(), 1);
    assert_eq!(ds[0].waiter, 1);

    // And the cached answer serves later requests.
    let out = rt.handle_req(get_v4("reload.test", 2));
    assert_eq!(out.reply.expect("cache").source, ResolvedRecordSource::Cache);
}

#[test]
fn example_scenario() {
    // domain example.com/IPv4, record expire = 60, vanish = 120.
    let mut rt = ResolverRuntime::new(config(0));

    // t=0: three callers resolve concurrently -> one driver call.
    let mut dispatches = 0;
    for w in 1..=3u64 {
        let out = rt.handle_req(get_v4("example.com", w));
        if out.dispatch.is_some() {
            dispatches += 1;
        }
    }
    assert_eq!(dispatches, 1);

    // Three replies: one tagged Query, two tagged Cache.
    let ds = rt.handle_rsp(ResolveDriverResponse::V4(record(
        "example.com",
        true,
        Some(60),
        Some(120),
    )));
    assert_eq!(ds.len(), 3);
    let query_tags = ds.iter().filter(|d| d.source == ResolvedRecordSource::Query).count();
    let cache_tags = ds.iter().filter(|d| d.source == ResolvedRecordSource::Cache).count();
    assert_eq!(query_tags, 1);
    assert_eq!(cache_tags, 2);

    // t=65: the entry has expired; a new resolve is answered from trash
    // and silently starts a refresh.
    rt.clean_trash(65);
    rt.handle_expired(AddressFamily::V4, 65).expect("timer fired");
    let out = rt.handle_req(get_v4("example.com", 4));
    assert_eq!(out.reply.expect("trash answer").source, ResolvedRecordSource::Trash);
    assert!(out.dispatch.is_some());

    // t=70: the driver is down; the refresh fails and is masked by the
    // still-valid trash entry (no waiters were queued on it).
    let ds = rt.handle_rsp(ResolveDriverResponse::V4(record("example.com", false, None, None)));
    assert!(ds.is_empty());

    // t=125: the trash entry has vanished; a resolve dispatches a fresh
    // driver query with no fallback available.
    rt.clean_trash(125);
    let out = rt.handle_req(get_v4("example.com", 5));
    assert!(out.reply.is_none());
    assert!(out.dispatch.is_some());

    // The subsequent failure response is delivered verbatim.
    let ds = rt.handle_rsp(ResolveDriverResponse::V4(record("example.com", false, None, None)));
    assert_eq!(ds.len(), 1);
    assert_eq!(ds[0].waiter, 5);
    assert_eq!(ds[0].source, ResolvedRecordSource::Query);
    assert!(!ds[0].record.acceptable);
}

#[test]
fn run_iteration_quit_processes_nothing() {
    let mut rt = ResolverRuntime::new(config(0));
    let out = rt.run_iteration(
        Some(ResolverCommand::Quit),
        vec![ResolveDriverResponse::V4(record("ignored.test", true, Some(60), None))],
        0,
        vec![get_v4("ignored.test", 1)],
    );
    assert!(out.quit);
    assert!(out.deliveries.is_empty());
    assert!(out.dispatches.is_empty());
    assert!(out.memory_stats.is_none());

    // The queued response was not processed: a fresh request dispatches.
    let out = rt.handle_req(get_v4("ignored.test", 2));
    assert!(out.reply.is_none());
    assert!(out.dispatch.is_some());
}

#[test]
fn run_iteration_priority_and_gauges() {
    let mut rt = ResolverRuntime::new(config(0));

    // Seed an in-flight query, then feed its response and a cache-hit
    // request through one iteration.
    let out = rt.handle_req(get_v4("iter.test", 1));
    assert!(out.dispatch.is_some());

    let out = rt.run_iteration(
        None,
        vec![ResolveDriverResponse::V4(record("iter.test", true, Some(60), Some(120)))],
        0,
        vec![get_v4("iter.test", 2), get_v4("other.test", 3)],
    );
    assert!(!out.quit);
    // Deliveries: the fan-out to waiter 1, then the cache hit for 2.
    assert_eq!(out.deliveries.len(), 2);
    assert_eq!(out.deliveries[0].waiter, 1);
    assert_eq!(out.deliveries[0].source, ResolvedRecordSource::Query);
    assert_eq!(out.deliveries[1].waiter, 2);
    assert_eq!(out.deliveries[1].source, ResolvedRecordSource::Cache);
    // One dispatch, for the other domain.
    assert_eq!(out.dispatches.len(), 1);
    assert_eq!(out.dispatches[0].domain, "other.test");
    // A response was processed, so gauges were refreshed; the snapshot
    // is taken before request processing, so the in-flight entry for
    // the other domain is not in it yet.
    let stats = out.memory_stats.expect("gauges refreshed");
    assert_eq!(stats.v4.cache_length, 1);
    assert_eq!(stats.v4.doing_length, 0);
    assert_eq!(stats.v4.trash_length, 0);
    assert_eq!(stats.v6.cache_length, 0);
}

#[test]
fn run_iteration_respects_batch_bound() {
    let mut rt = ResolverRuntime::new(ResolverConfig {
        initial_cache_capacity: 8,
        batch_request_count: 2,
        driver: 0u64,
    });
    let reqs = vec![
        get_v4("a.test", 1),
        get_v4("b.test", 2),
        get_v4("c.test", 3),
    ];
    let out = rt.run_iteration(None, Vec::new(), 0, reqs);
    // Only the first two requests were drained this iteration.
    assert_eq!(out.dispatches.len(), 2);
    assert_eq!(out.dispatches[0].domain, "a.test");
    assert_eq!(out.dispatches[1].domain, "b.test");
    assert!(out.memory_stats.is_none());

    // The third was left for the next iteration.
    let out = rt.handle_req(get_v4("c.test", 3));
    assert!(out.dispatch.is_some());
}

#[test]
fn run_iteration_update_applies_before_requests() {
    let mut rt = ResolverRuntime::new(ResolverConfig {
        initial_cache_capacity: 8,
        batch_request_count: 1,
        driver: 0u64,
    });
    // The update raises the batch bound; both requests in this same
    // iteration are processed under the new configuration.
    let out = rt.run_iteration(
        Some(ResolverCommand::Update(ResolverConfig {
            initial_cache_capacity: 8,
            batch_request_count: 4,
            driver: 9u64,
        })),
        Vec::new(),
        0,
        vec![get_v4("x.test", 1), get_v4("y.test", 2)],
    );
    assert_eq!(out.dispatches.len(), 2);
    assert_eq!(rt.batch_request_count(), 4);
}

#[test]
fn memory_stats_track_store_sizes() {
    let mut rt = ResolverRuntime::new(config(0));
    rt.handle_req(get_v4("m1.test", 1));
    rt.handle_req(get_v4("m2.test", 2));
    rt.handle_rsp(ResolveDriverResponse::V4(record("m1.test", true, Some(60), Some(120))));
    rt.handle_expired(AddressFamily::V4, 65).expect("timer fired");

    let stats = rt.update_mem_stats();
    assert_eq!(stats.v4.cache_length, 0);
    assert_eq!(stats.v4.doing_length, 1);
    assert_eq!(stats.v4.trash_length, 1);
    assert_eq!(stats.v6.cache_length, 0);
    assert_eq!(stats.v6.doing_length, 0);
    assert_eq!(stats.v6.trash_length, 0);
}

#[test]
fn fresh_answer_supersedes_trash() {
    let mut rt = ResolverRuntime::new(config(0));
    rt.handle_req(get_v4("renew.test", 1));
    rt.handle_rsp(ResolveDriverResponse::V4(record("renew.test", true, Some(60), Some(120))));
    rt.handle_expired(AddressFamily::V4, 65).expect("timer fired");

    // A trash hit starts a refresh, which now succeeds.
    rt.handle_req(get_v4("renew.test", 2));
    rt.handle_rsp(ResolveDriverResponse::V4(record(
        "renew.test",
        true,
        Some(200),
        Some(260),
    )));

    // The fresh record invalidated the stale fallback and is cached.
    let out = rt.handle_req(get_v4("renew.test", 3));
    assert_eq!(out.reply.expect("cache").source, ResolvedRecordSource::Cache);
    let stats = rt.update_mem_stats();
    assert_eq!(stats.v4.trash_length, 0);
    assert_eq!(stats.v4.cache_length, 1);
}
