use std::cell::Cell;
use std::rc::Rc;
use std::sync::Arc;

use tikv_client::backoff::Backoff;
use tikv_client::common::errors::Error;
use tikv_client::proto::errorpb;
use tikv_client::proto::kvrpcpb;
use tikv_client::request::cleanup_locks::CleanupLocksResult;
use tikv_client::common::errors::{GrpcStatus, Result};
use tikv_client::interceptor::{rpc_interceptor, RpcContextInfo};
use tikv_client::proto::kvrpcpb::{Consumption, Context, DiskFullOpt};
use tikv_client::proto::metapb;
use tikv_client::region::RegionWithLeader;
use tikv_client::request::keyspace::Keyspace;
use tikv_client::request::plan::{
    store_responded, Collect, CollectError, CollectSingle, Dispatch, ExtractError, Merge,
    PreserveShard, ResponseWithShard, RetryableAllStores, StoreStep,
};
use tikv_client::request::plan_builder::{NoTarget, PlanBuilder};
use tikv_client::request::read_routing::ReplicaReadType;
use tikv_client::request::shard_run::{ReadPeer, ShardAction, ShardEvent, ShardRun};
use tikv_client::request::RetryOptions;
use tikv_client::request_context::{RequestContext, TraceControlFlags};
use tikv_client::store::errors::{HasKeyErrors, HasRegionError, HasRegionErrors};
use tikv_client::store::request::{CommandPriority, Request, RequestHead, RequestKind};
use tikv_client::store::RegionStore;
use tikv_client::transaction::lock::HasLocks;

#[derive(Clone)]
struct ErrPlan;

#[derive(Clone)]
struct StoreOkPlan;

#[test]
fn test_cleanup_locks_result_clone_preserves_count_and_drops_errors() {
    let mut region_error = errorpb::Error::default();
    region_error.message = "err".to_owned();
    let result = CleanupLocksResult {
        region_error: Some(region_error),
        key_error: Some(vec![Error::Unimplemented]),
        resolved_locks: 7,
    };

    let cloned = result.clone();
    assert_eq!(cloned.resolved_locks, 7);
    assert!(cloned.region_error.is_none());
    assert!(cloned.key_error.is_none());
}

#[test]
fn test_extract_error_is_cloneable() {
    let extractor = ExtractError { inner: ErrPlan };
    let _ = extractor.clone();
}

#[test]
fn test_collect_single_errors_when_not_singleton() {
    let merge = CollectSingle;
    let input = vec![
        Ok(kvrpcpb::RawGetResponse::default()),
        Ok(kvrpcpb::RawGetResponse::default()),
    ];
    assert!(merge.merge(input).is_err());
}

#[test]
fn test_response_with_shard_take_locks_delegates() {
    let mut resp = kvrpcpb::ScanLockResponse::default();
    resp.locks.push(kvrpcpb::LockInfo { key: vec![1], ..Default::default() });
    let mut wrapped = ResponseWithShard(resp, ());
    let locks = wrapped.take_locks();
    assert_eq!(locks.len(), 1);
}

#[test]
fn test_retryable_all_stores_is_cloneable() {
    let pd_client = Arc::new(());
    let plan =
        RetryableAllStores { inner: StoreOkPlan, pd_client, backoff: Backoff::no_backoff() };
    let _ = plan.clone();
}

/// A response with the errors that it is made with.
#[derive(Debug, Default, PartialEq)]
struct MockStoreResponse {
    key_errors: Option<Vec<Error>>,
    region_error: Option<errorpb::Error>,
}

impl HasKeyErrors for MockStoreResponse {
    fn key_errors(&mut self) -> Option<Vec<Error>> {
        self.key_errors.take()
    }
}

impl HasRegionError for MockStoreResponse {
    fn region_error(&mut self) -> Option<errorpb::Error> {
        self.region_error.take()
    }
}

impl HasRegionErrors for MockStoreResponse {
    fn region_errors(&mut self) -> Option<Vec<errorpb::Error>> {
        self.region_error.take().map(|e| vec![e])
    }
}

/// Send a request to a store until it is answered. `answer` gives the nth response.
fn single_store_handler<F: FnMut(usize) -> Result<MockStoreResponse>>(
    backoff: Backoff,
    mut answer: F,
) -> Result<MockStoreResponse> {
    let mut backoff = backoff;
    let mut calls = 0;
    loop {
        let response = answer(calls);
        calls += 1;
        match store_responded(&mut backoff, response) {
            StoreStep::Sleep { .. } => {}
            StoreStep::Return(result) => return result,
        }
    }
}

fn grpc_error() -> Error {
    Error::GrpcAPI(GrpcStatus {
        code: 14,
        message: "grpc error".to_owned(),
        text: "grpc error".to_owned(),
        details: "grpc error".to_owned(),
    })
}

#[test]
fn test_retryable_all_stores_single_store_handler_key_errors_are_wrapped() {
    let err = single_store_handler(Backoff::no_backoff(), |_| {
        Ok(MockStoreResponse {
            key_errors: Some(vec![Error::Unimplemented]),
            ..Default::default()
        })
    })
    .expect_err("expected key errors to be surfaced as an error");
    assert!(matches!(err, Error::MultipleKeyErrors(_)));
}

#[test]
fn test_retryable_all_stores_single_store_handler_region_errors_are_wrapped() {
    let err = single_store_handler(Backoff::no_backoff(), |_| {
        Ok(MockStoreResponse {
            region_error: Some(errorpb::Error::default()),
            ..Default::default()
        })
    })
    .expect_err("expected region errors to be surfaced as an error");
    assert!(matches!(err, Error::RegionError(_)));
}

#[test]
fn test_retryable_all_stores_single_store_handler_retries_grpc_error_with_backoff() {
    let mut resp = single_store_handler(Backoff::no_jitter_backoff(0, 0, 1), |call| {
        if call == 0 {
            Err(grpc_error())
        } else {
            Ok(MockStoreResponse::default())
        }
    })
    .unwrap();
    assert!(resp.key_errors().is_none());
    assert!(resp.region_error().is_none());
}

#[test]
fn test_retryable_all_stores_single_store_handler_grpc_error_without_backoff_returns_err() {
    assert!(single_store_handler(Backoff::no_backoff(), |_| Err(grpc_error())).is_err());
}

#[test]
fn test_retryable_all_stores_single_store_handler_non_grpc_error_returns_err() {
    let err = single_store_handler(Backoff::no_jitter_backoff(0, 0, 9), |_| {
        Err(Error::Unimplemented)
    })
    .expect_err("expected non-grpc error to be propagated");
    assert!(matches!(err, Error::Unimplemented));
}

#[test]
fn test_extract_error() {
    let extractor = ExtractError { inner: ErrPlan };
    let failed = || MockStoreResponse {
        key_errors: Some(vec![Error::Unimplemented]),
        region_error: Some(errorpb::Error::default()),
    };
    assert_eq!(
        extractor.finish(Ok(failed())),
        Err(Error::ExtractedErrors(vec![Error::Unimplemented]))
    );
    let in_region = MockStoreResponse { key_errors: None, ..failed() };
    assert_eq!(
        extractor.finish(Ok(in_region)),
        Err(Error::ExtractedErrors(vec![Error::RegionError(Box::new(
            errorpb::Error::default()
        ))]))
    );
    assert!(extractor.finish(Ok(MockStoreResponse::default())).is_ok());
    assert_eq!(
        extractor.finish(Err::<MockStoreResponse, Error>(Error::Unimplemented)),
        Err(Error::Unimplemented)
    );
}

#[test]
fn responses_are_collected_in_their_order() {
    assert_eq!(CollectError.merge(vec![Ok(1), Ok(2), Ok(3)]), Ok(vec![1, 2, 3]));
    assert_eq!(
        CollectError.merge(vec![Ok(1), Err(Error::Unimplemented), Err(Error::Unimplemented)]),
        Err(Error::Unimplemented)
    );
    assert_eq!(CollectSingle.merge(vec![Ok(5)]), Ok(5));
    assert_eq!(
        CollectSingle.merge(Vec::<Result<u8>>::new()).unwrap_err().to_string(),
        "CollectSingle expected 1 response, got 0"
    );
    let removals = vec![
        Ok(CleanupLocksResult { resolved_locks: 2, ..Default::default() }),
        Ok(CleanupLocksResult { resolved_locks: 3, ..Default::default() }),
    ];
    assert_eq!(Collect.merge(removals).unwrap().resolved_locks, 5);
}

#[test]
fn a_shard_is_preserved_with_its_response() {
    let plan = PreserveShard { inner: ErrPlan, shard: Some(vec![1, 2]) };
    let ResponseWithShard(response, shard) = plan.finish(Ok(7)).unwrap();
    assert_eq!((response, shard), (7, vec![1, 2]));
    assert!(plan.clone().shard.is_none());
    assert_eq!(
        plan.clone().finish(Ok(7)).unwrap_err().to_string(),
        "PreserveShard executed without an attached shard"
    );
}

type Tagger = Box<dyn Fn(&RpcContextInfo, &Context) -> Vec<u8>>;

type Intercept = Box<dyn Fn(&RpcContextInfo, Context) -> Context>;

type Builder = PlanBuilder<(), Dispatch<RequestHead, ()>, NoTarget, Tagger, Intercept>;

fn builder() -> Builder {
    PlanBuilder::new((), Keyspace::Disable, RequestHead::new(RequestKind::RawGet))
}

fn region1() -> RegionWithLeader {
    RegionWithLeader {
        region: metapb::Region {
            id: 1,
            end_key: vec![10],
            region_epoch: Some(metapb::RegionEpoch { conf_ver: 0, version: 0 }),
            peers: vec![metapb::Peer { store_id: 41, ..Default::default() }],
            ..Default::default()
        },
        leader: Some(metapb::Peer { store_id: 41, ..Default::default() }),
    }
}

/// The store of the region, aimed at by the given attempt.
fn aimed_store(
    request_context: &RequestContext<Tagger, Intercept>,
    attempt: usize,
) -> RegionStore<(), Tagger, Intercept> {
    let request_context = request_context.clone();
    let source = request_context.request_source.clone();
    let mut run = ShardRun::start(region1(), Backoff::no_backoff(), attempt, source);
    let chosen = ReadPeer {
        target_peer: region1().leader.unwrap(),
        replica_read: false,
        stale_read: false,
    };
    let mut step = run.step(ShardEvent::PeerSelected(Ok(chosen)));
    if step.action == ShardAction::SelectSourcePeer {
        step = run.step(ShardEvent::SourcePeerSelected(Ok(chosen)));
    }
    let ShardAction::MapRegion(target) = step.action else {
        panic!("expected a target");
    };
    RegionStore::new(region1(), ()).aim(target, request_context)
}

/// Send a request to its region, and see the context that it is sent with.
fn sent(builder: Builder, attempt: usize) -> Context {
    let store = aimed_store(&builder.request_context, attempt);
    let mut plan = builder.single_region_with_store(store).ok().unwrap().plan();
    assert!(plan.client().is_ok());
    std::mem::take(plan.request.context_mut())
}

#[test]
fn test_plan_builder_request_context_and_interceptors() {
    let interceptor_called = Rc::new(Cell::new(false));
    let called = interceptor_called.clone();
    let interceptor: Intercept = Box::new(move |info, mut ctx| {
        assert_eq!(info.label, "raw_get");
        called.set(true);
        // Interceptors run after `RequestContext` fields have been applied.
        ctx.request_source = "from-interceptor".to_owned();
        ctx
    });
    let plan = builder()
        .with_request_source("unit-test".to_owned())
        .with_resource_group_name("unit-test-group".to_owned())
        .with_trace_id(vec![1_u8, 2, 3, 4])
        .with_trace_control_flags(0x1234)
        .with_resource_group_tagger(Box::new(|info, ctx| {
            // Tagger runs before interceptors.
            assert_eq!(info.label, "raw_get");
            assert_eq!(ctx.request_source, "leader_unit-test");
            vec![9_u8]
        }))
        .with_added_rpc_interceptor(rpc_interceptor(
            "unit_test.interceptor".to_owned(),
            interceptor,
        ))
        .retry_multi_region(Backoff::no_backoff())
        .merge::<i32, CollectSingle>(CollectSingle)
        .post_process_default()
        .plan();
    let multi_region = plan.inner.inner;
    let mut request = multi_region.inner.request;
    let store = aimed_store(&multi_region.request_context, 0);
    store.apply_to_request(&mut request).unwrap();
    let ctx = request.context_mut();
    assert_eq!(ctx.request_source, "from-interceptor");
    assert_eq!(ctx.resource_group_tag, vec![9]);
    assert_eq!(ctx.trace_id, vec![1, 2, 3, 4]);
    assert_eq!(ctx.trace_control_flags, 0x1234);
    assert_eq!(
        ctx.resource_control_context.as_ref().unwrap().resource_group_name,
        "unit-test-group"
    );
    assert!(interceptor_called.get());
}

#[test]
fn test_plan_builder_context_setters_and_routing_knobs() {
    let interceptor1_called = Rc::new(Cell::new(false));
    let interceptor2_called = Rc::new(Cell::new(false));
    let notes = |called: &Rc<Cell<bool>>| -> Intercept {
        let called = called.clone();
        Box::new(move |info, ctx| {
            assert_eq!(info.label, "raw_get");
            called.set(true);
            ctx
        })
    };
    let interceptor1 =
        rpc_interceptor("unit_test.interceptor1".to_owned(), notes(&interceptor1_called));
    let interceptor2 =
        rpc_interceptor("unit_test.interceptor2".to_owned(), notes(&interceptor2_called));

    let plan = builder()
        .with_request_source("unit-test2".to_owned())
        .with_resource_group_tag(vec![1, 2, 3])
        .with_resource_group_name("unit-test-group2".to_owned())
        .with_priority(CommandPriority::High)
        .with_disk_full_opt(DiskFullOpt::AllowedOnAlmostFull)
        .with_txn_source(7)
        .with_trace_id(vec![7, 7, 7])
        .with_trace_control(TraceControlFlags(0x42))
        .with_resource_control_override_priority(16)
        .with_resource_control_penalty(Consumption::default())
        .with_rpc_interceptor(interceptor1)
        .with_added_rpc_interceptor(interceptor2)
        .replica_read(ReplicaReadType::Follower)
        .stale_read(true)
        .replica_read_seed(42)
        .retry_multi_region_with_concurrency(Backoff::no_backoff(), 1)
        .merge::<i32, CollectSingle>(CollectSingle)
        .post_process_default()
        .plan();
    let multi_region = plan.inner.inner;
    assert_eq!(multi_region.permits(), 1);
    assert!(!multi_region.preserve_region_results);
    assert_eq!(multi_region.read_routing.replica_read, ReplicaReadType::Follower);
    assert!(multi_region.read_routing.stale_read);
    assert_eq!(multi_region.read_routing.seed, 42);

    let mut request = multi_region.inner.request;
    let store = aimed_store(&multi_region.request_context, 0);
    store.apply_to_request(&mut request).unwrap();
    assert!(interceptor1_called.get());
    assert!(interceptor2_called.get());
    let ctx = std::mem::take(request.context_mut());
    assert!(ctx.request_source.ends_with("unit-test2"));
    assert_eq!(ctx.resource_group_tag, vec![1, 2, 3]);
    assert_eq!(ctx.trace_id, vec![7, 7, 7]);
    assert_eq!(ctx.trace_control_flags, 0x42);
    assert_eq!(ctx.priority, CommandPriority::High.number());
    assert_eq!(ctx.disk_full_opt, DiskFullOpt::AllowedOnAlmostFull.number());
    assert_eq!(ctx.txn_source, 7);
    let control = ctx.resource_control_context.unwrap();
    assert_eq!(control.resource_group_name, "unit-test-group2");
    assert_eq!(control.override_priority, 16);
    assert!(control.penalty.is_some());

    // The variant that preserves results behaves identically on success.
    let plan = builder()
        .with_request_source("preserve-results".to_owned())
        .retry_multi_region_preserve_results_with_concurrency(Backoff::no_backoff(), 1)
        .merge(CollectSingle)
        .plan();
    assert!(plan.inner.preserve_region_results);
    assert_eq!(plan.inner.permits(), 1);
    assert_eq!(plan.finish(Ok(vec![Ok(7)])), Ok(7));
}

#[test]
fn test_plan_builder_retry_increments_attempt_and_patches_request_source() {
    let source = "unit-test-retry".to_owned();
    let ctx = sent(builder().with_request_source(source.clone()), 0);
    assert!(!ctx.is_retry_request);
    assert_eq!(ctx.request_source, "leader_unit-test-retry");
    let ctx = sent(builder().with_request_source(source), 1);
    assert!(ctx.is_retry_request);
    assert_eq!(ctx.request_source, "retry_leader_leader_unit-test-retry");
}

#[test]
fn plans_are_put_together_in_layers() {
    let ctx = sent(builder(), 0);
    assert_eq!(ctx.request_source, "unknown");

    let plan = builder()
        .resolve_lock_with_timeout(Backoff::optimistic(), Keyspace::Disable, Some(10))
        .retry_multi_region_preserve_results_with_concurrency(Backoff::default_region(), 0)
        .extract_error()
        .plan();
    assert_eq!(plan.inner.permits(), 1);
    assert!(plan.inner.preserve_region_results);
    assert_eq!(plan.inner.inner.lock_wait_timeout_ms, Some(10));

    let plan = builder().retry_multi_region(Backoff::no_backoff()).plan();
    assert_eq!(plan.permits(), 16);
    assert!(!plan.preserve_region_results);
    assert_eq!(
        plan.inner.client().unwrap_err().to_string(),
        "Dispatch plan executed without an attached kv_client"
    );
}

#[test]
fn retries_are_configured_by_the_kind_of_transaction() {
    assert_eq!(RetryOptions::default_optimistic().lock_backoff, Backoff::optimistic());
    assert_eq!(RetryOptions::default_pessimistic().lock_backoff, Backoff::pessimistic());
    assert_eq!(RetryOptions::default_pessimistic().region_backoff, Backoff::default_region());
    assert!(RetryOptions::none().region_backoff.is_none());
}

#[test]
fn delays_double_up_to_their_limit() {
    let mut backoff = Backoff::no_jitter_backoff(2, 7, 4);
    let delays: Vec<Option<u64>> = (0..6).map(|_| backoff.next_delay_ms()).collect();
    assert_eq!(delays, vec![Some(2), Some(4), Some(7), Some(7), None, None]);
    assert_eq!(Backoff::no_backoff().next_delay_ms(), None);
}
