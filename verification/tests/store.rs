use std::cell::{Cell, RefCell};
use std::rc::Rc;

use tikv_client::common::errors::{Error, Result};
use tikv_client::interceptor::{
    rpc_interceptor, ReplicaKind, RpcContextInfo, RpcInterceptorChain,
};
use tikv_client::proto::kvrpcpb::{ApiVersion, Consumption, Context, DiskFullOpt};
use tikv_client::proto::metapb;
use tikv_client::region::RegionWithLeader;
use tikv_client::request::shard_run::{ReadPeer, Target};
use tikv_client::request_context::RequestContext;
use tikv_client::store::RegionStore;
use tikv_client::store::request::{
    BatchCommandKind, CommandPriority, Request, RequestHead, RequestKind,
};

#[test]
fn request_label_and_context_fields() {
    let mut req = RequestHead::new(RequestKind::Get);
    assert_eq!(req.label(), "kv_get");

    req.set_request_source("src");
    req.set_resource_group_tag(b"tag");
    req.set_resource_group_name("rg");
    req.set_priority(CommandPriority::High);
    req.set_disk_full_opt(DiskFullOpt::AllowedOnAlmostFull);
    req.set_txn_source(42);
    req.set_resource_control_override_priority(7);
    req.set_resource_control_penalty(&Consumption::default());
    req.set_replica_read(true);
    req.set_stale_read(true);

    let ctx = req.context_mut();
    assert_eq!(ctx.request_source, "src");
    assert_eq!(ctx.resource_group_tag, b"tag".to_vec());
    assert!(ctx.resource_control_context.is_some());
    assert_eq!(ctx.resource_control_context.as_ref().unwrap().resource_group_name, "rg");
    assert_eq!(ctx.resource_control_context.as_ref().unwrap().override_priority, 7);
    assert!(ctx.resource_control_context.as_ref().unwrap().penalty.is_some());
    assert_eq!(ctx.priority, CommandPriority::High.number());
    assert_eq!(ctx.priority, 2);
    assert_eq!(ctx.disk_full_opt, DiskFullOpt::AllowedOnAlmostFull.number());
    assert_eq!(ctx.disk_full_opt, 1);
    assert_eq!(ctx.txn_source, 42);
    assert!(ctx.replica_read);
    assert!(ctx.stale_read);
}

#[test]
fn set_leader_and_api_version() {
    let mut req = RequestHead::new(RequestKind::Get);
    let region = RegionWithLeader {
        region: metapb::Region {
            id: 10,
            region_epoch: Some(metapb::RegionEpoch { conf_ver: 1, version: 2 }),
            ..Default::default()
        },
        leader: Some(metapb::Peer { store_id: 42, ..Default::default() }),
    };
    req.set_leader(&region).unwrap();
    req.set_api_version(ApiVersion::V2);

    let ctx = req.context_mut();
    assert_eq!(ctx.region_id, 10);
    assert!(ctx.region_epoch.is_some());
    assert!(ctx.peer.is_some());
    assert_eq!(ctx.peer.as_ref().unwrap().store_id, 42);
    assert_eq!(ctx.api_version, ApiVersion::V2.number());
    assert_eq!(ctx.api_version, 2);
}

#[test]
fn set_leader_errors_when_missing() {
    let mut req = RequestHead::new(RequestKind::Get);
    let region = RegionWithLeader::default();
    let err = req.set_leader(&region).unwrap_err();
    match err {
        Error::LeaderNotFound { .. } => {}
        other => panic!("unexpected error: {other:?}"),
    }
}

fn assert_batchable(kind: RequestKind, expected_kind: BatchCommandKind) {
    let mut req = RequestHead::new(kind);
    req.context_mut().region_id = 1;
    assert_eq!(req.batch_request().expect("batch_request should exist"), expected_kind);
}

#[test]
fn batch_request_is_available_for_supported_types() {
    assert_batchable(RequestKind::RawGet, BatchCommandKind::RawGet);
    assert_batchable(RequestKind::RawBatchGet, BatchCommandKind::RawBatchGet);
    assert_batchable(RequestKind::RawPut, BatchCommandKind::RawPut);
    assert_batchable(RequestKind::RawBatchPut, BatchCommandKind::RawBatchPut);
    assert_batchable(RequestKind::RawDelete, BatchCommandKind::RawDelete);
    assert_batchable(RequestKind::RawBatchDelete, BatchCommandKind::RawBatchDelete);
    assert_batchable(RequestKind::RawScan, BatchCommandKind::RawScan);
    assert_batchable(RequestKind::RawBatchScan, BatchCommandKind::RawBatchScan);
    assert_batchable(RequestKind::RawDeleteRange, BatchCommandKind::RawDeleteRange);
    assert_batchable(RequestKind::RawCoprocessor, BatchCommandKind::RawCoprocessor);

    assert_batchable(RequestKind::Get, BatchCommandKind::Get);
    assert_batchable(RequestKind::Scan, BatchCommandKind::Scan);
    assert_batchable(RequestKind::Prewrite, BatchCommandKind::Prewrite);
    assert_batchable(RequestKind::Commit, BatchCommandKind::Commit);
    assert_batchable(RequestKind::Cleanup, BatchCommandKind::Cleanup);
    assert_batchable(RequestKind::BatchGet, BatchCommandKind::BatchGet);
    assert_batchable(RequestKind::BatchRollback, BatchCommandKind::BatchRollback);
    assert_batchable(RequestKind::PessimisticRollback, BatchCommandKind::PessimisticRollback);
    assert_batchable(RequestKind::ResolveLock, BatchCommandKind::ResolveLock);
    assert_batchable(RequestKind::ScanLock, BatchCommandKind::ScanLock);
    assert_batchable(RequestKind::Flush, BatchCommandKind::Flush);
    assert_batchable(RequestKind::BufferBatchGet, BatchCommandKind::BufferBatchGet);
    assert_batchable(RequestKind::PessimisticLock, BatchCommandKind::PessimisticLock);
    assert_batchable(RequestKind::TxnHeartBeat, BatchCommandKind::TxnHeartBeat);
    assert_batchable(RequestKind::CheckTxnStatus, BatchCommandKind::CheckTxnStatus);
    assert_batchable(RequestKind::CheckSecondaryLocks, BatchCommandKind::CheckSecondaryLocks);
    assert_batchable(RequestKind::Gc, BatchCommandKind::Gc);
    assert_batchable(RequestKind::DeleteRange, BatchCommandKind::DeleteRange);
    assert_batchable(RequestKind::BroadcastTxnStatus, BatchCommandKind::BroadcastTxnStatus);

    assert_batchable(RequestKind::GetHealthFeedback, BatchCommandKind::GetHealthFeedback);
}

#[test]
fn batch_request_is_none_for_unary_only_types() {
    assert!(RequestHead::new(RequestKind::RawGetKeyTtl).batch_request().is_none());
    assert!(RequestHead::new(RequestKind::RawCas).batch_request().is_none());
    assert!(RequestHead::new(RequestKind::RawChecksum).batch_request().is_none());

    assert!(RequestHead::new(RequestKind::UnsafeDestroyRange).batch_request().is_none());
}

#[derive(Default)]
struct TestRequest {
    leader_called: bool,
    replica_read: bool,
    stale_read: bool,
    context: Option<Context>,
}

impl Request for TestRequest {
    type Payload = ();

    fn label(&self) -> &'static str {
        "test_request"
    }

    fn context_mut(&mut self) -> &mut Context {
        self.context.get_or_insert_with(Context::default)
    }

    fn set_leader(&mut self, leader: &RegionWithLeader) -> Result<()> {
        self.leader_called = true;
        let ctx = self.context_mut();
        ctx.region_id = leader.region.id;
        ctx.region_epoch = leader.region.region_epoch;
        ctx.peer = leader.leader;
        Ok(())
    }

    fn set_api_version(&mut self, api_version: ApiVersion) {
        let ctx = self.context_mut();
        ctx.api_version = api_version.number();
    }

    fn set_replica_read(&mut self, replica_read: bool) {
        self.replica_read = replica_read;
        let ctx = self.context_mut();
        ctx.replica_read = replica_read;
    }

    fn set_stale_read(&mut self, stale_read: bool) {
        self.stale_read = stale_read;
        let ctx = self.context_mut();
        ctx.stale_read = stale_read;
    }
}

/// A request that takes nothing but what every request must take.
struct PlainRequest {
    context: Context,
}

impl Request for PlainRequest {
    type Payload = ();

    fn label(&self) -> &'static str {
        "plain_request"
    }

    fn context_mut(&mut self) -> &mut Context {
        &mut self.context
    }

    fn set_leader(&mut self, _: &RegionWithLeader) -> Result<()> {
        Ok(())
    }

    fn set_api_version(&mut self, _: ApiVersion) {}
}

#[test]
fn a_request_may_ignore_what_it_is_told() {
    let mut req = PlainRequest { context: Context::default() };
    req.set_request_source("src");
    req.set_resource_group_tag(b"tag");
    req.set_resource_group_name("rg");
    req.set_priority(CommandPriority::High);
    req.set_disk_full_opt(DiskFullOpt::AllowedOnAlmostFull);
    req.set_txn_source(42);
    req.set_resource_control_override_priority(7);
    req.set_resource_control_penalty(&Consumption::default());
    req.set_replica_read(true);
    req.set_stale_read(true);
    assert_eq!(req.context, Context::default());
    assert!(req.batch_request().is_none());

    // It is still told whether it is a retry and where it comes from.
    let mut store = plain_store(region1());
    store.attempt = 1;
    store.replica_read = true;
    store.stale_read = true;
    store.patched_request_source = Some("patched".to_owned());
    store.apply_to_request(&mut req).unwrap();
    let expected = Context {
        is_retry_request: true,
        request_source: "patched".to_owned(),
        ..Context::default()
    };
    assert_eq!(req.context, expected);
}

fn region1() -> RegionWithLeader {
    RegionWithLeader {
        region: metapb::Region {
            id: 1,
            end_key: vec![10],
            region_epoch: Some(metapb::RegionEpoch { conf_ver: 0, version: 0 }),
            ..Default::default()
        },
        leader: Some(metapb::Peer { store_id: 41, ..Default::default() }),
    }
}

type Tagger = fn(&RpcContextInfo, &Context) -> Vec<u8>;

type Intercept = fn(&RpcContextInfo, Context) -> Context;

/// A region and its store, with nothing that runs before requests are sent.
fn plain_store(region: RegionWithLeader) -> RegionStore<(), Tagger, Intercept> {
    RegionStore::new(region, ())
}

#[test]
fn region_store_apply_sets_retry_flag_and_patched_request_source() {
    let mut store = plain_store(region1());
    store.attempt = 1;
    store.patched_request_source = Some("patched".to_owned());
    store.replica_read = true;

    let request_context = RequestContext::default().with_request_source("base".to_owned());
    store.request_context = request_context.clone();

    let mut req = request_context.apply_to(TestRequest::default());
    store.apply_to_request(&mut req).unwrap();

    assert!(req.leader_called);
    assert!(req.replica_read);
    assert!(!req.stale_read);

    let ctx = req.context.expect("context must be initialized");
    assert!(ctx.is_retry_request);
    assert_eq!(ctx.request_source, "patched");
    assert_eq!(ctx.region_id, 1);
    assert_eq!(ctx.peer.as_ref().unwrap().store_id, 41);
}

#[test]
fn region_store_apply_invokes_resource_group_tagger_only_when_tag_unset() {
    let calls = Rc::new(Cell::new(0));
    let calls_seen = calls.clone();
    let tagger = move |info: &RpcContextInfo, ctx: &Context| {
        calls_seen.set(calls_seen.get() + 1);
        assert_eq!(info.label, "test_request");
        assert_eq!(info.region_id, Some(1));
        assert_eq!(ctx.region_id, 1);
        vec![7, 8, 9]
    };
    let base_store: RegionStore<(), _, Intercept> = RegionStore::new(region1(), ());

    // No fixed tag -> tagger runs.
    {
        let mut store = base_store.clone();
        let request_context = RequestContext::default().with_resource_group_tagger(tagger.clone());
        store.request_context = request_context.clone();

        let mut req = request_context.apply_to(TestRequest::default());
        store.apply_to_request(&mut req).unwrap();

        let ctx = req.context.expect("context must be initialized");
        assert_eq!(calls.get(), 1);
        assert_eq!(ctx.resource_group_tag, vec![7, 8, 9]);
    }

    // Fixed tag -> tagger must not run.
    {
        calls.set(0);

        let mut store = base_store;
        let request_context = RequestContext::default()
            .with_resource_group_tag(vec![1, 2, 3])
            .with_resource_group_tagger(tagger);
        store.request_context = request_context.clone();

        let mut req = request_context.apply_to(TestRequest::default());
        store.apply_to_request(&mut req).unwrap();

        let ctx = req.context.expect("context must be initialized");
        assert_eq!(calls.get(), 0);
        assert_eq!(ctx.resource_group_tag, vec![1, 2, 3]);
    }
}

#[test]
fn region_store_apply_runs_rpc_interceptors_with_context_info() {
    let seen = RefCell::new(Vec::new());
    let interceptor = rpc_interceptor(
        "capture".to_owned(),
        |info: &RpcContextInfo, ctx: Context| {
            seen.borrow_mut().push((
                info.label.to_owned(),
                info.attempt,
                info.region_id,
                info.store_id,
                info.replica_read,
                info.stale_read,
                ctx.is_retry_request,
                ctx.request_source.clone(),
                ctx.replica_read,
                ctx.stale_read,
            ));
            ctx
        },
    );
    let mut chain = RpcInterceptorChain::new();
    chain.link(interceptor);

    let mut store: RegionStore<(), Tagger, _> = RegionStore::new(region1(), ());
    store.attempt = 2;
    store.replica_read = true;
    store.stale_read = true;

    let request_context = RequestContext::default()
        .with_request_source("src".to_owned())
        .with_rpc_interceptors(chain);
    store.request_context = request_context.clone();

    let mut req = request_context.apply_to(TestRequest::default());
    store.apply_to_request(&mut req).unwrap();

    let seen = seen.borrow();
    assert_eq!(seen.len(), 1);
    assert_eq!(
        seen[0],
        (
            "test_request".to_owned(),
            2,
            Some(1),
            Some(41),
            true,
            true,
            true,
            "src".to_owned(),
            true,
            true,
        )
    );
}

fn first_intercept(_: &RpcContextInfo, mut ctx: Context) -> Context {
    ctx.request_source.push_str("+first");
    ctx
}

fn second_intercept(_: &RpcContextInfo, mut ctx: Context) -> Context {
    ctx.request_source.push_str("+second");
    ctx
}

fn intercepted(request_context: RequestContext<Tagger, Intercept>) -> String {
    let mut store = plain_store(region1());
    store.request_context = request_context;
    let mut req = RequestHead::new(RequestKind::Get);
    store.apply_to_request(&mut req).unwrap();
    req.context_mut().request_source.clone()
}

#[test]
fn interceptors_run_in_their_order() {
    let of = |name: &str, intercept: Intercept| rpc_interceptor(name.to_owned(), intercept);
    let both = || {
        RequestContext::default()
            .add_rpc_interceptor(of("a", first_intercept))
            .add_rpc_interceptor(of("b", second_intercept))
    };
    assert_eq!(intercepted(both()), "+first+second");
    assert_eq!(intercepted(both().clone()), "+first+second");
    // One with the same name is replaced.
    let replaced = both().add_rpc_interceptor(of("a", second_intercept));
    assert_eq!(intercepted(replaced), "+second+second");
    let mut chain = RpcInterceptorChain::new();
    chain.link(of("c", first_intercept));
    assert_eq!(intercepted(both().with_rpc_interceptors(chain)), "+first");
    assert_eq!(intercepted(RequestContext::default()), "");
}

#[test]
fn a_region_store_is_aimed_at_the_chosen_peer() {
    let target = Target {
        read_peer: ReadPeer {
            target_peer: metapb::Peer { store_id: 7, ..Default::default() },
            replica_read: true,
            stale_read: false,
        },
        attempt: 3,
        replica_kind: ReplicaKind::Follower,
        request_source: Some("follower_app".to_owned()),
    };
    let sees_follower = |info: &RpcContextInfo, ctx: Context| {
        assert_eq!(info.attempt, 3);
        assert_eq!(info.replica_kind, Some(ReplicaKind::Follower));
        ctx
    };
    let request_context: RequestContext<Tagger, _> = RequestContext::default()
        .add_rpc_interceptor(rpc_interceptor("kind".to_owned(), sees_follower));
    let store = RegionStore::new(region1(), ()).aim(target, request_context);
    let mut req = RequestHead::new(RequestKind::Get);
    store.apply_to_request(&mut req).unwrap();
    let ctx = req.context_mut();
    assert!(ctx.is_retry_request);
    assert!(ctx.replica_read);
    assert_eq!(ctx.request_source, "follower_app");
}

#[test]
fn a_request_for_a_store_takes_no_leader() {
    let mut region = region1();
    region.leader = None;
    let store = plain_store(region);
    let mut req = RequestHead::new(RequestKind::GetHealthFeedback);
    assert!(store.apply_to_request(&mut req).is_ok());
    assert_eq!(req.context_mut().region_id, 0);

    let mut req = RequestHead::new(RequestKind::Get);
    assert!(matches!(
        store.apply_to_request(&mut req),
        Err(Error::LeaderNotFound { .. })
    ));
}
