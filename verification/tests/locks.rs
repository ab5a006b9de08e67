use tikv_client::backoff::Backoff;
use tikv_client::common::errors::{Error, Result};
use tikv_client::interceptor::RpcContextInfo;
use tikv_client::proto::coprocessor;
use tikv_client::proto::errorpb;
use tikv_client::proto::kvrpcpb::{Action, Context, LockInfo, TxnInfo, OP_PESSIMISTIC_LOCK};
use tikv_client::proto::metapb::{self, RegionEpoch};
use tikv_client::proto::pdpb::Timestamp;
use tikv_client::region::{RegionVerId, RegionWithLeader};
use tikv_client::request::cleanup_locks::{
    merge_cleanup_results, CleanupLocksResult, LockScan, ScanAction, ScannedLocks,
};
use tikv_client::request::keyspace::Keyspace;
use tikv_client::request::plan_builder::PlanBuilder;
use tikv_client::request::read_routing::ReadRouting;
use tikv_client::request::resolve_lock::{
    reroute_to_leader, LiveLocksStep, LockWait, LocksStep, ResolveLock,
};
use tikv_client::request_context::RequestContext;
use tikv_client::store::errors::Failure;
use tikv_client::store::request::{RequestHead, RequestKind};
use tikv_client::store::RegionStore;
use tikv_client::transaction::cleanup::{CleanupAction, TxnStatusQuery};
use tikv_client::transaction::lock::{ResolveLocksContext, ResolveLocksOptions};
use tikv_client::transaction::resolve::{
    split_expired, LockResolution, ResolveAction, ResolveRetry, RetryAction,
};
use tikv_client::transaction::resolver::{LockResolver, StatusCheck};
use tikv_client::transaction::status::{
    check_all_secondaries, SecondaryLocks, SecondaryLocksStatus, TransactionStatus,
    TransactionStatusKind,
};

const RESOLVE_LOCK_RETRY_LIMIT: u32 = 10;

fn region1() -> RegionWithLeader {
    RegionWithLeader {
        region: metapb::Region {
            id: 1,
            start_key: vec![],
            end_key: vec![10],
            region_epoch: Some(RegionEpoch { conf_ver: 0, version: 0 }),
            ..Default::default()
        },
        leader: Some(metapb::Peer { store_id: 41, ..Default::default() }),
    }
}

fn region_error() -> Error {
    Error::ExtractedErrors(vec![Error::RegionError(Box::new(errorpb::Error::default()))])
}

fn region2() -> RegionWithLeader {
    let mut region = region1();
    region.region.id = 2;
    region.region.start_key = vec![10];
    region.region.end_key = vec![250, 250];
    region.leader = Some(metapb::Peer { store_id: 42, ..Default::default() });
    region
}

fn region_for_key(key: &[u8]) -> RegionWithLeader {
    if key < &[10][..] {
        region1()
    } else {
        region2()
    }
}

const KEYSPACES: [Keyspace; 2] = [Keyspace::Disable, Keyspace::Enable { keyspace_id: 0 }];

/// A request in a keyspace, as it is sent to a region.
fn request_to(kind: RequestKind, keyspace: Keyspace, region: &RegionWithLeader) -> Context {
    let store: RegionStore<(), Tagger, Intercept> = RegionStore::new(region.clone(), ());
    let mut plan = PlanBuilder::new((), keyspace, RequestHead::new(kind))
        .single_region_with_store(store)
        .unwrap()
        .plan();
    plan.request.context.take().unwrap()
}

/// Resolve the lock of a key, where the given number of attempts fail.
fn resolve_with_retry(
    keyspace: Keyspace,
    key: &[u8],
    failures: usize,
) -> (Result<RegionVerId>, usize) {
    let backoff = Backoff::no_jitter_backoff(0, 0, RESOLVE_LOCK_RETRY_LIMIT);
    let (mut retry, mut action) = ResolveRetry::start(backoff);
    let region = region_for_key(key);
    let mut attempts = 0;
    loop {
        match action {
            RetryAction::Resolve { attempt } | RetryAction::ResolveAfter { attempt, .. } => {
                assert_eq!(attempt, attempts);
                let sent = request_to(RequestKind::ResolveLock, keyspace, &region);
                assert_eq!(sent.api_version, keyspace.api_version().number());
                assert_eq!(sent.region_id, region.region.id);
                let outcome = if attempts < failures { Err(region_error()) } else { Ok(()) };
                attempts += 1;
                action = retry.executed(&region, outcome);
            }
            RetryAction::UpdateLeader { .. } => panic!("no leader was named"),
            RetryAction::Return { result, .. } => return (result, attempts),
        }
    }
}

#[test]
fn test_resolve_lock_with_retry() {
    for keyspace in KEYSPACES {
        // Test resolve lock within retry limit
        let (result, attempts) = resolve_with_retry(keyspace, &[1], 9);
        assert_eq!(result.unwrap(), region1().ver_id());
        assert_eq!(attempts, 10);

        // Test resolve lock over retry limit
        let (result, attempts) = resolve_with_retry(keyspace, &[100], 10);
        assert!(matches!(result, Err(Error::RegionError(_))));
        assert_eq!(attempts, 10);
    }
}

#[test]
fn a_lock_is_resolved_at_the_new_leader() {
    let (mut retry, _) = ResolveRetry::start(Backoff::no_backoff());
    let leader = metapb::Peer { store_id: 99, ..Default::default() };
    let e = errorpb::Error {
        not_leader: Some(errorpb::NotLeader { leader: Some(leader), ..Default::default() }),
        ..Default::default()
    };
    let outcome = Err(Error::ExtractedErrors(vec![Error::RegionError(Box::new(e))]));
    let RetryAction::UpdateLeader { ver_id, .. } = retry.executed(&region1(), outcome) else {
        panic!("expected the leader to be updated");
    };
    let RetryAction::ResolveAfter { delay_ms, attempt, invalidate_region, .. } =
        retry.leader_updated(ver_id, Ok(()))
    else {
        panic!("expected another attempt");
    };
    assert_eq!((delay_ms, attempt, invalidate_region), (None, 1, None));
}

#[test]
fn other_errors_end_the_resolution_of_a_lock() {
    let ends = |outcome: Error| {
        let (mut retry, _) = ResolveRetry::start(Backoff::no_jitter_backoff(0, 0, 10));
        match retry.executed(&region1(), Err(outcome)) {
            RetryAction::Return { result, .. } => result.unwrap_err(),
            other => panic!("unexpected: {other:?}"),
        }
    };
    assert_eq!(ends(Error::Unimplemented), Error::Unimplemented);
    assert_eq!(
        ends(Error::ExtractedErrors(vec![Error::Unimplemented])),
        Error::Unimplemented
    );
    assert_eq!(
        ends(Error::ExtractedErrors(vec![])).to_string(),
        "ResolveLock returned ExtractedErrors([]), which violates plan invariants"
    );
}

fn lock(lock_version: u64) -> LockInfo {
    LockInfo {
        key: vec![1],
        primary_lock: vec![1],
        lock_version,
        ..Default::default()
    }
}

fn rolled_back() -> TransactionStatus {
    TransactionStatus {
        kind: TransactionStatusKind::RolledBack,
        action: Action::NoAction,
        is_expired: false,
    }
}

fn committed(version: u64) -> TransactionStatus {
    TransactionStatus {
        kind: TransactionStatusKind::Committed(Timestamp::from_version(version)),
        action: Action::NoAction,
        is_expired: false,
    }
}

fn locked() -> TransactionStatus {
    let info = LockInfo { lock_version: 42, secondaries: vec![vec![2]], ..Default::default() };
    TransactionStatus {
        kind: TransactionStatusKind::Locked(1, info),
        action: Action::NoAction,
        is_expired: false,
    }
}

type Tagger = fn(&RpcContextInfo, &Context) -> Vec<u8>;

type Intercept = fn(&RpcContextInfo, Context) -> Context;

/// The answers of a store to what a removal of locks asks for.
struct MockStore<'a> {
    status: Box<dyn FnMut(&TxnStatusQuery) -> TransactionStatus + 'a>,
    secondaries: Box<dyn FnMut() -> Vec<SecondaryLocks> + 'a>,
    resolve: Box<dyn FnMut(Vec<TxnInfo>) -> Result<RegionVerId> + 'a>,
}

fn clean_up(
    resolver: &mut LockResolver<(), Tagger, Intercept>,
    locks: Vec<LockInfo>,
    store: &mut MockStore<'_>,
) -> Result<()> {
    let (mut cleanup, mut action) = resolver.cleanup_locks(&region1(), locks);
    loop {
        action = match action {
            CleanupAction::CheckTxnStatus(query) => {
                let status = match resolver.check_txn_status(query) {
                    StatusCheck::Known(status) => status,
                    StatusCheck::Ask(query) => {
                        let status = (store.status)(&query);
                        let now = Timestamp::default();
                        resolver.ctx.status_checked(query.txn_id, status, now)
                    }
                };
                cleanup.status_checked(Ok(status), &resolver.ctx)
            }
            CleanupAction::CheckSecondaries { min_commit_ts, .. } => {
                let told = check_all_secondaries(&(store.secondaries)(), min_commit_ts);
                cleanup.secondaries_checked(told, &resolver.ctx)
            }
            CleanupAction::BatchResolve { txn_infos } => {
                cleanup.locks_resolved((store.resolve)(txn_infos), &mut resolver.ctx)
            }
            CleanupAction::Return(result) => return result,
        };
    }
}

fn lock_resolver_in(
    ctx: ResolveLocksContext,
    keyspace: Keyspace,
) -> LockResolver<(), Tagger, Intercept> {
    LockResolver::new(ctx, (), keyspace)
}

fn lock_resolver() -> LockResolver<(), Tagger, Intercept> {
    lock_resolver_in(ResolveLocksContext::default(), Keyspace::Disable)
}

fn cleanup_locks_uses_stored_pd_client(keyspace: Keyspace) {
    let mut check_count = 0;
    let mut batch_count = 0;
    let primary_key = vec![1, 2, 3];
    let mut info = lock(42);
    info.primary_lock = primary_key.clone();
    let mut resolver = lock_resolver_in(ResolveLocksContext::default(), keyspace);
    assert_eq!(resolver.keyspace, keyspace);
    let in_keyspace = |kind: RequestKind| {
        let sent = request_to(kind, keyspace, &region1());
        sent.api_version == keyspace.api_version().number()
    };
    let mut store = MockStore {
        status: Box::new(|query| {
            check_count += 1;
            assert!(in_keyspace(RequestKind::CheckTxnStatus));
            assert_eq!(query.txn_id, 42);
            assert_eq!(query.primary, primary_key);
            assert_eq!(query.caller_start_ts, 0);
            assert_eq!(query.current_ts, u64::MAX);
            assert!(query.rollback_if_not_exist);
            assert!(!query.force_sync_commit);
            assert!(!query.resolving_pessimistic_lock);
            committed(100)
        }),
        secondaries: Box::new(|| panic!("not to be asked for")),
        resolve: Box::new(|txn_infos| {
            batch_count += 1;
            assert!(in_keyspace(RequestKind::ResolveLock));
            assert_eq!(txn_infos, vec![TxnInfo { txn: 42, status: 100 }]);
            Ok(region1().ver_id())
        }),
    };
    clean_up(&mut resolver, vec![info], &mut store).unwrap();
    drop(store);
    assert_eq!(check_count, 1);
    assert_eq!(batch_count, 1);
    assert!(resolver.ctx.is_region_cleaned(42, &region1().ver_id()));
    assert!(!resolver.ctx.is_region_cleaned(43, &region1().ver_id()));
}

#[test]
fn test_lock_resolver_cleanup_locks_uses_stored_pd_client() {
    for keyspace in KEYSPACES {
        cleanup_locks_uses_stored_pd_client(keyspace);
    }
}

fn uses_resolved_cache_and_skips_rpc(keyspace: Keyspace) {
    let mut ctx = ResolveLocksContext::default();
    ctx.save_resolved(1, committed(10));
    let mut info = lock(1);
    info.primary_lock = b"k1".to_vec();
    let mut resolver = lock_resolver_in(ctx, keyspace);
    assert_eq!(resolver.keyspace, keyspace);
    let mut store = MockStore {
        status: Box::new(|_| panic!("the status is known")),
        secondaries: Box::new(|| panic!("not to be asked for")),
        resolve: Box::new(|txn_infos| {
            let sent = request_to(RequestKind::ResolveLock, keyspace, &region1());
            assert_eq!(sent.api_version, keyspace.api_version().number());
            assert_eq!(txn_infos, vec![TxnInfo { txn: 1, status: 10 }]);
            Ok(region1().ver_id())
        }),
    };
    clean_up(&mut resolver, vec![info], &mut store).unwrap();
}

#[test]
fn test_lock_resolver_uses_resolved_cache_and_skips_rpc() {
    for keyspace in KEYSPACES {
        uses_resolved_cache_and_skips_rpc(keyspace);
    }
}

#[test]
fn each_transaction_is_asked_about_once() {
    let mut asked = vec![];
    let mut resolver = lock_resolver();
    resolver.ctx.save_cleaned_region(9, region1().ver_id());
    let mut store = MockStore {
        status: Box::new(|query| {
            asked.push(query.txn_id);
            rolled_back()
        }),
        secondaries: Box::new(|| panic!("not to be asked for")),
        resolve: Box::new(|txn_infos| {
            assert_eq!(
                txn_infos,
                vec![TxnInfo { txn: 5, status: 0 }, TxnInfo { txn: 6, status: 0 }]
            );
            Ok(region1().ver_id())
        }),
    };
    let locks = vec![lock(5), lock(9), lock(5), lock(6), lock(5)];
    clean_up(&mut resolver, locks, &mut store).unwrap();
    drop(store);
    assert_eq!(asked, vec![5, 6]);
}

#[test]
fn a_pessimistic_lock_is_named_in_the_question() {
    let mut resolver = lock_resolver();
    let mut info = lock(5);
    info.lock_type = OP_PESSIMISTIC_LOCK;
    let mut store = MockStore {
        status: Box::new(|query| {
            assert!(query.resolving_pessimistic_lock);
            rolled_back()
        }),
        secondaries: Box::new(|| panic!("not to be asked for")),
        resolve: Box::new(|_| Err(Error::Unimplemented)),
    };
    assert_eq!(clean_up(&mut resolver, vec![info], &mut store), Err(Error::Unimplemented));
    assert!(clean_up(&mut resolver, vec![], &mut store).is_ok());
}

fn fallback() -> Vec<SecondaryLocks> {
    vec![SecondaryLocks {
        expected: 1,
        locks: vec![LockInfo { use_async_commit: false, ..Default::default() }],
        commit_ts: 0,
    }]
}

/// Scan for locks and remove them. `scan` gives the locks of the nth batch and the range behind it.
fn scan_and_clean<F: FnMut(Option<(Vec<u8>, Vec<u8>)>) -> ScannedLocks>(
    options: ResolveLocksOptions,
    backoff: Backoff,
    end_key: &[u8],
    mut scan: F,
    store: &mut MockStore<'_>,
) -> Result<CleanupLocksResult> {
    let mut resolver = lock_resolver();
    let (mut run, mut action) = LockScan::start(options, backoff);
    loop {
        action = match action {
            ScanAction::Scan { next_range } => {
                run.scanned(Ok(scan(next_range)), &region1(), end_key)
            }
            ScanAction::CleanUp { locks } => {
                let cleaned = clean_up(&mut resolver, locks, store);
                run.cleaned(cleaned)
            }
            ScanAction::SleepThenScan { .. } => run.scanned(Ok(scan(None)), &region1(), end_key),
            ScanAction::Return(result) => return result,
        };
    }
}

fn batch(locks: Vec<LockInfo>, next_batch: Option<(Vec<u8>, Vec<u8>)>) -> ScannedLocks {
    ScannedLocks { failure: Failure::Absent, next_batch, locks }
}

#[test]
fn test_cleanup_locks_backoff_on_resolve_lock_error() {
    let mut check_txn_status_calls = 0;
    let mut store = MockStore {
        status: Box::new(|_| {
            check_txn_status_calls += 1;
            if check_txn_status_calls <= 2 {
                locked()
            } else {
                rolled_back()
            }
        }),
        secondaries: Box::new(fallback),
        resolve: Box::new(|_| Ok(region1().ver_id())),
    };
    let result = scan_and_clean(
        ResolveLocksOptions { async_commit_only: false, batch_size: 2 },
        Backoff::no_jitter_backoff(0, 0, 1),
        &[10],
        |_| batch(vec![lock(42)], Some((vec![1, 0], vec![10]))),
        &mut store,
    )
    .unwrap();
    drop(store);
    assert_eq!(result.resolved_locks, 1);
    assert_eq!(check_txn_status_calls, 3);
}

#[test]
fn test_cleanup_locks_stops_at_end_key() {
    let mut scan_lock_calls = 0;
    let mut store = MockStore {
        status: Box::new(|_| rolled_back()),
        secondaries: Box::new(|| panic!("not to be asked for")),
        resolve: Box::new(|_| Ok(region1().ver_id())),
    };
    let result = scan_and_clean(
        ResolveLocksOptions { async_commit_only: false, batch_size: 1 },
        Backoff::no_backoff(),
        &[1, 0],
        |_| {
            scan_lock_calls += 1;
            if scan_lock_calls == 1 {
                batch(vec![lock(42)], Some((vec![1, 0], vec![1, 0])))
            } else {
                batch(vec![], None)
            }
        },
        &mut store,
    )
    .unwrap();
    assert_eq!(result.resolved_locks, 1);
    assert_eq!(scan_lock_calls, 1);
}

#[test]
fn test_cleanup_locks_async_commit_only_can_rollback_when_fallback_2pc() {
    let mut calls = 0;
    let mut requests = vec![];
    let mut store = MockStore {
        status: Box::new(|_| {
            calls += 1;
            if calls == 1 {
                locked()
            } else {
                rolled_back()
            }
        }),
        secondaries: Box::new(fallback),
        resolve: Box::new(|txn_infos| {
            requests.push(txn_infos);
            Ok(region1().ver_id())
        }),
    };
    let result = scan_and_clean(
        ResolveLocksOptions { async_commit_only: true, batch_size: 2 },
        Backoff::no_backoff(),
        &[10],
        |_| batch(vec![LockInfo { use_async_commit: true, ..lock(42) }], None),
        &mut store,
    )
    .unwrap();
    drop(store);
    assert_eq!(result.resolved_locks, 1);
    assert_eq!(requests, vec![vec![TxnInfo { txn: 42, status: 0 }]]);
}

#[test]
fn test_cleanup_locks_retries_on_region_error_from_batch_resolve_lock() {
    let mut resolve_lock_calls = 0;
    let mut store = MockStore {
        status: Box::new(|_| rolled_back()),
        secondaries: Box::new(|| panic!("not to be asked for")),
        resolve: Box::new(|_| {
            resolve_lock_calls += 1;
            if resolve_lock_calls == 1 {
                Err(region_error())
            } else {
                Ok(region1().ver_id())
            }
        }),
    };
    let mut attempt = |store: &mut MockStore<'_>| {
        scan_and_clean(
            ResolveLocksOptions { async_commit_only: true, batch_size: 2 },
            Backoff::no_backoff(),
            &[10],
            |_| batch(vec![LockInfo { use_async_commit: true, ..lock(42) }], None),
            store,
        )
        .unwrap()
    };
    // The region error is told of, so the shard is tried again.
    let first = attempt(&mut store);
    assert_eq!(first.resolved_locks, 0);
    assert_eq!(first.region_error, Some(errorpb::Error::default()));
    assert_eq!(first.key_error, None);
    let second = attempt(&mut store);
    drop(store);
    assert_eq!(second.resolved_locks, 1);
    assert_eq!(resolve_lock_calls, 2);
}

#[test]
fn batches_follow_one_another() {
    let mut scanned = vec![];
    let mut store = MockStore {
        status: Box::new(|_| rolled_back()),
        secondaries: Box::new(|| panic!("not to be asked for")),
        resolve: Box::new(|_| Ok(region1().ver_id())),
    };
    let result = scan_and_clean(
        ResolveLocksOptions { async_commit_only: true, batch_size: 2 },
        Backoff::no_backoff(),
        &[],
        |range| {
            scanned.push(range);
            let live = LockInfo { use_async_commit: true, ..lock(scanned.len() as u64) };
            match scanned.len() {
                1 => batch(vec![live, lock(7)], Some((vec![3], vec![]))),
                // A batch without locks of interest is passed over.
                2 => batch(vec![lock(7), lock(8)], Some((vec![5], vec![]))),
                // Behind this batch the region ends.
                3 => batch(vec![live, lock(7)], Some((vec![10], vec![]))),
                _ => panic!("the region has ended"),
            }
        },
        &mut store,
    )
    .unwrap();
    assert_eq!(result.resolved_locks, 2);
    assert_eq!(scanned, vec![None, Some((vec![3], vec![])), Some((vec![5], vec![]))]);
}

#[test]
fn what_a_scan_fails_with_is_told() {
    let scan = |failure: Failure| {
        let options = ResolveLocksOptions::default();
        let (mut run, _) = LockScan::start(options, Backoff::no_backoff());
        let scanned = ScannedLocks { failure, next_batch: None, locks: vec![] };
        match run.scanned(Ok(scanned), &region1(), &[]) {
            ScanAction::Return(result) => result.unwrap(),
            other => panic!("unexpected: {other:?}"),
        }
    };
    let told = scan(Failure::Keys(vec![Error::Unimplemented]));
    assert_eq!(told.key_error, Some(vec![Error::Unimplemented]));
    let told = scan(Failure::Region(errorpb::Error::default()));
    assert_eq!(told.region_error, Some(errorpb::Error::default()));
    assert_eq!(ResolveLocksOptions::default().batch_size, 1024);
}

#[test]
fn removals_are_added_up() {
    let of = |resolved_locks: usize| {
        Ok(CleanupLocksResult { resolved_locks, ..Default::default() })
    };
    let merged = merge_cleanup_results(vec![of(3), of(4)]).unwrap().unwrap();
    assert_eq!(merged.resolved_locks, 7);
    assert_eq!(
        merge_cleanup_results(vec![of(3), Err(Error::Unimplemented), of(4)]),
        Some(Err(Error::Unimplemented))
    );
    assert_eq!(merge_cleanup_results(vec![of(usize::MAX), of(1)]), None);
}

fn lock_wait(backoff: Backoff, lock_wait_timeout_ms: Option<u64>) -> LockWait {
    LockWait::start(&ResolveLock {
        inner: (),
        pd_client: (),
        backoff,
        lock_wait_timeout_ms,
        keyspace: Keyspace::Disable,
        request_context: RequestContext::<Tagger, Intercept>::default(),
        read_routing: ReadRouting::default(),
    })
}

/// What comes of a request that meets the locks of `answers`, one response after the other.
fn run_with_locks(
    mut wait: LockWait,
    stale_read: bool,
    mut answers: Vec<Option<LockInfo>>,
    now: Timestamp,
) -> (Result<usize>, Vec<&'static str>) {
    let mut calls = 0;
    let mut waited_ms = 0;
    let mut sent = vec![];
    loop {
        calls += 1;
        let locks: Vec<LockInfo> = answers.remove(0).into_iter().collect();
        let locks = match wait.locks_found(locks, stale_read) {
            LocksStep::Return => return (Ok(calls), sent),
            LocksStep::Fail(error) => return (Err(error), sent),
            LocksStep::Resolve { locks, force_leader } => {
                assert_eq!(force_leader, stale_read);
                locks
            }
        };
        let (mut resolution, mut action) = LockResolution::start(locks, &now);
        let live = loop {
            action = match action {
                ResolveAction::LocateRegion { .. } => {
                    resolution.region_located(Ok(region1().ver_id()))
                }
                ResolveAction::CleanUp { .. } => {
                    sent.push("cleanup");
                    resolution.cleaned_up(Ok(0))
                }
                ResolveAction::ResolveLock { .. } => {
                    sent.push("resolve");
                    resolution.lock_resolved(Ok(region1().ver_id()))
                }
                ResolveAction::Return(live) => break live,
            };
        };
        match wait.locks_resolved(live, stale_read, waited_ms) {
            LiveLocksStep::Execute { delay_ms } => waited_ms += delay_ms.unwrap_or(0),
            LiveLocksStep::Reroute { .. } => {
                sent.push("reroute");
                return (Ok(calls), sent);
            }
            LiveLocksStep::Fail(error) => return (Err(error), sent),
        }
    }
}

fn held(lock_ttl: u64) -> Option<LockInfo> {
    Some(LockInfo { lock_ttl, ..lock(0) })
}

#[test]
fn test_coprocessor_request_resolve_lock_retries_on_locked_response() {
    let wait = lock_wait(Backoff::no_jitter_backoff(0, 0, 1), None);
    let (result, sent) =
        run_with_locks(wait, false, vec![held(1000), None], Timestamp::default());
    assert_eq!(result, Ok(2));
    assert!(sent.is_empty());
}

#[test]
fn test_resolve_lock_respects_lock_wait_timeout() {
    let wait = lock_wait(Backoff::no_jitter_backoff(50, 50, 1), Some(10));
    let ttl = i64::MAX as u64;
    let (result, _) =
        run_with_locks(wait, false, vec![held(ttl), held(ttl)], Timestamp::default());
    assert!(matches!(result, Err(Error::LockWaitTimeout(_))), "{result:?}");
}

#[test]
fn test_coprocessor_request_resolve_lock_cleans_up_expired_lock() {
    let wait = lock_wait(Backoff::no_jitter_backoff(0, 0, 3), None);
    let (result, sent) = run_with_locks(wait, false, vec![held(0), None], Timestamp::default());
    assert_eq!(result, Ok(2));
    assert_eq!(sent, vec!["cleanup", "resolve"]);
}

#[test]
fn live_locks_end_a_request_without_delays() {
    let wait = lock_wait(Backoff::no_backoff(), None);
    let (result, _) = run_with_locks(wait, false, vec![held(1000)], Timestamp::default());
    assert!(matches!(result, Err(Error::ResolveLockError(_))));

    let wait = lock_wait(Backoff::no_jitter_backoff(0, 0, 0), None);
    let (result, _) = run_with_locks(wait, false, vec![held(1000)], Timestamp::default());
    assert!(matches!(result, Err(Error::ResolveLockError(_))));
}

#[test]
fn a_stale_read_that_meets_a_lock_goes_to_the_leader() {
    let wait = lock_wait(Backoff::no_jitter_backoff(0, 0, 1), None);
    let (result, sent) = run_with_locks(wait, true, vec![held(0)], Timestamp::default());
    assert_eq!(result, Ok(1));
    assert_eq!(sent, vec!["cleanup", "resolve", "reroute"]);

    let response: coprocessor::Response = reroute_to_leader();
    let e = response.region_error.unwrap();
    assert_eq!(e.epoch_not_match.unwrap().current_regions, vec![]);
}

#[test]
fn locks_of_one_transaction_are_cleaned_up_once() {
    let locks = vec![lock(7), LockInfo { key: vec![2], primary_lock: vec![200], ..lock(7) }];
    let now = Timestamp { physical: 1_000_000, logical: 0 };
    let other = RegionVerId { id: 2, conf_ver: 0, ver: 0 };
    let (mut resolution, action) = LockResolution::start(locks, &now);
    assert!(matches!(action, ResolveAction::LocateRegion { key } if key == vec![1]));
    let action = resolution.region_located(Ok(region1().ver_id()));
    assert!(matches!(action, ResolveAction::CleanUp { start_version: 7, .. }));
    let action = resolution.cleaned_up(Ok(13));
    assert!(matches!(action, ResolveAction::ResolveLock { commit_version: 13, .. }));
    let action = resolution.lock_resolved(Ok(region1().ver_id()));
    assert!(matches!(action, ResolveAction::LocateRegion { key } if key == vec![2]));
    let action = resolution.region_located(Ok(other));
    let ResolveAction::ResolveLock { key, commit_version, .. } = action else {
        panic!("expected the lock to be resolved");
    };
    assert_eq!((key, commit_version), (vec![2], 13));
    let action = resolution.lock_resolved(Err(Error::Unimplemented));
    assert!(matches!(action, ResolveAction::Return(Err(Error::Unimplemented))));
}

#[test]
fn a_removal_records_all_its_transactions_or_none() {
    let region = region1().ver_id();
    let locks = || vec![lock(5), lock(6), lock(5), lock(8)];
    let mut asked = vec![];
    let mut named = vec![];
    for fails in [true, false] {
        let mut resolver = lock_resolver();
        resolver.ctx.save_cleaned_region(8, region);
        asked.clear();
        named.clear();
        let mut store = MockStore {
            status: Box::new(|query| {
                asked.push(query.txn_id);
                rolled_back()
            }),
            secondaries: Box::new(|| panic!("not to be asked for")),
            resolve: Box::new(|txn_infos| {
                named.extend(txn_infos.iter().map(|info| info.txn));
                if fails {
                    Err(Error::Unimplemented)
                } else {
                    Ok(region)
                }
            }),
        };
        let result = clean_up(&mut resolver, locks(), &mut store);
        drop(store);
        assert_eq!(result.is_err(), fails);
        assert_eq!(asked, vec![5, 6]);
        assert_eq!(named, vec![5, 6]);
        assert!(resolver.ctx.is_region_cleaned(8, &region));
        for txn_id in [5, 6] {
            assert_eq!(resolver.ctx.is_region_cleaned(txn_id, &region), !fails);
        }
    }
}

#[test]
fn locks_of_one_transaction_are_resolved_in_every_region_that_holds_one() {
    let of = |key: u8| LockInfo { key: vec![key], ..lock(7) };
    let locks = vec![of(1), of(2), of(11), of(12), of(3)];
    let region_of = |key: &[u8]| RegionVerId { id: 1 + u64::from(key[0] / 10), conf_ver: 0, ver: 0 };
    let now = Timestamp { physical: 1_000_000, logical: 0 };
    let (mut resolution, mut action) = LockResolution::start(locks, &now);
    let mut clean_ups = 0;
    let mut resolved = vec![];
    loop {
        action = match action {
            ResolveAction::LocateRegion { key } => resolution.region_located(Ok(region_of(&key))),
            ResolveAction::CleanUp { .. } => {
                clean_ups += 1;
                resolution.cleaned_up(Ok(13))
            }
            ResolveAction::ResolveLock { key, start_version, commit_version } => {
                assert_eq!((start_version, commit_version), (7, 13));
                let region = region_of(&key);
                resolved.push(region.id);
                resolution.lock_resolved(Ok(region))
            }
            ResolveAction::Return(live) => {
                assert_eq!(live, Ok(vec![]));
                break;
            }
        };
    }
    assert_eq!(clean_ups, 1);
    assert_eq!(resolved, vec![1, 2]);
}

#[test]
fn a_resolution_ends_after_a_bounded_number_of_actions() {
    let locks: Vec<LockInfo> = (1..=5).map(lock).collect();
    let now = Timestamp { physical: 1_000_000, logical: 0 };
    let (mut resolution, mut action) = LockResolution::start(locks, &now);
    let mut actions = 0;
    loop {
        action = match action {
            ResolveAction::LocateRegion { .. } => resolution.region_located(Ok(region1().ver_id())),
            ResolveAction::CleanUp { .. } => resolution.cleaned_up(Ok(0)),
            ResolveAction::ResolveLock { .. } => {
                resolution.lock_resolved(Ok(region1().ver_id()))
            }
            ResolveAction::Return(result) => {
                assert_eq!(result, Ok(vec![]));
                break;
            }
        };
        actions += 1;
    }
    assert_eq!(actions, 15);
}

#[test]
fn locks_expire_with_their_time_to_live() {
    let version = 100 << 18;
    let of = |lock_ttl: u64| LockInfo { lock_ttl, ..lock(version) };
    let now = Timestamp { physical: 150, logical: 0 };
    let (expired, live) = split_expired(vec![of(50), of(51), of(0)], &now);
    let ttls: Vec<u64> = expired.iter().map(|lock| lock.lock_ttl).collect();
    assert_eq!(ttls, vec![50, 0]);
    assert_eq!(live.len(), 1);
}

#[test]
fn a_status_that_will_not_change_is_remembered() {
    let mut context = ResolveLocksContext::default();
    context.status_checked(1, committed(5), Timestamp::default());
    assert_eq!(context.get_resolved(1), Some(committed(5)));
    context.status_checked(2, locked(), Timestamp::default());
    assert_eq!(context.get_resolved(2), None);
    let pushed = TransactionStatus { action: Action::MinCommitTsPushed, ..rolled_back() };
    context.status_checked(3, pushed, Timestamp::default());
    assert_eq!(context.get_resolved(3), None);
    let status = context.status_checked(
        4,
        locked(),
        Timestamp { physical: 1, logical: 0 },
    );
    assert!(status.is_expired);
}

fn secondary(expected: usize, min_commit_ts: Vec<u64>, commit_ts: u64) -> SecondaryLocks {
    SecondaryLocks {
        expected,
        locks: min_commit_ts
            .into_iter()
            .map(|min_commit_ts| LockInfo {
                use_async_commit: true,
                min_commit_ts,
                ..Default::default()
            })
            .collect(),
        commit_ts,
    }
}

#[test]
fn secondary_locks_decide_on_a_transaction() {
    // All locks are there: the largest of the least timestamps counts.
    let told = check_all_secondaries(&vec![secondary(2, vec![7, 9], 0), secondary(1, vec![8], 0)], 5)
        .unwrap();
    assert_eq!(
        told,
        SecondaryLocksStatus { commit_ts: None, min_commit_ts: 9, fallback_2pc: false }
    );
    assert_eq!(told.commit_version(), 9);

    // A missing lock: the transaction has ended as the region says.
    let told = check_all_secondaries(&vec![secondary(2, vec![7], 20)], 5).unwrap();
    assert_eq!(told.commit_version(), 20);
    let told = check_all_secondaries(&vec![secondary(1, vec![], 0)], 5).unwrap();
    assert_eq!(told.commit_version(), 0);

    // A lock that does not use asynchronous commit.
    assert!(check_all_secondaries(&fallback(), 5).unwrap().fallback_2pc);

    // The regions contradict each other, or the locks.
    let told =
        check_all_secondaries(&vec![secondary(1, vec![], 20), secondary(1, vec![], 21)], 5);
    assert_eq!(
        told.unwrap_err().to_string(),
        "commit ts mismatch in async commit recovery: 20 and 21"
    );
    let told =
        check_all_secondaries(&vec![secondary(1, vec![30], 0), secondary(1, vec![], 20)], 5);
    assert_eq!(
        told.unwrap_err().to_string(),
        "commit ts must be >= min commit ts: commit_ts=20, min_commit_ts=30"
    );
}
