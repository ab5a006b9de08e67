use tikv_client::backoff::Backoff;
use tikv_client::common::errors::{Error, GrpcStatus, Result};
use tikv_client::interceptor::{ReplicaKind, RpcContextInfo};
use tikv_client::proto::errorpb;
use tikv_client::proto::kvrpcpb::Context;
use tikv_client::proto::metapb::{Peer, Region, RegionEpoch};
use tikv_client::region::RegionWithLeader;
use tikv_client::request::plan::ShardResults;
use tikv_client::request::shard_run::{
    DelayReason, ReadPeer, ShardAction, ShardEffect, ShardEvent, ShardOutcome, ShardRun, ShardStep,
    Target,
};
use tikv_client::request_context::RequestContext;
use tikv_client::store::errors::Failure;
use tikv_client::store::request::{Request, RequestHead, RequestKind};
use tikv_client::store::RegionStore;

fn peer(store_id: u64) -> Peer {
    Peer { id: 100 + store_id, store_id, ..Default::default() }
}

/// A region with three peers, led by the given store.
fn region(leader: u64) -> RegionWithLeader {
    RegionWithLeader {
        region: Region {
            id: 1,
            region_epoch: Some(RegionEpoch { conf_ver: 3, version: 4 }),
            peers: vec![peer(1), peer(2), peer(3)],
            ..Default::default()
        },
        leader: Some(peer(leader)),
    }
}

/// What came of a request.
#[derive(Default)]
struct Trace {
    stores: Vec<u64>,
    sources: Vec<Option<String>>,
    attempts: Vec<usize>,
    kinds: Vec<ReplicaKind>,
    stale_read_flags: Vec<bool>,
    delays: Vec<(u64, DelayReason)>,
    invalidated_regions: usize,
    invalidated_stores: usize,
    slow_stores: Vec<u64>,
    pending: Vec<u64>,
    update_leader_calls: usize,
}

struct Setup {
    backoff: Backoff,
    replica_read_mode: bool,
    stale_read: bool,
    request_source: Option<String>,
    leader: u64,
    /// The store that turns out to lead the region once the region has been forgotten.
    next_leader: Option<u64>,
    /// The stores that are asked on the attempts to come; the leader behind them.
    choices: Vec<u64>,
}

impl Setup {
    fn new(backoff: Backoff) -> Setup {
        Setup {
            backoff,
            replica_read_mode: false,
            stale_read: false,
            request_source: None,
            leader: 1,
            next_leader: None,
            choices: vec![],
        }
    }
}

fn note(trace: &mut Trace, pinned: &mut Option<u64>, effects: Vec<ShardEffect>) {
    for effect in effects {
        match effect {
            ShardEffect::InvalidateRegion(_) => trace.invalidated_regions += 1,
            ShardEffect::InvalidateStore(_) => trace.invalidated_stores += 1,
            ShardEffect::PinStore { store_id, .. } => *pinned = Some(store_id),
            ShardEffect::ClearPinnedStore { .. } => *pinned = None,
            ShardEffect::MarkStoreSlow { store_id, for_ms } => {
                assert_eq!(for_ms, 500);
                trace.slow_stores.push(store_id);
            }
            ShardEffect::AddPendingBackoff { store_id, .. } => trace.pending.push(store_id),
        }
    }
}

type Tagger = fn(&RpcContextInfo, &Context) -> Vec<u8>;

type Intercept = fn(&RpcContextInfo, Context) -> Context;

/// The request as it is sent to the chosen peer.
fn request_to(region: &RegionWithLeader, target: Target) -> RequestHead {
    let chosen = region.with_leader(target.read_peer.target_peer);
    let store: RegionStore<(), Tagger, Intercept> =
        RegionStore::new(chosen, ()).aim(target, RequestContext::default());
    let mut request = RequestHead::new(RequestKind::RawGet);
    store.apply_to_request(&mut request).unwrap();
    request
}

/// Run a request until it ends. `answer` gives the response to the nth call.
fn run<F: Fn(usize) -> Result<Failure>>(setup: Setup, answer: F) -> (Trace, Result<()>) {
    let mut trace = Trace::default();
    let mut leader = setup.leader;
    let mut pinned: Option<u64> = None;
    let mut backoff = setup.backoff;
    let mut attempt = 0;
    let mut calls = 0;
    let mut pending: Vec<u64> = vec![];
    let mut rounds = 0;
    let mut request = RequestHead::new(RequestKind::RawGet);
    loop {
        let mut run =
            ShardRun::start(region(leader), backoff, attempt, setup.request_source.clone());
        let store = pinned
            .or(setup.choices.get(rounds).copied())
            .unwrap_or(leader);
        rounds += 1;
        let chosen = ReadPeer {
            target_peer: peer(store),
            replica_read: store != leader,
            stale_read: setup.stale_read,
        };
        let mut step = run.step(ShardEvent::PeerSelected(Ok(chosen)));
        loop {
            let ShardStep { effects, action } = step;
            note(&mut trace, &mut pinned, effects);
            pending.extend(trace.pending.drain(..));
            if trace.invalidated_regions > 0 {
                leader = setup.next_leader.unwrap_or(leader);
            }
            step = match action {
                ShardAction::SelectSourcePeer => {
                    run.step(ShardEvent::SourcePeerSelected(Ok(ReadPeer {
                        target_peer: peer(setup.choices.first().copied().unwrap_or(leader)),
                        replica_read: false,
                        stale_read: setup.stale_read,
                    })))
                }
                ShardAction::MapRegion(target) => {
                    trace.attempts.push(target.attempt);
                    trace.kinds.push(target.replica_kind);
                    trace.sources.push(target.request_source.clone());
                    request = request_to(&region(leader), target);
                    run.step(ShardEvent::RegionMapped(Ok(())))
                }
                ShardAction::TakePendingBackoff { store_id } => {
                    let is_pending = pending.contains(&store_id);
                    pending.retain(|store| *store != store_id);
                    run.step(ShardEvent::PendingBackoffTaken(is_pending))
                }
                ShardAction::Execute => {
                    let context = request.context_mut();
                    trace.stores.push(context.peer.expect("the request has a peer").store_id);
                    trace.stale_read_flags.push(context.stale_read);
                    let executed = answer(calls);
                    calls += 1;
                    run.step(ShardEvent::Executed {
                        executed,
                        replica_read_mode: setup.replica_read_mode,
                    })
                }
                ShardAction::UpdateLeader { leader: new, .. } => {
                    trace.update_leader_calls += 1;
                    leader = new.store_id;
                    run.step(ShardEvent::LeaderUpdated(Ok(())))
                }
                ShardAction::Sleep { delay_ms, reason } => {
                    trace.delays.push((delay_ms, reason));
                    run.step(ShardEvent::Slept)
                }
                ShardAction::Reshard => {
                    backoff = run.backoff;
                    attempt = run.attempt;
                    break;
                }
                ShardAction::Return(outcome) => {
                    let results = outcome.into_results(Some(()));
                    return (trace, results.and_then(|results| results.into_iter().collect()));
                }
            };
        }
    }
}

fn grpc_error() -> Error {
    Error::GrpcAPI(GrpcStatus {
        code: 14,
        message: "grpc error".to_owned(),
        text: "grpc error".to_owned(),
        details: "grpc error".to_owned(),
    })
}

fn first<F: Fn() -> Result<Failure>>(failure: F) -> impl Fn(usize) -> Result<Failure> {
    move |call| if call == 0 { failure() } else { Ok(Failure::Absent) }
}

fn blank() -> errorpb::Error {
    errorpb::Error::default()
}

#[test]
fn test_retryable_multi_region_retries_grpc_error_with_backoff() {
    let setup = Setup::new(Backoff::no_jitter_backoff(0, 0, 1));
    let (trace, result) = run(setup, first(|| Err(grpc_error())));
    assert!(result.is_ok());
    assert_eq!(trace.stores.len(), 2);
    assert_eq!(trace.attempts, vec![0, 2]);
    assert_eq!(trace.slow_stores, vec![1]);
}

#[test]
fn test_retryable_multi_region_grpc_error_without_backoff_returns_err() {
    let (trace, result) = run(Setup::new(Backoff::no_backoff()), |_| Err(grpc_error()));
    assert!(matches!(result, Err(Error::GrpcAPI(_))));
    assert_eq!(trace.stores.len(), 1);
}

#[test]
fn test_retryable_multi_region_grpc_api_error_requires_backoff_budget() {
    let (trace, result) =
        run(Setup::new(Backoff::no_jitter_backoff(0, 0, 0)), |_| Err(grpc_error()));
    assert!(matches!(result, Err(Error::GrpcAPI(_))));
    assert_eq!(trace.stores.len(), 1);
    assert_eq!(trace.invalidated_regions, 1);
    assert_eq!(trace.invalidated_stores, 1);
}

#[test]
fn test_retryable_multi_region_not_leader_with_leader_does_not_consume_backoff() {
    let setup = Setup::new(Backoff::no_jitter_backoff(50, 50, 1));
    let (trace, result) = run(setup, |call| {
        if call < 2 {
            Ok(Failure::Region(errorpb::Error {
                not_leader: Some(errorpb::NotLeader {
                    leader: Some(peer(call as u64 + 2)),
                    ..Default::default()
                }),
                ..Default::default()
            }))
        } else {
            Ok(Failure::Absent)
        }
    });
    assert!(result.is_ok());
    assert_eq!(trace.update_leader_calls, 2);
    assert_eq!(trace.invalidated_regions, 0);
    assert_eq!(trace.stores, vec![1, 2, 3]);
    assert!(trace.delays.is_empty());
}

#[test]
fn test_retryable_multi_region_not_leader_without_leader_backoffs() {
    let setup = Setup::new(Backoff::no_jitter_backoff(50, 50, 1));
    let (trace, result) = run(
        setup,
        first(|| {
            Ok(Failure::Region(errorpb::Error {
                not_leader: Some(errorpb::NotLeader::default()),
                ..Default::default()
            }))
        }),
    );
    assert!(result.is_ok());
    assert_eq!(trace.stores, vec![1, 1]);
    assert_eq!(trace.delays, vec![(50, DelayReason::Region)]);
    assert_eq!(trace.update_leader_calls, 0);
    assert_eq!(trace.invalidated_regions, 1);
}

#[test]
fn test_retryable_multi_region_region_not_found_retries_without_backoff() {
    let setup = Setup::new(Backoff::no_jitter_backoff(50, 50, 0));
    let (trace, result) = run(
        setup,
        first(|| {
            Ok(Failure::Region(errorpb::Error {
                region_not_found: Some(errorpb::RegionNotFound { region_id: 1 }),
                ..Default::default()
            }))
        }),
    );
    assert!(result.is_ok());
    assert_eq!(trace.stores.len(), 2);
    assert_eq!(trace.invalidated_regions, 1);
    assert_eq!(trace.invalidated_stores, 0);
    assert_eq!(trace.attempts, vec![0, 1]);
}

#[test]
fn test_retryable_multi_region_store_not_match_retries_without_backoff() {
    let setup = Setup::new(Backoff::no_jitter_backoff(50, 50, 0));
    let (trace, result) = run(
        setup,
        first(|| {
            Ok(Failure::Region(errorpb::Error {
                store_not_match: Some(errorpb::StoreNotMatch::default()),
                ..Default::default()
            }))
        }),
    );
    assert!(result.is_ok());
    assert_eq!(trace.stores.len(), 2);
    assert_eq!(trace.invalidated_regions, 1);
    assert_eq!(trace.invalidated_stores, 1);
}

#[test]
fn test_retryable_multi_region_store_not_match_switches_leader_after_invalidate() {
    let setup =
        Setup { next_leader: Some(3), ..Setup::new(Backoff::no_jitter_backoff(50, 50, 0)) };
    let (trace, result) = run(
        setup,
        first(|| {
            Ok(Failure::Region(errorpb::Error {
                store_not_match: Some(errorpb::StoreNotMatch {
                    request_store_id: 1,
                    actual_store_id: 3,
                }),
                ..Default::default()
            }))
        }),
    );
    assert!(result.is_ok());
    assert_eq!(trace.stores, vec![1, 3]);
    assert_eq!(trace.invalidated_regions, 1);
    assert_eq!(trace.invalidated_stores, 1);
}

#[test]
fn test_retryable_multi_region_unknown_region_error_requires_backoff_budget() {
    let (trace, result) = run(Setup::new(Backoff::no_jitter_backoff(0, 0, 0)), |_| {
        Ok(Failure::Region(blank()))
    });
    assert!(matches!(result, Err(Error::RegionError(_))));
    assert_eq!(trace.stores.len(), 1);
    assert_eq!(trace.invalidated_regions, 1);
}

#[test]
fn test_retryable_multi_region_unknown_region_error_retries_with_backoff_budget() {
    let setup = Setup::new(Backoff::no_jitter_backoff(0, 0, 1));
    let (trace, result) = run(
        setup,
        first(|| {
            let e = errorpb::Error { message: "unknown".to_owned(), ..Default::default() };
            Ok(Failure::Region(e))
        }),
    );
    assert!(result.is_ok());
    assert_eq!(trace.stores.len(), 2);
    assert_eq!(trace.invalidated_regions, 1);
    assert_eq!(trace.invalidated_stores, 0);
}

#[test]
fn test_retryable_multi_region_key_not_in_region_retries_without_backoff() {
    let setup = Setup::new(Backoff::no_jitter_backoff(50, 50, 0));
    let (trace, result) = run(
        setup,
        first(|| {
            Ok(Failure::Region(errorpb::Error {
                key_not_in_region: Some(errorpb::KeyNotInRegion {
                    key: vec![1],
                    region_id: 1,
                    start_key: vec![],
                    end_key: vec![10],
                }),
                ..Default::default()
            }))
        }),
    );
    assert!(result.is_ok());
    assert_eq!(trace.stores.len(), 2);
    assert_eq!(trace.invalidated_regions, 1);
    assert_eq!(trace.invalidated_stores, 0);
}

#[test]
fn test_retryable_multi_region_grpc_api_error_retries_with_backoff_budget() {
    let setup = Setup::new(Backoff::no_jitter_backoff(0, 0, 1));
    let (trace, result) = run(setup, first(|| Err(grpc_error())));
    assert!(result.is_ok());
    assert_eq!(trace.stores.len(), 2);
    assert_eq!(trace.invalidated_regions, 1);
    assert_eq!(trace.invalidated_stores, 1);
    assert_eq!(trace.delays, vec![(0, DelayReason::Grpc)]);
}

fn epoch_not_match(conf_ver: u64, version: u64) -> Result<Failure> {
    Ok(Failure::Region(errorpb::Error {
        epoch_not_match: Some(errorpb::EpochNotMatch {
            current_regions: vec![Region {
                id: 1,
                region_epoch: Some(RegionEpoch { conf_ver, version }),
                ..Default::default()
            }],
        }),
        ..Default::default()
    }))
}

#[test]
fn test_retryable_multi_region_epoch_not_match_resolved_does_not_consume_backoff() {
    let setup = Setup::new(Backoff::no_jitter_backoff(50, 50, 0));
    let (trace, result) = run(setup, first(|| epoch_not_match(10, 10)));
    assert!(result.is_ok());
    assert_eq!(trace.stores.len(), 2);
    assert_eq!(trace.invalidated_regions, 1);
}

#[test]
fn test_retryable_multi_region_epoch_not_match_unresolved_backoffs() {
    let setup = Setup::new(Backoff::no_jitter_backoff(50, 50, 1));
    let (trace, result) = run(setup, first(|| epoch_not_match(1, 1)));
    assert!(result.is_ok());
    assert_eq!(trace.stores.len(), 2);
    assert_eq!(trace.delays, vec![(50, DelayReason::Region)]);
    assert_eq!(trace.invalidated_regions, 0);
}

#[test]
fn test_coprocessor_request_retries_on_region_error_response() {
    let setup = Setup::new(Backoff::no_backoff());
    let (trace, result) = run(
        setup,
        first(|| {
            Ok(Failure::Region(errorpb::Error {
                region_not_found: Some(errorpb::RegionNotFound { region_id: 1 }),
                ..Default::default()
            }))
        }),
    );
    assert!(result.is_ok());
    assert_eq!(trace.stores.len(), 2);
}

#[test]
fn test_err() {
    let (_, result) = run(Setup::new(Backoff::no_backoff()), |_| Err(Error::Unimplemented));
    assert!(result.is_err());
}

#[test]
fn test_region_retry() {
    let (trace, result) = run(Setup::new(Backoff::no_jitter_backoff(1, 1, 3)), |_| {
        Ok(Failure::Region(blank()))
    });
    assert!(result.is_err());
    // Original call plus the 3 retries
    assert_eq!(trace.stores.len(), 4);
}

#[test]
fn test_retryable_multi_region_resource_group_throttled_does_not_invalidate_caches() {
    let (trace, result) = run(Setup::new(Backoff::no_jitter_backoff(0, 0, 1)), |_| {
        Err(Error::ResourceGroupThrottled)
    });
    assert!(matches!(result, Err(Error::ResourceGroupThrottled)));
    assert_eq!(trace.stores.len(), 1);
    assert_eq!(trace.invalidated_regions, 0);
    assert_eq!(trace.invalidated_stores, 0);
    assert!(trace.slow_stores.is_empty());
}

fn stale_command() -> Result<Failure> {
    Ok(Failure::Region(errorpb::Error {
        stale_command: Some(errorpb::StaleCommand::default()),
        ..Default::default()
    }))
}

#[test]
fn test_retryable_multi_region_replica_read_stale_command_switches_peer_without_backoff() {
    let mut setup = Setup::new(Backoff::no_jitter_backoff(50, 50, 0));
    setup.replica_read_mode = true;
    setup.choices = vec![1, 2, 3];
    let (trace, result) = run(setup, first(stale_command));
    assert!(result.is_ok());
    assert_eq!(trace.stores, vec![1, 2]);
    assert_eq!(trace.invalidated_regions, 0);
    assert_eq!(trace.invalidated_stores, 0);
}

#[test]
fn test_retryable_multi_region_replica_read_stale_command_exhausts_peers_and_fails() {
    let mut setup = Setup::new(Backoff::no_jitter_backoff(50, 50, 0));
    setup.replica_read_mode = true;
    setup.choices = vec![1, 2, 3];
    let (trace, result) = run(setup, |_| stale_command());
    assert!(matches!(result, Err(Error::RegionError(_))));
    assert_eq!(trace.stores, vec![1, 2, 3]);
    assert_eq!(trace.invalidated_regions, 1);
    assert_eq!(trace.invalidated_stores, 0);
}

#[test]
fn test_retryable_multi_region_stale_command_backoffs() {
    let setup = Setup::new(Backoff::no_jitter_backoff(50, 50, 1));
    let (trace, result) = run(setup, first(stale_command));
    assert!(result.is_ok());
    assert_eq!(trace.delays, vec![(50, DelayReason::Region)]);
    assert_eq!(trace.invalidated_regions, 1);
}

fn data_is_not_ready() -> Result<Failure> {
    Ok(Failure::Region(errorpb::Error {
        data_is_not_ready: Some(errorpb::DataIsNotReady { region_id: 1, peer_id: 0, safe_ts: 0 }),
        ..Default::default()
    }))
}

#[test]
fn test_retryable_multi_region_stale_read_data_is_not_ready_waits_and_retries() {
    let mut setup = Setup::new(Backoff::no_jitter_backoff(50, 50, 0));
    setup.stale_read = true;
    setup.choices = vec![2, 1];
    let (trace, result) = run(setup, first(data_is_not_ready));
    assert!(result.is_ok());
    assert_eq!(trace.delays, vec![(200, DelayReason::StaleReadNotReady)]);
    // Stale-read retries fall back to leader, while keeping `Context.stale_read=true`.
    assert_eq!(trace.stores, vec![2, 1]);
    assert_eq!(trace.stale_read_flags, vec![true, true]);
    assert_eq!(trace.invalidated_regions, 0);
    assert_eq!(trace.invalidated_stores, 0);
}

#[test]
fn a_stale_read_is_not_tried_forever() {
    let mut setup = Setup::new(Backoff::no_jitter_backoff(50, 50, 0));
    setup.stale_read = true;
    let (trace, result) = run(setup, |_| data_is_not_ready());
    assert!(matches!(result, Err(Error::RegionError(_))));
    assert_eq!(trace.stores.len(), 121);
    assert_eq!(trace.delays.len(), 120);
}

#[test]
fn test_retryable_multi_region_replica_read_keep_peer_errors_retry_same_store() {
    for kind in 0..3 {
        let mut setup = Setup::new(Backoff::no_jitter_backoff(0, 0, 1));
        setup.replica_read_mode = true;
        setup.choices = vec![1, 2, 3];
        let (trace, result) = run(
            setup,
            first(|| {
                let mut e = blank();
                match kind {
                    0 => e.max_timestamp_not_synced = Some(Default::default()),
                    1 => e.read_index_not_ready = Some(Default::default()),
                    _ => e.proposal_in_merging_mode = Some(Default::default()),
                }
                Ok(Failure::Region(e))
            }),
        );
        assert!(result.is_ok());
        assert_eq!(trace.stores, vec![1, 1]);
        assert_eq!(trace.invalidated_regions, 0);
        assert_eq!(trace.invalidated_stores, 0);
    }
}

fn server_is_busy() -> Result<Failure> {
    Ok(Failure::Region(errorpb::Error {
        server_is_busy: Some(errorpb::ServerIsBusy::default()),
        ..Default::default()
    }))
}

#[test]
fn test_retryable_multi_region_replica_read_server_is_busy_fast_retries() {
    let mut setup = Setup::new(Backoff::no_jitter_backoff(50, 50, 1));
    setup.replica_read_mode = true;
    setup.choices = vec![1, 2, 3];
    let (trace, result) = run(setup, first(server_is_busy));
    assert!(result.is_ok());
    assert_eq!(trace.stores, vec![1, 2]);
    assert!(trace.delays.is_empty());
    assert_eq!(trace.slow_stores, vec![1]);
    assert_eq!(trace.invalidated_regions, 0);
    assert_eq!(trace.invalidated_stores, 0);
}

#[test]
fn a_busy_store_is_given_time_before_it_is_asked_again() {
    let mut setup = Setup::new(Backoff::no_jitter_backoff(50, 50, 1));
    setup.replica_read_mode = true;
    setup.choices = vec![2, 2];
    let (trace, result) = run(setup, first(server_is_busy));
    assert!(result.is_ok());
    assert_eq!(trace.delays, vec![(50, DelayReason::PendingBackoff)]);

    let mut setup = Setup::new(Backoff::no_jitter_backoff(50, 50, 0));
    setup.replica_read_mode = true;
    setup.choices = vec![2, 2];
    let (_, result) = run(setup, |_| server_is_busy());
    let Err(Error::RegionError(e)) = result else {
        panic!("expected a region error");
    };
    assert_eq!(e.message, "backoff attempts exhausted while applying pending backoff");
}

#[test]
fn test_fast_retry_avoids_slow_store_after_grpc_error() {
    let mut setup = Setup::new(Backoff::no_jitter_backoff(0, 0, 1));
    setup.replica_read_mode = true;
    setup.request_source = Some("fast-retry".to_owned());
    setup.choices = vec![2, 3];
    let (trace, result) = run(setup, first(|| Err(grpc_error())));
    assert!(result.is_ok());
    assert_eq!(trace.stores, vec![2, 3]);
    assert_eq!(trace.sources[0].as_deref(), Some("follower_fast-retry"));
    assert_eq!(trace.sources[1].as_deref(), Some("retry_follower_follower_fast-retry"));
    assert_eq!(trace.kinds, vec![ReplicaKind::Follower, ReplicaKind::Follower]);
    assert_eq!(trace.slow_stores, vec![2]);
}

#[test]
fn an_empty_source_stays_unset() {
    let mut setup = Setup::new(Backoff::no_backoff());
    setup.request_source = Some(String::new());
    let (trace, _) = run(setup, |_| Ok(Failure::Absent));
    assert_eq!(trace.sources, vec![None]);

    let mut setup = Setup::new(Backoff::no_backoff());
    setup.request_source = Some("app".to_owned());
    setup.stale_read = true;
    let (trace, _) = run(setup, |_| Ok(Failure::Absent));
    assert_eq!(trace.sources[0].as_deref(), Some("stale_leader_app"));
}

#[test]
fn errors_of_keys_are_the_result_of_the_shard() {
    let (trace, result) = run(Setup::new(Backoff::no_backoff()), |_| {
        Ok(Failure::Keys(vec![Error::Unimplemented]))
    });
    assert!(matches!(result, Err(Error::MultipleKeyErrors(_))));
    assert_eq!(trace.invalidated_regions, 0);
}

#[test]
fn the_outcome_of_a_shard_gives_its_results() {
    assert_eq!(ShardOutcome::Response.into_results(Some(7)), Ok(vec![Ok(7)]));
    let errors = || vec![Error::Unimplemented, Error::DuplicateKeyInsertion];
    let expected: Result<Vec<Result<u8>>> = Ok(vec![Err(Error::MultipleKeyErrors(errors()))]);
    assert_eq!(ShardOutcome::KeyErrors(errors()).into_results(Some(7)), expected);
    let failed: Result<Vec<Result<u8>>> =
        ShardOutcome::Failed(Error::Unimplemented).into_results(None);
    assert_eq!(failed, Err(Error::Unimplemented));
}

#[test]
fn a_region_without_a_leader_is_forgotten() {
    let mut shard = region(1);
    shard.leader = None;
    let ver_id = shard.ver_id();
    let mut run = ShardRun::start(shard, Backoff::no_jitter_backoff(2, 10, 1), 0, None);
    let chosen = ReadPeer { target_peer: peer(1), replica_read: false, stale_read: false };
    let step = run.step(ShardEvent::PeerSelected(Ok(chosen)));
    assert_eq!(step.effects, vec![ShardEffect::InvalidateRegion(ver_id)]);
    assert_eq!(step.action, ShardAction::Sleep { delay_ms: 2, reason: DelayReason::Grpc });
    assert_eq!(run.attempt, 2);
    assert_eq!(DelayReason::Grpc.label(), "grpc");
}

#[test]
fn test_retryable_multi_region_preserves_shard_order_for_successes() {
    let mut results: ShardResults<u8> = ShardResults::new(3, false);
    assert!(results.record(2, Ok(vec![Ok(2)])).is_ok());
    assert!(results.record(0, Ok(vec![Ok(0)])).is_ok());
    assert!(results.record(1, Ok(vec![Ok(1)])).is_ok());
    let got: Vec<u8> =
        results.finish().unwrap().into_iter().map(|r| r.expect("unexpected shard error")).collect();
    assert_eq!(got, vec![0, 1, 2]);
}

#[test]
fn a_shard_may_have_any_number_of_results() {
    let mut results: ShardResults<u8> = ShardResults::new(3, false);
    assert!(results.record(1, Ok(vec![])).is_ok());
    assert!(results.record(2, Ok(vec![Ok(3)])).is_ok());
    assert!(results.record(0, Ok(vec![Ok(1), Ok(2)])).is_ok());
    let got: Vec<u8> = results.finish().unwrap().into_iter().map(|r| r.unwrap()).collect();
    assert_eq!(got, vec![1, 2, 3]);
}

#[test]
fn failures_of_shards_are_preserved_or_end_the_request() {
    let mut results: ShardResults<u32> = ShardResults::new(2, false);
    assert!(matches!(
        results.record(1, Err(Error::Unimplemented)),
        Err(Error::Unimplemented)
    ));
    assert!(results.record(0, Ok(vec![Ok(1)])).is_ok());
    assert_eq!(
        results.finish().unwrap_err().to_string(),
        "RetryableMultiRegion missing shard result at index 1"
    );

    let mut results: ShardResults<u32> = ShardResults::new(2, true);
    assert!(results.record(1, Err(Error::Unimplemented)).is_ok());
    assert!(results.record(0, Ok(vec![Ok(1)])).is_ok());
    let all = results.finish().unwrap();
    assert_eq!(all.len(), 2);
    assert!(matches!(all[0], Ok(1)));
    assert!(matches!(all[1], Err(Error::Unimplemented)));
}
