use tikv_client::proto::errorpb::{self, EpochNotMatch};
use tikv_client::proto::metapb;
use tikv_client::region::{RegionVerId, RegionWithLeader};
use tikv_client::request::region_error::{
    handle_region_error, on_region_epoch_not_match, RegionErrorStep,
};
use tikv_client::backoff::Backoff;
use tikv_client::common::errors::{Error, Result};
use tikv_client::request::shard_run::{
    ReadPeer, ShardAction, ShardEffect, ShardEvent, ShardOutcome, ShardRun, ShardStep,
};
use tikv_client::store::errors::Failure;

fn region1() -> RegionWithLeader {
    RegionWithLeader {
        region: metapb::Region {
            id: 1,
            start_key: vec![],
            end_key: vec![10],
            region_epoch: Some(metapb::RegionEpoch { conf_ver: 0, version: 0 }),
            ..Default::default()
        },
        leader: Some(metapb::Peer { store_id: 41, ..Default::default() }),
    }
}

struct Outcome {
    invalidated_regions: usize,
    invalidated_stores: usize,
    resolved: bool,
}

fn decided(step: RegionErrorStep) -> Outcome {
    match step {
        RegionErrorStep::Decided { invalidate_region, invalidate_store, resolved } => Outcome {
            invalidated_regions: invalidate_region.iter().count(),
            invalidated_stores: invalidate_store.iter().count(),
            resolved,
        },
        other => panic!("not decided: {other:?}"),
    }
}

fn not_leader() -> errorpb::Error {
    errorpb::Error {
        not_leader: Some(errorpb::NotLeader {
            leader: Some(metapb::Peer { store_id: 99, ..Default::default() }),
            ..Default::default()
        }),
        ..Default::default()
    }
}

/// What follows once the region cache was told of the leader that an error names.
fn after_leader_update(updated: Result<()>) -> ShardStep {
    let region = region1();
    let target_peer = region.leader.unwrap();
    let mut run = ShardRun::start(region, Backoff::no_jitter_backoff(0, 0, 1), 0, None);
    let chosen = ReadPeer { target_peer, replica_read: false, stale_read: false };
    run.step(ShardEvent::PeerSelected(Ok(chosen)));
    run.step(ShardEvent::RegionMapped(Ok(())));
    run.step(ShardEvent::PendingBackoffTaken(false));
    let step = run.step(ShardEvent::Executed {
        executed: Ok(Failure::Region(not_leader())),
        replica_read_mode: false,
    });
    let ShardAction::UpdateLeader { ver_id, leader } = step.action else {
        panic!("expected the leader to be updated");
    };
    assert_eq!(ver_id, RegionVerId { id: 1, conf_ver: 0, ver: 0 });
    assert_eq!(leader.store_id, 99);
    run.step(ShardEvent::LeaderUpdated(updated))
}

#[test]
fn test_handle_region_error_not_leader_update_leader_failure_invalidates_region() {
    let step = after_leader_update(Err(Error::Unimplemented));
    assert_eq!(
        step.effects,
        vec![ShardEffect::InvalidateRegion(RegionVerId { id: 1, conf_ver: 0, ver: 0 })]
    );
    assert_eq!(
        step.action,
        ShardAction::Return(ShardOutcome::Failed(Error::Unimplemented))
    );
}

#[test]
fn test_handle_region_error_not_leader_updates_leader_and_retries() {
    let step = after_leader_update(Ok(()));
    assert!(step.effects.is_empty());
    assert_eq!(step.action, ShardAction::Reshard);
}

#[test]
fn test_handle_region_error_not_leader_without_leader_invalidates_region() {
    let err = errorpb::Error {
        not_leader: Some(errorpb::NotLeader::default()),
        ..Default::default()
    };
    let outcome = decided(handle_region_error(&err, &region1()));
    assert!(!outcome.resolved);
    assert_eq!(outcome.invalidated_regions, 1);
    assert_eq!(outcome.invalidated_stores, 0);
}

#[test]
fn test_handle_region_error_store_not_match_invalidates_region_and_store() {
    let err = errorpb::Error {
        store_not_match: Some(errorpb::StoreNotMatch::default()),
        ..Default::default()
    };
    let outcome = decided(handle_region_error(&err, &region1()));
    assert!(outcome.resolved);
    assert_eq!(outcome.invalidated_regions, 1);
    assert_eq!(outcome.invalidated_stores, 1);
}

#[test]
fn test_handle_region_error_store_not_match_without_leader_only_invalidates_region() {
    let mut region = region1();
    region.leader = None;
    let err = errorpb::Error {
        store_not_match: Some(errorpb::StoreNotMatch::default()),
        ..Default::default()
    };
    let outcome = decided(handle_region_error(&err, &region));
    assert!(outcome.resolved);
    assert_eq!(outcome.invalidated_regions, 1);
    assert_eq!(outcome.invalidated_stores, 0);
}

#[test]
fn test_handle_region_error_stale_command_invalidates_region() {
    let err = errorpb::Error {
        stale_command: Some(errorpb::StaleCommand::default()),
        ..Default::default()
    };
    let outcome = decided(handle_region_error(&err, &region1()));
    assert!(!outcome.resolved);
    assert_eq!(outcome.invalidated_regions, 1);
}

fn assert_only_waits(err: errorpb::Error) {
    let outcome = decided(handle_region_error(&err, &region1()));
    assert!(!outcome.resolved);
    assert_eq!(outcome.invalidated_regions, 0);
    assert_eq!(outcome.invalidated_stores, 0);
}

#[test]
fn test_handle_region_error_server_is_busy_backoffs_without_invalidation() {
    assert_only_waits(errorpb::Error {
        server_is_busy: Some(errorpb::ServerIsBusy::default()),
        ..Default::default()
    });
}

#[test]
fn test_handle_region_error_max_timestamp_not_synced_backoffs_without_invalidation() {
    assert_only_waits(errorpb::Error {
        max_timestamp_not_synced: Some(errorpb::MaxTimestampNotSynced::default()),
        ..Default::default()
    });
}

#[test]
fn test_handle_region_error_read_index_not_ready_backoffs_without_invalidation() {
    assert_only_waits(errorpb::Error {
        read_index_not_ready: Some(errorpb::ReadIndexNotReady::default()),
        ..Default::default()
    });
}

#[test]
fn test_handle_region_error_proposal_in_merging_mode_backoffs_without_invalidation() {
    assert_only_waits(errorpb::Error {
        proposal_in_merging_mode: Some(errorpb::ProposalInMergingMode::default()),
        ..Default::default()
    });
}

#[test]
fn test_handle_region_error_unknown_invalidates_region_and_backoffs() {
    let err = errorpb::Error { message: "unknown".to_owned(), ..Default::default() };
    let outcome = decided(handle_region_error(&err, &region1()));
    assert!(!outcome.resolved);
    assert_eq!(outcome.invalidated_regions, 1);
    assert_eq!(outcome.invalidated_stores, 0);
}

#[test]
fn test_handle_region_error_key_not_in_region_invalidates_region_and_retries() {
    let err = errorpb::Error {
        key_not_in_region: Some(errorpb::KeyNotInRegion {
            key: vec![1],
            region_id: 1,
            start_key: vec![],
            end_key: vec![10],
        }),
        ..Default::default()
    };
    let outcome = decided(handle_region_error(&err, &region1()));
    assert!(outcome.resolved);
    assert_eq!(outcome.invalidated_regions, 1);
    assert_eq!(outcome.invalidated_stores, 0);
}

#[test]
fn a_raft_entry_that_is_too_large_is_given_up() {
    let err = errorpb::Error {
        raft_entry_too_large: Some(errorpb::RaftEntryTooLarge::default()),
        ..Default::default()
    };
    assert_eq!(handle_region_error(&err, &region1()), RegionErrorStep::Fail);
}

#[test]
fn test_on_region_epoch_not_match_missing_region_epoch_invalidates_and_retries() {
    let err = EpochNotMatch {
        current_regions: vec![metapb::Region { id: 1, ..Default::default() }],
    };
    let outcome = decided(on_region_epoch_not_match(&region1(), &err));
    assert!(outcome.resolved);
    assert_eq!(outcome.invalidated_regions, 1);
}

#[test]
fn test_on_region_epoch_not_match_empty_current_regions_invalidates_and_backoffs() {
    let outcome = decided(on_region_epoch_not_match(&region1(), &EpochNotMatch::default()));
    assert!(!outcome.resolved);
    assert_eq!(outcome.invalidated_regions, 1);
}

#[test]
fn test_on_region_epoch_not_match_missing_cached_epoch_invalidates_and_retries() {
    let mut region = region1();
    region.region.region_epoch = None;
    let err = EpochNotMatch {
        current_regions: vec![metapb::Region {
            id: 1,
            region_epoch: Some(metapb::RegionEpoch { conf_ver: 1, version: 1 }),
            ..Default::default()
        }],
    };
    let outcome = decided(on_region_epoch_not_match(&region, &err));
    assert!(outcome.resolved);
    assert_eq!(outcome.invalidated_regions, 1);
}

#[test]
fn test_on_region_epoch_not_match_current_epoch_ahead_backoffs() {
    let mut region = region1();
    region.region.region_epoch = Some(metapb::RegionEpoch { conf_ver: 2, version: 2 });
    let err = EpochNotMatch {
        current_regions: vec![metapb::Region {
            id: 1,
            region_epoch: Some(metapb::RegionEpoch { conf_ver: 1, version: 1 }),
            ..Default::default()
        }],
    };
    let outcome = decided(on_region_epoch_not_match(&region, &err));
    assert!(!outcome.resolved);
    assert_eq!(outcome.invalidated_regions, 0);
}
