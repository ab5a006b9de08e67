//! What holds of a request to one shard, whatever happens to it.

use vstd::prelude::*;

use crate::backoff::{has_delay, uses_delay, Backoff};
use crate::common::errors::{Error, Result};
use crate::interceptor::ReplicaKind;
use crate::proto::errorpb;
use crate::proto::metapb::{Peer, Region};
use crate::region::{RegionVerId, RegionWithLeader, RegionWithLeaderView};
use crate::request::region_error::{
    client_is_ahead, handle_region_error, on_region_epoch_not_match, region_error_step,
    RegionErrorStep,
};
use crate::request::shard_run::{
    is_grpc_error, patch_request_source, DelayReason, ReadPeer, ShardAction, ShardEffect,
    ShardEvent, ShardOutcome, ShardPhase, ShardRun, ShardStep,
};
use crate::request_context::text_view;
use crate::store::errors::Failure;

verus! {

/// The error says that another peer leads the region, and which.
pub open spec fn names_leader(e: errorpb::Error) -> bool {
    e.not_leader is Some && e.not_leader->0.leader is Some
}

/// The store that answered cannot serve the region, so another one must.
pub open spec fn is_misplaced(e: errorpb::Error) -> bool {
    e.not_leader is None && (e.store_not_match is Some || (e.epoch_not_match is None && (
    e.region_not_found is Some || e.key_not_in_region is Some)))
}

/// The error is about the epoch of the region.
pub open spec fn is_about_epoch(e: errorpb::Error) -> bool {
    e.not_leader is None && e.store_not_match is None && e.epoch_not_match is Some
}

/// The error says nothing about which store serves the region.
pub open spec fn is_not_about_place(e: errorpb::Error) -> bool {
    &&& e.not_leader is None
    &&& e.store_not_match is None
    &&& e.epoch_not_match is None
    &&& e.region_not_found is None
    &&& e.key_not_in_region is None
}

/// The store is only busy, or not ready yet.
pub open spec fn is_passing(e: errorpb::Error) -> bool {
    &&& is_not_about_place(e)
    &&& e.stale_command is None
    &&& e.server_is_busy is Some || e.max_timestamp_not_synced is Some || e.read_index_not_ready
        is Some || e.proposal_in_merging_mode is Some
}

/// The request is too large, and will be so for ever.
pub open spec fn is_hopeless(e: errorpb::Error) -> bool {
    &&& is_not_about_place(e)
    &&& e.stale_command is None
    &&& e.server_is_busy is None
    &&& e.max_timestamp_not_synced is None
    &&& e.read_index_not_ready is None
    &&& e.proposal_in_merging_mode is None
    &&& e.raft_entry_too_large is Some
}

/// The number of peers that can serve reads.
pub open spec fn serving_peers(region: Region) -> nat {
    region.peers@.filter(|peer: Peer| !peer.is_witness).len()
}

/// One of the regions has the same id and an epoch that is behind in one of its parts, and each of
/// the regions with the same id before it has an epoch.
pub open spec fn is_ahead_of(region: RegionWithLeaderView, regions: Seq<Region>) -> bool {
    region.region.region_epoch is Some && exists|i: int|
        {
            &&& 0 <= i < regions.len()
            &&& (#[trigger] regions[i]).id == region.region.id
            &&& regions[i].region_epoch is Some
            &&& regions[i].region_epoch->0.conf_ver < region.region.region_epoch->0.conf_ver
                || regions[i].region_epoch->0.version < region.region.region_epoch->0.version
            &&& forall|k: int|
                0 <= k < i && (#[trigger] regions[k]).id == region.region.id
                    ==> regions[k].region_epoch is Some
        }
}

/// The client is ahead of a store just if the store tells of the region at an earlier epoch.
pub proof fn law_an_earlier_epoch_shows_who_is_ahead(
    regions: Seq<Region>,
    region: RegionWithLeaderView,
)
    ensures
        client_is_ahead(regions, region) <==> is_ahead_of(region, regions),
    decreases regions.len(),
{
    if regions.len() > 0 {
        let rest = regions.skip(1);
        law_an_earlier_epoch_shows_who_is_ahead(rest, region);
        let id = region.region.id;
        if is_ahead_of(region, rest) && !(regions[0].id == id && regions[0].region_epoch is None) {
            let current = region.region.region_epoch->0;
            let i = choose|i: int|
                {
                    &&& 0 <= i < rest.len()
                    &&& (#[trigger] rest[i]).id == id
                    &&& rest[i].region_epoch is Some
                    &&& rest[i].region_epoch->0.conf_ver < current.conf_ver
                        || rest[i].region_epoch->0.version < current.version
                    &&& forall|k: int|
                        0 <= k < i && (#[trigger] rest[k]).id == id ==> rest[k].region_epoch
                            is Some
                };
            assert(regions[i + 1] == rest[i]);
            assert forall|k: int| 0 <= k < i + 1 && (#[trigger] regions[k]).id
                == id implies regions[k].region_epoch is Some by {
                if k > 0 {
                    assert(regions[k] == rest[k - 1]);
                }
            }
            assert(is_ahead_of(region, regions));
        }
        if is_ahead_of(region, regions) {
            let current = region.region.region_epoch->0;
            let i = choose|i: int|
                {
                    &&& 0 <= i < regions.len()
                    &&& (#[trigger] regions[i]).id == id
                    &&& regions[i].region_epoch is Some
                    &&& regions[i].region_epoch->0.conf_ver < current.conf_ver
                        || regions[i].region_epoch->0.version < current.version
                    &&& forall|k: int|
                        0 <= k < i && (#[trigger] regions[k]).id == id ==> regions[k].region_epoch
                            is Some
                };
            if i > 0 {
                assert(rest[i - 1] == regions[i]);
                assert forall|k: int| 0 <= k < i - 1 && (#[trigger] rest[k]).id
                    == id implies rest[k].region_epoch is Some by {
                    assert(rest[k] == regions[k + 1]);
                }
                assert(is_ahead_of(region, rest));
                assert(regions[0].id == id ==> regions[0].region_epoch is Some);
            }
        }
        if regions[0].id == id && regions[0].region_epoch is Some && region.region.region_epoch
            is Some {
            let current = region.region.region_epoch->0;
            if regions[0].region_epoch->0.conf_ver < current.conf_ver
                || regions[0].region_epoch->0.version < current.version {
                assert(is_ahead_of(region, regions));
            }
        }
    }
}

/// What each kind of region error asks for. A leader that is named is told to the region cache.
/// Where the store cannot serve the region, the region is found anew at once. Where the region has
/// changed, so it is unless the client is ahead, or the store does not say into what. A store that
/// is busy or not ready is given time, with the region kept. Nothing helps a request that is too
/// large. Any other error is waited out, with the region found anew.
pub proof fn law_each_error_has_its_remedy(e: errorpb::Error, region: RegionWithLeaderView)
    ensures
        names_leader(e) ==> region_error_step(e, region) == (RegionErrorStep::UpdateLeader {
            ver_id: region.ver_id(),
            leader: e.not_leader->0.leader->0,
        }),
        is_misplaced(e) ==> region_error_step(e, region) == (RegionErrorStep::Decided {
            invalidate_region: Some(region.ver_id()),
            invalidate_store: if e.store_not_match is Some && region.leader is Some {
                Some(region.leader->0.store_id)
            } else {
                None
            },
            resolved: true,
        }),
        is_about_epoch(e) ==> {
            let regions = e.epoch_not_match->0.current_regions@;
            let ahead = is_ahead_of(region, regions);
            region_error_step(e, region) == (RegionErrorStep::Decided {
                invalidate_region: if ahead {
                    None
                } else {
                    Some(region.ver_id())
                },
                invalidate_store: None,
                resolved: regions.len() > 0 && !ahead,
            })
        },
        is_passing(e) ==> region_error_step(e, region) == (RegionErrorStep::Decided {
            invalidate_region: None,
            invalidate_store: None,
            resolved: false,
        }),
        region_error_step(e, region) is Fail <==> is_hopeless(e),
        !names_leader(e) && !is_misplaced(e) && !is_about_epoch(e) && !is_passing(e)
            && !is_hopeless(e) ==> region_error_step(e, region) == (RegionErrorStep::Decided {
            invalidate_region: Some(region.ver_id()),
            invalidate_store: None,
            resolved: false,
        }),
{
    if e.epoch_not_match is Some {
        law_an_earlier_epoch_shows_who_is_ahead(e.epoch_not_match->0.current_regions@, region);
    }
}

/// The identity of a region is its id and its epoch, so it changes with either of them.
pub proof fn law_the_identity_of_a_region_changes_with_its_epoch(
    a: RegionWithLeaderView,
    b: RegionWithLeaderView,
)
    ensures
        a.ver_id().id == a.region.id,
        a.region.region_epoch is Some ==> a.ver_id().conf_ver
            == a.region.region_epoch->0.conf_ver && a.ver_id().ver
            == a.region.region_epoch->0.version,
        a.region.region_epoch is None ==> a.ver_id().conf_ver == 0 && a.ver_id().ver == 0,
        a.region.region_epoch is Some && b.region.region_epoch is Some ==> (a.ver_id()
            == b.ver_id() <==> a.region.id == b.region.id && a.region.region_epoch
            == b.region.region_epoch),
{
}

/// The request is sent to the peer, and a region error is the answer.
pub open spec fn is_refused(
    before: ShardRun,
    e: errorpb::Error,
    replica_read_mode: bool,
    after: ShardRun,
    step: ShardStep,
) -> bool {
    &&& before.phase is Executing
    &&& before.attempt + 2 <= usize::MAX
    &&& before.steps_to(
        ShardEvent::Executed { executed: Ok(Failure::Region(e)), replica_read_mode },
        after,
        step,
    )
}

/// The data of a stale read is not ready.
pub open spec fn is_unready_stale_read(before: ShardRun, e: errorpb::Error) -> bool {
    e.data_is_not_ready is Some && before.phase->Executing_0.stale_read
}

/// While a delay is left, no region error ends a request but one that says that it is too large:
/// the request is tried again, after the delay or at once, whichever peers may serve it. A region
/// error that ends a request is its result. Apart from them are stale reads whose data is not
/// ready, and reads of any peer that one of them took for stale.
pub proof fn law_a_region_error_ends_nothing_while_delays_are_left(
    before: ShardRun,
    e: errorpb::Error,
    replica_read_mode: bool,
    after: ShardRun,
    step: ShardStep,
)
    requires
        is_refused(before, e, replica_read_mode, after, step),
        !is_unready_stale_read(before, e),
        !(replica_read_mode && e.stale_command is Some),
    ensures
        step.action is Return ==> is_hopeless(e) || !has_delay(before.backoff),
        step.action is Return ==> step.action == ShardAction::Return(
            ShardOutcome::Failed(Error::RegionError(Box::new(e))),
        ) && after.phase is Over,
        is_hopeless(e) ==> step.action is Return,
        step.action is Return || step.action is Sleep || step.action is Reshard || step.action
            is UpdateLeader,
        match step.action {
            ShardAction::Sleep { delay_ms, reason } => {
                &&& reason is Region
                &&& uses_delay(before.backoff, delay_ms, after.backoff)
                &&& after.attempt == before.attempt + 1
                &&& after.phase is Retrying
            },
            ShardAction::Reshard => {
                &&& after.backoff == before.backoff
                &&& after.attempt == before.attempt + 1
                &&& after.phase is Over
            },
            _ => after.backoff == before.backoff && after.attempt == before.attempt,
        },
        after.region == before.region && after.request_source == before.request_source,
{
    law_each_error_has_its_remedy(e, before.asked_region());
}

/// Which region errors make a request be tried again at once, and which make it wait. Where other
/// peers may serve it, a busy store is passed over while there are peers that were not tried.
pub proof fn law_a_request_waits_only_where_that_helps(
    before: ShardRun,
    e: errorpb::Error,
    replica_read_mode: bool,
    after: ShardRun,
    step: ShardStep,
)
    requires
        is_refused(before, e, replica_read_mode, after, step),
        !is_unready_stale_read(before, e),
        !(replica_read_mode && e.stale_command is Some),
    ensures
        step.action is UpdateLeader <==> names_leader(e),
        names_leader(e) ==> step.action == (ShardAction::UpdateLeader {
            ver_id: before.region@.ver_id(),
            leader: e.not_leader->0.leader->0,
        }),
        is_misplaced(e) ==> step.action is Reshard,
        is_about_epoch(e) && e.epoch_not_match->0.current_regions@.len() > 0 && !is_ahead_of(
            before.region@,
            e.epoch_not_match->0.current_regions@,
        ) ==> step.action is Reshard,
        is_about_epoch(e) && (e.epoch_not_match->0.current_regions@.len() == 0 || is_ahead_of(
            before.region@,
            e.epoch_not_match->0.current_regions@,
        )) && !(replica_read_mode && e.server_is_busy is Some) ==> step.action !is Reshard,
        !is_misplaced(e) && !is_about_epoch(e) && !(replica_read_mode && e.server_is_busy is Some)
            ==> step.action !is Reshard,
        replica_read_mode && e.server_is_busy is Some && !names_leader(e) && !is_misplaced(e)
            && !is_hopeless(e) && !is_told_anew(before, e) ==> (step.action is Reshard
            <==> before.attempt + 1 < serving_peers(before.region.region)),
{
    law_each_error_has_its_remedy(e, before.asked_region());
    if e.epoch_not_match is Some {
        let regions = e.epoch_not_match->0.current_regions@;
        assert(is_ahead_of(before.asked_region(), regions) <==> is_ahead_of(
            before.region@,
            regions,
        ));
    }
}

/// The error tells of regions that have taken the place of the one that was asked.
pub open spec fn is_told_anew(before: ShardRun, e: errorpb::Error) -> bool {
    is_about_epoch(e) && e.epoch_not_match->0.current_regions@.len() > 0 && !is_ahead_of(
        before.region@,
        e.epoch_not_match->0.current_regions@,
    )
}

/// What is noted first after a region error: the next request for the region goes to the same
/// store if the error asks for that, and to any store else.
pub open spec fn first_note(before: ShardRun, e: errorpb::Error) -> ShardEffect {
    if e.max_timestamp_not_synced is Some || e.read_index_not_ready is Some
        || e.proposal_in_merging_mode is Some {
        ShardEffect::PinStore {
            region_id: before.region.region.id,
            store_id: before.phase->Executing_0.target_peer.store_id,
        }
    } else {
        ShardEffect::ClearPinnedStore { region_id: before.region.region.id }
    }
}

/// What is noted after a region error. A region is forgotten where it is in doubt, and a store
/// where it turned out to be another one. A busy store that is passed over counts as slow, and is
/// given time before it is asked again.
pub proof fn law_what_is_noted_after_a_region_error(
    before: ShardRun,
    e: errorpb::Error,
    replica_read_mode: bool,
    after: ShardRun,
    step: ShardStep,
)
    requires
        is_refused(before, e, replica_read_mode, after, step),
        !is_unready_stale_read(before, e),
        !(replica_read_mode && e.stale_command is Some),
    ensures
        names_leader(e) || is_hopeless(e) ==> step.effects@ == seq![first_note(before, e)],
        is_misplaced(e) && e.store_not_match is None ==> step.effects@ == seq![
            first_note(before, e),
            ShardEffect::InvalidateRegion(before.region@.ver_id()),
        ],
        is_misplaced(e) && e.store_not_match is Some ==> step.effects@ == seq![
            first_note(before, e),
            ShardEffect::InvalidateRegion(before.region@.ver_id()),
            ShardEffect::InvalidateStore(before.phase->Executing_0.target_peer.store_id),
        ],
        is_about_epoch(e) && !(replica_read_mode && e.server_is_busy is Some) ==> step.effects@
            == if is_ahead_of(before.region@, e.epoch_not_match->0.current_regions@) {
            seq![first_note(before, e)]
        } else {
            seq![
                first_note(before, e),
                ShardEffect::InvalidateRegion(before.region@.ver_id()),
            ]
        },
        is_passing(e) && step.action !is Reshard ==> step.effects@ == seq![first_note(before, e)],
        is_passing(e) && step.action is Reshard ==> step.effects@ == seq![
            first_note(before, e),
            ShardEffect::AddPendingBackoff {
                store_id: before.phase->Executing_0.target_peer.store_id,
                error: e,
            },
            ShardEffect::MarkStoreSlow {
                store_id: before.phase->Executing_0.target_peer.store_id,
                for_ms: 500,
            },
        ],
        !names_leader(e) && !is_misplaced(e) && !is_about_epoch(e) && !is_passing(e)
            && !is_hopeless(e) && !(replica_read_mode && e.server_is_busy is Some)
            ==> step.effects@ == seq![
            first_note(before, e),
            ShardEffect::InvalidateRegion(before.region@.ver_id()),
        ],
        replica_read_mode && e.server_is_busy is Some && !is_misplaced(e) && !is_told_anew(
            before,
            e,
        ) && step.action is Reshard ==> {
            let store_id = before.phase->Executing_0.target_peer.store_id;
            let n = step.effects@.len();
            &&& n >= 3
            &&& step.effects@[0] == first_note(before, e)
            &&& step.effects@[n - 2] == (ShardEffect::AddPendingBackoff { store_id, error: e })
            &&& step.effects@[n - 1] == (ShardEffect::MarkStoreSlow { store_id, for_ms: 500 })
        },
        forall|i: int|
            0 <= i < step.effects@.len() ==> match #[trigger] step.effects@[i] {
                ShardEffect::InvalidateRegion(ver_id) => ver_id == before.region@.ver_id(),
                ShardEffect::InvalidateStore(id) => e.store_not_match is Some && id
                    == before.phase->Executing_0.target_peer.store_id,
                _ => true,
            },
{
    law_each_error_has_its_remedy(e, before.asked_region());
    assert(before.asked_region().ver_id() == before.region@.ver_id());
    if e.epoch_not_match is Some {
        let regions = e.epoch_not_match->0.current_regions@;
        assert(is_ahead_of(before.asked_region(), regions) <==> is_ahead_of(
            before.region@,
            regions,
        ));
    }
}

/// A stale read whose data is not ready is tried again after a fifth of a second each time, for as
/// many as 120 attempts, without a word to anything else.
pub proof fn law_an_unready_stale_read_waits(
    before: ShardRun,
    e: errorpb::Error,
    replica_read_mode: bool,
    after: ShardRun,
    step: ShardStep,
)
    requires
        is_refused(before, e, replica_read_mode, after, step),
        is_unready_stale_read(before, e),
    ensures
        step.effects@.len() == 0,
        before.attempt < 120 ==> step.action == (ShardAction::Sleep {
            delay_ms: 200,
            reason: DelayReason::StaleReadNotReady,
        }) && after.phase is Retrying && after.attempt == before.attempt + 1,
        before.attempt >= 120 ==> step.action == ShardAction::Return(
            ShardOutcome::Failed(Error::RegionError(Box::new(e))),
        ),
        after.backoff == before.backoff,
{
}

/// Where other peers may serve a read, one that takes it for stale is passed over at once while
/// there are peers that were not tried. Then the region is forgotten, and the read ends.
pub proof fn law_a_stale_command_makes_other_peers_be_tried(
    before: ShardRun,
    e: errorpb::Error,
    after: ShardRun,
    step: ShardStep,
)
    requires
        is_refused(before, e, true, after, step),
        !is_unready_stale_read(before, e),
        e.stale_command is Some,
    ensures
        before.attempt + 1 < serving_peers(before.region.region) ==> {
            &&& step.action is Reshard
            &&& after.attempt == before.attempt + 1
            &&& step.effects@ == seq![
                first_note(before, e),
                ShardEffect::ClearPinnedStore { region_id: before.region.region.id },
            ]
        },
        before.attempt + 1 >= serving_peers(before.region.region) ==> {
            &&& step.action == ShardAction::Return(
                ShardOutcome::Failed(Error::RegionError(Box::new(e))),
            )
            &&& step.effects@ == seq![
                first_note(before, e),
                ShardEffect::ClearPinnedStore { region_id: before.region.region.id },
                ShardEffect::InvalidateRegion(before.region@.ver_id()),
            ]
        },
        after.backoff == before.backoff,
{
}

/// The error is one of the transport.
pub open spec fn is_of_transport(error: Error) -> bool {
    match error {
        Error::Grpc(_) => true,
        Error::GrpcAPI(_) => true,
        _ => false,
    }
}

/// A response without failure is the result of the shard, errors of keys are too, and an error of
/// the client ends the request. Where the transport has failed, the region and the store are
/// forgotten and the store counts as slow; the request is tried again while a delay is left, and
/// ends with the error else.
pub proof fn law_a_response_is_the_result(
    before: ShardRun,
    executed: Result<Failure>,
    replica_read_mode: bool,
    after: ShardRun,
    step: ShardStep,
)
    requires
        before.phase is Executing,
        before.attempt + 2 <= usize::MAX,
        before.steps_to(ShardEvent::Executed { executed, replica_read_mode }, after, step),
    ensures
        executed == Ok::<Failure, Error>(Failure::Absent) <==> step.action == ShardAction::Return(
            ShardOutcome::Response,
        ),
        executed == Ok::<Failure, Error>(Failure::Absent) ==> step.effects@ == seq![
            ShardEffect::ClearPinnedStore { region_id: before.region.region.id },
        ],
        executed matches Ok(Failure::Keys(errors)) ==> step.action == ShardAction::Return(
            ShardOutcome::KeyErrors(errors),
        ) && step.effects@.len() == 0,
        executed matches Err(error) ==> {
            let store_id = before.phase->Executing_0.target_peer.store_id;
            let ends = step.action == ShardAction::Return(ShardOutcome::Failed(error));
            &&& !is_of_transport(error) ==> ends && step.effects@.len() == 0
            &&& is_of_transport(error) ==> {
                &&& step.effects@ == seq![
                    ShardEffect::MarkStoreSlow { store_id, for_ms: 500 },
                    ShardEffect::InvalidateRegion(before.region@.ver_id()),
                    ShardEffect::InvalidateStore(store_id),
                ]
                &&& !has_delay(before.backoff) ==> ends
                &&& has_delay(before.backoff) ==> is_put_off(before, after, step)
            }
        },
{
    if executed is Err && is_of_transport(executed->Err_0) {
        let store_id = before.phase->Executing_0.target_peer.store_id;
        assert(step.effects@ =~= seq![
            ShardEffect::MarkStoreSlow { store_id, for_ms: 500 },
            ShardEffect::InvalidateRegion(before.region@.ver_id()),
            ShardEffect::InvalidateStore(store_id),
        ]);
    }
}

/// The request is tried again after the next delay, which the transport is the reason of. Such an
/// attempt counts twice.
pub open spec fn is_put_off(before: ShardRun, after: ShardRun, step: ShardStep) -> bool {
    match step.action {
        ShardAction::Sleep { delay_ms, reason } => {
            &&& reason is Grpc
            &&& uses_delay(before.backoff, delay_ms, after.backoff)
            &&& after.attempt == before.attempt + 2
            &&& after.phase is Retrying
        },
        _ => false,
    }
}

/// A region without a leader is forgotten, and the request tried again while a delay is left. Any
/// other error in the choice of the peer, or of the one that the source is named after, or in the
/// search for the client of its store, ends the request at once, with that error.
pub proof fn law_a_missing_leader_is_looked_for(
    before: ShardRun,
    event: ShardEvent,
    after: ShardRun,
    step: ShardStep,
    region: RegionVerId,
    error: Error,
)
    requires
        before.awaits(event),
        before.attempt + 2 <= usize::MAX,
        before.steps_to(event, after, step),
        match event {
            ShardEvent::PeerSelected(Err(told)) => told == error,
            ShardEvent::PeerSelected(Ok(_)) => before.region.leader is None && error
                == (Error::LeaderNotFound { region: before.region@.ver_id() }),
            ShardEvent::SourcePeerSelected(Err(told)) => told == error,
            ShardEvent::RegionMapped(Err(told)) => told == error,
            _ => false,
        },
    ensures
        error == (Error::LeaderNotFound { region }) && event !is SourcePeerSelected ==> {
            &&& step.effects@ == seq![ShardEffect::InvalidateRegion(region)]
            &&& has_delay(before.backoff) ==> is_put_off(before, after, step)
            &&& !has_delay(before.backoff) ==> step.action == ShardAction::Return(
                ShardOutcome::Failed(error),
            )
        },
        error !is LeaderNotFound || event is SourcePeerSelected ==> step.effects@.len() == 0
            && step.action == ShardAction::Return(ShardOutcome::Failed(error)),
{
    if error == (Error::LeaderNotFound { region }) && event !is SourcePeerSelected {
        assert(step.effects@ =~= seq![ShardEffect::InvalidateRegion(region)]);
    }
}

/// A request goes to the peer that was chosen, with the present attempt. The store is then asked
/// whether it is to be given time, and only after that is the request sent. Nothing is noted on
/// the way.
pub proof fn law_a_request_goes_to_the_chosen_peer(
    before: ShardRun,
    event: ShardEvent,
    after: ShardRun,
    step: ShardStep,
    peer: ReadPeer,
)
    requires
        before.awaits(event),
        before.attempt + 2 <= usize::MAX,
        before.steps_to(event, after, step),
        before.region.leader is Some,
        match event {
            ShardEvent::PeerSelected(Ok(selected)) => selected == peer,
            ShardEvent::SourcePeerSelected(Ok(_)) => before.phase == ShardPhase::SelectingSource(
                peer,
            ),
            ShardEvent::RegionMapped(Ok(())) => before.phase == ShardPhase::Mapping(peer),
            ShardEvent::PendingBackoffTaken(_) => before.phase == ShardPhase::Pending(peer),
            ShardEvent::Slept => before.phase == ShardPhase::Delaying(peer),
            _ => false,
        },
    ensures
        step.effects@.len() == 0,
        after.attempt == before.attempt && after.region == before.region,
        match event {
            ShardEvent::PeerSelected(_) => if before.request_source is Some
                && before.request_source->0@.len() > 0 {
                step.action is SelectSourcePeer && after.phase == ShardPhase::SelectingSource(peer)
            } else {
                aims_at(before, after, step, peer) && step.action->MapRegion_0.request_source
                    is None
            },
            ShardEvent::SourcePeerSelected(_) => aims_at(before, after, step, peer)
                && step.action->MapRegion_0.request_source is Some,
            ShardEvent::RegionMapped(_) => step.action == (ShardAction::TakePendingBackoff {
                store_id: peer.target_peer.store_id,
            }) && after.phase == ShardPhase::Pending(peer),
            ShardEvent::PendingBackoffTaken(pending) => if !pending {
                step.action is Execute && after.phase == ShardPhase::Executing(peer)
            } else if has_delay(before.backoff) {
                &&& step.action is Sleep
                &&& step.action->reason is PendingBackoff
                &&& uses_delay(before.backoff, step.action->delay_ms, after.backoff)
                &&& after.phase == ShardPhase::Delaying(peer)
            } else {
                &&& step.action is Return
                &&& step.action->Return_0 is Failed
                &&& step.action->Return_0->Failed_0 is RegionError
                &&& step.action->Return_0->Failed_0->RegionError_0.message@
                    == "backoff attempts exhausted while applying pending backoff"@
            },
            _ => step.action is Execute && after.phase == ShardPhase::Executing(peer),
        },
        event !is PendingBackoffTaken ==> after.backoff == before.backoff,
{
}

/// The request is prepared for the peer, and told what the peer is in its region.
pub open spec fn aims_at(
    before: ShardRun,
    after: ShardRun,
    step: ShardStep,
    peer: ReadPeer,
) -> bool {
    &&& step.action is MapRegion
    &&& step.action->MapRegion_0.read_peer == peer
    &&& step.action->MapRegion_0.attempt == before.attempt
    &&& step.action->MapRegion_0.replica_kind is Leader <==> peer.target_peer.store_id
        == before.region.leader->0.store_id
    &&& step.action->MapRegion_0.replica_kind is Learner <==> peer.target_peer.store_id
        != before.region.leader->0.store_id && peer.target_peer.role == 1
    &&& after.phase == ShardPhase::Mapping(peer)
}

/// The source of a request begins with the part that the peer plays that it was meant for. Behind
/// that comes what the caller has given. On a later attempt it says so in front, and names the part
/// of the peer that it goes to in between.
pub proof fn law_the_source_tells_of_the_peers(
    before: ShardRun,
    base: ReadPeer,
    after: ShardRun,
    step: ShardStep,
    peer: ReadPeer,
)
    requires
        before.awaits(ShardEvent::SourcePeerSelected(Ok(base))),
        before.steps_to(ShardEvent::SourcePeerSelected(Ok(base)), after, step),
        before.phase == ShardPhase::SelectingSource(peer),
    ensures
        ({
            let input = before.request_source->0@;
            let leader = before.region.leader->0;
            let meant = (if base.stale_read {
                "stale_"@
            } else {
                Seq::<char>::empty()
            }) + part(leader, base.target_peer);
            let source = text_view(step.action->MapRegion_0.request_source);
            &&& before.attempt == 0 ==> source == Some(meant + "_"@ + input)
            &&& before.attempt > 0 ==> source == Some(
                "retry_"@ + meant + "_"@ + part(leader, peer.target_peer) + "_"@ + input,
            )
        }),
{
    let leader = before.region.leader->0;
    let kind = part(leader, base.target_peer);
    assert(Seq::<char>::empty() + kind =~= kind);
}

/// The name of the part that a peer plays beside the leader.
pub open spec fn part(leader: Peer, peer: Peer) -> Seq<char> {
    if peer.store_id == leader.store_id {
        "leader"@
    } else if peer.role == 1 {
        "learner"@
    } else {
        "follower"@
    }
}

/// The end of a delay leads on to what was put off: to the request itself, or to another attempt.
/// A region cache that has taken the leader lets the request be tried again at once. One that has
/// not forgets the region, and the request ends.
pub proof fn law_what_was_put_off_is_done(
    before: ShardRun,
    event: ShardEvent,
    after: ShardRun,
    step: ShardStep,
)
    requires
        before.awaits(event),
        before.attempt + 2 <= usize::MAX,
        before.steps_to(event, after, step),
    ensures
        event is Slept && before.phase is Retrying ==> step.action is Reshard && after.attempt
            == before.attempt && after.backoff == before.backoff && step.effects@.len() == 0,
        event matches ShardEvent::LeaderUpdated(Ok(_)) ==> step.action is Reshard && after.attempt
            == before.attempt + 1 && after.backoff == before.backoff && step.effects@.len() == 0,
        event matches ShardEvent::LeaderUpdated(Err(error)) ==> step.action == ShardAction::Return(
            ShardOutcome::Failed(error),
        ) && step.effects@ == seq![ShardEffect::InvalidateRegion(before.region@.ver_id())],
        step.action is Return || step.action is Reshard ==> after.phase is Over,
{
}

/// The steps that these laws speak of are those of the functions.
pub proof fn law_the_steps_of_a_shard_are_these()
    ensures
        forall|run: &mut ShardRun, event: ShardEvent, r: ShardStep| #[trigger]
            call_ensures(ShardRun::step, (run, event), r) ==> run.steps_to(event, *final(run), r),
        forall|e: &errorpb::Error, region: &RegionWithLeader, r: RegionErrorStep| #[trigger]
            call_ensures(handle_region_error, (e, region), r) ==> r == region_error_step(
                *e,
                region@,
            ),
        forall|e: &Error, r: bool| #[trigger]
            call_ensures(is_grpc_error, (e,), r) ==> r == is_of_transport(*e),
{
}

/// A request begins with the choice of a peer, with what it was given.
pub proof fn law_a_request_begins_with_a_choice(
    region: RegionWithLeader,
    backoff: Backoff,
    attempt: usize,
    request_source: Option<String>,
    r: ShardRun,
)
    requires
        call_ensures(ShardRun::start, (region, backoff, attempt, request_source), r),
    ensures
        r.phase is Selecting,
        r.region == region && r.backoff == backoff && r.attempt == attempt && r.request_source
            == request_source,
{
}

/// The results of a shard are its response, or its errors of keys as one error, or the error that
/// it failed with, which is that of the whole request.
pub proof fn law_an_outcome_gives_the_results<R>(
    outcome: ShardOutcome,
    response: Option<R>,
    r: Result<Vec<Result<R>>>,
)
    requires
        call_ensures(ShardOutcome::into_results::<R>, (outcome, response), r),
    ensures
        outcome is Failed <==> r is Err,
        outcome is Failed ==> r->Err_0 == outcome->Failed_0,
        r is Ok ==> r->Ok_0@.len() == 1,
        outcome is Response ==> r->Ok_0@[0] == Ok::<R, Error>(response->0),
        outcome is KeyErrors ==> r->Ok_0@[0] == Err::<R, Error>(
            Error::MultipleKeyErrors(outcome->KeyErrors_0),
        ),
{
}

/// The source of a request is put together of words: whether it is a retry, the part of the peer
/// that it was meant for, on a retry the part of the one that it goes to, and what was given.
pub proof fn law_the_words_of_a_source(
    attempt: usize,
    leader: &Peer,
    base: &ReadPeer,
    current: ReplicaKind,
    input: &str,
    r: String,
)
    requires
        call_ensures(patch_request_source, (attempt, leader, base, current, input), r),
    ensures
        ({
            let meant = part(*leader, base.target_peer);
            let serves = match current {
                ReplicaKind::Leader => "leader"@,
                ReplicaKind::Follower => "follower"@,
                ReplicaKind::Learner => "learner"@,
            };
            &&& attempt == 0 && !base.stale_read ==> r@ == meant + "_"@ + input@
            &&& attempt == 0 && base.stale_read ==> r@ == "stale_"@ + meant + "_"@ + input@
            &&& attempt > 0 && !base.stale_read ==> r@ == "retry_"@ + meant + "_"@ + serves + "_"@
                + input@
            &&& attempt > 0 && base.stale_read ==> r@ == "retry_"@ + ("stale_"@ + meant) + "_"@
                + serves + "_"@ + input@
        }),
{
}

/// A region whose epoch does not match is forgotten unless the client is ahead of the store, and
/// the request is tried again at once if the store tells of regions that the client does not know.
pub proof fn law_an_epoch_that_does_not_match(
    region: &RegionWithLeader,
    error: &errorpb::EpochNotMatch,
    r: RegionErrorStep,
)
    requires
        call_ensures(on_region_epoch_not_match, (region, error), r),
    ensures
        ({
            let ahead = is_ahead_of(region@, error.current_regions@);
            r == (RegionErrorStep::Decided {
                invalidate_region: if ahead {
                    None
                } else {
                    Some(region@.ver_id())
                },
                invalidate_store: None,
                resolved: error.current_regions@.len() > 0 && !ahead,
            })
        }),
{
    law_an_earlier_epoch_shows_who_is_ahead(error.current_regions@, region@);
}

} // verus!
