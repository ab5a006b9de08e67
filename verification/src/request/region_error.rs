//! What a region error asks for.

use vstd::prelude::*;

use crate::common::errors::Error;
use crate::proto::errorpb;
use crate::proto::metapb::{Peer, Region, RegionEpoch};
use crate::region::{RegionVerId, RegionWithLeader, RegionWithLeaderView, StoreId};

verus! {

/// What a region error asks for.
#[derive(Clone, Copy, Debug, PartialEq, Eq, Structural)]
pub enum RegionErrorStep {
    /// Tell the region cache of the region's leader. Where that works the error is resolved.
    UpdateLeader { ver_id: RegionVerId, leader: Peer },
    /// Forget the region or the store, or neither. A resolved error lets the request be tried
    /// again at once, another one only after a delay.
    Decided {
        invalidate_region: Option<RegionVerId>,
        invalidate_store: Option<StoreId>,
        resolved: bool,
    },
    /// Give the request up.
    Fail,
}

/// The region has moved on from the one epoch to the other, or has stayed.
pub open spec fn is_behind(returned: RegionEpoch, current: RegionEpoch) -> bool {
    returned.conf_ver < current.conf_ver || returned.version < current.version
}

/// The client knows the region better than the store that sent the given regions. The first of
/// them that has the region's id, and is not plainly newer, decides; without epochs nothing is
/// known.
pub open spec fn client_is_ahead(regions: Seq<Region>, region: RegionWithLeaderView) -> bool
    decreases regions.len(),
{
    if regions.len() == 0 {
        false
    } else if regions[0].id != region.region.id {
        client_is_ahead(regions.skip(1), region)
    } else {
        match (regions[0].region_epoch, region.region.region_epoch) {
            (Some(returned), Some(current)) => is_behind(returned, current) || client_is_ahead(
                regions.skip(1),
                region,
            ),
            _ => false,
        }
    }
}

/// What an error about the region's epoch asks for. Without regions the store does not know
/// better, and where the client is ahead the store has to catch up. Else the client has to learn
/// of the region anew, and can do so at once.
pub open spec fn epoch_step(regions: Seq<Region>, region: RegionWithLeaderView) -> RegionErrorStep {
    let ahead = client_is_ahead(regions, region);
    RegionErrorStep::Decided {
        invalidate_region: if ahead {
            None
        } else {
            Some(region.ver_id())
        },
        invalidate_store: None,
        resolved: regions.len() > 0 && !ahead,
    }
}

/// What a region error asks for.
pub open spec fn region_error_step(
    e: errorpb::Error,
    region: RegionWithLeaderView,
) -> RegionErrorStep {
    let forget = |resolved: bool|
        RegionErrorStep::Decided {
            invalidate_region: Some(region.ver_id()),
            invalidate_store: None,
            resolved,
        };
    if e.not_leader is Some {
        match e.not_leader->0.leader {
            Some(leader) => RegionErrorStep::UpdateLeader { ver_id: region.ver_id(), leader },
            None => forget(false),
        }
    } else if e.store_not_match is Some {
        RegionErrorStep::Decided {
            invalidate_region: Some(region.ver_id()),
            invalidate_store: match region.leader {
                Some(leader) => Some(leader.store_id),
                None => None,
            },
            resolved: true,
        }
    } else if e.epoch_not_match is Some {
        epoch_step(e.epoch_not_match->0.current_regions@, region)
    } else if e.region_not_found is Some || e.key_not_in_region is Some {
        forget(true)
    } else if e.stale_command is Some {
        forget(false)
    } else if e.server_is_busy is Some || e.max_timestamp_not_synced is Some
        || e.read_index_not_ready is Some || e.proposal_in_merging_mode is Some {
        RegionErrorStep::Decided {
            invalidate_region: None,
            invalidate_store: None,
            resolved: false,
        }
    } else if e.raft_entry_too_large is Some {
        RegionErrorStep::Fail
    } else {
        forget(false)
    }
}

/// What an error about the region's epoch asks for.
#[verifier::loop_isolation(false)]
pub fn on_region_epoch_not_match(region: &RegionWithLeader, error: &errorpb::EpochNotMatch) -> (r:
    RegionErrorStep)
    ensures
        r == epoch_step(error.current_regions@, region@),
{
    let forget = RegionErrorStep::Decided {
        invalidate_region: Some(region.ver_id()),
        invalidate_store: None,
        resolved: error.current_regions.len() > 0,
    };
    let regions = &error.current_regions;
    let mut i: usize = 0;
    assert(regions@.skip(0) =~= regions@);
    while i < regions.len()
        invariant
            i <= regions.len(),
            client_is_ahead(regions@.skip(i as int), region@) == client_is_ahead(
                regions@,
                region@,
            ),
        decreases regions.len() - i,
    {
        assert(regions@.skip(i as int)[0] == regions@[i as int]);
        assert(regions@.skip(i as int).skip(1) =~= regions@.skip(i + 1));
        if regions[i].id == region.region.id {
            match (regions[i].region_epoch, region.region.region_epoch) {
                (Some(returned), Some(current)) => {
                    if returned.conf_ver < current.conf_ver || returned.version < current.version {
                        return RegionErrorStep::Decided {
                            invalidate_region: None,
                            invalidate_store: None,
                            resolved: false,
                        };
                    }
                },
                _ => {
                    return forget;
                },
            }
        }
        i = i + 1;
    }
    assert(regions@.skip(i as int) =~= Seq::<Region>::empty());
    forget
}

/// What a region error asks for.
pub fn handle_region_error(e: &errorpb::Error, region: &RegionWithLeader) -> (r: RegionErrorStep)
    ensures
        r == region_error_step(*e, region@),
{
    let ver_id = region.ver_id();
    if let Some(not_leader) = e.not_leader {
        match not_leader.leader {
            Some(leader) => RegionErrorStep::UpdateLeader { ver_id, leader },
            None => RegionErrorStep::Decided {
                invalidate_region: Some(ver_id),
                invalidate_store: None,
                resolved: false,
            },
        }
    } else if e.store_not_match.is_some() {
        RegionErrorStep::Decided {
            invalidate_region: Some(ver_id),
            invalidate_store: match region.leader {
                Some(leader) => Some(leader.store_id),
                None => None,
            },
            resolved: true,
        }
    } else if let Some(epoch_not_match) = &e.epoch_not_match {
        on_region_epoch_not_match(region, epoch_not_match)
    } else if e.region_not_found.is_some() || e.key_not_in_region.is_some() {
        RegionErrorStep::Decided {
            invalidate_region: Some(ver_id),
            invalidate_store: None,
            resolved: true,
        }
    } else if e.stale_command.is_some() {
        RegionErrorStep::Decided {
            invalidate_region: Some(ver_id),
            invalidate_store: None,
            resolved: false,
        }
    } else if e.server_is_busy.is_some() || e.max_timestamp_not_synced.is_some()
        || e.read_index_not_ready.is_some() || e.proposal_in_merging_mode.is_some() {
        RegionErrorStep::Decided {
            invalidate_region: None,
            invalidate_store: None,
            resolved: false,
        }
    } else if e.raft_entry_too_large.is_some() {
        RegionErrorStep::Fail
    } else {
        RegionErrorStep::Decided {
            invalidate_region: Some(ver_id),
            invalidate_store: None,
            resolved: false,
        }
    }
}

/// A region is kept only if there is no doubt about it: the leader is known, the client is ahead
/// of the store, the store is only busy or not ready yet, or nothing will be tried again.
pub proof fn law_a_doubtful_region_is_forgotten(e: errorpb::Error, region: RegionWithLeaderView)
    ensures
        ({
            let kept = match region_error_step(e, region) {
                RegionErrorStep::Decided { invalidate_region, .. } => invalidate_region is None,
                _ => true,
            };
            kept <==> if e.not_leader is Some {
                e.not_leader->0.leader is Some
            } else if e.store_not_match is Some {
                false
            } else if e.epoch_not_match is Some {
                client_is_ahead(e.epoch_not_match->0.current_regions@, region)
            } else if e.region_not_found is Some || e.key_not_in_region is Some
                || e.stale_command is Some {
                false
            } else {
                e.server_is_busy is Some || e.max_timestamp_not_synced is Some
                    || e.read_index_not_ready is Some || e.proposal_in_merging_mode is Some
                    || e.raft_entry_too_large is Some
            }
        }),
{
}

/// A region that is forgotten is the one that the error is about, and a store that is forgotten is
/// the one that the request went to.
pub proof fn law_only_the_region_at_hand_is_forgotten(
    e: errorpb::Error,
    region: RegionWithLeaderView,
)
    ensures
        match region_error_step(e, region) {
            RegionErrorStep::Decided { invalidate_region, invalidate_store, .. } => {
                &&& invalidate_region is Some ==> invalidate_region->0 == region.ver_id()
                &&& invalidate_store is Some ==> region.leader is Some && invalidate_store->0
                    == region.leader->0.store_id
            },
            RegionErrorStep::UpdateLeader { ver_id, .. } => ver_id == region.ver_id(),
            RegionErrorStep::Fail => true,
        },
{
}

} // verus!
