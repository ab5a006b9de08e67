//! Region errors.

use vstd::prelude::*;

use crate::proto::metapb::{Peer, Region};

verus! {

/// The peer that got the request does not lead its region.
#[derive(Clone, Copy, Debug, Default, PartialEq, Eq, Structural)]
pub struct NotLeader {
    pub region_id: u64,
    pub leader: Option<Peer>,
}

/// The request went to another store than the one it was meant for.
#[derive(Clone, Copy, Debug, Default, PartialEq, Eq, Structural)]
pub struct StoreNotMatch {
    pub request_store_id: u64,
    pub actual_store_id: u64,
}

/// The store does not hold the region.
#[derive(Clone, Copy, Debug, Default, PartialEq, Eq, Structural)]
pub struct RegionNotFound {
    pub region_id: u64,
}

/// The key lies outside the region.
#[derive(Clone, Debug, Default, PartialEq, Eq)]
pub struct KeyNotInRegion {
    pub key: Vec<u8>,
    pub region_id: u64,
    pub start_key: Vec<u8>,
    pub end_key: Vec<u8>,
}

/// The region has changed; the regions that now cover its range may come along.
#[derive(Clone, Debug, Default, PartialEq, Eq)]
pub struct EpochNotMatch {
    pub current_regions: Vec<Region>,
}

/// The store is overloaded.
#[derive(Clone, Debug, Default, PartialEq, Eq)]
pub struct ServerIsBusy {
    pub reason: String,
    pub backoff_ms: u64,
}

/// The command is older than the current term.
#[derive(Clone, Copy, Debug, Default, PartialEq, Eq, Structural)]
pub struct StaleCommand {}

/// The Raft entry is too large to be proposed.
#[derive(Clone, Copy, Debug, Default, PartialEq, Eq, Structural)]
pub struct RaftEntryTooLarge {
    pub region_id: u64,
    pub entry_size: u64,
}

/// The region has not synchronised its maximal timestamp yet.
#[derive(Clone, Copy, Debug, Default, PartialEq, Eq, Structural)]
pub struct MaxTimestampNotSynced {}

/// The peer cannot serve a read index yet.
#[derive(Clone, Copy, Debug, Default, PartialEq, Eq, Structural)]
pub struct ReadIndexNotReady {
    pub region_id: u64,
}

/// The region is being merged.
#[derive(Clone, Copy, Debug, Default, PartialEq, Eq, Structural)]
pub struct ProposalInMergingMode {
    pub region_id: u64,
}

/// The peer's safe timestamp has not caught up with a stale read.
#[derive(Clone, Copy, Debug, Default, PartialEq, Eq, Structural)]
pub struct DataIsNotReady {
    pub region_id: u64,
    pub peer_id: u64,
    pub safe_ts: u64,
}

/// A region error. At most one of the optional fields is expected to be set.
#[derive(Clone, Debug, Default, PartialEq, Eq)]
pub struct Error {
    pub message: String,
    pub not_leader: Option<NotLeader>,
    pub region_not_found: Option<RegionNotFound>,
    pub key_not_in_region: Option<KeyNotInRegion>,
    pub epoch_not_match: Option<EpochNotMatch>,
    pub server_is_busy: Option<ServerIsBusy>,
    pub stale_command: Option<StaleCommand>,
    pub store_not_match: Option<StoreNotMatch>,
    pub raft_entry_too_large: Option<RaftEntryTooLarge>,
    pub max_timestamp_not_synced: Option<MaxTimestampNotSynced>,
    pub read_index_not_ready: Option<ReadIndexNotReady>,
    pub proposal_in_merging_mode: Option<ProposalInMergingMode>,
    pub data_is_not_ready: Option<DataIsNotReady>,
}

impl Error {
    /// Every field is unset.
    pub open spec fn is_blank(self) -> bool {
        &&& self.message@ == Seq::<char>::empty()
        &&& self.has_no_kind()
    }

    /// No optional field is set.
    pub open spec fn has_no_kind(self) -> bool {
        &&& self.not_leader is None
        &&& self.region_not_found is None
        &&& self.key_not_in_region is None
        &&& self.epoch_not_match is None
        &&& self.server_is_busy is None
        &&& self.stale_command is None
        &&& self.store_not_match is None
        &&& self.raft_entry_too_large is None
        &&& self.max_timestamp_not_synced is None
        &&& self.read_index_not_ready is None
        &&& self.proposal_in_merging_mode is None
        &&& self.data_is_not_ready is None
    }

    /// A region error with nothing but a message.
    pub fn with_message(message: String) -> (r: Error)
        ensures
            r.message == message,
            r.has_no_kind(),
    {
        Error {
            message,
            not_leader: None,
            region_not_found: None,
            key_not_in_region: None,
            epoch_not_match: None,
            server_is_busy: None,
            stale_command: None,
            store_not_match: None,
            raft_entry_too_large: None,
            max_timestamp_not_synced: None,
            read_index_not_ready: None,
            proposal_in_merging_mode: None,
            data_is_not_ready: None,
        }
    }
}

} // verus!
