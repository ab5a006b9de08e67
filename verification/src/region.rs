//! Regions as the client sees them.

use vstd::prelude::*;

use crate::common::errors::{Error, Result};
use crate::kv::key::Key;
use crate::kv::order::{bytes_le, bytes_lt, bytes_to_vec, in_key_range};
use crate::proto::metapb::{Peer, Region, RegionView};

verus! {

pub type RegionId = u64;

pub type StoreId = u64;

/// The identity of a region at one moment: its id and its epoch.
#[derive(Clone, Copy, Debug, Default, PartialEq, Eq, Hash, Structural)]
pub struct RegionVerId {
    pub id: RegionId,
    pub conf_ver: u64,
    pub ver: u64,
}

/// A region and the peer that requests for it go to.
#[derive(Debug, Default, PartialEq, Eq)]
pub struct RegionWithLeader {
    pub region: Region,
    pub leader: Option<Peer>,
}

/// What a [`RegionWithLeader`] holds.
#[verifier::ext_equal]
pub struct RegionWithLeaderView {
    pub region: RegionView,
    pub leader: Option<Peer>,
}

impl RegionWithLeaderView {
    /// The identity of the region. A missing epoch counts as zero.
    pub open spec fn ver_id(self) -> RegionVerId {
        match self.region.region_epoch {
            Some(epoch) => RegionVerId {
                id: self.region.id,
                conf_ver: epoch.conf_ver,
                ver: epoch.version,
            },
            None => RegionVerId { id: self.region.id, conf_ver: 0, ver: 0 },
        }
    }

    /// The key lies in the region's range.
    pub open spec fn contains(self, key: Seq<u8>) -> bool {
        in_key_range(self.region.start_key, self.region.end_key, key)
    }
}

impl View for RegionWithLeader {
    type V = RegionWithLeaderView;

    open spec fn view(&self) -> RegionWithLeaderView {
        RegionWithLeaderView { region: self.region@, leader: self.leader }
    }
}

impl Clone for RegionWithLeader {
    fn clone(&self) -> (r: Self)
        ensures
            r@ == self@,
    {
        RegionWithLeader { region: self.region.clone(), leader: self.leader }
    }
}

impl RegionWithLeader {
    /// Whether the key lies in the region.
    pub fn contains(&self, key: &Key) -> (r: bool)
        ensures
            r == self@.contains(key@),
    {
        bytes_le(&self.region.start_key, &key.0) && (self.region.end_key.len() == 0 || bytes_lt(
            &key.0,
            &self.region.end_key,
        ))
    }

    /// The first key of the region.
    pub fn start_key(&self) -> (r: Key)
        ensures
            r@ == self@.region.start_key,
    {
        Key(bytes_to_vec(&self.region.start_key))
    }

    /// The key at which the region ends, which is empty for the last region.
    pub fn end_key(&self) -> (r: Key)
        ensures
            r@ == self@.region.end_key,
    {
        Key(bytes_to_vec(&self.region.end_key))
    }

    /// The range of the region.
    pub fn range(&self) -> (r: (Key, Key))
        ensures
            r.0@ == self@.region.start_key,
            r.1@ == self@.region.end_key,
    {
        (self.start_key(), self.end_key())
    }

    /// The id of the region.
    pub fn id(&self) -> (r: RegionId)
        ensures
            r == self@.region.id,
    {
        self.region.id
    }

    /// The identity of the region.
    pub fn ver_id(&self) -> (r: RegionVerId)
        ensures
            r == self@.ver_id(),
    {
        match self.region.region_epoch {
            Some(epoch) => RegionVerId {
                id: self.region.id,
                conf_ver: epoch.conf_ver,
                ver: epoch.version,
            },
            None => RegionVerId { id: self.region.id, conf_ver: 0, ver: 0 },
        }
    }

    /// The region with another peer that requests go to.
    pub fn with_leader(&self, leader: Peer) -> (r: RegionWithLeader)
        ensures
            r@ == (RegionWithLeaderView { leader: Some(leader), ..self@ }),
    {
        RegionWithLeader { region: self.region.clone(), leader: Some(leader) }
    }

    /// The store of the peer that requests go to.
    pub fn get_store_id(&self) -> (r: Result<StoreId>)
        ensures
            match self.leader {
                Some(leader) => r == Ok::<StoreId, Error>(leader.store_id),
                None => r == Err::<StoreId, Error>(
                    Error::LeaderNotFound { region: self@.ver_id() },
                ),
            },
    {
        match self.leader {
            Some(leader) => Ok(leader.store_id),
            None => Err(Error::LeaderNotFound { region: self.ver_id() }),
        }
    }
}

} // verus!
