//! Cluster metadata: regions, peers, stores and buckets.

use vstd::prelude::*;

use crate::kv::order::bytes_to_vec;

verus! {

/// The role of a peer in its Raft group.
#[derive(Clone, Copy, Debug, PartialEq, Eq, Structural)]
pub enum PeerRole {
    Voter,
    Learner,
    IncomingVoter,
    DemotingVoter,
}

impl PeerRole {
    /// The role with the given number in the protocol.
    pub open spec fn spec_from_number(value: int) -> Option<PeerRole> {
        if value == 0 {
            Some(PeerRole::Voter)
        } else if value == 1 {
            Some(PeerRole::Learner)
        } else if value == 2 {
            Some(PeerRole::IncomingVoter)
        } else if value == 3 {
            Some(PeerRole::DemotingVoter)
        } else {
            None
        }
    }

    /// The role with the given number in the protocol, if there is one.
    pub fn from_number(value: i32) -> (r: Option<PeerRole>)
        ensures
            r == PeerRole::spec_from_number(value as int),
    {
        match value {
            0 => Some(PeerRole::Voter),
            1 => Some(PeerRole::Learner),
            2 => Some(PeerRole::IncomingVoter),
            3 => Some(PeerRole::DemotingVoter),
            _ => None,
        }
    }
}

/// A replica of a region on a store.
#[derive(Clone, Copy, Debug, Default, PartialEq, Eq, Structural)]
pub struct Peer {
    pub id: u64,
    pub store_id: u64,
    pub role: i32,
    pub is_witness: bool,
}

/// The version of a region: `conf_ver` counts membership changes, `version` splits and merges.
#[derive(Clone, Copy, Debug, Default, PartialEq, Eq, Structural)]
pub struct RegionEpoch {
    pub conf_ver: u64,
    pub version: u64,
}

/// A region: a range of keys and the peers that hold it. An empty `end_key` is the end of the
/// key space.
#[derive(Debug, Default, PartialEq, Eq)]
pub struct Region {
    pub id: u64,
    pub start_key: Vec<u8>,
    pub end_key: Vec<u8>,
    pub region_epoch: Option<RegionEpoch>,
    pub peers: Vec<Peer>,
    pub is_in_flashback: bool,
    pub flashback_start_ts: u64,
}

/// What a [`Region`] holds.
#[verifier::ext_equal]
pub struct RegionView {
    pub id: u64,
    pub start_key: Seq<u8>,
    pub end_key: Seq<u8>,
    pub region_epoch: Option<RegionEpoch>,
    pub peers: Seq<Peer>,
    pub is_in_flashback: bool,
    pub flashback_start_ts: u64,
}

impl View for Region {
    type V = RegionView;

    open spec fn view(&self) -> RegionView {
        RegionView {
            id: self.id,
            start_key: self.start_key@,
            end_key: self.end_key@,
            region_epoch: self.region_epoch,
            peers: self.peers@,
            is_in_flashback: self.is_in_flashback,
            flashback_start_ts: self.flashback_start_ts,
        }
    }
}

impl Clone for Region {
    fn clone(&self) -> (r: Self)
        ensures
            r@ == self@,
    {
        let mut peers: Vec<Peer> = Vec::new();
        let mut i: usize = 0;
        while i < self.peers.len()
            invariant
                i <= self.peers.len(),
                peers@ == self.peers@.take(i as int),
            decreases self.peers.len() - i,
        {
            peers.push(self.peers[i]);
            assert(self.peers@.take(i + 1) =~= self.peers@.take(i as int).push(self.peers@[i as int]));
            i = i + 1;
        }
        assert(self.peers@.take(i as int) =~= self.peers@);
        Region {
            id: self.id,
            start_key: bytes_to_vec(&self.start_key),
            end_key: bytes_to_vec(&self.end_key),
            region_epoch: self.region_epoch,
            peers,
            is_in_flashback: self.is_in_flashback,
            flashback_start_ts: self.flashback_start_ts,
        }
    }
}

/// The keys at which a region is cut into buckets.
#[derive(Debug, Default, PartialEq, Eq)]
pub struct Buckets {
    pub region_id: u64,
    pub version: u64,
    pub keys: Vec<Vec<u8>>,
    pub period_in_ms: u64,
}

/// The byte strings that a vector of vectors holds.
pub open spec fn byte_strings(keys: Seq<Vec<u8>>) -> Seq<Seq<u8>> {
    keys.map_values(|key: Vec<u8>| key@)
}

/// A copy of the byte strings.
pub fn clone_byte_strings(keys: &Vec<Vec<u8>>) -> (r: Vec<Vec<u8>>)
    ensures
        byte_strings(r@) == byte_strings(keys@),
{
    let mut r: Vec<Vec<u8>> = Vec::new();
    let mut i: usize = 0;
    while i < keys.len()
        invariant
            i <= keys.len(),
            r.len() == i,
            forall|k: int| 0 <= k < i ==> r@[k]@ == keys@[k]@,
        decreases keys.len() - i,
    {
        r.push(bytes_to_vec(&keys[i]));
        i = i + 1;
    }
    assert(byte_strings(r@) =~= byte_strings(keys@));
    r
}

/// What [`Buckets`] hold.
#[verifier::ext_equal]
pub struct BucketsView {
    pub region_id: u64,
    pub version: u64,
    pub keys: Seq<Seq<u8>>,
    pub period_in_ms: u64,
}

impl View for Buckets {
    type V = BucketsView;

    open spec fn view(&self) -> BucketsView {
        BucketsView {
            region_id: self.region_id,
            version: self.version,
            keys: byte_strings(self.keys@),
            period_in_ms: self.period_in_ms,
        }
    }
}

impl Clone for Buckets {
    fn clone(&self) -> (r: Self)
        ensures
            r@ == self@,
    {
        Buckets {
            region_id: self.region_id,
            version: self.version,
            keys: clone_byte_strings(&self.keys),
            period_in_ms: self.period_in_ms,
        }
    }
}

/// The state of a store in the cluster.
#[derive(Clone, Copy, Debug, PartialEq, Eq, Structural)]
pub enum StoreState {
    Up,
    Offline,
    Tombstone,
}

impl StoreState {
    /// The state with the given number in the protocol.
    pub open spec fn spec_from_number(value: int) -> Option<StoreState> {
        if value == 0 {
            Some(StoreState::Up)
        } else if value == 1 {
            Some(StoreState::Offline)
        } else if value == 2 {
            Some(StoreState::Tombstone)
        } else {
            None
        }
    }

    /// The state with the given number in the protocol, if there is one.
    pub fn from_number(value: i32) -> (r: Option<StoreState>)
        ensures
            r == StoreState::spec_from_number(value as int),
    {
        match value {
            0 => Some(StoreState::Up),
            1 => Some(StoreState::Offline),
            2 => Some(StoreState::Tombstone),
            _ => None,
        }
    }
}

/// A label of a store.
#[derive(Debug, Default, PartialEq, Eq)]
pub struct StoreLabel {
    pub key: String,
    pub value: String,
}

impl Clone for StoreLabel {
    fn clone(&self) -> (r: Self)
        ensures
            r.key@ == self.key@,
            r.value@ == self.value@,
    {
        StoreLabel { key: self.key.clone(), value: self.value.clone() }
    }
}

/// A store of the cluster.
#[derive(Debug, Default, PartialEq, Eq)]
pub struct Store {
    pub id: u64,
    pub address: String,
    pub state: i32,
    pub labels: Vec<StoreLabel>,
}

/// What a [`Store`] holds.
#[verifier::ext_equal]
pub struct StoreView {
    pub id: u64,
    pub address: Seq<char>,
    pub state: i32,
    pub labels: Seq<(Seq<char>, Seq<char>)>,
}

impl View for Store {
    type V = StoreView;

    open spec fn view(&self) -> StoreView {
        StoreView {
            id: self.id,
            address: self.address@,
            state: self.state,
            labels: self.labels@.map_values(|label: StoreLabel| (label.key@, label.value@)),
        }
    }
}

impl Clone for Store {
    fn clone(&self) -> (r: Self)
        ensures
            r@ == self@,
    {
        let mut labels: Vec<StoreLabel> = Vec::new();
        let mut i: usize = 0;
        while i < self.labels.len()
            invariant
                i <= self.labels.len(),
                labels.len() == i,
                forall|k: int|
                    0 <= k < i ==> labels@[k].key@ == self.labels@[k].key@ && labels@[k].value@
                        == self.labels@[k].value@,
            decreases self.labels.len() - i,
        {
            labels.push(self.labels[i].clone());
            i = i + 1;
        }
        let r = Store { id: self.id, address: self.address.clone(), state: self.state, labels };
        assert(r@.labels =~= self@.labels);
        r
    }
}

} // verus!
