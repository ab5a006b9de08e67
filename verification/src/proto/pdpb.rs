//! Messages of the placement driver.

use vstd::prelude::*;

use crate::proto::metapb::{Buckets, Peer, Region};

verus! {

/// A timestamp of the placement driver's oracle: milliseconds, and a counter within one of them.
#[derive(Clone, Copy, Debug, Default, PartialEq, Eq, Structural)]
pub struct Timestamp {
    pub physical: i64,
    pub logical: i64,
}

/// The answer to a query for a region.
#[derive(Debug, Default, PartialEq, Eq)]
pub struct GetRegionResponse {
    pub region: Option<Region>,
    pub leader: Option<Peer>,
    pub buckets: Option<Buckets>,
}

/// The answer to an update of the garbage collection safe point.
#[derive(Clone, Copy, Debug, Default, PartialEq, Eq, Structural)]
pub struct UpdateGcSafePointResponse {
    pub new_safe_point: u64,
}

} // verus!
