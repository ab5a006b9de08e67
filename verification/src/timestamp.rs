//! Timestamps and the versions that they stand for.

use vstd::prelude::*;

use crate::proto::pdpb::Timestamp;

verus! {

/// The number of versions within a millisecond.
pub const VERSIONS_PER_MS: u64 = 262144;

/// The timestamp has a version.
pub open spec fn has_version(ts: Timestamp) -> bool {
    &&& ts.physical >= 0
    &&& ts.logical >= 0
    &&& ts.physical * VERSIONS_PER_MS + ts.logical <= u64::MAX
}

/// The version of a timestamp.
pub open spec fn version_of(ts: Timestamp) -> u64 {
    (ts.physical * VERSIONS_PER_MS + ts.logical) as u64
}

/// The timestamp of a version.
pub open spec fn timestamp_of(version: u64) -> Timestamp {
    Timestamp {
        physical: (version / VERSIONS_PER_MS) as i64,
        logical: (version % VERSIONS_PER_MS) as i64,
    }
}

impl Timestamp {
    /// The version of the timestamp.
    pub fn version(&self) -> (r: u64)
        requires
            has_version(*self),
        ensures
            r == version_of(*self),
    {
        self.physical as u64 * VERSIONS_PER_MS + self.logical as u64
    }

    /// Whether the timestamp has a version.
    pub fn is_versioned(&self) -> (r: bool)
        ensures
            r == has_version(*self),
    {
        self.physical >= 0 && self.logical >= 0 && self.physical as u128 * VERSIONS_PER_MS as u128
            + self.logical as u128 <= u64::MAX as u128
    }

    /// The timestamp of a version.
    pub fn from_version(version: u64) -> (r: Timestamp)
        ensures
            r == timestamp_of(version),
            has_version(r),
    {
        proof {
            law_versions_and_timestamps_agree(version);
        }
        Timestamp {
            physical: (version / VERSIONS_PER_MS) as i64,
            logical: (version % VERSIONS_PER_MS) as i64,
        }
    }

    /// The timestamp of a version, where version 0 stands for none.
    pub fn try_from_version(version: u64) -> (r: Option<Timestamp>)
        ensures
            r == (if version == 0 {
                None
            } else {
                Some(timestamp_of(version))
            }),
            r is Some ==> has_version(r->0),
    {
        if version == 0 {
            None
        } else {
            Some(Timestamp::from_version(version))
        }
    }
}

/// The timestamp of a version has that version.
pub proof fn law_versions_and_timestamps_agree(version: u64)
    ensures
        has_version(timestamp_of(version)),
        version_of(timestamp_of(version)) == version,
{
    vstd::arithmetic::div_mod::lemma_fundamental_div_mod(
        version as int,
        VERSIONS_PER_MS as int,
    );
}

/// A version counts the milliseconds of its timestamp, and within each of them the logical part.
pub proof fn law_a_version_counts_milliseconds(ts: &Timestamp, version: u64, versioned: bool)
    requires
        call_ensures(Timestamp::is_versioned, (ts,), versioned),
        versioned ==> call_ensures(Timestamp::version, (ts,), version),
    ensures
        versioned <==> ts.physical >= 0 && ts.logical >= 0 && ts.physical * 262144 + ts.logical
            <= u64::MAX,
        versioned ==> version == ts.physical * 262144 + ts.logical,
{
}

/// A version is taken apart into milliseconds and a logical part, and is none if it is zero.
pub proof fn law_a_version_is_taken_apart(version: u64, r: Timestamp, known: Option<Timestamp>)
    requires
        call_ensures(Timestamp::from_version, (version,), r),
        call_ensures(Timestamp::try_from_version, (version,), known),
    ensures
        r.physical * 262144 + r.logical == version,
        0 <= r.logical < 262144,
        0 <= r.physical,
        known is None <==> version == 0,
        known is Some ==> known->0 == r,
{
    law_versions_and_timestamps_agree(version);
    vstd::arithmetic::div_mod::lemma_fundamental_div_mod(version as int, 262144);
}

} // verus!
