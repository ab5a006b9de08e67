//! Deadlock detection.

use vstd::prelude::*;

verus! {

/// A transaction that waits for another one.
#[derive(Clone, Debug, Default, PartialEq, Eq)]
pub struct WaitForEntry {
    pub txn: u64,
    pub wait_for_txn: u64,
    pub key_hash: u64,
    pub key: Vec<u8>,
    pub resource_group_tag: Vec<u8>,
    pub wait_time: u64,
}

} // verus!
