//! What has been found out while locks are resolved.

use std::collections::HashMap;
use vstd::prelude::*;
use vstd::std_specs::hash::*;

use crate::proto::coprocessor::Response;
use crate::proto::kvrpcpb::{LockInfo, ScanLockResponse};
use crate::proto::pdpb::Timestamp;
use crate::region::RegionVerId;
use crate::transaction::status::{StatusView, TransactionStatus};

verus! {

broadcast use vstd::std_specs::hash::group_hash_axioms;

/// The number of locks that a scan for locks asks for at a time.
pub const DEFAULT_SCAN_LOCK_BATCH_SIZE: u32 = 1024;

/// How often to try to resolve a lock.
pub const RESOLVE_LOCK_RETRY_LIMIT: usize = 10;

/// Which locks to clean up, and how many at a time.
#[derive(Clone, Copy, Debug, PartialEq, Eq, Structural)]
pub struct ResolveLocksOptions {
    pub async_commit_only: bool,
    pub batch_size: u32,
}

impl Default for ResolveLocksOptions {
    fn default() -> (r: Self)
        ensures
            !r.async_commit_only,
            r.batch_size == DEFAULT_SCAN_LOCK_BATCH_SIZE,
    {
        ResolveLocksOptions {
            async_commit_only: false,
            batch_size: DEFAULT_SCAN_LOCK_BATCH_SIZE,
        }
    }
}

/// A response that can tell of locks.
pub trait HasLocks: Sized {
    /// The locks that the response tells of. A kind of response that can tell of some says which.
    open spec fn held_locks(&self) -> Seq<LockInfo> {
        Seq::empty()
    }

    /// Take the locks out of the response.
    fn take_locks(&mut self) -> (r: Vec<LockInfo>)
        ensures
            r@ == old(self).held_locks(),
    ;
}

impl HasLocks for Response {
    open spec fn held_locks(&self) -> Seq<LockInfo> {
        match self.locked {
            Some(lock) => seq![lock],
            None => Seq::empty(),
        }
    }

    fn take_locks(&mut self) -> (r: Vec<LockInfo>)
        ensures
            *final(self) == (Response { locked: None, ..*old(self) }),
    {
        let mut locks: Vec<LockInfo> = Vec::new();
        if let Some(lock) = self.locked.take() {
            locks.push(lock);
        }
        assert(locks@ =~= old(self).held_locks());
        locks
    }
}

impl HasLocks for ScanLockResponse {
    open spec fn held_locks(&self) -> Seq<LockInfo> {
        self.locks@
    }

    fn take_locks(&mut self) -> (r: Vec<LockInfo>)
        ensures
            final(self).locks@ == Seq::<LockInfo>::empty(),
            final(self).region_error == old(self).region_error,
            final(self).error == old(self).error,
    {
        let mut locks: Vec<LockInfo> = Vec::new();
        core::mem::swap(&mut self.locks, &mut locks);
        locks
    }
}

/// The regions from which the locks of transactions have been removed.
#[derive(Debug)]
pub struct CleanRegions {
    pub pairs: Vec<(u64, RegionVerId)>,
}

impl View for CleanRegions {
    type V = Set<(u64, RegionVerId)>;

    open spec fn view(&self) -> Set<(u64, RegionVerId)> {
        self.pairs@.to_set()
    }
}

impl CleanRegions {
    /// Nothing has been removed.
    pub fn new() -> (r: CleanRegions)
        ensures
            r@ == Set::<(u64, RegionVerId)>::empty(),
    {
        let r = CleanRegions { pairs: Vec::new() };
        assert(r@ =~= Set::<(u64, RegionVerId)>::empty());
        r
    }

    /// Whether the locks of the transaction have been removed from the region.
    pub fn contains(&self, txn_id: u64, region: RegionVerId) -> (r: bool)
        ensures
            r == self@.contains((txn_id, region)),
    {
        let mut i: usize = 0;
        while i < self.pairs.len()
            invariant
                i <= self.pairs.len(),
                forall|k: int| 0 <= k < i ==> self.pairs@[k] != (txn_id, region),
            decreases self.pairs.len() - i,
        {
            let (id, at) = self.pairs[i];
            if id == txn_id && at == region {
                assert(self.pairs@[i as int] == (txn_id, region));
                return true;
            }
            i = i + 1;
        }
        false
    }

    /// Note that the locks of the transaction have been removed from the region.
    pub fn insert(&mut self, txn_id: u64, region: RegionVerId)
        ensures
            final(self)@ == old(self)@.insert((txn_id, region)),
    {
        if !self.contains(txn_id, region) {
            let ghost before = self.pairs@;
            self.pairs.push((txn_id, region));
            proof {
                let after = self.pairs@;
                assert forall|pair: (u64, RegionVerId)|
                    after.to_set().contains(pair) <==> before.to_set().insert(
                        (txn_id, region),
                    ).contains(pair) by {
                    if before.contains(pair) {
                        let i = choose|i: int| 0 <= i < before.len() && before[i] == pair;
                        assert(after[i] == pair);
                    }
                    assert(after[before.len() as int] == (txn_id, region));
                    if after.contains(pair) {
                        let i = choose|i: int| 0 <= i < after.len() && after[i] == pair;
                        if i < before.len() {
                            assert(before[i] == pair);
                        }
                    }
                }
                assert(after.to_set() =~= before.to_set().insert((txn_id, region)));
            }
        } else {
            assert(self@ =~= self@.insert((txn_id, region)));
        }
    }
}

/// What has been found out of transactions while their locks were resolved.
#[derive(Debug)]
pub struct ResolveLocksContext {
    /// What is known of each transaction.
    pub resolved: HashMap<u64, TransactionStatus>,
    pub clean_regions: CleanRegions,
}

/// What a [`ResolveLocksContext`] holds.
#[verifier::ext_equal]
pub struct ContextModel {
    pub resolved: Map<u64, StatusView>,
    pub clean_regions: Set<(u64, RegionVerId)>,
}

impl View for ResolveLocksContext {
    type V = ContextModel;

    open spec fn view(&self) -> ContextModel {
        ContextModel {
            resolved: self.resolved@.map_values(|status: TransactionStatus| status@),
            clean_regions: self.clean_regions@,
        }
    }
}

impl Default for ResolveLocksContext {
    fn default() -> (r: Self)
        ensures
            r@ == (ContextModel { resolved: Map::empty(), clean_regions: Set::empty() }),
    {
        let r = ResolveLocksContext {
            resolved: HashMap::new(),
            clean_regions: CleanRegions::new(),
        };
        assert(r@.resolved =~= Map::<u64, StatusView>::empty());
        r
    }
}

impl ResolveLocksContext {
    /// What is known of a transaction.
    pub fn get_resolved(&self, txn_id: u64) -> (r: Option<TransactionStatus>)
        ensures
            r is Some <==> self@.resolved.contains_key(txn_id),
            r is Some ==> r->0@ == self@.resolved[txn_id],
    {
        match self.resolved.get(&txn_id) {
            Some(status) => Some(status.clone()),
            None => None,
        }
    }

    /// Note what is known of a transaction.
    pub fn save_resolved(&mut self, txn_id: u64, status: TransactionStatus)
        ensures
            final(self)@ == (ContextModel {
                resolved: old(self)@.resolved.insert(txn_id, status@),
                ..old(self)@
            }),
    {
        self.resolved.insert(txn_id, status);
        assert(self@.resolved =~= old(self)@.resolved.insert(txn_id, status@));
    }

    /// Whether the locks of the transaction have been removed from the region.
    pub fn is_region_cleaned(&self, txn_id: u64, region: &RegionVerId) -> (r: bool)
        ensures
            r == self@.clean_regions.contains((txn_id, *region)),
    {
        self.clean_regions.contains(txn_id, *region)
    }

    /// Note that the locks of the transaction have been removed from the region.
    pub fn save_cleaned_region(&mut self, txn_id: u64, region: RegionVerId)
        ensures
            final(self)@ == (ContextModel {
                clean_regions: old(self)@.clean_regions.insert((txn_id, region)),
                ..old(self)@
            }),
    {
        self.clean_regions.insert(txn_id, region);
    }

    /// Take note of what a check of a transaction has told, and see whether its lock has expired.
    /// What will not change is remembered.
    pub fn status_checked(
        &mut self,
        txn_id: u64,
        status: TransactionStatus,
        current: Timestamp,
    ) -> (r: TransactionStatus)
        ensures
            r@ == (StatusView {
                is_expired: match status@.kind {
                    crate::transaction::status::StatusKindView::Locked(ttl, lock) =>
                        status.is_expired || crate::transaction::status::has_outlived(
                        current,
                        lock.lock_version,
                        ttl,
                    ),
                    _ => status.is_expired,
                },
                ..status@
            }),
            final(self)@ == (if status.is_final() {
                ContextModel { resolved: old(self)@.resolved.insert(txn_id, r@), ..old(self)@ }
            } else {
                old(self)@
            }),
    {
        let mut status = status;
        status.check_ttl(current);
        if status.is_cacheable() {
            let kept = status.clone();
            self.save_resolved(txn_id, kept);
        }
        status
    }
}

/// What was found out of a transaction is remembered, and only that.
pub proof fn law_a_saved_status_is_found(
    before: ContextModel,
    txn_id: u64,
    status: StatusView,
    other: u64,
)
    ensures
        ({
            let after = ContextModel { resolved: before.resolved.insert(txn_id, status), ..before };
            &&& after.resolved.contains_key(txn_id) && after.resolved[txn_id] == status
            &&& other != txn_id ==> (after.resolved.contains_key(other)
                <==> before.resolved.contains_key(other))
            &&& other != txn_id && before.resolved.contains_key(other) ==> after.resolved[other]
                == before.resolved[other]
            &&& after.clean_regions == before.clean_regions
        }),
{
}

} // verus!
