//! Stripping the prefix of a keyspace from what comes back from the cluster.

use core::ops::Range;
use vstd::prelude::*;

use crate::kv::key::Key;
use crate::kv::kvpair::KvPair;
use crate::proto::deadlock::WaitForEntry;
use crate::proto::kvrpcpb;
use crate::proto::metapb::byte_strings;
use crate::request::keyspace::{
    pretruncate_bytes, truncate_key, Keyspace, KEYSPACE_PREFIX_LEN,
};

verus! {

/// `take_mut::take` moves the value out of the reference, hands it to the closure and moves what
/// the closure returns back in. The process aborts if the closure panics.
pub assume_specification<T, F>[ take_mut::take::<T, F> ](mut_ref: &mut T, closure: F) where
    F: FnOnce(T) -> T,

    requires
        closure.requires((*old(mut_ref),)),
    ensures
        closure.ensures((*old(mut_ref),), *final(mut_ref)),
;

/// What holds keys of a keyspace.
pub trait TruncateKeyspace: Sized {
    /// Every key that has to be cut is long enough to hold a prefix.
    spec fn truncatable(self, keyspace: Keyspace) -> bool;

    /// `result` is `self` with its keys stripped of the prefix.
    spec fn truncates_to(self, keyspace: Keyspace, result: Self) -> bool;

    /// Strip the prefix of the keyspace from the keys.
    fn truncate_keyspace(self, keyspace: Keyspace) -> (r: Self)
        requires
            self.truncatable(keyspace),
        ensures
            self.truncates_to(keyspace, r),
    ;
}

impl TruncateKeyspace for Key {
    open spec fn truncatable(self, keyspace: Keyspace) -> bool {
        true
    }

    open spec fn truncates_to(self, keyspace: Keyspace, result: Self) -> bool {
        result@ == truncate_key(self@, keyspace)
    }

    fn truncate_keyspace(self, keyspace: Keyspace) -> (r: Self) {
        if let Keyspace::Disable = keyspace {
            return self;
        }
        let mut bytes = self.0;
        pretruncate_bytes::<KEYSPACE_PREFIX_LEN>(&mut bytes);
        Key(bytes)
    }
}

impl TruncateKeyspace for KvPair {
    open spec fn truncatable(self, keyspace: Keyspace) -> bool {
        true
    }

    open spec fn truncates_to(self, keyspace: Keyspace, result: Self) -> bool {
        result.key@ == truncate_key(self.key@, keyspace) && result.value == self.value
    }

    fn truncate_keyspace(self, keyspace: Keyspace) -> (r: Self) {
        KvPair { key: self.key.truncate_keyspace(keyspace), value: self.value }
    }
}

impl TruncateKeyspace for Range<Key> {
    open spec fn truncatable(self, keyspace: Keyspace) -> bool {
        true
    }

    open spec fn truncates_to(self, keyspace: Keyspace, result: Self) -> bool {
        &&& result.start@ == truncate_key(self.start@, keyspace)
        &&& result.end@ == truncate_key(self.end@, keyspace)
    }

    fn truncate_keyspace(self, keyspace: Keyspace) -> (r: Self) {
        Range {
            start: self.start.truncate_keyspace(keyspace),
            end: self.end.truncate_keyspace(keyspace),
        }
    }
}

impl TruncateKeyspace for Vec<Range<Key>> {
    open spec fn truncatable(self, keyspace: Keyspace) -> bool {
        true
    }

    open spec fn truncates_to(self, keyspace: Keyspace, result: Self) -> bool {
        &&& result@.len() == self@.len()
        &&& forall|i: int|
            0 <= i < self@.len() ==> (#[trigger] self@[i]).truncates_to(keyspace, result@[i])
    }

    fn truncate_keyspace(self, keyspace: Keyspace) -> (r: Self) {
        let mut ranges = self;
        let mut i: usize = 0;
        while i < ranges.len()
            invariant
                i <= ranges.len(),
                ranges@.len() == self@.len(),
                forall|k: int|
                    0 <= k < i ==> (#[trigger] self@[k]).truncates_to(keyspace, ranges@[k]),
                forall|k: int| i <= k < ranges@.len() ==> ranges@[k] == self@[k],
            decreases ranges.len() - i,
        {
            take_mut::take(
                &mut ranges[i],
                |range: Range<Key>| -> (r: Range<Key>)
                    ensures
                        range.truncates_to(keyspace, r)
                    { range.truncate_keyspace(keyspace) },
            );
            i = i + 1;
        }
        ranges
    }
}

impl TruncateKeyspace for Vec<KvPair> {
    open spec fn truncatable(self, keyspace: Keyspace) -> bool {
        true
    }

    open spec fn truncates_to(self, keyspace: Keyspace, result: Self) -> bool {
        &&& result@.len() == self@.len()
        &&& forall|i: int|
            0 <= i < self@.len() ==> (#[trigger] self@[i]).truncates_to(keyspace, result@[i])
    }

    fn truncate_keyspace(self, keyspace: Keyspace) -> (r: Self) {
        let mut pairs = self;
        let mut i: usize = 0;
        while i < pairs.len()
            invariant
                i <= pairs.len(),
                pairs@.len() == self@.len(),
                forall|k: int|
                    0 <= k < i ==> (#[trigger] self@[k]).truncates_to(keyspace, pairs@[k]),
                forall|k: int| i <= k < pairs@.len() ==> pairs@[k] == self@[k],
            decreases pairs.len() - i,
        {
            take_mut::take(
                &mut pairs[i],
                |pair: KvPair| -> (r: KvPair)
                    ensures
                        pair.truncates_to(keyspace, r)
                    { pair.truncate_keyspace(keyspace) },
            );
            i = i + 1;
        }
        pairs
    }
}

/// Strip the prefix from a key in place.
pub(crate) fn truncate_bytes(bytes: &mut Vec<u8>, keyspace: Keyspace)
    ensures
        final(bytes)@ == truncate_key(old(bytes)@, keyspace),
{
    take_mut::take(
        bytes,
        |key: Vec<u8>| -> (r: Vec<u8>)
            ensures
                r@ == truncate_key(key@, keyspace)
            { Key::from(key).truncate_keyspace(keyspace).0 },
    );
}

/// Each key without the prefix.
pub open spec fn truncate_keys(keys: Seq<Seq<u8>>, keyspace: Keyspace) -> Seq<Seq<u8>> {
    keys.map_values(|key: Seq<u8>| truncate_key(key, keyspace))
}

pub(crate) fn truncate_all_bytes(keys: &mut Vec<Vec<u8>>, keyspace: Keyspace)
    ensures
        byte_strings(final(keys)@) == truncate_keys(byte_strings(old(keys)@), keyspace),
{
    let ghost before = keys@;
    let mut i: usize = 0;
    while i < keys.len()
        invariant
            i <= keys.len(),
            keys@.len() == before.len(),
            forall|k: int| 0 <= k < i ==> keys@[k]@ == truncate_key(before[k]@, keyspace),
            forall|k: int| i <= k < keys@.len() ==> keys@[k] == before[k],
        decreases keys.len() - i,
    {
        truncate_bytes(&mut keys[i], keyspace);
        i = i + 1;
    }
    assert(byte_strings(keys@) =~= truncate_keys(byte_strings(before), keyspace));
}

impl TruncateKeyspace for kvrpcpb::LockInfo {
    open spec fn truncatable(self, keyspace: Keyspace) -> bool {
        true
    }

    open spec fn truncates_to(self, keyspace: Keyspace, result: Self) -> bool {
        result@ == (kvrpcpb::LockInfoView {
            key: truncate_key(self@.key, keyspace),
            primary_lock: truncate_key(self@.primary_lock, keyspace),
            secondaries: truncate_keys(self@.secondaries, keyspace),
            ..self@
        })
    }

    fn truncate_keyspace(self, keyspace: Keyspace) -> (r: Self) {
        let mut lock = self;
        truncate_bytes(&mut lock.key, keyspace);
        truncate_bytes(&mut lock.primary_lock, keyspace);
        truncate_all_bytes(&mut lock.secondaries, keyspace);
        lock
    }
}

impl TruncateKeyspace for Vec<kvrpcpb::LockInfo> {
    open spec fn truncatable(self, keyspace: Keyspace) -> bool {
        true
    }

    open spec fn truncates_to(self, keyspace: Keyspace, result: Self) -> bool {
        &&& result@.len() == self@.len()
        &&& forall|i: int|
            0 <= i < self@.len() ==> (#[trigger] self@[i]).truncates_to(keyspace, result@[i])
    }

    fn truncate_keyspace(self, keyspace: Keyspace) -> (r: Self) {
        let mut locks = self;
        let mut i: usize = 0;
        while i < locks.len()
            invariant
                i <= locks.len(),
                locks@.len() == self@.len(),
                forall|k: int|
                    0 <= k < i ==> (#[trigger] self@[k]).truncates_to(keyspace, locks@[k]),
                forall|k: int| i <= k < locks@.len() ==> locks@[k] == self@[k],
            decreases locks.len() - i,
        {
            take_mut::take(
                &mut locks[i],
                |lock: kvrpcpb::LockInfo| -> (r: kvrpcpb::LockInfo)
                    ensures
                        lock.truncates_to(keyspace, r)
                    { lock.truncate_keyspace(keyspace) },
            );
            i = i + 1;
        }
        locks
    }
}

/// The value, if there is one, is stripped of the prefix.
pub open spec fn option_truncates_to<T: TruncateKeyspace>(
    before: Option<T>,
    keyspace: Keyspace,
    after: Option<T>,
) -> bool {
    match (before, after) {
        (Some(value), Some(result)) => value.truncates_to(keyspace, result),
        (None, None) => true,
        _ => false,
    }
}

fn truncate_option<T: TruncateKeyspace>(value: Option<T>, keyspace: Keyspace) -> (r: Option<T>)
    requires
        value is Some ==> value->0.truncatable(keyspace),
    ensures
        option_truncates_to(value, keyspace, r),
{
    match value {
        Some(value) => Some(value.truncate_keyspace(keyspace)),
        None => None,
    }
}

impl TruncateKeyspace for kvrpcpb::PrimaryMismatch {
    open spec fn truncatable(self, keyspace: Keyspace) -> bool {
        true
    }

    open spec fn truncates_to(self, keyspace: Keyspace, result: Self) -> bool {
        option_truncates_to(self.lock_info, keyspace, result.lock_info)
    }

    fn truncate_keyspace(self, keyspace: Keyspace) -> (r: Self) {
        kvrpcpb::PrimaryMismatch { lock_info: truncate_option(self.lock_info, keyspace) }
    }
}

impl TruncateKeyspace for kvrpcpb::TxnLockNotFound {
    open spec fn truncatable(self, keyspace: Keyspace) -> bool {
        true
    }

    open spec fn truncates_to(self, keyspace: Keyspace, result: Self) -> bool {
        result.key@ == truncate_key(self.key@, keyspace)
    }

    fn truncate_keyspace(self, keyspace: Keyspace) -> (r: Self) {
        let mut not_found = self;
        truncate_bytes(&mut not_found.key, keyspace);
        not_found
    }
}

impl TruncateKeyspace for kvrpcpb::MvccDebugInfo {
    open spec fn truncatable(self, keyspace: Keyspace) -> bool {
        true
    }

    open spec fn truncates_to(self, keyspace: Keyspace, result: Self) -> bool {
        result.key@ == truncate_key(self.key@, keyspace) && result.mvcc == self.mvcc
    }

    fn truncate_keyspace(self, keyspace: Keyspace) -> (r: Self) {
        let mut info = self;
        truncate_bytes(&mut info.key, keyspace);
        info
    }
}

impl TruncateKeyspace for kvrpcpb::DebugInfo {
    open spec fn truncatable(self, keyspace: Keyspace) -> bool {
        true
    }

    open spec fn truncates_to(self, keyspace: Keyspace, result: Self) -> bool {
        &&& result.mvcc_info@.len() == self.mvcc_info@.len()
        &&& forall|i: int|
            0 <= i < self.mvcc_info@.len() ==> (#[trigger] self.mvcc_info@[i]).truncates_to(
                keyspace,
                result.mvcc_info@[i],
            )
    }

    fn truncate_keyspace(self, keyspace: Keyspace) -> (r: Self) {
        let mut infos: Vec<kvrpcpb::MvccDebugInfo> = Vec::new();
        for info in iter: self.mvcc_info
            invariant
                infos@.len() == iter.index(),
                iter.seq() == self.mvcc_info@,
                forall|k: int|
                    0 <= k < infos@.len() ==> (#[trigger] self.mvcc_info@[k]).truncates_to(
                        keyspace,
                        infos@[k],
                    ),
        {
            infos.push(info.truncate_keyspace(keyspace));
        }
        kvrpcpb::DebugInfo { mvcc_info: infos }
    }
}

impl TruncateKeyspace for kvrpcpb::WriteConflict {
    open spec fn truncatable(self, keyspace: Keyspace) -> bool {
        true
    }

    open spec fn truncates_to(self, keyspace: Keyspace, result: Self) -> bool {
        &&& result.key@ == truncate_key(self.key@, keyspace)
        &&& result.primary@ == truncate_key(self.primary@, keyspace)
        &&& result == (kvrpcpb::WriteConflict { key: result.key, primary: result.primary, ..self })
    }

    fn truncate_keyspace(self, keyspace: Keyspace) -> (r: Self) {
        let mut conflict = self;
        truncate_bytes(&mut conflict.key, keyspace);
        truncate_bytes(&mut conflict.primary, keyspace);
        conflict
    }
}

impl TruncateKeyspace for kvrpcpb::AlreadyExist {
    open spec fn truncatable(self, keyspace: Keyspace) -> bool {
        true
    }

    open spec fn truncates_to(self, keyspace: Keyspace, result: Self) -> bool {
        result.key@ == truncate_key(self.key@, keyspace)
    }

    fn truncate_keyspace(self, keyspace: Keyspace) -> (r: Self) {
        let mut exist = self;
        truncate_bytes(&mut exist.key, keyspace);
        exist
    }
}

impl TruncateKeyspace for kvrpcpb::CommitTsExpired {
    open spec fn truncatable(self, keyspace: Keyspace) -> bool {
        true
    }

    open spec fn truncates_to(self, keyspace: Keyspace, result: Self) -> bool {
        &&& result.key@ == truncate_key(self.key@, keyspace)
        &&& result == (kvrpcpb::CommitTsExpired { key: result.key, ..self })
    }

    fn truncate_keyspace(self, keyspace: Keyspace) -> (r: Self) {
        let mut expired = self;
        truncate_bytes(&mut expired.key, keyspace);
        expired
    }
}

impl TruncateKeyspace for kvrpcpb::TxnNotFound {
    open spec fn truncatable(self, keyspace: Keyspace) -> bool {
        true
    }

    open spec fn truncates_to(self, keyspace: Keyspace, result: Self) -> bool {
        &&& result.primary_key@ == truncate_key(self.primary_key@, keyspace)
        &&& result.start_ts == self.start_ts
    }

    fn truncate_keyspace(self, keyspace: Keyspace) -> (r: Self) {
        let mut not_found = self;
        truncate_bytes(&mut not_found.primary_key, keyspace);
        not_found
    }
}

impl TruncateKeyspace for kvrpcpb::AssertionFailed {
    open spec fn truncatable(self, keyspace: Keyspace) -> bool {
        true
    }

    open spec fn truncates_to(self, keyspace: Keyspace, result: Self) -> bool {
        &&& result.key@ == truncate_key(self.key@, keyspace)
        &&& result == (kvrpcpb::AssertionFailed { key: result.key, ..self })
    }

    fn truncate_keyspace(self, keyspace: Keyspace) -> (r: Self) {
        let mut failed = self;
        truncate_bytes(&mut failed.key, keyspace);
        failed
    }
}

/// The entry is stripped of the prefix.
pub open spec fn wait_entry_truncates_to(
    before: WaitForEntry,
    keyspace: Keyspace,
    after: WaitForEntry,
) -> bool {
    &&& after.key@ == truncate_key(before.key@, keyspace)
    &&& after == (WaitForEntry { key: after.key, ..before })
}

impl TruncateKeyspace for kvrpcpb::Deadlock {
    open spec fn truncatable(self, keyspace: Keyspace) -> bool {
        true
    }

    open spec fn truncates_to(self, keyspace: Keyspace, result: Self) -> bool {
        &&& result.lock_ts == self.lock_ts
        &&& result.lock_key@ == truncate_key(self.lock_key@, keyspace)
        &&& result.deadlock_key_hash == self.deadlock_key_hash
        &&& result.deadlock_key@ == truncate_key(self.deadlock_key@, keyspace)
        &&& result.wait_chain@.len() == self.wait_chain@.len()
        &&& forall|i: int|
            0 <= i < self.wait_chain@.len() ==> wait_entry_truncates_to(
                #[trigger] self.wait_chain@[i],
                keyspace,
                result.wait_chain@[i],
            )
    }

    fn truncate_keyspace(self, keyspace: Keyspace) -> (r: Self) {
        let mut deadlock = self;
        truncate_bytes(&mut deadlock.lock_key, keyspace);
        truncate_bytes(&mut deadlock.deadlock_key, keyspace);
        let mut chain = deadlock.wait_chain;
        let mut i: usize = 0;
        while i < chain.len()
            invariant
                i <= chain.len(),
                chain@.len() == self.wait_chain@.len(),
                forall|k: int|
                    0 <= k < i ==> wait_entry_truncates_to(
                        #[trigger] self.wait_chain@[k],
                        keyspace,
                        chain@[k],
                    ),
                forall|k: int| i <= k < chain@.len() ==> chain@[k] == self.wait_chain@[k],
            decreases chain.len() - i,
        {
            truncate_bytes(&mut chain[i].key, keyspace);
            i = i + 1;
        }
        deadlock.wait_chain = chain;
        deadlock
    }
}

impl TruncateKeyspace for kvrpcpb::KeyError {
    open spec fn truncatable(self, keyspace: Keyspace) -> bool {
        true
    }

    open spec fn truncates_to(self, keyspace: Keyspace, result: Self) -> bool {
        match keyspace {
            Keyspace::Disable => result == self,
            Keyspace::Enable { .. } => {
                &&& option_truncates_to(self.locked, keyspace, result.locked)
                &&& option_truncates_to(self.primary_mismatch, keyspace, result.primary_mismatch)
                &&& option_truncates_to(
                    self.txn_lock_not_found,
                    keyspace,
                    result.txn_lock_not_found,
                )
                &&& option_truncates_to(self.debug_info, keyspace, result.debug_info)
                &&& option_truncates_to(self.conflict, keyspace, result.conflict)
                &&& option_truncates_to(self.already_exist, keyspace, result.already_exist)
                &&& option_truncates_to(self.deadlock, keyspace, result.deadlock)
                &&& option_truncates_to(self.commit_ts_expired, keyspace, result.commit_ts_expired)
                &&& option_truncates_to(self.txn_not_found, keyspace, result.txn_not_found)
                &&& option_truncates_to(self.assertion_failed, keyspace, result.assertion_failed)
                &&& result.retryable == self.retryable
                &&& result.abort == self.abort
                &&& result.commit_ts_too_large == self.commit_ts_too_large
            },
        }
    }

    fn truncate_keyspace(self, keyspace: Keyspace) -> (r: Self) {
        if let Keyspace::Disable = keyspace {
            return self;
        }
        kvrpcpb::KeyError {
            locked: truncate_option(self.locked, keyspace),
            retryable: self.retryable,
            abort: self.abort,
            conflict: truncate_option(self.conflict, keyspace),
            already_exist: truncate_option(self.already_exist, keyspace),
            deadlock: truncate_option(self.deadlock, keyspace),
            commit_ts_expired: truncate_option(self.commit_ts_expired, keyspace),
            txn_not_found: truncate_option(self.txn_not_found, keyspace),
            commit_ts_too_large: self.commit_ts_too_large,
            assertion_failed: truncate_option(self.assertion_failed, keyspace),
            primary_mismatch: truncate_option(self.primary_mismatch, keyspace),
            txn_lock_not_found: truncate_option(self.txn_lock_not_found, keyspace),
            debug_info: truncate_option(self.debug_info, keyspace),
        }
    }
}

} // verus!
