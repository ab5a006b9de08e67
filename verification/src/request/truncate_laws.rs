//! Where errors hold keys of a keyspace, and that these lose their prefix.

use vstd::prelude::*;

use crate::common::errors::{
    AssertionFailedError, DeadlockError, Error, Result, WriteConflictError,
};
use crate::proto::kvrpcpb;
use crate::proto::metapb::byte_strings;
use crate::request::keyspace::Keyspace;
use crate::request::keyspace_laws::is_left_of;
use crate::request::truncate::TruncateKeyspace;
use crate::request::truncate_error::can_truncate_error;

verus! {

/// Each of the keys lost its prefix.
pub open spec fn are_left_of(
    stored: Seq<Seq<u8>>,
    keys: Seq<Seq<u8>>,
    keyspace: Keyspace,
) -> bool {
    keys.len() == stored.len() && forall|i: int|
        0 <= i < keys.len() ==> is_left_of(#[trigger] stored[i], keys[i], keyspace)
}

/// The lock's own key, its primary key and its secondary keys lost their prefix, and nothing else
/// of it changed.
pub open spec fn is_bare_lock(
    lock: kvrpcpb::LockInfo,
    bare: kvrpcpb::LockInfo,
    keyspace: Keyspace,
) -> bool {
    &&& is_left_of(lock.key@, bare.key@, keyspace)
    &&& is_left_of(lock.primary_lock@, bare.primary_lock@, keyspace)
    &&& are_left_of(byte_strings(lock.secondaries@), byte_strings(bare.secondaries@), keyspace)
    &&& bare.lock_version == lock.lock_version
    &&& bare.lock_ttl == lock.lock_ttl
    &&& bare.txn_size == lock.txn_size
    &&& bare.lock_type == lock.lock_type
    &&& bare.lock_for_update_ts == lock.lock_for_update_ts
    &&& bare.use_async_commit == lock.use_async_commit
    &&& bare.min_commit_ts == lock.min_commit_ts
    &&& bare.duration_to_last_update_ms == lock.duration_to_last_update_ms
    &&& bare.is_txn_file == lock.is_txn_file
}

/// The locks came back one by one, in order.
pub open spec fn are_bare_locks(
    locks: Seq<kvrpcpb::LockInfo>,
    bare: Seq<kvrpcpb::LockInfo>,
    keyspace: Keyspace,
) -> bool {
    bare.len() == locks.len() && forall|i: int|
        0 <= i < locks.len() ==> is_bare_lock(#[trigger] locks[i], bare[i], keyspace)
}

/// The keys of a lock lose their prefix.
pub proof fn law_locks_come_back_without_prefixes(
    locks: Vec<kvrpcpb::LockInfo>,
    keyspace: Keyspace,
    r: Vec<kvrpcpb::LockInfo>,
)
    requires
        call_ensures(
            <Vec<kvrpcpb::LockInfo> as TruncateKeyspace>::truncate_keyspace,
            (locks, keyspace),
            r,
        ),
    ensures
        are_bare_locks(locks@, r@, keyspace),
{
    assert forall|i: int| 0 <= i < locks@.len() implies is_bare_lock(
        #[trigger] locks@[i],
        r@[i],
        keyspace,
    ) by {
        lemma_bare_lock(locks@[i], r@[i], keyspace);
    }
}

proof fn lemma_bare_lock(lock: kvrpcpb::LockInfo, bare: kvrpcpb::LockInfo, keyspace: Keyspace)
    requires
        lock.truncates_to(keyspace, bare),
    ensures
        is_bare_lock(lock, bare, keyspace),
{
    assert(bare@.lock_version == bare.lock_version);
}

/// The keys of a conflict lost their prefix.
pub open spec fn is_bare_conflict(
    conflict: kvrpcpb::WriteConflict,
    bare: kvrpcpb::WriteConflict,
    keyspace: Keyspace,
) -> bool {
    &&& is_left_of(conflict.key@, bare.key@, keyspace)
    &&& is_left_of(conflict.primary@, bare.primary@, keyspace)
    &&& bare.start_ts == conflict.start_ts
    &&& bare.conflict_ts == conflict.conflict_ts
    &&& bare.conflict_commit_ts == conflict.conflict_commit_ts
    &&& bare.reason == conflict.reason
}

/// The keys of a deadlock lost their prefix, those of the transactions that wait included.
pub open spec fn is_bare_deadlock(
    deadlock: kvrpcpb::Deadlock,
    bare: kvrpcpb::Deadlock,
    keyspace: Keyspace,
) -> bool {
    &&& is_left_of(deadlock.lock_key@, bare.lock_key@, keyspace)
    &&& is_left_of(deadlock.deadlock_key@, bare.deadlock_key@, keyspace)
    &&& bare.lock_ts == deadlock.lock_ts
    &&& bare.deadlock_key_hash == deadlock.deadlock_key_hash
    &&& bare.wait_chain@.len() == deadlock.wait_chain@.len()
    &&& forall|i: int|
        0 <= i < deadlock.wait_chain@.len() ==> {
            let entry = #[trigger] deadlock.wait_chain@[i];
            let bare_entry = bare.wait_chain@[i];
            &&& is_left_of(entry.key@, bare_entry.key@, keyspace)
            &&& bare_entry.txn == entry.txn
            &&& bare_entry.wait_for_txn == entry.wait_for_txn
            &&& bare_entry.key_hash == entry.key_hash
            &&& bare_entry.resource_group_tag == entry.resource_group_tag
            &&& bare_entry.wait_time == entry.wait_time
        }
}

/// The parts of a key error that hold keys lost their prefix, each of them, and nothing else
/// changed.
pub open spec fn is_bare_key_error(
    error: kvrpcpb::KeyError,
    bare: kvrpcpb::KeyError,
    keyspace: Keyspace,
) -> bool {
    &&& bare.retryable == error.retryable
    &&& bare.abort == error.abort
    &&& bare.commit_ts_too_large == error.commit_ts_too_large
    &&& bare.locked is Some <==> error.locked is Some
    &&& error.locked is Some ==> is_bare_lock(error.locked->0, bare.locked->0, keyspace)
    &&& bare.conflict is Some <==> error.conflict is Some
    &&& error.conflict is Some ==> is_bare_conflict(error.conflict->0, bare.conflict->0, keyspace)
    &&& bare.already_exist is Some <==> error.already_exist is Some
    &&& error.already_exist is Some ==> is_left_of(
        error.already_exist->0.key@,
        bare.already_exist->0.key@,
        keyspace,
    )
    &&& bare.deadlock is Some <==> error.deadlock is Some
    &&& error.deadlock is Some ==> is_bare_deadlock(error.deadlock->0, bare.deadlock->0, keyspace)
    &&& bare.commit_ts_expired is Some <==> error.commit_ts_expired is Some
    &&& error.commit_ts_expired is Some ==> {
        let (expired, left) = (error.commit_ts_expired->0, bare.commit_ts_expired->0);
        &&& is_left_of(expired.key@, left.key@, keyspace)
        &&& left.start_ts == expired.start_ts
        &&& left.attempted_commit_ts == expired.attempted_commit_ts
        &&& left.min_commit_ts == expired.min_commit_ts
    }
    &&& bare.txn_not_found is Some <==> error.txn_not_found is Some
    &&& error.txn_not_found is Some ==> {
        &&& is_left_of(
            error.txn_not_found->0.primary_key@,
            bare.txn_not_found->0.primary_key@,
            keyspace,
        )
        &&& bare.txn_not_found->0.start_ts == error.txn_not_found->0.start_ts
    }
    &&& bare.assertion_failed is Some <==> error.assertion_failed is Some
    &&& error.assertion_failed is Some ==> {
        let (failed, left) = (error.assertion_failed->0, bare.assertion_failed->0);
        &&& is_left_of(failed.key@, left.key@, keyspace)
        &&& left.start_ts == failed.start_ts
        &&& left.assertion == failed.assertion
        &&& left.existing_start_ts == failed.existing_start_ts
        &&& left.existing_commit_ts == failed.existing_commit_ts
    }
    &&& bare.primary_mismatch is Some <==> error.primary_mismatch is Some
    &&& error.primary_mismatch is Some ==> {
        let (lock, left) = (error.primary_mismatch->0.lock_info, bare.primary_mismatch->0.lock_info);
        &&& left is Some <==> lock is Some
        &&& lock is Some ==> is_bare_lock(lock->0, left->0, keyspace)
    }
    &&& bare.txn_lock_not_found is Some <==> error.txn_lock_not_found is Some
    &&& error.txn_lock_not_found is Some ==> is_left_of(
        error.txn_lock_not_found->0.key@,
        bare.txn_lock_not_found->0.key@,
        keyspace,
    )
    &&& bare.debug_info is Some <==> error.debug_info is Some
    &&& error.debug_info is Some ==> {
        let (infos, left) = (error.debug_info->0.mvcc_info@, bare.debug_info->0.mvcc_info@);
        &&& left.len() == infos.len()
        &&& forall|i: int|
            0 <= i < infos.len() ==> {
                &&& is_left_of((#[trigger] infos[i]).key@, left[i].key@, keyspace)
                &&& left[i].mvcc == infos[i].mvcc
            }
    }
}

proof fn lemma_bare_key_error(
    error: kvrpcpb::KeyError,
    bare: kvrpcpb::KeyError,
    keyspace_id: u32,
)
    requires
        error.truncates_to(Keyspace::Enable { keyspace_id }, bare),
    ensures
        is_bare_key_error(error, bare, Keyspace::Enable { keyspace_id }),
{
    let keyspace = Keyspace::Enable { keyspace_id };
    if error.locked is Some {
        lemma_bare_lock(error.locked->0, bare.locked->0, keyspace);
    }
    if error.primary_mismatch is Some && error.primary_mismatch->0.lock_info is Some {
        lemma_bare_lock(
            error.primary_mismatch->0.lock_info->0,
            bare.primary_mismatch->0.lock_info->0,
            keyspace,
        );
    }
    if error.debug_info is Some {
        let (infos, left) = (error.debug_info->0.mvcc_info@, bare.debug_info->0.mvcc_info@);
        assert forall|i: int| 0 <= i < infos.len() implies {
            &&& is_left_of((#[trigger] infos[i]).key@, left[i].key@, keyspace)
            &&& left[i].mvcc == infos[i].mvcc
        } by {
            assert(infos[i].truncates_to(keyspace, left[i]));
        }
    }
    if error.deadlock is Some {
        let (chain, left) = (error.deadlock->0.wait_chain@, bare.deadlock->0.wait_chain@);
        assert forall|i: int| 0 <= i < chain.len() implies is_left_of(
            (#[trigger] chain[i]).key@,
            left[i].key@,
            keyspace,
        ) by {}
    }
}

/// Every part of a key error that holds a key is stripped of the prefix.
pub proof fn law_a_key_error_holds_no_prefix(
    error: kvrpcpb::KeyError,
    keyspace: Keyspace,
    r: kvrpcpb::KeyError,
)
    requires
        call_ensures(<kvrpcpb::KeyError as TruncateKeyspace>::truncate_keyspace, (error, keyspace), r),
    ensures
        keyspace is Disable ==> r == error,
        keyspace is Enable ==> is_bare_key_error(error, r, keyspace),
{
    if let Keyspace::Enable { keyspace_id } = keyspace {
        lemma_bare_key_error(error, r, keyspace_id);
    }
}

/// The errors were stripped one by one, in order.
pub open spec fn are_bare_errors(errors: Seq<Error>, bare: Seq<Error>, keyspace: Keyspace) -> bool {
    bare.len() == errors.len() && forall|i: int|
        0 <= i < errors.len() ==> (#[trigger] errors[i]).truncates_to(keyspace, bare[i])
}

/// A write conflict between transactions is stripped.
pub open spec fn is_bare_write_conflict(
    conflict: WriteConflictError,
    bare: WriteConflictError,
    keyspace: Keyspace,
) -> bool {
    &&& is_left_of(conflict.key@, bare.key@, keyspace)
    &&& is_left_of(conflict.primary@, bare.primary@, keyspace)
    &&& bare.start_ts == conflict.start_ts
    &&& bare.conflict_ts == conflict.conflict_ts
    &&& bare.conflict_commit_ts == conflict.conflict_commit_ts
    &&& bare.reason == conflict.reason
}

/// A failed assertion is stripped.
pub open spec fn is_bare_assertion(
    failed: AssertionFailedError,
    bare: AssertionFailedError,
    keyspace: Keyspace,
) -> bool {
    &&& is_left_of(failed.key@, bare.key@, keyspace)
    &&& bare.start_ts == failed.start_ts
    &&& bare.assertion == failed.assertion
    &&& bare.existing_start_ts == failed.existing_start_ts
    &&& bare.existing_commit_ts == failed.existing_commit_ts
}

/// A deadlock between transactions is stripped.
pub open spec fn is_bare_deadlock_error(
    deadlock: DeadlockError,
    bare: DeadlockError,
    keyspace: Keyspace,
) -> bool {
    &&& is_left_of(deadlock.lock_key@, bare.lock_key@, keyspace)
    &&& is_left_of(deadlock.deadlock_key@, bare.deadlock_key@, keyspace)
    &&& bare.lock_ts == deadlock.lock_ts
    &&& bare.deadlock_key_hash == deadlock.deadlock_key_hash
    &&& bare.wait_chain@.len() == deadlock.wait_chain@.len()
    &&& forall|i: int|
        0 <= i < deadlock.wait_chain@.len() ==> {
            let entry = #[trigger] deadlock.wait_chain@[i];
            let bare_entry = bare.wait_chain@[i];
            &&& is_left_of(entry.key@, bare_entry.key@, keyspace)
            &&& bare_entry.txn == entry.txn
            &&& bare_entry.wait_for_txn == entry.wait_for_txn
            &&& bare_entry.key_hash == entry.key_hash
            &&& bare_entry.resource_group_tag == entry.resource_group_tag
            &&& bare_entry.wait_time_ms == entry.wait_time_ms
        }
}

/// The error is of a kind that holds keys, itself or in the errors that it is made of.
pub open spec fn may_hold_keys(error: Error) -> bool {
    ||| error is RegionError
    ||| error is WriteConflict
    ||| error is Deadlock
    ||| error is KeyExists
    ||| error is AssertionFailed
    ||| error is ResolveLockError
    ||| error is KeyError
    ||| error is PessimisticLockError
    ||| error is UndeterminedError
    ||| error is MultipleKeyErrors
    ||| error is ExtractedErrors
}

/// An error stays of its kind in a keyspace, and the keys that it holds lose their prefix, at any
/// depth. An error without keys stays as it is.
pub proof fn law_an_error_holds_no_prefix(error: Error, keyspace: Keyspace, r: Error)
    requires
        call_ensures(<Error as TruncateKeyspace>::truncate_keyspace, (error, keyspace), r),
    ensures
        keyspace is Disable || !may_hold_keys(error) ==> r == error,
        keyspace is Enable ==> {
            &&& error matches Error::RegionError(e) ==> (r matches Error::RegionError(b)
                && e.truncates_to(keyspace, *b))
            &&& error matches Error::WriteConflict(e) ==> (r matches Error::WriteConflict(b)
                && is_bare_write_conflict(e, b, keyspace))
            &&& error matches Error::Deadlock(e) ==> (r matches Error::Deadlock(b)
                && is_bare_deadlock_error(e, b, keyspace))
            &&& error matches Error::KeyExists(e) ==> (r matches Error::KeyExists(b)
                && is_left_of(e.key@, b.key@, keyspace))
            &&& error matches Error::AssertionFailed(e) ==> (r matches Error::AssertionFailed(b)
                && is_bare_assertion(e, b, keyspace))
            &&& error matches Error::ResolveLockError(e) ==> (r matches Error::ResolveLockError(b)
                && are_bare_locks(e@, b@, keyspace))
            &&& error matches Error::KeyError(e) ==> (r matches Error::KeyError(b)
                && is_bare_key_error(*e, *b, keyspace))
            &&& error matches Error::PessimisticLockError { inner, success_keys } ==> (
            r matches Error::PessimisticLockError { inner: bare, success_keys: keys }
                && inner.truncates_to(keyspace, *bare) && are_left_of(
                byte_strings(success_keys@),
                byte_strings(keys@),
                keyspace,
            ))
            &&& error matches Error::UndeterminedError(e) ==> (r matches Error::UndeterminedError(b)
                && e.truncates_to(keyspace, *b))
            &&& error matches Error::MultipleKeyErrors(e) ==> (r matches Error::MultipleKeyErrors(b)
                && are_bare_errors(e@, b@, keyspace))
            &&& error matches Error::ExtractedErrors(e) ==> (r matches Error::ExtractedErrors(b)
                && are_bare_errors(e@, b@, keyspace))
        },
{
    match (keyspace, error) {
        (Keyspace::Enable { keyspace_id }, Error::KeyError(e)) => {
            lemma_bare_key_error(*e, *r->KeyError_0, keyspace_id);
        },
        (Keyspace::Enable { .. }, Error::ResolveLockError(locks)) => {
            let bare = r->ResolveLockError_0;
            assert forall|i: int| 0 <= i < locks@.len() implies is_bare_lock(
                #[trigger] locks@[i],
                bare@[i],
                keyspace,
            ) by {
                lemma_bare_lock(locks@[i], bare@[i], keyspace);
            }
        },
        (Keyspace::Enable { .. }, Error::MultipleKeyErrors(errors)) => {
            let bare = r->MultipleKeyErrors_0;
            assert forall|i: int| 0 <= i < errors@.len() implies (
            #[trigger] errors@[i]).truncates_to(keyspace, bare@[i]) by {}
        },
        (Keyspace::Enable { .. }, Error::ExtractedErrors(errors)) => {
            let bare = r->ExtractedErrors_0;
            assert forall|i: int| 0 <= i < errors@.len() implies (
            #[trigger] errors@[i]).truncates_to(keyspace, bare@[i]) by {}
        },
        _ => {},
    }
}

/// What goes well stays as it is in a keyspace, and what fails stays a failure, whose error is
/// stripped.
pub proof fn law_only_a_failure_is_stripped<T>(result: Result<T>, keyspace: Keyspace, r: Result<T>)
    requires
        call_ensures(<Result<T> as TruncateKeyspace>::truncate_keyspace, (result, keyspace), r),
    ensures
        result is Ok ==> r == result,
        result is Err ==> r is Err && result->Err_0.truncates_to(keyspace, r->Err_0),
{
}

/// Only region errors can hold keys that are too short to be stripped, directly or in the errors
/// that an error is made of.
pub proof fn law_which_errors_can_be_stripped(error: &Error, keyspace: Keyspace, r: bool)
    requires
        call_ensures(can_truncate_error, (error, keyspace), r),
    ensures
        !may_hold_keys(*error) ==> r,
        error matches Error::RegionError(e) ==> r == e.truncatable(keyspace),
        error matches Error::PessimisticLockError { inner, .. } ==> r == inner.truncatable(keyspace),
        error matches Error::UndeterminedError(inner) ==> r == inner.truncatable(keyspace),
        error matches Error::MultipleKeyErrors(errors) ==> r == (forall|i: int|
            0 <= i < errors@.len() ==> (#[trigger] errors@[i]).truncatable(keyspace)),
        error matches Error::ExtractedErrors(errors) ==> r == (forall|i: int|
            0 <= i < errors@.len() ==> (#[trigger] errors@[i]).truncatable(keyspace)),
        *error is WriteConflict || *error is Deadlock || *error is KeyExists
            || *error is AssertionFailed || *error is ResolveLockError || *error is KeyError ==> r,
{
    match *error {
        Error::MultipleKeyErrors(errors) => {
            assert(r ==> forall|i: int|
                0 <= i < errors@.len() ==> (#[trigger] errors@[i]).truncatable(keyspace));
        },
        _ => {},
    }
}

} // verus!
