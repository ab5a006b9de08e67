//! What errors are made of, and what is found in them.

use vstd::prelude::*;

use crate::common::errors::{
    all_details, details, key_error_debug, region_error_debug, AssertionFailedError, AssertionKind,
    DeadlockError, Error, KeyExistsError, Leaf, WriteConflictError, WriteConflictReason,
};
use crate::common::text::{byte_list, decimal};
use crate::proto::errorpb;
use crate::proto::kvrpcpb;

verus! {

/// The reasons for a write conflict by their numbers; any other number is that of an unknown one.
pub proof fn law_the_numbers_of_reasons(number: i32, r: WriteConflictReason)
    requires
        call_ensures(<WriteConflictReason as From<i32>>::from, (number,), r),
    ensures
        r == WriteConflictReason::Optimistic <==> number == 1,
        r == WriteConflictReason::PessimisticRetry <==> number == 2,
        r == WriteConflictReason::SelfRolledBack <==> number == 3,
        r == WriteConflictReason::RcCheckTs <==> number == 4,
        r == WriteConflictReason::LazyUniquenessCheck <==> number == 5,
        r == WriteConflictReason::NotLockedKeyConflict <==> number == 6,
        r == WriteConflictReason::Unknown <==> number < 1 || number > 6,
{
}

/// The assertions by their numbers; any other number is that of none.
pub proof fn law_the_numbers_of_assertions(number: i32, r: AssertionKind)
    requires
        call_ensures(<AssertionKind as From<i32>>::from, (number,), r),
    ensures
        r == AssertionKind::Exist <==> number == 1,
        r == AssertionKind::NotExist <==> number == 2,
        r == AssertionKind::NoAssertion <==> number != 1 && number != 2,
{
}

/// The names of reasons and of assertions.
pub proof fn law_the_names_of_reasons_and_assertions(
    reason: &WriteConflictReason,
    reason_name: &'static str,
    assertion: &AssertionKind,
    assertion_name: &'static str,
)
    requires
        call_ensures(WriteConflictReason::as_str, (reason,), reason_name),
        call_ensures(AssertionKind::as_str, (assertion,), assertion_name),
    ensures
        *reason == WriteConflictReason::Unknown ==> reason_name@ == "unknown"@,
        *reason == WriteConflictReason::Optimistic ==> reason_name@ == "optimistic"@,
        *reason == WriteConflictReason::PessimisticRetry ==> reason_name@ == "pessimistic_retry"@,
        *reason == WriteConflictReason::SelfRolledBack ==> reason_name@ == "self_rolled_back"@,
        *reason == WriteConflictReason::RcCheckTs ==> reason_name@ == "rc_check_ts"@,
        *reason == WriteConflictReason::LazyUniquenessCheck ==> reason_name@
            == "lazy_uniqueness_check"@,
        *reason == WriteConflictReason::NotLockedKeyConflict ==> reason_name@
            == "not_locked_key_conflict"@,
        *assertion == AssertionKind::NoAssertion ==> assertion_name@ == "none"@,
        *assertion == AssertionKind::Exist ==> assertion_name@ == "exist"@,
        *assertion == AssertionKind::NotExist ==> assertion_name@ == "not_exist"@,
{
}

/// The error tells of the conflict.
pub open spec fn tells_of_conflict(
    error: WriteConflictError,
    conflict: kvrpcpb::WriteConflict,
) -> bool {
    &&& error.start_ts == conflict.start_ts
    &&& error.conflict_ts == conflict.conflict_ts
    &&& error.conflict_commit_ts == conflict.conflict_commit_ts
    &&& error.key@ == conflict.key@
    &&& error.primary@ == conflict.primary@
    &&& error.reason == WriteConflictReason::Optimistic <==> conflict.reason == 1
    &&& error.reason == WriteConflictReason::PessimisticRetry <==> conflict.reason == 2
    &&& error.reason == WriteConflictReason::SelfRolledBack <==> conflict.reason == 3
    &&& error.reason == WriteConflictReason::RcCheckTs <==> conflict.reason == 4
    &&& error.reason == WriteConflictReason::LazyUniquenessCheck <==> conflict.reason == 5
    &&& error.reason == WriteConflictReason::NotLockedKeyConflict <==> conflict.reason == 6
}

/// The error tells of the failed assertion.
pub open spec fn tells_of_assertion(
    error: AssertionFailedError,
    failed: kvrpcpb::AssertionFailed,
) -> bool {
    &&& error.start_ts == failed.start_ts
    &&& error.key@ == failed.key@
    &&& error.existing_start_ts == failed.existing_start_ts
    &&& error.existing_commit_ts == failed.existing_commit_ts
    &&& error.assertion == AssertionKind::Exist <==> failed.assertion == 1
    &&& error.assertion == AssertionKind::NotExist <==> failed.assertion == 2
}

/// The error tells of the deadlock, with all who wait in it.
pub open spec fn tells_of_deadlock(error: DeadlockError, deadlock: kvrpcpb::Deadlock) -> bool {
    &&& error.lock_ts == deadlock.lock_ts
    &&& error.lock_key@ == deadlock.lock_key@
    &&& error.deadlock_key_hash == deadlock.deadlock_key_hash
    &&& error.deadlock_key@ == deadlock.deadlock_key@
    &&& error.wait_chain@.len() == deadlock.wait_chain@.len()
    &&& forall|i: int|
        0 <= i < deadlock.wait_chain@.len() ==> {
            let waits = #[trigger] error.wait_chain@[i];
            let entry = deadlock.wait_chain@[i];
            &&& waits.txn == entry.txn
            &&& waits.wait_for_txn == entry.wait_for_txn
            &&& waits.key_hash == entry.key_hash
            &&& waits.key@ == entry.key@
            &&& waits.resource_group_tag@ == entry.resource_group_tag@
            &&& waits.wait_time_ms == entry.wait_time
        }
}

/// A key error stands for a write conflict if it tells of one. Else it stands for the first that it
/// tells of among a retry, a failed assertion, an existing key, a deadlock, an abort, a commit
/// timestamp that is too large and an unknown transaction; and for itself if it tells of none.
pub proof fn law_what_a_key_error_stands_for(e: kvrpcpb::KeyError, r: Error)
    requires
        call_ensures(<Error as From<kvrpcpb::KeyError>>::from, (e,), r),
    ensures
        ({
            let conflict = e.conflict is Some;
            let retry = !conflict && e.retryable@.len() > 0;
            let asserted = !conflict && !retry && e.assertion_failed is Some;
            let there = !conflict && !retry && !asserted && e.already_exist is Some;
            let deadlock = !conflict && !retry && !asserted && !there && e.deadlock is Some;
            let aborted = !conflict && !retry && !asserted && !there && !deadlock && e.abort@.len()
                > 0;
            let too_large = !conflict && !retry && !asserted && !there && !deadlock && !aborted
                && e.commit_ts_too_large is Some;
            let unknown = !conflict && !retry && !asserted && !there && !deadlock && !aborted
                && !too_large && e.txn_not_found is Some;
            let told = conflict || retry || asserted || there || deadlock || aborted || too_large
                || unknown;
            &&& r is WriteConflict <==> conflict
            &&& conflict ==> tells_of_conflict(r->WriteConflict_0, e.conflict->0)
            &&& r is Retryable <==> retry
            &&& retry ==> r->Retryable_message@ == e.retryable@
            &&& r is AssertionFailed <==> asserted
            &&& asserted ==> tells_of_assertion(r->AssertionFailed_0, e.assertion_failed->0)
            &&& r is KeyExists <==> there
            &&& there ==> r->KeyExists_0.key@ == e.already_exist->0.key@
            &&& r is Deadlock <==> deadlock
            &&& deadlock ==> tells_of_deadlock(r->Deadlock_0, e.deadlock->0)
            &&& r is TxnAborted <==> aborted
            &&& aborted ==> r->TxnAborted_message@ == e.abort@
            &&& r is CommitTsTooLarge <==> too_large
            &&& too_large ==> r->CommitTsTooLarge_commit_ts == e.commit_ts_too_large->0.commit_ts
            &&& r is TxnNotFound <==> unknown
            &&& unknown ==> r->TxnNotFound_start_ts == e.txn_not_found->0.start_ts
            &&& r is KeyError <==> !told
            &&& !told ==> *r->KeyError_0 == e
        }),
{
}

/// A region error stands for itself.
pub proof fn law_what_a_region_error_stands_for(e: errorpb::Error, r: Error)
    requires
        call_ensures(<Error as From<errorpb::Error>>::from, (e,), r),
    ensures
        r is RegionError,
        *r->RegionError_0 == e,
{
}

/// The error is made of others.
pub open spec fn is_made_of_others(error: Error) -> bool {
    ||| error is UndeterminedError
    ||| error is PessimisticLockError
    ||| error is MultipleKeyErrors
    ||| error is ExtractedErrors
}

/// The answer to a question about an error that is made of others is the answer for one of these.
pub open spec fn is_found_inside(error: Error, leaf: Leaf) -> bool {
    match error {
        Error::UndeterminedError(inner) => inner.reaches(leaf),
        Error::PessimisticLockError { inner, .. } => inner.reaches(leaf),
        Error::MultipleKeyErrors(errors) => exists|i: int|
            0 <= i < errors@.len() && (#[trigger] errors@[i]).reaches(leaf),
        Error::ExtractedErrors(errors) => exists|i: int|
            0 <= i < errors@.len() && (#[trigger] errors@[i]).reaches(leaf),
        _ => false,
    }
}

/// An error is of a kind if it is so itself, or if it is made of others and one of them is.
pub proof fn law_which_errors_are_found(
    error: &Error,
    write_conflict: bool,
    deadlock: bool,
    key_exists: bool,
    assertion_failed: bool,
    undetermined: bool,
)
    requires
        call_ensures(Error::is_write_conflict, (error,), write_conflict),
        call_ensures(Error::is_deadlock, (error,), deadlock),
        call_ensures(Error::is_key_exists, (error,), key_exists),
        call_ensures(Error::is_assertion_failed, (error,), assertion_failed),
        call_ensures(Error::is_undetermined, (error,), undetermined),
    ensures
        !is_made_of_others(*error) ==> {
            &&& write_conflict <==> *error is WriteConflict
            &&& deadlock <==> *error is Deadlock
            &&& key_exists <==> *error is KeyExists
            &&& assertion_failed <==> *error is AssertionFailed
            &&& !undetermined
        },
        is_made_of_others(*error) ==> {
            &&& write_conflict <==> is_found_inside(*error, Leaf::WriteConflict)
            &&& deadlock <==> is_found_inside(*error, Leaf::Deadlock)
            &&& key_exists <==> is_found_inside(*error, Leaf::KeyExists)
            &&& assertion_failed <==> is_found_inside(*error, Leaf::AssertionFailed)
            &&& undetermined <==> *error is UndeterminedError || is_found_inside(
                *error,
                Leaf::Undetermined,
            )
        },
{
    match *error {
        Error::MultipleKeyErrors(errors) => {
            assert(write_conflict == exists|i: int|
                0 <= i < errors@.len() && (#[trigger] errors@[i]).reaches(Leaf::WriteConflict));
        },
        _ => {},
    }
}

/// What is found in an error itself is what the questions find.
pub proof fn law_what_is_looked_for(error: Error)
    ensures
        error is WriteConflict ==> error.reaches(Leaf::WriteConflict),
        error is Deadlock ==> error.reaches(Leaf::Deadlock),
        error is KeyExists ==> error.reaches(Leaf::KeyExists),
        error is AssertionFailed ==> error.reaches(Leaf::AssertionFailed),
        error is UndeterminedError ==> error.reaches(Leaf::Undetermined),
{
}

/// What errors say: each its own phrase, with the numbers, texts and errors that it holds.
pub proof fn law_what_errors_say(error: &Error, r: String)
    requires
        call_ensures(Error::to_string, (error,), r),
    ensures
        *error is Unimplemented ==> r@ == "Unimplemented feature"@,
        *error is DuplicateKeyInsertion ==> r@ == "Duplicate key insertion"@,
        *error is ResourceGroupThrottled ==> r@ == "resource group throttled"@,
        *error is InvalidTransactionType ==> r@ == "Invalid operation for this type of transaction"@,
        *error is OperationAfterCommitError ==> r@ == "Cannot read or write data after any attempt to commit or roll back the transaction"@,
        *error is OnePcFailure ==> r@ == "1PC transaction could not be committed."@,
        *error is NoPrimaryKey ==> r@ == "transaction has no primary key"@,
        *error is UnsupportedMode ==> r@ == "The operation is not supported in current mode, please consider using RawClient with or without atomic mode"@,
        *error is NoCurrentRegions ==> r@ == "There is no current_regions in the EpochNotMatch error"@,
        *error is EntryNotFoundInRegionCache ==> r@ == "The specified entry is not found in the region cache"@,
        *error is ResolveLockError ==> r@ == "Failed to resolve lock"@,
        *error is LockWaitTimeout ==> r@ == "Lock wait timeout exceeded; try restarting transaction"@,
        *error is UndeterminedError ==> r@ == "Whether the transaction is committed or not is undetermined"@,
        *error is JoinError ==> r@ == "Failed to join tokio tasks"@,
        *error matches Error::WriteConflict(e) ==> r@ == "Write conflict: "@ + e.text(),
        *error matches Error::Deadlock(e) ==> r@ == "Deadlock: "@ + e.text(),
        *error matches Error::KeyExists(e) ==> r@ == "Key already exists: "@ + e.text(),
        *error matches Error::AssertionFailed(e) ==> r@ == "Assertion failed: "@ + e.text(),
        *error matches Error::Retryable { message } ==> r@ == "Retryable error: "@ + message@,
        *error matches Error::TxnAborted { message } ==> r@ == "TiKV aborts txn: "@ + message@,
        *error matches Error::InvalidPipelinedTransaction { message } ==> r@ == "Invalid pipelined transaction: "@ + message@,
        *error matches Error::InvalidPessimisticLockOptions { message } ==> r@ == "Invalid pessimistic lock options: "@ + message@,
        *error matches Error::Io(e) ==> r@ == "IO error: "@ + e.text@,
        *error matches Error::Channel(e) ==> r@ == "tokio channel error: "@ + e.text@,
        *error matches Error::Grpc(e) ==> r@ == "gRPC error: "@ + e.text@,
        *error matches Error::Url(e) ==> r@ == "url error: "@ + e.text@,
        *error matches Error::Canceled(e) ==> r@ == "A futures oneshot channel was canceled. "@ + e.text@,
        *error matches Error::ColumnFamilyError(message) ==> r@ == "Unsupported column family "@ + message@,
        *error matches Error::InvalidSemver(e) ==> r@ == "Invalid Semver string: "@ + e.details@,
        *error matches Error::KvError { message } ==> r@ == "Kv error. "@ + message@,
        *error matches Error::KeyspaceNotFound(message) ==> r@ == "Keyspace not found: "@ + message@,
        *error matches Error::GrpcAPI(status) ==> r@ == "gRPC api error: "@ + status.text@,
        *error matches Error::InternalError { message } ==> r@ == message@,
        *error matches Error::StringError(message) ==> r@ == message@,
        *error matches Error::CommitTsTooLarge { commit_ts } ==> r@ == "Commit TS "@ + decimal(commit_ts as nat) + " is too large"@,
        *error matches Error::CommitTsLag { commit_ts, wait_until_tso } ==> r@ == "Commit TS "@ + decimal(commit_ts as nat) + " is behind commit-wait TSO "@ + decimal(wait_until_tso as nat),
        *error matches Error::TxnNotFound { start_ts } ==> r@ == "Txn "@ + decimal(start_ts as nat) + " not found"@,
        *error matches Error::WriteConflictInLatch { start_ts } ==> r@ == "Transaction is stale while waiting for local latches (start_ts="@ + decimal(start_ts as nat) + ")"@,
        *error matches Error::RegionNotFoundInResponse { region_id } ==> r@ == "Region "@ + decimal(region_id as nat) + " is not found in the response"@,
        *error matches Error::LeaderNotFound { region } ==> r@ == "Leader of region "@ + decimal(region.id as nat) + " is not found"@,
        *error matches Error::MaxScanLimitExceeded { limit, max_limit } ==> r@ == "Limit "@ + decimal(limit as nat) + " exceeds max scan limit "@ + decimal(max_limit as nat),
        *error matches Error::RegionError(e) ==> r@ == "Region error: "@ + region_error_debug(*e),
        *error matches Error::KeyError(e) ==> r@ == key_error_debug(*e),
        *error matches Error::ExtractedErrors(errors) ==> r@ == "Multiple errors: "@ + "["@ + all_details(errors, errors@.len()) + "]"@,
        *error matches Error::MultipleKeyErrors(errors) ==> r@ == "Multiple key errors: "@ + "["@ + all_details(errors, errors@.len()) + "]"@,
        *error matches Error::RegionForKeyNotFound { key } ==> r@ == "Region is not found for key: "@ + byte_list(key@),
        *error matches Error::RegionForRangeNotFound { range } ==> r@ == "Region is not found for range: "@ + range.text(),
        *error matches Error::PessimisticLockError { inner, .. } ==> r@ == "PessimisticLock error: "@ + details(*inner),
{
}

/// What the errors of keys say: timestamps and reasons, but only the lengths of keys.
pub proof fn law_what_errors_of_keys_say(
    conflict: &WriteConflictError,
    conflict_text: String,
    there: &KeyExistsError,
    there_text: String,
    failed: &AssertionFailedError,
    failed_text: String,
    deadlock: &DeadlockError,
    deadlock_text: String,
)
    requires
        call_ensures(WriteConflictError::to_string, (conflict,), conflict_text),
        call_ensures(KeyExistsError::to_string, (there,), there_text),
        call_ensures(AssertionFailedError::to_string, (failed,), failed_text),
        call_ensures(DeadlockError::to_string, (deadlock,), deadlock_text),
    ensures
        conflict_text@ == "start_ts="@ + decimal(conflict.start_ts as nat) + ", conflict_ts="@
            + decimal(conflict.conflict_ts as nat) + ", conflict_commit_ts="@ + decimal(
            conflict.conflict_commit_ts as nat,
        ) + ", reason="@ + conflict.reason.name() + ", key_len="@ + decimal(conflict.key@.len()),
        there_text@ == "key_len="@ + decimal(there.key@.len()),
        failed_text@ == "start_ts="@ + decimal(failed.start_ts as nat) + ", assertion="@
            + failed.assertion.name() + ", key_len="@ + decimal(failed.key@.len())
            + ", existing_start_ts="@ + decimal(failed.existing_start_ts as nat)
            + ", existing_commit_ts="@ + decimal(failed.existing_commit_ts as nat),
        deadlock_text@ == "lock_ts="@ + decimal(deadlock.lock_ts as nat) + ", lock_key_len="@
            + decimal(deadlock.lock_key@.len()) + ", deadlock_key_len="@ + decimal(
            deadlock.deadlock_key@.len(),
        ) + ", wait_chain_len="@ + decimal(deadlock.wait_chain@.len()),
{
}

} // verus!
