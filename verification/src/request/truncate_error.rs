//! Errors as a keyspace sees them.

use vstd::prelude::*;

use crate::common::errors::{
    AssertionFailedError, DeadlockError, DeadlockWaitForEntry, Error, WriteConflictError,
};
use crate::proto::metapb::byte_strings;
use crate::request::keyspace::{truncate_key, Keyspace};
use crate::request::truncate::{
    truncate_all_bytes, truncate_bytes, truncate_keys, TruncateKeyspace,
};
use crate::request::truncate_epoch::can_truncate_region_error;

verus! {

/// Every key in the error that has to be cut is long enough to hold a prefix.
pub open spec fn error_truncatable(error: Error, keyspace: Keyspace) -> bool
    decreases error,
{
    match error {
        Error::RegionError(e) => e.truncatable(keyspace),
        Error::PessimisticLockError { inner, .. } => error_truncatable(*inner, keyspace),
        Error::UndeterminedError(inner) => error_truncatable(*inner, keyspace),
        Error::MultipleKeyErrors(errors) => forall|i: int|
            0 <= i < errors@.len() ==> error_truncatable(#[trigger] errors@[i], keyspace),
        Error::ExtractedErrors(errors) => forall|i: int|
            0 <= i < errors@.len() ==> error_truncatable(#[trigger] errors@[i], keyspace),
        _ => true,
    }
}

/// The conflict is stripped of the prefix.
pub open spec fn conflict_truncates_to(
    before: WriteConflictError,
    keyspace: Keyspace,
    after: WriteConflictError,
) -> bool {
    &&& after.key@ == truncate_key(before.key@, keyspace)
    &&& after.primary@ == truncate_key(before.primary@, keyspace)
    &&& after == (WriteConflictError { key: after.key, primary: after.primary, ..before })
}

/// The entry is stripped of the prefix.
pub open spec fn entry_truncates_to(
    before: DeadlockWaitForEntry,
    keyspace: Keyspace,
    after: DeadlockWaitForEntry,
) -> bool {
    &&& after.key@ == truncate_key(before.key@, keyspace)
    &&& after == (DeadlockWaitForEntry { key: after.key, ..before })
}

/// The deadlock is stripped of the prefix.
pub open spec fn deadlock_truncates_to(
    before: DeadlockError,
    keyspace: Keyspace,
    after: DeadlockError,
) -> bool {
    &&& after.lock_ts == before.lock_ts
    &&& after.lock_key@ == truncate_key(before.lock_key@, keyspace)
    &&& after.deadlock_key_hash == before.deadlock_key_hash
    &&& after.deadlock_key@ == truncate_key(before.deadlock_key@, keyspace)
    &&& after.wait_chain@.len() == before.wait_chain@.len()
    &&& forall|i: int|
        0 <= i < before.wait_chain@.len() ==> entry_truncates_to(
            #[trigger] before.wait_chain@[i],
            keyspace,
            after.wait_chain@[i],
        )
}

/// The failure is stripped of the prefix.
pub open spec fn assertion_truncates_to(
    before: AssertionFailedError,
    keyspace: Keyspace,
    after: AssertionFailedError,
) -> bool {
    &&& after.key@ == truncate_key(before.key@, keyspace)
    &&& after == (AssertionFailedError { key: after.key, ..before })
}

/// `after` is `before` with every key in it, at any depth, stripped of the prefix.
pub open spec fn error_truncates_to(before: Error, keyspace: Keyspace, after: Error) -> bool
    decreases before,
{
    if keyspace == Keyspace::Disable {
        after == before
    } else {
        match before {
            Error::RegionError(e) => {
                &&& after matches Error::RegionError(r)
                &&& e.truncates_to(keyspace, *r)
            },
            Error::WriteConflict(e) => {
                &&& after matches Error::WriteConflict(r)
                &&& conflict_truncates_to(e, keyspace, r)
            },
            Error::Deadlock(e) => {
                &&& after matches Error::Deadlock(r)
                &&& deadlock_truncates_to(e, keyspace, r)
            },
            Error::KeyExists(e) => {
                &&& after matches Error::KeyExists(r)
                &&& r.key@ == truncate_key(e.key@, keyspace)
            },
            Error::AssertionFailed(e) => {
                &&& after matches Error::AssertionFailed(r)
                &&& assertion_truncates_to(e, keyspace, r)
            },
            Error::ResolveLockError(locks) => {
                &&& after matches Error::ResolveLockError(r)
                &&& locks.truncates_to(keyspace, r)
            },
            Error::KeyError(e) => {
                &&& after matches Error::KeyError(r)
                &&& e.truncates_to(keyspace, *r)
            },
            Error::PessimisticLockError { inner, success_keys } => {
                &&& after matches Error::PessimisticLockError { inner: r, success_keys: keys }
                &&& error_truncates_to(*inner, keyspace, *r)
                &&& byte_strings(keys@) == truncate_keys(byte_strings(success_keys@), keyspace)
            },
            Error::UndeterminedError(inner) => {
                &&& after matches Error::UndeterminedError(r)
                &&& error_truncates_to(*inner, keyspace, *r)
            },
            Error::MultipleKeyErrors(errors) => {
                &&& after matches Error::MultipleKeyErrors(r)
                &&& r@.len() == errors@.len()
                &&& forall|i: int|
                    0 <= i < errors@.len() ==> error_truncates_to(
                        #[trigger] errors@[i],
                        keyspace,
                        r@[i],
                    )
            },
            Error::ExtractedErrors(errors) => {
                &&& after matches Error::ExtractedErrors(r)
                &&& r@.len() == errors@.len()
                &&& forall|i: int|
                    0 <= i < errors@.len() ==> error_truncates_to(
                        #[trigger] errors@[i],
                        keyspace,
                        r@[i],
                    )
            },
            _ => after == before,
        }
    }
}

fn truncate_deadlock(deadlock: DeadlockError, keyspace: Keyspace) -> (r: DeadlockError)
    ensures
        deadlock_truncates_to(deadlock, keyspace, r),
{
    let mut r = deadlock;
    truncate_bytes(&mut r.lock_key, keyspace);
    truncate_bytes(&mut r.deadlock_key, keyspace);
    let mut chain = r.wait_chain;
    let mut i: usize = 0;
    while i < chain.len()
        invariant
            i <= chain.len(),
            chain@.len() == deadlock.wait_chain@.len(),
            forall|k: int|
                0 <= k < i ==> entry_truncates_to(
                    #[trigger] deadlock.wait_chain@[k],
                    keyspace,
                    chain@[k],
                ),
            forall|k: int| i <= k < chain@.len() ==> chain@[k] == deadlock.wait_chain@[k],
        decreases chain.len() - i,
    {
        truncate_bytes(&mut chain[i].key, keyspace);
        i = i + 1;
    }
    r.wait_chain = chain;
    r
}

fn can_truncate_errors(errors: &Vec<Error>, keyspace: Keyspace) -> (r: bool)
    ensures
        r == forall|i: int|
            0 <= i < errors@.len() ==> error_truncatable(#[trigger] errors@[i], keyspace),
    decreases *errors, 0int,
{
    let mut i: usize = 0;
    while i < errors.len()
        invariant
            i <= errors.len(),
            forall|k: int| 0 <= k < i ==> error_truncatable(#[trigger] errors@[k], keyspace),
        decreases errors.len() - i,
    {
        proof {
            assert(decreases_to!(*errors => errors@));
            assert(decreases_to!(errors@ => errors@[i as int]));
        }
        if !can_truncate_error(&errors[i], keyspace) {
            return false;
        }
        i = i + 1;
    }
    true
}

/// Whether every key in the error that has to be cut is long enough to hold a prefix.
pub fn can_truncate_error(error: &Error, keyspace: Keyspace) -> (r: bool)
    ensures
        r == error_truncatable(*error, keyspace),
    decreases *error, 1int,
{
    match error {
        Error::RegionError(e) => can_truncate_region_error(e, keyspace),
        Error::PessimisticLockError { inner, .. } => can_truncate_error(inner, keyspace),
        Error::UndeterminedError(inner) => can_truncate_error(inner, keyspace),
        Error::MultipleKeyErrors(errors) => can_truncate_errors(errors, keyspace),
        Error::ExtractedErrors(errors) => can_truncate_errors(errors, keyspace),
        _ => true,
    }
}

fn truncate_errors(errors: Vec<Error>, keyspace: Keyspace) -> (r: Vec<Error>)
    requires
        keyspace != Keyspace::Disable,
        forall|i: int|
            0 <= i < errors@.len() ==> error_truncatable(#[trigger] errors@[i], keyspace),
    ensures
        r@.len() == errors@.len(),
        forall|i: int|
            0 <= i < errors@.len() ==> error_truncates_to(
                #[trigger] errors@[i],
                keyspace,
                r@[i],
            ),
    decreases errors, 0int,
{
    let mut out: Vec<Error> = Vec::new();
    for error in iter: errors
        invariant
            out@.len() == iter.index(),
            iter.seq() == errors@,
            keyspace != Keyspace::Disable,
            forall|i: int|
                0 <= i < errors@.len() ==> error_truncatable(#[trigger] errors@[i], keyspace),
            forall|i: int|
                0 <= i < out@.len() ==> error_truncates_to(
                    #[trigger] errors@[i],
                    keyspace,
                    out@[i],
                ),
    {
        proof {
            assert(decreases_to!(errors => errors@));
            assert(decreases_to!(errors@ => errors@[iter.index() as int]));
            assert(error == errors@[iter.index() as int]);
        }
        out.push(truncate_error(error, keyspace));
    }
    out
}

fn truncate_error(error: Error, keyspace: Keyspace) -> (r: Error)
    requires
        error_truncatable(error, keyspace),
        keyspace != Keyspace::Disable,
    ensures
        error_truncates_to(error, keyspace, r),
    decreases error, 1int,
{
    match error {
        Error::RegionError(e) => Error::RegionError(Box::new((*e).truncate_keyspace(keyspace))),
        Error::WriteConflict(e) => {
            let mut r = e;
            truncate_bytes(&mut r.key, keyspace);
            truncate_bytes(&mut r.primary, keyspace);
            Error::WriteConflict(r)
        },
        Error::Deadlock(e) => Error::Deadlock(truncate_deadlock(e, keyspace)),
        Error::KeyExists(e) => {
            let mut r = e;
            truncate_bytes(&mut r.key, keyspace);
            Error::KeyExists(r)
        },
        Error::AssertionFailed(e) => {
            let mut r = e;
            truncate_bytes(&mut r.key, keyspace);
            Error::AssertionFailed(r)
        },
        Error::ResolveLockError(locks) => Error::ResolveLockError(
            locks.truncate_keyspace(keyspace),
        ),
        Error::KeyError(e) => Error::KeyError(Box::new((*e).truncate_keyspace(keyspace))),
        Error::PessimisticLockError { inner, success_keys } => {
            let mut keys = success_keys;
            truncate_all_bytes(&mut keys, keyspace);
            Error::PessimisticLockError {
                inner: Box::new(truncate_error(*inner, keyspace)),
                success_keys: keys,
            }
        },
        Error::UndeterminedError(inner) => Error::UndeterminedError(
            Box::new(truncate_error(*inner, keyspace)),
        ),
        Error::MultipleKeyErrors(errors) => Error::MultipleKeyErrors(
            truncate_errors(errors, keyspace),
        ),
        Error::ExtractedErrors(errors) => Error::ExtractedErrors(
            truncate_errors(errors, keyspace),
        ),
        other => other,
    }
}

impl TruncateKeyspace for Error {
    open spec fn truncatable(self, keyspace: Keyspace) -> bool {
        error_truncatable(self, keyspace)
    }

    open spec fn truncates_to(self, keyspace: Keyspace, result: Self) -> bool {
        error_truncates_to(self, keyspace, result)
    }

    fn truncate_keyspace(self, keyspace: Keyspace) -> (r: Self) {
        match keyspace {
            Keyspace::Disable => self,
            Keyspace::Enable { .. } => truncate_error(self, keyspace),
        }
    }
}

impl<T> TruncateKeyspace for core::result::Result<T, Error> {
    open spec fn truncatable(self, keyspace: Keyspace) -> bool {
        self is Err ==> error_truncatable(self->Err_0, keyspace)
    }

    open spec fn truncates_to(self, keyspace: Keyspace, result: Self) -> bool {
        match self {
            Ok(value) => result == Ok::<T, Error>(value),
            Err(error) => result is Err && error_truncates_to(error, keyspace, result->Err_0),
        }
    }

    fn truncate_keyspace(self, keyspace: Keyspace) -> (r: Self) {
        match self {
            Ok(value) => Ok(value),
            Err(error) => Err(error.truncate_keyspace(keyspace)),
        }
    }
}

/// Without a keyspace nothing changes.
pub proof fn law_no_keyspace_changes_nothing(error: Error, after: Error, key: Seq<u8>)
    requires
        error.truncates_to(Keyspace::Disable, after),
    ensures
        after == error,
        truncate_key(key, Keyspace::Disable) == key,
{
}

} // verus!
