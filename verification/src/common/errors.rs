//! The errors of the client.

use vstd::prelude::*;
use vstd::string::*;

use crate::common::text::{
    byte_list, byte_lists, decimal, push_byte_list, push_byte_lists, push_decimal,
};
use crate::kv::bound_range::BoundRange;
use crate::proto::errorpb;
use crate::proto::kvrpcpb;
use crate::region::RegionVerId;

verus! {

/// Reason for a write conflict returned by TiKV.
#[derive(Clone, Copy, Debug, Eq, PartialEq, Hash, Structural)]
pub enum WriteConflictReason {
    Unknown,
    Optimistic,
    PessimisticRetry,
    SelfRolledBack,
    RcCheckTs,
    LazyUniquenessCheck,
    NotLockedKeyConflict,
}

/// The reason with the given number in the protocol.
pub open spec fn write_conflict_reason(value: int) -> WriteConflictReason {
    if value == 1 {
        WriteConflictReason::Optimistic
    } else if value == 2 {
        WriteConflictReason::PessimisticRetry
    } else if value == 3 {
        WriteConflictReason::SelfRolledBack
    } else if value == 4 {
        WriteConflictReason::RcCheckTs
    } else if value == 5 {
        WriteConflictReason::LazyUniquenessCheck
    } else if value == 6 {
        WriteConflictReason::NotLockedKeyConflict
    } else {
        WriteConflictReason::Unknown
    }
}

impl From<i32> for WriteConflictReason {
    fn from(value: i32) -> (r: Self) {
        match value {
            1 => WriteConflictReason::Optimistic,
            2 => WriteConflictReason::PessimisticRetry,
            3 => WriteConflictReason::SelfRolledBack,
            4 => WriteConflictReason::RcCheckTs,
            5 => WriteConflictReason::LazyUniquenessCheck,
            6 => WriteConflictReason::NotLockedKeyConflict,
            _ => WriteConflictReason::Unknown,
        }
    }
}

impl vstd::std_specs::convert::FromSpecImpl<i32> for WriteConflictReason {
    open spec fn obeys_from_spec() -> bool {
        true
    }

    open spec fn from_spec(value: i32) -> WriteConflictReason {
        write_conflict_reason(value as int)
    }
}

impl WriteConflictReason {
    /// The name of the reason.
    pub open spec fn name(self) -> Seq<char> {
        match self {
            WriteConflictReason::Unknown => "unknown"@,
            WriteConflictReason::Optimistic => "optimistic"@,
            WriteConflictReason::PessimisticRetry => "pessimistic_retry"@,
            WriteConflictReason::SelfRolledBack => "self_rolled_back"@,
            WriteConflictReason::RcCheckTs => "rc_check_ts"@,
            WriteConflictReason::LazyUniquenessCheck => "lazy_uniqueness_check"@,
            WriteConflictReason::NotLockedKeyConflict => "not_locked_key_conflict"@,
        }
    }

    /// The name of the reason.
    pub fn as_str(&self) -> (r: &'static str)
        ensures
            r@ == self.name(),
    {
        match self {
            WriteConflictReason::Unknown => "unknown",
            WriteConflictReason::Optimistic => "optimistic",
            WriteConflictReason::PessimisticRetry => "pessimistic_retry",
            WriteConflictReason::SelfRolledBack => "self_rolled_back",
            WriteConflictReason::RcCheckTs => "rc_check_ts",
            WriteConflictReason::LazyUniquenessCheck => "lazy_uniqueness_check",
            WriteConflictReason::NotLockedKeyConflict => "not_locked_key_conflict",
        }
    }

    /// The name of the reason.
    pub fn to_string(&self) -> (r: String)
        ensures
            r@ == self.name(),
    {
        self.as_str().to_owned()
    }
}

/// A write conflict returned by TiKV.
#[derive(Clone, Debug, Eq, PartialEq)]
pub struct WriteConflictError {
    pub start_ts: u64,
    pub conflict_ts: u64,
    pub conflict_commit_ts: u64,
    pub key: Vec<u8>,
    pub primary: Vec<u8>,
    pub reason: WriteConflictReason,
}

impl From<kvrpcpb::WriteConflict> for WriteConflictError {
    fn from(conflict: kvrpcpb::WriteConflict) -> (r: Self) {
        WriteConflictError {
            start_ts: conflict.start_ts,
            conflict_ts: conflict.conflict_ts,
            conflict_commit_ts: conflict.conflict_commit_ts,
            key: conflict.key,
            primary: conflict.primary,
            reason: WriteConflictReason::from(conflict.reason),
        }
    }
}

impl vstd::std_specs::convert::FromSpecImpl<kvrpcpb::WriteConflict> for WriteConflictError {
    open spec fn obeys_from_spec() -> bool {
        true
    }

    open spec fn from_spec(conflict: kvrpcpb::WriteConflict) -> WriteConflictError {
        WriteConflictError {
            start_ts: conflict.start_ts,
            conflict_ts: conflict.conflict_ts,
            conflict_commit_ts: conflict.conflict_commit_ts,
            key: conflict.key,
            primary: conflict.primary,
            reason: write_conflict_reason(conflict.reason as int),
        }
    }
}

impl WriteConflictError {
    /// The text of the conflict.
    pub open spec fn text(self) -> Seq<char> {
        "start_ts="@ + decimal(self.start_ts as nat) + ", conflict_ts="@ + decimal(
            self.conflict_ts as nat,
        ) + ", conflict_commit_ts="@ + decimal(self.conflict_commit_ts as nat) + ", reason="@
            + self.reason.name() + ", key_len="@ + decimal(self.key@.len())
    }

    /// The text of the conflict.
    pub fn to_string(&self) -> (r: String)
        ensures
            r@ == self.text(),
    {
        let mut out = "start_ts=".to_owned();
        push_decimal(&mut out, self.start_ts);
        out.append(", conflict_ts=");
        push_decimal(&mut out, self.conflict_ts);
        out.append(", conflict_commit_ts=");
        push_decimal(&mut out, self.conflict_commit_ts);
        out.append(", reason=");
        out.append(self.reason.as_str());
        out.append(", key_len=");
        push_decimal(&mut out, self.key.len() as u64);
        out
    }
}

/// A duplicate key write detected by TiKV (e.g. `Insert` on an existing key).
#[derive(Clone, Debug, Eq, PartialEq)]
pub struct KeyExistsError {
    pub key: Vec<u8>,
}

impl From<kvrpcpb::AlreadyExist> for KeyExistsError {
    fn from(exist: kvrpcpb::AlreadyExist) -> (r: Self) {
        KeyExistsError { key: exist.key }
    }
}

impl vstd::std_specs::convert::FromSpecImpl<kvrpcpb::AlreadyExist> for KeyExistsError {
    open spec fn obeys_from_spec() -> bool {
        true
    }

    open spec fn from_spec(exist: kvrpcpb::AlreadyExist) -> KeyExistsError {
        KeyExistsError { key: exist.key }
    }
}

impl KeyExistsError {
    /// The text of the error.
    pub open spec fn text(self) -> Seq<char> {
        "key_len="@ + decimal(self.key@.len())
    }

    /// The text of the error.
    pub fn to_string(&self) -> (r: String)
        ensures
            r@ == self.text(),
    {
        let mut out = "key_len=".to_owned();
        push_decimal(&mut out, self.key.len() as u64);
        out
    }
}

/// Assertion kind used by TiKV's assertion mechanism.
#[derive(Clone, Copy, Debug, Eq, PartialEq, Hash, Structural)]
pub enum AssertionKind {
    NoAssertion,
    Exist,
    NotExist,
}

/// The assertion with the given number in the protocol.
pub open spec fn assertion_kind(value: int) -> AssertionKind {
    if value == 1 {
        AssertionKind::Exist
    } else if value == 2 {
        AssertionKind::NotExist
    } else {
        AssertionKind::NoAssertion
    }
}

impl From<i32> for AssertionKind {
    fn from(value: i32) -> (r: Self) {
        match value {
            1 => AssertionKind::Exist,
            2 => AssertionKind::NotExist,
            _ => AssertionKind::NoAssertion,
        }
    }
}

impl vstd::std_specs::convert::FromSpecImpl<i32> for AssertionKind {
    open spec fn obeys_from_spec() -> bool {
        true
    }

    open spec fn from_spec(value: i32) -> AssertionKind {
        assertion_kind(value as int)
    }
}

impl AssertionKind {
    /// The name of the assertion.
    pub open spec fn name(self) -> Seq<char> {
        match self {
            AssertionKind::NoAssertion => "none"@,
            AssertionKind::Exist => "exist"@,
            AssertionKind::NotExist => "not_exist"@,
        }
    }

    /// The name of the assertion.
    pub fn as_str(&self) -> (r: &'static str)
        ensures
            r@ == self.name(),
    {
        match self {
            AssertionKind::NoAssertion => "none",
            AssertionKind::Exist => "exist",
            AssertionKind::NotExist => "not_exist",
        }
    }

    /// The name of the assertion.
    pub fn to_string(&self) -> (r: String)
        ensures
            r@ == self.name(),
    {
        self.as_str().to_owned()
    }
}

/// An assertion failure returned by TiKV.
#[derive(Clone, Debug, Eq, PartialEq)]
pub struct AssertionFailedError {
    pub start_ts: u64,
    pub key: Vec<u8>,
    pub assertion: AssertionKind,
    pub existing_start_ts: u64,
    pub existing_commit_ts: u64,
}

impl From<kvrpcpb::AssertionFailed> for AssertionFailedError {
    fn from(failed: kvrpcpb::AssertionFailed) -> (r: Self) {
        AssertionFailedError {
            start_ts: failed.start_ts,
            key: failed.key,
            assertion: AssertionKind::from(failed.assertion),
            existing_start_ts: failed.existing_start_ts,
            existing_commit_ts: failed.existing_commit_ts,
        }
    }
}

impl vstd::std_specs::convert::FromSpecImpl<kvrpcpb::AssertionFailed> for AssertionFailedError {
    open spec fn obeys_from_spec() -> bool {
        true
    }

    open spec fn from_spec(failed: kvrpcpb::AssertionFailed) -> AssertionFailedError {
        AssertionFailedError {
            start_ts: failed.start_ts,
            key: failed.key,
            assertion: assertion_kind(failed.assertion as int),
            existing_start_ts: failed.existing_start_ts,
            existing_commit_ts: failed.existing_commit_ts,
        }
    }
}

impl AssertionFailedError {
    /// The text of the failure.
    pub open spec fn text(self) -> Seq<char> {
        "start_ts="@ + decimal(self.start_ts as nat) + ", assertion="@ + self.assertion.name()
            + ", key_len="@ + decimal(self.key@.len()) + ", existing_start_ts="@ + decimal(
            self.existing_start_ts as nat,
        ) + ", existing_commit_ts="@ + decimal(self.existing_commit_ts as nat)
    }

    /// The text of the failure.
    pub fn to_string(&self) -> (r: String)
        ensures
            r@ == self.text(),
    {
        let mut out = "start_ts=".to_owned();
        push_decimal(&mut out, self.start_ts);
        out.append(", assertion=");
        out.append(self.assertion.as_str());
        out.append(", key_len=");
        push_decimal(&mut out, self.key.len() as u64);
        out.append(", existing_start_ts=");
        push_decimal(&mut out, self.existing_start_ts);
        out.append(", existing_commit_ts=");
        push_decimal(&mut out, self.existing_commit_ts);
        out
    }
}

/// Wait-for entry of a deadlock.
#[derive(Clone, Debug, Eq, PartialEq)]
pub struct DeadlockWaitForEntry {
    pub txn: u64,
    pub wait_for_txn: u64,
    pub key_hash: u64,
    pub key: Vec<u8>,
    pub resource_group_tag: Vec<u8>,
    pub wait_time_ms: u64,
}

impl DeadlockWaitForEntry {
    /// The entry holds what the message holds.
    pub open spec fn comes_from(self, entry: crate::proto::deadlock::WaitForEntry) -> bool {
        &&& self.txn == entry.txn
        &&& self.wait_for_txn == entry.wait_for_txn
        &&& self.key_hash == entry.key_hash
        &&& self.key@ == entry.key@
        &&& self.resource_group_tag@ == entry.resource_group_tag@
        &&& self.wait_time_ms == entry.wait_time
    }
}

/// A deadlock error returned by TiKV.
#[derive(Clone, Debug, Eq, PartialEq)]
pub struct DeadlockError {
    pub lock_ts: u64,
    pub lock_key: Vec<u8>,
    pub deadlock_key_hash: u64,
    pub wait_chain: Vec<DeadlockWaitForEntry>,
    pub deadlock_key: Vec<u8>,
}

impl DeadlockError {
    /// The error holds what the message holds, entry by entry.
    pub open spec fn comes_from(self, deadlock: kvrpcpb::Deadlock) -> bool {
        &&& self.lock_ts == deadlock.lock_ts
        &&& self.lock_key == deadlock.lock_key
        &&& self.deadlock_key_hash == deadlock.deadlock_key_hash
        &&& self.wait_chain@.len() == deadlock.wait_chain@.len()
        &&& forall|i: int|
            0 <= i < self.wait_chain@.len() ==> (#[trigger] self.wait_chain@[i]).comes_from(
                deadlock.wait_chain@[i],
            )
        &&& self.deadlock_key == deadlock.deadlock_key
    }

    /// The text of the deadlock.
    pub open spec fn text(self) -> Seq<char> {
        "lock_ts="@ + decimal(self.lock_ts as nat) + ", lock_key_len="@ + decimal(
            self.lock_key@.len(),
        ) + ", deadlock_key_len="@ + decimal(self.deadlock_key@.len()) + ", wait_chain_len="@
            + decimal(self.wait_chain@.len())
    }

    /// The text of the deadlock.
    pub fn to_string(&self) -> (r: String)
        ensures
            r@ == self.text(),
    {
        let mut out = "lock_ts=".to_owned();
        push_decimal(&mut out, self.lock_ts);
        out.append(", lock_key_len=");
        push_decimal(&mut out, self.lock_key.len() as u64);
        out.append(", deadlock_key_len=");
        push_decimal(&mut out, self.deadlock_key.len() as u64);
        out.append(", wait_chain_len=");
        push_decimal(&mut out, self.wait_chain.len() as u64);
        out
    }
}

impl From<kvrpcpb::Deadlock> for DeadlockError {
    fn from(deadlock: kvrpcpb::Deadlock) -> (r: Self)
        ensures
            r.comes_from(deadlock),
    {
        let mut wait_chain: Vec<DeadlockWaitForEntry> = Vec::new();
        let mut i: usize = 0;
        while i < deadlock.wait_chain.len()
            invariant
                i <= deadlock.wait_chain.len(),
                wait_chain.len() == i,
                forall|k: int|
                    0 <= k < i ==> (#[trigger] wait_chain@[k]).comes_from(
                        deadlock.wait_chain@[k],
                    ),
            decreases deadlock.wait_chain.len() - i,
        {
            let entry = &deadlock.wait_chain[i];
            wait_chain.push(
                DeadlockWaitForEntry {
                    txn: entry.txn,
                    wait_for_txn: entry.wait_for_txn,
                    key_hash: entry.key_hash,
                    key: crate::kv::order::bytes_to_vec(&entry.key),
                    resource_group_tag: crate::kv::order::bytes_to_vec(&entry.resource_group_tag),
                    wait_time_ms: entry.wait_time,
                },
            );
            i = i + 1;
        }
        DeadlockError {
            lock_ts: deadlock.lock_ts,
            lock_key: deadlock.lock_key,
            deadlock_key_hash: deadlock.deadlock_key_hash,
            wait_chain,
            deadlock_key: deadlock.deadlock_key,
        }
    }
}

impl vstd::std_specs::convert::FromSpecImpl<kvrpcpb::Deadlock> for DeadlockError {
    open spec fn obeys_from_spec() -> bool {
        false
    }

    open spec fn from_spec(deadlock: kvrpcpb::Deadlock) -> DeadlockError {
        arbitrary()
    }
}

/// The status that a call of the key-value service ended with.
#[derive(Clone, Debug, Eq, PartialEq)]
pub struct GrpcStatus {
    pub code: i32,
    pub message: String,
    /// The text that displays all of the status.
    pub text: String,
    /// The text with all the details of the status.
    pub details: String,
}

/// An error of another library.
#[derive(Debug, Eq, PartialEq)]
pub struct OutsideError {
    /// The text that displays the error.
    pub text: String,
    /// The text with all the details of the error.
    pub details: String,
}

/// An error originating from the TiKV client or dependencies.
///
/// The variants that stand for an error of another library carry its texts.
#[derive(Debug, PartialEq, Eq)]
pub enum Error {
    /// Feature is not implemented.
    Unimplemented,
    /// Duplicate key insertion happens.
    DuplicateKeyInsertion,
    /// Write conflict returned by TiKV.
    WriteConflict(WriteConflictError),
    /// Deadlock returned by TiKV.
    Deadlock(DeadlockError),
    /// Key already exists (e.g. Insert on an existing key).
    KeyExists(KeyExistsError),
    /// Assertion failed on TiKV side.
    AssertionFailed(AssertionFailedError),
    /// Retryable error returned by TiKV.
    Retryable { message: String },
    /// Client-side resource control throttled the request (e.g. resource group token exhausted).
    ResourceGroupThrottled,
    /// TiKV aborts the transaction with a reason.
    TxnAborted { message: String },
    /// Commit TS is too large for TiKV.
    CommitTsTooLarge { commit_ts: u64 },
    /// Commit TS is behind a user-specified commit-wait TSO.
    CommitTsLag { commit_ts: u64, wait_until_tso: u64 },
    /// The transaction is not found on TiKV.
    TxnNotFound { start_ts: u64 },
    /// Failed to resolve a lock
    ResolveLockError(Vec<kvrpcpb::LockInfo>),
    /// Lock wait timeout exceeded.
    LockWaitTimeout(Vec<kvrpcpb::LockInfo>),
    /// Will raise this error when using a pessimistic txn only operation on an optimistic txn
    InvalidTransactionType,
    /// It's not allowed to perform operations in a transaction after it has been committed or rolled back.
    OperationAfterCommitError,
    /// We tried to use 1pc for a transaction, but it didn't work. Probably should have used 2pc.
    OnePcFailure,
    /// An operation requires a primary key, but the transaction was empty.
    NoPrimaryKey,
    /// Transaction became stale while waiting for local latches.
    WriteConflictInLatch { start_ts: u64 },
    /// Pipelined transaction options are invalid or unsupported.
    InvalidPipelinedTransaction { message: String },
    /// Invalid pessimistic lock options (client-side validation failure).
    InvalidPessimisticLockOptions { message: String },
    /// For raw client, operation is not supported in atomic/non-atomic mode.
    UnsupportedMode,
    /// There is no current_regions in the EpochNotMatch error.
    NoCurrentRegions,
    /// The specified entry is not found in the region cache.
    EntryNotFoundInRegionCache,
    /// An I/O error.
    Io(OutsideError),
    /// A channel was closed before it delivered a value.
    Channel(OutsideError),
    /// An error of the gRPC transport.
    Grpc(OutsideError),
    /// A call of a gRPC service ended with an error status.
    GrpcAPI(GrpcStatus),
    /// An invalid URL.
    Url(OutsideError),
    /// Represents that a oneshot channel was cancelled.
    Canceled(OutsideError),
    /// Errors caused by changes of region information
    RegionError(Box<errorpb::Error>),
    /// Whether the transaction is committed or not is undetermined
    UndeterminedError(Box<Error>),
    /// An error with a key.
    KeyError(Box<kvrpcpb::KeyError>),
    /// Multiple errors generated from the ExtractError plan.
    ExtractedErrors(Vec<Error>),
    /// Multiple key errors
    MultipleKeyErrors(Vec<Error>),
    /// Invalid ColumnFamily
    ColumnFamilyError(String),
    /// Can't join tasks
    JoinError(OutsideError),
    /// No region is found for the given key.
    RegionForKeyNotFound { key: Vec<u8> },
    /// No region is found for the given range.
    RegionForRangeNotFound { range: BoundRange },
    /// No region is found for the given id. note: distinguish it with the RegionNotFound error in errorpb.
    RegionNotFoundInResponse { region_id: u64 },
    /// No leader is found for the given id.
    LeaderNotFound { region: RegionVerId },
    /// Scan limit exceeds the maximum
    MaxScanLimitExceeded { limit: u32, max_limit: u32 },
    /// A string is no semantic version.
    InvalidSemver(OutsideError),
    /// A string error returned by TiKV server
    KvError { message: String },
    /// An error within the client.
    InternalError { message: String },
    /// An error that is only a text.
    StringError(String),
    /// A pessimistic lock failed after some keys were locked.
    PessimisticLockError { inner: Box<Error>, success_keys: Vec<Vec<u8>> },
    /// The keyspace does not exist.
    KeyspaceNotFound(String),
}

/// A result holding an [`Error`].
pub type Result<T> = core::result::Result<T, Error>;

impl From<errorpb::Error> for Error {
    fn from(e: errorpb::Error) -> (r: Error) {
        Error::RegionError(Box::new(e))
    }
}

impl vstd::std_specs::convert::FromSpecImpl<errorpb::Error> for Error {
    open spec fn obeys_from_spec() -> bool {
        true
    }

    open spec fn from_spec(e: errorpb::Error) -> Error {
        Error::RegionError(Box::new(e))
    }
}

/// The error that a key error stands for: the first that applies of a write conflict, a retryable
/// error, a failed assertion, an existing key, a deadlock, an abort, a commit timestamp that is
/// too large, and an unknown transaction; otherwise the key error itself.
pub open spec fn comes_from_key_error(error: Error, e: kvrpcpb::KeyError) -> bool {
    if e.conflict is Some {
        error == Error::WriteConflict(
            <WriteConflictError as vstd::std_specs::convert::FromSpec<kvrpcpb::WriteConflict>>::from_spec(
                e.conflict->0,
            ),
        )
    } else if e.retryable@.len() > 0 {
        error == (Error::Retryable { message: e.retryable })
    } else if e.assertion_failed is Some {
        error == Error::AssertionFailed(
            <AssertionFailedError as vstd::std_specs::convert::FromSpec<
                kvrpcpb::AssertionFailed,
            >>::from_spec(e.assertion_failed->0),
        )
    } else if e.already_exist is Some {
        error == Error::KeyExists(KeyExistsError { key: e.already_exist->0.key })
    } else if e.deadlock is Some {
        error matches Error::Deadlock(deadlock) && deadlock.comes_from(e.deadlock->0)
    } else if e.abort@.len() > 0 {
        error == (Error::TxnAborted { message: e.abort })
    } else if e.commit_ts_too_large is Some {
        error == (Error::CommitTsTooLarge { commit_ts: e.commit_ts_too_large->0.commit_ts })
    } else if e.txn_not_found is Some {
        error == (Error::TxnNotFound { start_ts: e.txn_not_found->0.start_ts })
    } else {
        error == Error::KeyError(Box::new(e))
    }
}

fn text_is_empty(s: &String) -> (r: bool)
    ensures
        r == (s@.len() == 0),
{
    let r = s.as_str().is_empty();
    assert(r == (s@.len() == 0)) by {
        assert(s@ =~= Seq::<char>::empty() <==> s@.len() == 0);
    }
    r
}

impl From<kvrpcpb::KeyError> for Error {
    fn from(e: kvrpcpb::KeyError) -> (r: Error)
        ensures
            comes_from_key_error(r, e),
    {
        if let Some(conflict) = e.conflict {
            return Error::WriteConflict(WriteConflictError::from(conflict));
        }
        if !text_is_empty(&e.retryable) {
            return Error::Retryable { message: e.retryable };
        }
        if let Some(failed) = e.assertion_failed {
            return Error::AssertionFailed(AssertionFailedError::from(failed));
        }
        if let Some(exist) = e.already_exist {
            return Error::KeyExists(KeyExistsError::from(exist));
        }
        if let Some(deadlock) = e.deadlock {
            return Error::Deadlock(DeadlockError::from(deadlock));
        }
        if !text_is_empty(&e.abort) {
            return Error::TxnAborted { message: e.abort };
        }
        if let Some(commit_ts_too_large) = e.commit_ts_too_large {
            return Error::CommitTsTooLarge { commit_ts: commit_ts_too_large.commit_ts };
        }
        if let Some(txn_not_found) = e.txn_not_found {
            return Error::TxnNotFound { start_ts: txn_not_found.start_ts };
        }
        Error::KeyError(Box::new(e))
    }
}

impl vstd::std_specs::convert::FromSpecImpl<kvrpcpb::KeyError> for Error {
    open spec fn obeys_from_spec() -> bool {
        false
    }

    open spec fn from_spec(e: kvrpcpb::KeyError) -> Error {
        arbitrary()
    }
}

/// A kind of error that the queries of [`Error`] look for.
#[derive(Clone, Copy, PartialEq, Eq, Structural)]
pub enum Leaf {
    WriteConflict,
    Deadlock,
    KeyExists,
    AssertionFailed,
    Undetermined,
}

impl Leaf {
    /// The error itself is of this kind.
    pub open spec fn describes(self, e: Error) -> bool {
        match self {
            Leaf::WriteConflict => e is WriteConflict,
            Leaf::Deadlock => e is Deadlock,
            Leaf::KeyExists => e is KeyExists,
            Leaf::AssertionFailed => e is AssertionFailed,
            Leaf::Undetermined => e is UndeterminedError,
        }
    }
}

/// One of the errors is or wraps one of the kind.
fn any_reaches(errors: &Vec<Error>, leaf: Leaf) -> (r: bool)
    ensures
        r == exists|i: int| 0 <= i < errors@.len() && (#[trigger] errors@[i]).reaches(leaf),
    decreases *errors, 0int,
{
    let mut i: usize = 0;
    while i < errors.len()
        invariant
            i <= errors.len(),
            forall|k: int| 0 <= k < i ==> !(#[trigger] errors@[k]).reaches(leaf),
        decreases errors.len() - i,
    {
        proof {
            assert(decreases_to!(*errors => errors@));
            assert(decreases_to!(errors@ => errors@[i as int]));
        }
        if errors[i].query(leaf) {
            return true;
        }
        i = i + 1;
    }
    false
}

impl Error {
    /// The error, or one that it wraps, at any depth, is of the kind.
    pub open spec fn reaches(self, leaf: Leaf) -> bool
        decreases self,
    {
        leaf.describes(self) || match self {
            Error::UndeterminedError(inner) => inner.reaches(leaf),
            Error::PessimisticLockError { inner, .. } => inner.reaches(leaf),
            Error::MultipleKeyErrors(errors) => exists|i: int|
                0 <= i < errors@.len() && (#[trigger] errors@[i]).reaches(leaf),
            Error::ExtractedErrors(errors) => exists|i: int|
                0 <= i < errors@.len() && (#[trigger] errors@[i]).reaches(leaf),
            _ => false,
        }
    }

    /// The error is an internal one with the given text.
    pub open spec fn is_internal(self, text: Seq<char>) -> bool {
        self matches Error::InternalError { message } && message@ == text
    }

    fn query(&self, leaf: Leaf) -> (r: bool)
        ensures
            r == self.reaches(leaf),
        decreases *self, 1int,
    {
        match (self, leaf) {
            (Error::WriteConflict(_), Leaf::WriteConflict) => true,
            (Error::Deadlock(_), Leaf::Deadlock) => true,
            (Error::KeyExists(_), Leaf::KeyExists) => true,
            (Error::AssertionFailed(_), Leaf::AssertionFailed) => true,
            (Error::UndeterminedError(_), Leaf::Undetermined) => true,
            (Error::UndeterminedError(inner), _) => inner.query(leaf),
            (Error::PessimisticLockError { inner, .. }, _) => inner.query(leaf),
            (Error::MultipleKeyErrors(errors), _) => any_reaches(errors, leaf),
            (Error::ExtractedErrors(errors), _) => any_reaches(errors, leaf),
            _ => false,
        }
    }

    /// Whether the error is or wraps a write conflict.
    pub fn is_write_conflict(&self) -> (r: bool)
        ensures
            r == self.reaches(Leaf::WriteConflict),
    {
        self.query(Leaf::WriteConflict)
    }

    /// Whether the error is or wraps a deadlock.
    pub fn is_deadlock(&self) -> (r: bool)
        ensures
            r == self.reaches(Leaf::Deadlock),
    {
        self.query(Leaf::Deadlock)
    }

    /// Whether the error is or wraps an insertion of an existing key.
    pub fn is_key_exists(&self) -> (r: bool)
        ensures
            r == self.reaches(Leaf::KeyExists),
    {
        self.query(Leaf::KeyExists)
    }

    /// Whether the error is or wraps a failed assertion.
    pub fn is_assertion_failed(&self) -> (r: bool)
        ensures
            r == self.reaches(Leaf::AssertionFailed),
    {
        self.query(Leaf::AssertionFailed)
    }

    /// Whether the error is or wraps one that leaves open whether the transaction is committed.
    pub fn is_undetermined(&self) -> (r: bool)
        ensures
            r == self.reaches(Leaf::Undetermined),
    {
        self.query(Leaf::Undetermined)
    }
}

/// Wrapping an error, alone or among others, keeps what the queries find in it.
pub proof fn law_queries_see_through_wrappers(
    inner: Error,
    errors: Vec<Error>,
    at: int,
    success_keys: Vec<Vec<u8>>,
    leaf: Leaf,
)
    requires
        0 <= at < errors@.len(),
        errors@[at] == inner,
        inner.reaches(leaf),
    ensures
        Error::UndeterminedError(Box::new(inner)).reaches(leaf),
        (Error::PessimisticLockError { inner: Box::new(inner), success_keys }).reaches(leaf),
        Error::MultipleKeyErrors(errors).reaches(leaf),
        Error::ExtractedErrors(errors).reaches(leaf),
{
    reveal_with_fuel(Error::reaches, 2);
    let multiple = Error::MultipleKeyErrors(errors);
    let extracted = Error::ExtractedErrors(errors);
    assert(multiple->MultipleKeyErrors_0@[at].reaches(leaf));
    assert(extracted->ExtractedErrors_0@[at].reaches(leaf));
}

/// An error within the client, with a text that says what went wrong.
pub fn internal_err(message: &str) -> (r: Error)
    ensures
        r.is_internal(message@),
{
    Error::InternalError { message: message.to_owned() }
}

/// The text that `Debug` gives for an error of a region, in the standard library that the crate is
/// built with.
pub uninterp spec fn region_error_debug(e: errorpb::Error) -> Seq<char>;

/// The text of an error of a region, by way of `std::fmt::format`: the one that `Debug` gives for
/// what the error holds.
#[verifier::external_body]
fn debug_region_error(e: &errorpb::Error) -> (r: String)
    ensures
        r@ == region_error_debug(*e),
{
    format!("{:?}", e)
}

/// The text that `Debug` gives for an error with a key, in the standard library that the crate is
/// built with.
pub uninterp spec fn key_error_debug(e: kvrpcpb::KeyError) -> Seq<char>;

/// The text of an error with a key, by way of `std::fmt::format`: the one that `Debug` gives for
/// what the error holds.
#[verifier::external_body]
fn debug_key_error(e: &kvrpcpb::KeyError) -> (r: String)
    ensures
        r@ == key_error_debug(*e),
{
    format!("{:?}", e)
}

/// The text that `Debug` gives for an error, in the standard library that the crate is
/// built with.
pub uninterp spec fn error_debug(e: Error) -> Seq<char>;

/// The text of an error that another one holds, by way of `std::fmt::format`: the one that `Debug`
/// gives for what the error holds.
#[verifier::external_body]
fn debug_error(e: &Error) -> (r: String)
    ensures
        r@ == error_debug(*e),
{
    format!("{:?}", e)
}

/// The details of an error: its name, and all that it holds. The keys of ranges are in hexadecimal;
/// an error of another library gives its own details.
pub open spec fn details(error: Error) -> Seq<char>
    decreases error, 0int,
{
    match error {
        Error::RegionForRangeNotFound { range } => "RegionForRangeNotFound { range: "@
            + range.text() + " }"@,
        Error::UndeterminedError(inner) => "UndeterminedError("@ + details(*inner) + ")"@,
        Error::ExtractedErrors(errors) => "ExtractedErrors(["@ + all_details(errors, errors@.len()) + "])"@,
        Error::MultipleKeyErrors(errors) => "MultipleKeyErrors(["@ + all_details(errors, errors@.len()) + "])"@,
        Error::PessimisticLockError { inner, success_keys } => "PessimisticLockError { inner: "@
            + details(*inner) + ", success_keys: ["@ + byte_lists(success_keys@) + "] }"@,
        Error::Io(e) => "Io("@ + e.details@ + ")"@,
        Error::Channel(e) => "Channel("@ + e.details@ + ")"@,
        Error::Grpc(e) => "Grpc("@ + e.details@ + ")"@,
        Error::GrpcAPI(status) => "GrpcAPI("@ + status.details@ + ")"@,
        Error::Url(e) => "Url("@ + e.details@ + ")"@,
        Error::Canceled(e) => "Canceled("@ + e.details@ + ")"@,
        Error::JoinError(e) => "JoinError("@ + e.details@ + ")"@,
        Error::InvalidSemver(e) => "InvalidSemver("@ + e.details@ + ")"@,
        _ => error_debug(error),
    }
}

/// The details of the first errors, with a comma and a blank between two of them.
pub open spec fn all_details(errors: Vec<Error>, n: nat) -> Seq<char>
    decreases errors, n,
{
    if n == 0 || n > errors@.len() {
        Seq::empty()
    } else if n == 1 {
        details(errors@[0])
    } else {
        all_details(errors, (n - 1) as nat) + ", "@ + details(errors@[n - 1])
    }
}

fn push_named(out: &mut String, before: &str, details: &str)
    ensures
        final(out)@ == old(out)@ + before@ + details@ + ")"@,
{
    out.append(before);
    out.append(details);
    out.append(")");
}

fn push_details(out: &mut String, error: &Error)
    ensures
        final(out)@ == old(out)@ + details(*error),
    decreases *error, 0int,
{
    let ghost before = out@;
    match error {
        Error::RegionForRangeNotFound { range } => {
            out.append("RegionForRangeNotFound { range: ");
            out.append(range.to_text().as_str());
            out.append(" }");
        },
        Error::UndeterminedError(inner) => {
            out.append("UndeterminedError(");
            push_details(out, inner);
            out.append(")");
        },
        Error::ExtractedErrors(errors) => {
            out.append("ExtractedErrors([");
            push_all_details(out, errors);
            out.append("])");
        },
        Error::MultipleKeyErrors(errors) => {
            out.append("MultipleKeyErrors([");
            push_all_details(out, errors);
            out.append("])");
        },
        Error::PessimisticLockError { inner, success_keys } => {
            out.append("PessimisticLockError { inner: ");
            push_details(out, inner);
            out.append(", success_keys: [");
            push_byte_lists(out, success_keys);
            out.append("] }");
        },
        Error::Io(e) => {
            push_named(out, "Io(", e.details.as_str());
        },
        Error::Channel(e) => {
            push_named(out, "Channel(", e.details.as_str());
        },
        Error::Grpc(e) => {
            push_named(out, "Grpc(", e.details.as_str());
        },
        Error::GrpcAPI(status) => {
            push_named(out, "GrpcAPI(", status.details.as_str());
        },
        Error::Url(e) => {
            push_named(out, "Url(", e.details.as_str());
        },
        Error::Canceled(e) => {
            push_named(out, "Canceled(", e.details.as_str());
        },
        Error::JoinError(e) => {
            push_named(out, "JoinError(", e.details.as_str());
        },
        Error::InvalidSemver(e) => {
            push_named(out, "InvalidSemver(", e.details.as_str());
        },
        _ => {
            out.append(debug_error(error).as_str());
        },
    }
    assert(out@ =~= before + details(*error));
}

fn push_all_details(out: &mut String, errors: &Vec<Error>)
    ensures
        final(out)@ == old(out)@ + all_details(*errors, errors@.len()),
    decreases *errors, 1int,
{
    let ghost before = out@;
    let mut i: usize = 0;
    assert(out@ =~= before + all_details(*errors, 0));
    while i < errors.len()
        invariant
            i <= errors.len(),
            out@ == before + all_details(*errors, i as nat),
        decreases errors.len() - i,
    {
        if i > 0 {
            out.append(", ");
        }
        proof {
            assert(decreases_to!(*errors => errors@));
            assert(decreases_to!(errors@ => errors@[i as int]));
        }
        push_details(out, &errors[i]);
        assert(out@ =~= before + all_details(*errors, (i + 1) as nat));
        i = i + 1;
    }
}

fn with_errors(before: &str, errors: &Vec<Error>) -> (r: String)
    ensures
        r@ == before@ + "["@ + all_details(*errors, errors@.len()) + "]"@,
{
    let mut out = join(before, "[");
    push_all_details(&mut out, errors);
    out.append("]");
    out
}

fn join(before: &str, after: &str) -> (r: String)
    ensures
        r@ == before@ + after@,
{
    let mut out = before.to_owned();
    out.append(after);
    out
}

fn around(before: &str, number: u64, after: &str) -> (r: String)
    ensures
        r@ == before@ + decimal(number as nat) + after@,
{
    let mut out = before.to_owned();
    push_decimal(&mut out, number);
    out.append(after);
    out
}

impl Error {
    /// The text of the error.
    pub open spec fn text(self) -> Seq<char> {
        match self {
            Error::Unimplemented => "Unimplemented feature"@,
            Error::DuplicateKeyInsertion => "Duplicate key insertion"@,
            Error::ResourceGroupThrottled => "resource group throttled"@,
            Error::InvalidTransactionType => "Invalid operation for this type of transaction"@,
            Error::OperationAfterCommitError => "Cannot read or write data after any attempt to commit or roll back the transaction"@,
            Error::OnePcFailure => "1PC transaction could not be committed."@,
            Error::NoPrimaryKey => "transaction has no primary key"@,
            Error::UnsupportedMode => "The operation is not supported in current mode, please consider using RawClient with or without atomic mode"@,
            Error::NoCurrentRegions => "There is no current_regions in the EpochNotMatch error"@,
            Error::EntryNotFoundInRegionCache => "The specified entry is not found in the region cache"@,
            Error::ResolveLockError(_) => "Failed to resolve lock"@,
            Error::LockWaitTimeout(_) => "Lock wait timeout exceeded; try restarting transaction"@,
            Error::UndeterminedError(_) => "Whether the transaction is committed or not is undetermined"@,
            Error::JoinError(_) => "Failed to join tokio tasks"@,
            Error::WriteConflict(e) => "Write conflict: "@ + e.text(),
            Error::Deadlock(e) => "Deadlock: "@ + e.text(),
            Error::KeyExists(e) => "Key already exists: "@ + e.text(),
            Error::AssertionFailed(e) => "Assertion failed: "@ + e.text(),
            Error::Retryable { message } => "Retryable error: "@ + message@,
            Error::TxnAborted { message } => "TiKV aborts txn: "@ + message@,
            Error::InvalidPipelinedTransaction { message } => "Invalid pipelined transaction: "@ + message@,
            Error::InvalidPessimisticLockOptions { message } => "Invalid pessimistic lock options: "@ + message@,
            Error::Io(e) => "IO error: "@ + e.text@,
            Error::Channel(e) => "tokio channel error: "@ + e.text@,
            Error::Grpc(e) => "gRPC error: "@ + e.text@,
            Error::Url(e) => "url error: "@ + e.text@,
            Error::Canceled(e) => "A futures oneshot channel was canceled. "@ + e.text@,
            Error::ColumnFamilyError(message) => "Unsupported column family "@ + message@,
            Error::InvalidSemver(e) => "Invalid Semver string: "@ + e.details@,
            Error::KvError { message } => "Kv error. "@ + message@,
            Error::KeyspaceNotFound(message) => "Keyspace not found: "@ + message@,
            Error::GrpcAPI(status) => "gRPC api error: "@ + status.text@,
            Error::InternalError { message } => message@,
            Error::StringError(message) => message@,
            Error::CommitTsTooLarge { commit_ts } => "Commit TS "@ + decimal(commit_ts as nat) + " is too large"@,
            Error::CommitTsLag { commit_ts, wait_until_tso } => "Commit TS "@ + decimal(commit_ts as nat) + " is behind commit-wait TSO "@
                + decimal(wait_until_tso as nat),
            Error::TxnNotFound { start_ts } => "Txn "@ + decimal(start_ts as nat) + " not found"@,
            Error::WriteConflictInLatch { start_ts } => "Transaction is stale while waiting for local latches (start_ts="@ + decimal(start_ts as nat) + ")"@,
            Error::RegionNotFoundInResponse { region_id } => "Region "@ + decimal(region_id as nat) + " is not found in the response"@,
            Error::LeaderNotFound { region } => "Leader of region "@ + decimal(region.id as nat) + " is not found"@,
            Error::MaxScanLimitExceeded { limit, max_limit } => "Limit "@ + decimal(limit as nat) + " exceeds max scan limit "@
                + decimal(max_limit as nat),
            Error::RegionError(e) => "Region error: "@ + region_error_debug(*e),
            Error::KeyError(e) => key_error_debug(*e),
            Error::ExtractedErrors(errors) => "Multiple errors: "@ + "["@ + all_details(errors, errors@.len()) + "]"@,
            Error::MultipleKeyErrors(errors) => "Multiple key errors: "@ + "["@ + all_details(errors, errors@.len()) + "]"@,
            Error::RegionForKeyNotFound { key } => "Region is not found for key: "@ + byte_list(key@),
            Error::RegionForRangeNotFound { range } => "Region is not found for range: "@ + range.text(),
            Error::PessimisticLockError { inner, .. } => "PessimisticLock error: "@ + details(*inner),
        }
    }

    /// The text of the error.
    pub fn to_string(&self) -> (r: String)
        ensures
            r@ == self.text(),
    {
        match self {
            Error::Unimplemented => "Unimplemented feature".to_owned(),
            Error::DuplicateKeyInsertion => "Duplicate key insertion".to_owned(),
            Error::ResourceGroupThrottled => "resource group throttled".to_owned(),
            Error::InvalidTransactionType => "Invalid operation for this type of transaction".to_owned(),
            Error::OperationAfterCommitError => "Cannot read or write data after any attempt to commit or roll back the transaction".to_owned(),
            Error::OnePcFailure => "1PC transaction could not be committed.".to_owned(),
            Error::NoPrimaryKey => "transaction has no primary key".to_owned(),
            Error::UnsupportedMode => "The operation is not supported in current mode, please consider using RawClient with or without atomic mode".to_owned(),
            Error::NoCurrentRegions => "There is no current_regions in the EpochNotMatch error".to_owned(),
            Error::EntryNotFoundInRegionCache => "The specified entry is not found in the region cache".to_owned(),
            Error::ResolveLockError(_) => "Failed to resolve lock".to_owned(),
            Error::LockWaitTimeout(_) => "Lock wait timeout exceeded; try restarting transaction".to_owned(),
            Error::UndeterminedError(_) => "Whether the transaction is committed or not is undetermined".to_owned(),
            Error::JoinError(_) => "Failed to join tokio tasks".to_owned(),
            Error::WriteConflict(e) => join("Write conflict: ", e.to_string().as_str()),
            Error::Deadlock(e) => join("Deadlock: ", e.to_string().as_str()),
            Error::KeyExists(e) => join("Key already exists: ", e.to_string().as_str()),
            Error::AssertionFailed(e) => join("Assertion failed: ", e.to_string().as_str()),
            Error::Retryable { message } => join("Retryable error: ", message.as_str()),
            Error::TxnAborted { message } => join("TiKV aborts txn: ", message.as_str()),
            Error::InvalidPipelinedTransaction { message } => join("Invalid pipelined transaction: ", message.as_str()),
            Error::InvalidPessimisticLockOptions { message } => join("Invalid pessimistic lock options: ", message.as_str()),
            Error::Io(e) => join("IO error: ", e.text.as_str()),
            Error::Channel(e) => join("tokio channel error: ", e.text.as_str()),
            Error::Grpc(e) => join("gRPC error: ", e.text.as_str()),
            Error::Url(e) => join("url error: ", e.text.as_str()),
            Error::Canceled(e) => join("A futures oneshot channel was canceled. ", e.text.as_str()),
            Error::ColumnFamilyError(message) => join("Unsupported column family ", message.as_str()),
            Error::InvalidSemver(e) => join("Invalid Semver string: ", e.details.as_str()),
            Error::KvError { message } => join("Kv error. ", message.as_str()),
            Error::KeyspaceNotFound(message) => join("Keyspace not found: ", message.as_str()),
            Error::GrpcAPI(status) => join("gRPC api error: ", status.text.as_str()),
            Error::InternalError { message } => message.clone(),
            Error::StringError(message) => message.clone(),
            Error::CommitTsTooLarge { commit_ts } => around("Commit TS ", *commit_ts, " is too large"),
            Error::CommitTsLag { commit_ts, wait_until_tso } => {
                let mut out = around("Commit TS ", *commit_ts, " is behind commit-wait TSO ");
                push_decimal(&mut out, *wait_until_tso);
                out
            },
            Error::TxnNotFound { start_ts } => around("Txn ", *start_ts, " not found"),
            Error::WriteConflictInLatch { start_ts } => around("Transaction is stale while waiting for local latches (start_ts=", *start_ts, ")"),
            Error::RegionNotFoundInResponse { region_id } => around("Region ", *region_id, " is not found in the response"),
            Error::LeaderNotFound { region } => around("Leader of region ", region.id, " is not found"),
            Error::MaxScanLimitExceeded { limit, max_limit } => {
                let mut out = around("Limit ", *limit as u64, " exceeds max scan limit ");
                push_decimal(&mut out, *max_limit as u64);
                out
            },
            Error::RegionError(e) => join("Region error: ", debug_region_error(e).as_str()),
            Error::KeyError(e) => debug_key_error(e),
            Error::ExtractedErrors(errors) => with_errors("Multiple errors: ", errors),
            Error::MultipleKeyErrors(errors) => with_errors("Multiple key errors: ", errors),
            Error::RegionForKeyNotFound { key } => {
                let mut out = "Region is not found for key: ".to_owned();
                push_byte_list(&mut out, key);
                out
            },
            Error::RegionForRangeNotFound { range } => join("Region is not found for range: ", range.to_text().as_str()),
            Error::PessimisticLockError { inner, .. } => {
                let mut out = "PessimisticLock error: ".to_owned();
                push_details(&mut out, inner);
                out
            },
        }
    }
}

} // verus!
