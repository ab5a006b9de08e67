//! Messages of the key-value service.

use vstd::prelude::*;

use crate::kv::order::bytes_to_vec;
use crate::proto::deadlock::WaitForEntry;
use crate::proto::errorpb;
use crate::proto::metapb::{byte_strings, clone_byte_strings, Peer, RegionEpoch};

pub mod write_conflict;

verus! {

/// The version of the API that a request uses.
#[derive(Clone, Copy, Debug, PartialEq, Eq, Structural)]
pub enum ApiVersion {
    V1,
    V1ttl,
    V2,
}

/// What a mutation or a lock does to its key.
#[derive(Clone, Copy, Debug, PartialEq, Eq, Structural)]
pub enum Op {
    Put,
    Del,
    Lock,
    Rollback,
    Insert,
    PessimisticLock,
    CheckNotExists,
}

/// The number of [`Op::PessimisticLock`] in the protocol.
pub const OP_PESSIMISTIC_LOCK: i32 = 5;

/// What an assertion says of its key.
#[derive(Clone, Copy, Debug, PartialEq, Eq, Structural)]
pub enum Assertion {
    NoAssertion,
    Exist,
    NotExist,
}

/// What a check of a transaction's status has done.
#[derive(Clone, Copy, Debug, PartialEq, Eq, Structural)]
pub enum Action {
    NoAction,
    TtlExpireRollback,
    LockNotExistRollback,
    MinCommitTsPushed,
    TtlExpirePessimisticRollback,
    LockNotExistDoNothing,
}

/// The priority of a command.
#[derive(Clone, Copy, Debug, PartialEq, Eq, Structural)]
pub enum CommandPri {
    Normal,
    Low,
    High,
}

/// What may be written to a store whose disk is full.
#[derive(Clone, Copy, Debug, PartialEq, Eq, Structural)]
pub enum DiskFullOpt {
    NotAllowedOnFull,
    AllowedOnAlmostFull,
    AllowedOnAlreadyFull,
}

/// A lock on a key.
#[derive(Debug, Default, PartialEq, Eq)]
pub struct LockInfo {
    pub primary_lock: Vec<u8>,
    pub lock_version: u64,
    pub key: Vec<u8>,
    pub lock_ttl: u64,
    pub txn_size: u64,
    pub lock_type: i32,
    pub lock_for_update_ts: u64,
    pub use_async_commit: bool,
    pub min_commit_ts: u64,
    pub secondaries: Vec<Vec<u8>>,
    pub duration_to_last_update_ms: u64,
    pub is_txn_file: bool,
}

/// What a [`LockInfo`] holds.
#[verifier::ext_equal]
pub struct LockInfoView {
    pub primary_lock: Seq<u8>,
    pub lock_version: u64,
    pub key: Seq<u8>,
    pub lock_ttl: u64,
    pub txn_size: u64,
    pub lock_type: i32,
    pub lock_for_update_ts: u64,
    pub use_async_commit: bool,
    pub min_commit_ts: u64,
    pub secondaries: Seq<Seq<u8>>,
    pub duration_to_last_update_ms: u64,
    pub is_txn_file: bool,
}

impl View for LockInfo {
    type V = LockInfoView;

    open spec fn view(&self) -> LockInfoView {
        LockInfoView {
            primary_lock: self.primary_lock@,
            lock_version: self.lock_version,
            key: self.key@,
            lock_ttl: self.lock_ttl,
            txn_size: self.txn_size,
            lock_type: self.lock_type,
            lock_for_update_ts: self.lock_for_update_ts,
            use_async_commit: self.use_async_commit,
            min_commit_ts: self.min_commit_ts,
            secondaries: byte_strings(self.secondaries@),
            duration_to_last_update_ms: self.duration_to_last_update_ms,
            is_txn_file: self.is_txn_file,
        }
    }
}

impl Clone for LockInfo {
    fn clone(&self) -> (r: Self)
        ensures
            r@ == self@,
    {
        LockInfo {
            primary_lock: bytes_to_vec(&self.primary_lock),
            lock_version: self.lock_version,
            key: bytes_to_vec(&self.key),
            lock_ttl: self.lock_ttl,
            txn_size: self.txn_size,
            lock_type: self.lock_type,
            lock_for_update_ts: self.lock_for_update_ts,
            use_async_commit: self.use_async_commit,
            min_commit_ts: self.min_commit_ts,
            secondaries: clone_byte_strings(&self.secondaries),
            duration_to_last_update_ms: self.duration_to_last_update_ms,
            is_txn_file: self.is_txn_file,
        }
    }
}

/// Another transaction wrote the key first.
#[derive(Clone, Debug, Default, PartialEq, Eq)]
pub struct WriteConflict {
    pub start_ts: u64,
    pub conflict_ts: u64,
    pub key: Vec<u8>,
    pub primary: Vec<u8>,
    pub conflict_commit_ts: u64,
    pub reason: i32,
}

/// The key that was to be inserted is there already.
#[derive(Clone, Debug, Default, PartialEq, Eq)]
pub struct AlreadyExist {
    pub key: Vec<u8>,
}

/// A deadlock between transactions.
#[derive(Clone, Debug, Default, PartialEq, Eq)]
pub struct Deadlock {
    pub lock_ts: u64,
    pub lock_key: Vec<u8>,
    pub deadlock_key_hash: u64,
    pub wait_chain: Vec<WaitForEntry>,
    pub deadlock_key: Vec<u8>,
}

/// The commit timestamp lies before the lock's smallest one.
#[derive(Clone, Debug, Default, PartialEq, Eq)]
pub struct CommitTsExpired {
    pub start_ts: u64,
    pub attempted_commit_ts: u64,
    pub key: Vec<u8>,
    pub min_commit_ts: u64,
}

/// The transaction is unknown to the store.
#[derive(Clone, Debug, Default, PartialEq, Eq)]
pub struct TxnNotFound {
    pub start_ts: u64,
    pub primary_key: Vec<u8>,
}

/// The commit timestamp is too large.
#[derive(Clone, Copy, Debug, Default, PartialEq, Eq, Structural)]
pub struct CommitTsTooLarge {
    pub commit_ts: u64,
}

/// An assertion on a key does not hold.
#[derive(Clone, Debug, Default, PartialEq, Eq)]
pub struct AssertionFailed {
    pub start_ts: u64,
    pub key: Vec<u8>,
    pub assertion: i32,
    pub existing_start_ts: u64,
    pub existing_commit_ts: u64,
}

/// A lock is not the primary that it was taken for.
#[derive(Clone, Debug, Default, PartialEq, Eq)]
pub struct PrimaryMismatch {
    pub lock_info: Option<LockInfo>,
}

/// A transaction's lock is not on the key.
#[derive(Clone, Debug, Default, PartialEq, Eq)]
pub struct TxnLockNotFound {
    pub key: Vec<u8>,
}

/// A lock as it is stored.
#[derive(Clone, Debug, Default, PartialEq, Eq)]
pub struct MvccLock {
    pub r_type: i32,
    pub start_ts: u64,
    pub primary: Vec<u8>,
    pub short_value: Vec<u8>,
    pub secondaries: Vec<Vec<u8>>,
}

/// A write record as it is stored.
#[derive(Clone, Debug, Default, PartialEq, Eq)]
pub struct MvccWrite {
    pub r_type: i32,
    pub start_ts: u64,
    pub commit_ts: u64,
    pub short_value: Vec<u8>,
}

/// A value as it is stored.
#[derive(Clone, Debug, Default, PartialEq, Eq)]
pub struct MvccValue {
    pub start_ts: u64,
    pub value: Vec<u8>,
}

/// Everything that is stored under a key.
#[derive(Clone, Debug, Default, PartialEq, Eq)]
pub struct MvccInfo {
    pub lock: Option<MvccLock>,
    pub writes: Vec<MvccWrite>,
    pub values: Vec<MvccValue>,
}

/// What is stored under one key, for diagnosis.
#[derive(Clone, Debug, Default, PartialEq, Eq)]
pub struct MvccDebugInfo {
    pub key: Vec<u8>,
    pub mvcc: Option<MvccInfo>,
}

/// What is stored under some keys, for diagnosis.
#[derive(Clone, Debug, Default, PartialEq, Eq)]
pub struct DebugInfo {
    pub mvcc_info: Vec<MvccDebugInfo>,
}

/// What went wrong with a key.
#[derive(Clone, Debug, Default, PartialEq, Eq)]
pub struct KeyError {
    pub locked: Option<LockInfo>,
    pub retryable: String,
    pub abort: String,
    pub conflict: Option<WriteConflict>,
    pub already_exist: Option<AlreadyExist>,
    pub deadlock: Option<Deadlock>,
    pub commit_ts_expired: Option<CommitTsExpired>,
    pub txn_not_found: Option<TxnNotFound>,
    pub commit_ts_too_large: Option<CommitTsTooLarge>,
    pub assertion_failed: Option<AssertionFailed>,
    pub primary_mismatch: Option<PrimaryMismatch>,
    pub txn_lock_not_found: Option<TxnLockNotFound>,
    pub debug_info: Option<DebugInfo>,
}

/// The fate of a transaction: `status` is its commit version, or 0 if it was rolled back.
#[derive(Clone, Copy, Debug, Default, PartialEq, Eq, Structural)]
pub struct TxnInfo {
    pub txn: u64,
    pub status: u64,
}

impl ApiVersion {
    /// The number of the version in the protocol.
    pub open spec fn spec_number(self) -> i32 {
        match self {
            ApiVersion::V1 => 0,
            ApiVersion::V1ttl => 1,
            ApiVersion::V2 => 2,
        }
    }

    /// The number of the version in the protocol.
    pub fn number(&self) -> (r: i32)
        ensures
            r == self.spec_number(),
    {
        match self {
            ApiVersion::V1 => 0,
            ApiVersion::V1ttl => 1,
            ApiVersion::V2 => 2,
        }
    }
}

impl CommandPri {
    /// The number of the priority in the protocol.
    pub open spec fn spec_number(self) -> i32 {
        match self {
            CommandPri::Normal => 0,
            CommandPri::Low => 1,
            CommandPri::High => 2,
        }
    }

    /// The number of the priority in the protocol.
    pub fn number(&self) -> (r: i32)
        ensures
            r == self.spec_number(),
    {
        match self {
            CommandPri::Normal => 0,
            CommandPri::Low => 1,
            CommandPri::High => 2,
        }
    }
}

impl DiskFullOpt {
    /// The number of the option in the protocol.
    pub open spec fn spec_number(self) -> i32 {
        match self {
            DiskFullOpt::NotAllowedOnFull => 0,
            DiskFullOpt::AllowedOnAlmostFull => 1,
            DiskFullOpt::AllowedOnAlreadyFull => 2,
        }
    }

    /// The number of the option in the protocol.
    pub fn number(&self) -> (r: i32)
        ensures
            r == self.spec_number(),
    {
        match self {
            DiskFullOpt::NotAllowedOnFull => 0,
            DiskFullOpt::AllowedOnAlmostFull => 1,
            DiskFullOpt::AllowedOnAlreadyFull => 2,
        }
    }
}

/// What a request has used up, as an encoded message.
#[derive(Debug, Default, PartialEq, Eq)]
pub struct Consumption {
    pub encoded: Vec<u8>,
}

/// How the resources that a request uses are controlled.
#[derive(Debug, PartialEq, Eq)]
pub struct ResourceControlContext {
    pub resource_group_name: String,
    pub penalty: Option<Consumption>,
    pub override_priority: u64,
}

/// What a [`ResourceControlContext`] holds.
#[verifier::ext_equal]
pub struct ResourceControlContextView {
    pub resource_group_name: Seq<char>,
    pub penalty: Option<Seq<u8>>,
    pub override_priority: u64,
}

impl ResourceControlContextView {
    /// Nothing is set.
    pub open spec fn blank() -> ResourceControlContextView {
        ResourceControlContextView {
            resource_group_name: Seq::empty(),
            penalty: None,
            override_priority: 0,
        }
    }
}

impl View for ResourceControlContext {
    type V = ResourceControlContextView;

    open spec fn view(&self) -> ResourceControlContextView {
        ResourceControlContextView {
            resource_group_name: self.resource_group_name@,
            penalty: match self.penalty {
                Some(penalty) => Some(penalty.encoded@),
                None => None,
            },
            override_priority: self.override_priority,
        }
    }
}

impl Default for ResourceControlContext {
    fn default() -> (r: Self)
        ensures
            r@ == ResourceControlContextView::blank(),
    {
        ResourceControlContext {
            resource_group_name: String::new(),
            penalty: None,
            override_priority: 0,
        }
    }
}

/// What goes along with every request.
#[derive(Debug, PartialEq, Eq)]
pub struct Context {
    pub region_id: u64,
    pub region_epoch: Option<RegionEpoch>,
    pub peer: Option<Peer>,
    pub priority: i32,
    pub api_version: i32,
    pub replica_read: bool,
    pub stale_read: bool,
    pub is_retry_request: bool,
    pub disk_full_opt: i32,
    pub txn_source: u64,
    pub trace_control_flags: u64,
    pub trace_id: Vec<u8>,
    pub request_source: String,
    pub resource_group_tag: Vec<u8>,
    pub resource_control_context: Option<ResourceControlContext>,
}

/// What a [`Context`] holds.
#[verifier::ext_equal]
pub struct ContextView {
    pub region_id: u64,
    pub region_epoch: Option<RegionEpoch>,
    pub peer: Option<Peer>,
    pub priority: i32,
    pub api_version: i32,
    pub replica_read: bool,
    pub stale_read: bool,
    pub is_retry_request: bool,
    pub disk_full_opt: i32,
    pub txn_source: u64,
    pub trace_control_flags: u64,
    pub trace_id: Seq<u8>,
    pub request_source: Seq<char>,
    pub resource_group_tag: Seq<u8>,
    pub resource_control_context: Option<ResourceControlContextView>,
}

impl ContextView {
    /// Nothing is set.
    pub open spec fn blank() -> ContextView {
        ContextView {
            region_id: 0,
            region_epoch: None,
            peer: None,
            priority: 0,
            api_version: 0,
            replica_read: false,
            stale_read: false,
            is_retry_request: false,
            disk_full_opt: 0,
            txn_source: 0,
            trace_control_flags: 0,
            trace_id: Seq::empty(),
            request_source: Seq::empty(),
            resource_group_tag: Seq::empty(),
            resource_control_context: None,
        }
    }

    /// The control of resources, which is blank if there is none.
    pub open spec fn control(self) -> ResourceControlContextView {
        match self.resource_control_context {
            Some(control) => control,
            None => ResourceControlContextView::blank(),
        }
    }
}

impl View for Context {
    type V = ContextView;

    open spec fn view(&self) -> ContextView {
        ContextView {
            region_id: self.region_id,
            region_epoch: self.region_epoch,
            peer: self.peer,
            priority: self.priority,
            api_version: self.api_version,
            replica_read: self.replica_read,
            stale_read: self.stale_read,
            is_retry_request: self.is_retry_request,
            disk_full_opt: self.disk_full_opt,
            txn_source: self.txn_source,
            trace_control_flags: self.trace_control_flags,
            trace_id: self.trace_id@,
            request_source: self.request_source@,
            resource_group_tag: self.resource_group_tag@,
            resource_control_context: match self.resource_control_context {
                Some(control) => Some(control@),
                None => None,
            },
        }
    }
}

impl Default for Context {
    fn default() -> (r: Self)
        ensures
            r@ == ContextView::blank(),
    {
        Context {
            region_id: 0,
            region_epoch: None,
            peer: None,
            priority: 0,
            api_version: 0,
            replica_read: false,
            stale_read: false,
            is_retry_request: false,
            disk_full_opt: 0,
            txn_source: 0,
            trace_control_flags: 0,
            trace_id: Vec::new(),
            request_source: String::new(),
            resource_group_tag: Vec::new(),
            resource_control_context: None,
        }
    }
}

impl Context {
    /// The control of resources, which is made if there is none yet.
    pub fn control_mut(&mut self) -> (r: &mut ResourceControlContext)
        ensures
            r@ == old(self)@.control(),
            final(self)@ == (ContextView {
                resource_control_context: Some(final(r)@),
                ..old(self)@
            }),
    {
        if self.resource_control_context.is_none() {
            self.resource_control_context = Some(ResourceControlContext::default());
        }
        match &mut self.resource_control_context {
            Some(control) => control,
            None => vstd::pervasive::unreached(),
        }
    }
}

/// A range of keys, from its start up to and without its end.
#[derive(Clone, Debug, Default, PartialEq, Eq)]
pub struct KeyRange {
    pub start_key: Vec<u8>,
    pub end_key: Vec<u8>,
}

/// The answer to a read of a raw key.
#[derive(Debug, Default, PartialEq, Eq)]
pub struct RawGetResponse {
    pub region_error: Option<errorpb::Error>,
    pub error: String,
    pub value: Vec<u8>,
    pub not_found: bool,
}

/// The answer to a scan for locks.
#[derive(Debug, Default, PartialEq, Eq)]
pub struct ScanLockResponse {
    pub region_error: Option<errorpb::Error>,
    pub error: Option<KeyError>,
    pub locks: Vec<LockInfo>,
}

} // verus!
