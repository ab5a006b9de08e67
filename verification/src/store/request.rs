//! Requests, and the context that goes along with them.

use vstd::prelude::*;

use crate::common::errors::{Error, Result};
use crate::kv::order::bytes_to_vec;
use crate::proto::kvrpcpb::{
    ApiVersion, CommandPri, Consumption, Context, ContextView, DiskFullOpt,
    ResourceControlContextView,
};
use crate::region::{RegionWithLeader, RegionWithLeaderView};

verus! {

/// The priority of a command.
pub type CommandPriority = CommandPri;

/// The commands that can be sent to a store several at a time.
#[derive(Clone, Copy, Debug, PartialEq, Eq, Structural)]
pub enum BatchCommandKind {
    RawGet,
    RawBatchGet,
    RawPut,
    RawBatchPut,
    RawDelete,
    RawBatchDelete,
    RawScan,
    RawBatchScan,
    RawDeleteRange,
    RawCoprocessor,
    Get,
    Scan,
    Prewrite,
    Commit,
    Cleanup,
    BatchGet,
    BatchRollback,
    PessimisticRollback,
    ResolveLock,
    ScanLock,
    Flush,
    BufferBatchGet,
    PessimisticLock,
    TxnHeartBeat,
    CheckTxnStatus,
    CheckSecondaryLocks,
    Gc,
    DeleteRange,
    BroadcastTxnStatus,
    GetHealthFeedback,
}

/// The requests of the key-value service.
#[derive(Clone, Copy, Debug, PartialEq, Eq, Structural)]
pub enum RequestKind {
    RawGet,
    RawBatchGet,
    RawGetKeyTtl,
    RawPut,
    RawBatchPut,
    RawDelete,
    RawBatchDelete,
    RawScan,
    RawBatchScan,
    RawDeleteRange,
    RawCas,
    RawCoprocessor,
    RawChecksum,
    Coprocessor,
    Get,
    Scan,
    Prewrite,
    Commit,
    Cleanup,
    BatchGet,
    BatchRollback,
    PessimisticRollback,
    ResolveLock,
    ScanLock,
    Flush,
    BufferBatchGet,
    PessimisticLock,
    TxnHeartBeat,
    CheckTxnStatus,
    CheckSecondaryLocks,
    Gc,
    DeleteRange,
    UnsafeDestroyRange,
    BroadcastTxnStatus,
    GetHealthFeedback,
}

impl RequestKind {
    /// The name of the request.
    pub open spec fn spec_label(self) -> Seq<char> {
        match self {
            RequestKind::RawGet => "raw_get"@,
            RequestKind::RawBatchGet => "raw_batch_get"@,
            RequestKind::RawGetKeyTtl => "raw_get_key_ttl"@,
            RequestKind::RawPut => "raw_put"@,
            RequestKind::RawBatchPut => "raw_batch_put"@,
            RequestKind::RawDelete => "raw_delete"@,
            RequestKind::RawBatchDelete => "raw_batch_delete"@,
            RequestKind::RawScan => "raw_scan"@,
            RequestKind::RawBatchScan => "raw_batch_scan"@,
            RequestKind::RawDeleteRange => "raw_delete_range"@,
            RequestKind::RawCas => "raw_compare_and_swap"@,
            RequestKind::RawCoprocessor => "raw_coprocessor"@,
            RequestKind::RawChecksum => "raw_checksum"@,
            RequestKind::Coprocessor => "coprocessor"@,
            RequestKind::Get => "kv_get"@,
            RequestKind::Scan => "kv_scan"@,
            RequestKind::Prewrite => "kv_prewrite"@,
            RequestKind::Commit => "kv_commit"@,
            RequestKind::Cleanup => "kv_cleanup"@,
            RequestKind::BatchGet => "kv_batch_get"@,
            RequestKind::BatchRollback => "kv_batch_rollback"@,
            RequestKind::PessimisticRollback => "kv_pessimistic_rollback"@,
            RequestKind::ResolveLock => "kv_resolve_lock"@,
            RequestKind::ScanLock => "kv_scan_lock"@,
            RequestKind::Flush => "kv_flush"@,
            RequestKind::BufferBatchGet => "kv_buffer_batch_get"@,
            RequestKind::PessimisticLock => "kv_pessimistic_lock"@,
            RequestKind::TxnHeartBeat => "kv_txn_heart_beat"@,
            RequestKind::CheckTxnStatus => "kv_check_txn_status"@,
            RequestKind::CheckSecondaryLocks => "kv_check_secondary_locks_request"@,
            RequestKind::Gc => "kv_gc"@,
            RequestKind::DeleteRange => "kv_delete_range"@,
            RequestKind::UnsafeDestroyRange => "unsafe_destroy_range"@,
            RequestKind::BroadcastTxnStatus => "broadcast_txn_status"@,
            RequestKind::GetHealthFeedback => "get_health_feedback"@,
        }
    }

    /// The name of the request.
    pub fn label(&self) -> (r: &'static str)
        ensures
            r@ == self.spec_label(),
    {
        match self {
            RequestKind::RawGet => "raw_get",
            RequestKind::RawBatchGet => "raw_batch_get",
            RequestKind::RawGetKeyTtl => "raw_get_key_ttl",
            RequestKind::RawPut => "raw_put",
            RequestKind::RawBatchPut => "raw_batch_put",
            RequestKind::RawDelete => "raw_delete",
            RequestKind::RawBatchDelete => "raw_batch_delete",
            RequestKind::RawScan => "raw_scan",
            RequestKind::RawBatchScan => "raw_batch_scan",
            RequestKind::RawDeleteRange => "raw_delete_range",
            RequestKind::RawCas => "raw_compare_and_swap",
            RequestKind::RawCoprocessor => "raw_coprocessor",
            RequestKind::RawChecksum => "raw_checksum",
            RequestKind::Coprocessor => "coprocessor",
            RequestKind::Get => "kv_get",
            RequestKind::Scan => "kv_scan",
            RequestKind::Prewrite => "kv_prewrite",
            RequestKind::Commit => "kv_commit",
            RequestKind::Cleanup => "kv_cleanup",
            RequestKind::BatchGet => "kv_batch_get",
            RequestKind::BatchRollback => "kv_batch_rollback",
            RequestKind::PessimisticRollback => "kv_pessimistic_rollback",
            RequestKind::ResolveLock => "kv_resolve_lock",
            RequestKind::ScanLock => "kv_scan_lock",
            RequestKind::Flush => "kv_flush",
            RequestKind::BufferBatchGet => "kv_buffer_batch_get",
            RequestKind::PessimisticLock => "kv_pessimistic_lock",
            RequestKind::TxnHeartBeat => "kv_txn_heart_beat",
            RequestKind::CheckTxnStatus => "kv_check_txn_status",
            RequestKind::CheckSecondaryLocks => "kv_check_secondary_locks_request",
            RequestKind::Gc => "kv_gc",
            RequestKind::DeleteRange => "kv_delete_range",
            RequestKind::UnsafeDestroyRange => "unsafe_destroy_range",
            RequestKind::BroadcastTxnStatus => "broadcast_txn_status",
            RequestKind::GetHealthFeedback => "get_health_feedback",
        }
    }

    /// The command that the request becomes among several ones; `None` for a request that can
    /// only be sent alone.
    pub open spec fn spec_batch_kind(self) -> Option<BatchCommandKind> {
        match self {
            RequestKind::RawGet => Some(BatchCommandKind::RawGet),
            RequestKind::RawBatchGet => Some(BatchCommandKind::RawBatchGet),
            RequestKind::RawPut => Some(BatchCommandKind::RawPut),
            RequestKind::RawBatchPut => Some(BatchCommandKind::RawBatchPut),
            RequestKind::RawDelete => Some(BatchCommandKind::RawDelete),
            RequestKind::RawBatchDelete => Some(BatchCommandKind::RawBatchDelete),
            RequestKind::RawScan => Some(BatchCommandKind::RawScan),
            RequestKind::RawBatchScan => Some(BatchCommandKind::RawBatchScan),
            RequestKind::RawDeleteRange => Some(BatchCommandKind::RawDeleteRange),
            RequestKind::RawCoprocessor => Some(BatchCommandKind::RawCoprocessor),
            RequestKind::Get => Some(BatchCommandKind::Get),
            RequestKind::Scan => Some(BatchCommandKind::Scan),
            RequestKind::Prewrite => Some(BatchCommandKind::Prewrite),
            RequestKind::Commit => Some(BatchCommandKind::Commit),
            RequestKind::Cleanup => Some(BatchCommandKind::Cleanup),
            RequestKind::BatchGet => Some(BatchCommandKind::BatchGet),
            RequestKind::BatchRollback => Some(BatchCommandKind::BatchRollback),
            RequestKind::PessimisticRollback => Some(BatchCommandKind::PessimisticRollback),
            RequestKind::ResolveLock => Some(BatchCommandKind::ResolveLock),
            RequestKind::ScanLock => Some(BatchCommandKind::ScanLock),
            RequestKind::Flush => Some(BatchCommandKind::Flush),
            RequestKind::BufferBatchGet => Some(BatchCommandKind::BufferBatchGet),
            RequestKind::PessimisticLock => Some(BatchCommandKind::PessimisticLock),
            RequestKind::TxnHeartBeat => Some(BatchCommandKind::TxnHeartBeat),
            RequestKind::CheckTxnStatus => Some(BatchCommandKind::CheckTxnStatus),
            RequestKind::CheckSecondaryLocks => Some(BatchCommandKind::CheckSecondaryLocks),
            RequestKind::Gc => Some(BatchCommandKind::Gc),
            RequestKind::DeleteRange => Some(BatchCommandKind::DeleteRange),
            RequestKind::BroadcastTxnStatus => Some(BatchCommandKind::BroadcastTxnStatus),
            RequestKind::GetHealthFeedback => Some(BatchCommandKind::GetHealthFeedback),
            _ => None,
        }
    }

    /// The command that the request becomes among several ones; `None` for a request that can
    /// only be sent alone.
    pub fn batch_kind(&self) -> (r: Option<BatchCommandKind>)
        ensures
            r == self.spec_batch_kind(),
    {
        match self {
            RequestKind::RawGet => Some(BatchCommandKind::RawGet),
            RequestKind::RawBatchGet => Some(BatchCommandKind::RawBatchGet),
            RequestKind::RawPut => Some(BatchCommandKind::RawPut),
            RequestKind::RawBatchPut => Some(BatchCommandKind::RawBatchPut),
            RequestKind::RawDelete => Some(BatchCommandKind::RawDelete),
            RequestKind::RawBatchDelete => Some(BatchCommandKind::RawBatchDelete),
            RequestKind::RawScan => Some(BatchCommandKind::RawScan),
            RequestKind::RawBatchScan => Some(BatchCommandKind::RawBatchScan),
            RequestKind::RawDeleteRange => Some(BatchCommandKind::RawDeleteRange),
            RequestKind::RawCoprocessor => Some(BatchCommandKind::RawCoprocessor),
            RequestKind::Get => Some(BatchCommandKind::Get),
            RequestKind::Scan => Some(BatchCommandKind::Scan),
            RequestKind::Prewrite => Some(BatchCommandKind::Prewrite),
            RequestKind::Commit => Some(BatchCommandKind::Commit),
            RequestKind::Cleanup => Some(BatchCommandKind::Cleanup),
            RequestKind::BatchGet => Some(BatchCommandKind::BatchGet),
            RequestKind::BatchRollback => Some(BatchCommandKind::BatchRollback),
            RequestKind::PessimisticRollback => Some(BatchCommandKind::PessimisticRollback),
            RequestKind::ResolveLock => Some(BatchCommandKind::ResolveLock),
            RequestKind::ScanLock => Some(BatchCommandKind::ScanLock),
            RequestKind::Flush => Some(BatchCommandKind::Flush),
            RequestKind::BufferBatchGet => Some(BatchCommandKind::BufferBatchGet),
            RequestKind::PessimisticLock => Some(BatchCommandKind::PessimisticLock),
            RequestKind::TxnHeartBeat => Some(BatchCommandKind::TxnHeartBeat),
            RequestKind::CheckTxnStatus => Some(BatchCommandKind::CheckTxnStatus),
            RequestKind::CheckSecondaryLocks => Some(BatchCommandKind::CheckSecondaryLocks),
            RequestKind::Gc => Some(BatchCommandKind::Gc),
            RequestKind::DeleteRange => Some(BatchCommandKind::DeleteRange),
            RequestKind::BroadcastTxnStatus => Some(BatchCommandKind::BroadcastTxnStatus),
            RequestKind::GetHealthFeedback => Some(BatchCommandKind::GetHealthFeedback),
            _ => None,
        }
    }
}

/// What a request holds.
#[verifier::ext_equal]
pub struct RequestView<P> {
    /// What the request asks for.
    pub payload: P,
    /// The name of the request.
    pub label: Seq<char>,
    /// The request goes to a region, not to a store as such.
    pub is_for_region: bool,
    /// The context of the request, if it has one yet.
    pub context: Option<ContextView>,
}

impl<P> RequestView<P> {
    /// The context that the request has, or gets.
    pub open spec fn started(self) -> ContextView {
        match self.context {
            Some(context) => context,
            None => ContextView::blank(),
        }
    }

    /// The request with another context.
    pub open spec fn with(self, context: ContextView) -> RequestView<P> {
        RequestView { context: Some(context), ..self }
    }

    /// The request aimed at the leader of a region, if there is one and the request is for a
    /// region at all.
    pub open spec fn led(self, leader: RegionWithLeaderView) -> RequestView<P> {
        if !self.is_for_region {
            self
        } else if leader.leader is None {
            self.with(self.started())
        } else {
            self.with(
                ContextView {
                    region_id: leader.region.id,
                    region_epoch: leader.region.region_epoch,
                    peer: leader.leader,
                    ..self.started()
                },
            )
        }
    }

    /// The request with word of whether a follower may answer.
    pub open spec fn with_replica_read(self, replica_read: bool) -> RequestView<P> {
        if self.is_for_region {
            self.with(ContextView { replica_read, ..self.started() })
        } else {
            self
        }
    }

    /// The request with word of whether a stale answer will do.
    pub open spec fn with_stale_read(self, stale_read: bool) -> RequestView<P> {
        if self.is_for_region {
            self.with(ContextView { stale_read, ..self.started() })
        } else {
            self
        }
    }
}

/// A request to a store.
///
/// What can be set on a request is set by the kind of request that has it. Where a kind of request
/// does not say how, the request is left as it is.
pub trait Request: Sized {
    /// What the request asks for.
    type Payload;

    /// What the request holds, as far as a kind of request says so.
    open spec fn model(&self) -> RequestView<Self::Payload> {
        vstd::pervasive::arbitrary()
    }

    /// The name of the request.
    fn label(&self) -> (r: &'static str)
        ensures
            r@ == self.model().label,
    ;

    /// The command that the request becomes among several ones; `None` for a request that can
    /// only be sent alone.
    fn batch_request(&self) -> (r: Option<BatchCommandKind>)
        default_ensures
            r is None,
    {
        None
    }

    /// The context of the request, which is made if it has none yet.
    fn context_mut(&mut self) -> (r: &mut Context)
        ensures
            r@ == old(self).model().started(),
            final(self).model() == old(self).model().with(final(r)@),
    ;

    /// Aim the request at the leader of a region.
    fn set_leader(&mut self, leader: &RegionWithLeader) -> (r: Result<()>)
        ensures
            final(self).model() == old(self).model().led(leader@),
            r == (if old(self).model().is_for_region && leader.leader is None {
                Err::<(), Error>(Error::LeaderNotFound { region: leader@.ver_id() })
            } else {
                Ok(())
            }),
    ;

    /// Set the version of the protocol.
    fn set_api_version(&mut self, api_version: ApiVersion)
        ensures
            final(self).model() == old(self).model().with(
                ContextView {
                    api_version: api_version.spec_number(),
                    ..old(self).model().started()
                },
            ),
    ;

    /// Say where the request comes from.
    fn set_request_source(&mut self, source: &str)
        default_ensures
            *final(self) == *old(self),
    {
    }

    /// Set the tag of the resource group.
    fn set_resource_group_tag(&mut self, tag: &[u8])
        default_ensures
            *final(self) == *old(self),
    {
    }

    /// Set the name of the resource group.
    fn set_resource_group_name(&mut self, name: &str)
        default_ensures
            *final(self) == *old(self),
    {
    }

    /// Set the priority of the command.
    fn set_priority(&mut self, priority: CommandPriority)
        default_ensures
            *final(self) == *old(self),
    {
    }

    /// Say whether a store with a full disk may serve the request.
    fn set_disk_full_opt(&mut self, disk_full_opt: DiskFullOpt)
        default_ensures
            *final(self) == *old(self),
    {
    }

    /// Say which source the transaction has.
    fn set_txn_source(&mut self, txn_source: u64)
        default_ensures
            *final(self) == *old(self),
    {
    }

    /// Set the priority that stands in for that of the resource group.
    fn set_resource_control_override_priority(&mut self, override_priority: u64)
        default_ensures
            *final(self) == *old(self),
    {
    }

    /// Set what the resource group is charged in advance.
    fn set_resource_control_penalty(&mut self, penalty: &Consumption)
        default_ensures
            *final(self) == *old(self),
    {
    }

    /// Say whether a follower may answer.
    fn set_replica_read(&mut self, replica_read: bool)
        default_ensures
            *final(self) == *old(self),
    {
    }

    /// Say whether a stale answer will do.
    fn set_stale_read(&mut self, stale_read: bool)
        default_ensures
            *final(self) == *old(self),
    {
    }
}

/// What the client reads and writes of a request: which one it is, and its context.
#[derive(Debug, PartialEq, Eq)]
pub struct RequestHead {
    pub kind: RequestKind,
    pub context: Option<Context>,
}

impl RequestHead {
    /// A request without a context.
    pub fn new(kind: RequestKind) -> (r: RequestHead)
        ensures
            r.kind == kind,
            r.context is None,
    {
        RequestHead { kind, context: None }
    }

    /// Whether the request goes to a region, not to a store as such.
    pub fn is_for_region(&self) -> (r: bool)
        ensures
            r == (self.kind != RequestKind::GetHealthFeedback),
    {
        self.kind != RequestKind::GetHealthFeedback
    }
}

impl Request for RequestHead {
    type Payload = RequestKind;

    open spec fn model(&self) -> RequestView<RequestKind> {
        RequestView {
            payload: self.kind,
            label: self.kind.spec_label(),
            is_for_region: self.kind != RequestKind::GetHealthFeedback,
            context: match self.context {
                Some(context) => Some(context@),
                None => None,
            },
        }
    }

    fn label(&self) -> (r: &'static str) {
        self.kind.label()
    }

    fn batch_request(&self) -> (r: Option<BatchCommandKind>)
        ensures
            r == self.kind.spec_batch_kind(),
    {
        self.kind.batch_kind()
    }

    fn context_mut(&mut self) -> (r: &mut Context) {
        if self.context.is_none() {
            self.context = Some(Context::default());
        }
        match &mut self.context {
            Some(context) => context,
            None => vstd::pervasive::unreached(),
        }
    }

    fn set_leader(&mut self, leader: &RegionWithLeader) -> (r: Result<()>) {
        if !self.is_for_region() {
            return Ok(());
        }
        let context = self.context_mut();
        match leader.leader {
            None => Err(Error::LeaderNotFound { region: leader.ver_id() }),
            Some(peer) => {
                context.region_id = leader.region.id;
                context.region_epoch = leader.region.region_epoch;
                context.peer = Some(peer);
                Ok(())
            },
        }
    }

    fn set_api_version(&mut self, api_version: ApiVersion) {
        let context = self.context_mut();
        context.api_version = api_version.number();
    }

    fn set_request_source(&mut self, source: &str)
        ensures
            final(self).model() == old(self).model().with(
                ContextView {
                    request_source: source@,
                    ..old(self).model().started()
                },
            ),
    {
        let context = self.context_mut();
        context.request_source = source.to_owned();
    }

    fn set_resource_group_tag(&mut self, tag: &[u8])
        ensures
            final(self).model() == old(self).model().with(
                ContextView {
                    resource_group_tag: tag@,
                    ..old(self).model().started()
                },
            ),
    {
        let context = self.context_mut();
        context.resource_group_tag = bytes_to_vec(tag);
    }

    fn set_resource_group_name(&mut self, name: &str)
        ensures
            ({
                let before = old(self).model().started();
                let control = ResourceControlContextView {
                    resource_group_name: name@,
                    ..before.control()
                };
                final(self).model() == old(self).model().with(ContextView { resource_control_context: Some(control), ..before })
            }),
    {
        let context = self.context_mut();
        let control = context.control_mut();
        control.resource_group_name = name.to_owned();
    }

    fn set_priority(&mut self, priority: CommandPriority)
        ensures
            final(self).model() == old(self).model().with(
                ContextView {
                    priority: priority.spec_number(),
                    ..old(self).model().started()
                },
            ),
    {
        let context = self.context_mut();
        context.priority = priority.number();
    }

    fn set_disk_full_opt(&mut self, disk_full_opt: DiskFullOpt)
        ensures
            final(self).model() == old(self).model().with(
                ContextView {
                    disk_full_opt: disk_full_opt.spec_number(),
                    ..old(self).model().started()
                },
            ),
    {
        let context = self.context_mut();
        context.disk_full_opt = disk_full_opt.number();
    }

    fn set_txn_source(&mut self, txn_source: u64)
        ensures
            final(self).model() == old(self).model().with(ContextView { txn_source, ..old(self).model().started() }),
    {
        let context = self.context_mut();
        context.txn_source = txn_source;
    }

    fn set_resource_control_override_priority(&mut self, override_priority: u64)
        ensures
            ({
                let before = old(self).model().started();
                let control = ResourceControlContextView {
                    override_priority,
                    ..before.control()
                };
                final(self).model() == old(self).model().with(ContextView { resource_control_context: Some(control), ..before })
            }),
    {
        let context = self.context_mut();
        let control = context.control_mut();
        control.override_priority = override_priority;
    }

    fn set_resource_control_penalty(&mut self, penalty: &Consumption)
        ensures
            ({
                let before = old(self).model().started();
                let control = ResourceControlContextView {
                    penalty: Some(penalty.encoded@),
                    ..before.control()
                };
                final(self).model() == old(self).model().with(ContextView { resource_control_context: Some(control), ..before })
            }),
    {
        let context = self.context_mut();
        let control = context.control_mut();
        control.penalty = Some(Consumption { encoded: bytes_to_vec(&penalty.encoded) });
    }

    fn set_replica_read(&mut self, replica_read: bool)
        ensures
            final(self).model() == old(self).model().with_replica_read(replica_read),
    {
        if self.is_for_region() {
            let context = self.context_mut();
            context.replica_read = replica_read;
        }
    }

    fn set_stale_read(&mut self, stale_read: bool)
        ensures
            final(self).model() == old(self).model().with_stale_read(stale_read),
    {
        if self.is_for_region() {
            let context = self.context_mut();
            context.stale_read = stale_read;
        }
    }
}

} // verus!
