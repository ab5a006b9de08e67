//! A resolver of locks, which remembers what it has found out.

use vstd::prelude::*;

use crate::proto::kvrpcpb::LockInfo;
use crate::region::RegionWithLeader;
use crate::request::keyspace::Keyspace;
use crate::request_context::{RequestContext, RequestContextView};
use crate::transaction::cleanup::{CleanupAction, LockCleanup, TxnStatusQuery};
use crate::transaction::lock::ResolveLocksContext;
use crate::transaction::status::TransactionStatus;

verus! {

/// A resolver of locks, which remembers what it has found out.
#[derive(Debug)]
pub struct LockResolver<PdC, T, I> {
    pub ctx: ResolveLocksContext,
    pub pd_client: PdC,
    pub keyspace: Keyspace,
    pub request_context: RequestContext<T, I>,
}

/// What there is to a question for the fate of a transaction.
#[derive(Debug)]
pub enum StatusCheck {
    /// It is known.
    Known(TransactionStatus),
    /// It is to be asked for.
    Ask(TxnStatusQuery),
}

impl<PdC, T, I> LockResolver<PdC, T, I> {
    /// A resolver that starts from what is known.
    pub fn new(ctx: ResolveLocksContext, pd_client: PdC, keyspace: Keyspace) -> (r: Self)
        ensures
            r.ctx == ctx,
            r.pd_client == pd_client,
            r.keyspace == keyspace,
            r.request_context@ == RequestContextView::<T, I>::blank(),
    {
        LockResolver { ctx, pd_client, keyspace, request_context: RequestContext::default() }
    }

    /// With what is set on its requests.
    pub fn with_request_context(self, request_context: RequestContext<T, I>) -> (r: Self)
        ensures
            r == (LockResolver { request_context, ..self }),
    {
        LockResolver { request_context, ..self }
    }

    /// Begin to remove the given locks from a region. Transactions that are still running are
    /// rolled back.
    pub fn cleanup_locks(&self, region: &RegionWithLeader, locks: Vec<LockInfo>) -> (r: (
        LockCleanup,
        CleanupAction,
    ))
        ensures
            locks@.len() == 0 ==> LockCleanup::ends(Ok(()), r.0, r.1),
            locks@.len() > 0 ==> LockCleanup::goes_on(
                locks@,
                Seq::empty(),
                self.ctx@,
                region@.ver_id(),
                r.0,
                r.1,
            ),
            r.0.wf(),
    {
        LockCleanup::start(region.ver_id(), locks, &self.ctx)
    }

    /// The fate of a transaction, if it is known. Else it is to be asked for.
    pub fn check_txn_status(&self, query: TxnStatusQuery) -> (r: StatusCheck)
        ensures
            match r {
                StatusCheck::Known(status) => self.ctx@.resolved.contains_key(query.txn_id)
                    && status@ == self.ctx@.resolved[query.txn_id],
                StatusCheck::Ask(asked) => !self.ctx@.resolved.contains_key(query.txn_id) && asked
                    == query,
            },
    {
        match self.ctx.get_resolved(query.txn_id) {
            Some(status) => StatusCheck::Known(status),
            None => StatusCheck::Ask(query),
        }
    }
}

} // verus!
