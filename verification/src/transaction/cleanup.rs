//! Removing the locks of a region, whatever has become of their transactions.
//!
//! Transactions that are still running are rolled back on the way, so this is only for the
//! collection of garbage.

use vstd::prelude::*;

use crate::common::errors::{Error, Result};
use crate::common::vectors::reversed;
use crate::kv::order::bytes_to_vec;
use crate::proto::kvrpcpb::{LockInfo, TxnInfo, OP_PESSIMISTIC_LOCK};
use crate::region::RegionVerId;
use crate::timestamp::{has_version, version_of};
use crate::transaction::lock::{ContextModel, ResolveLocksContext};
use crate::transaction::status::{
    SecondaryLocksStatus, TransactionStatus, TransactionStatusKind,
};

verus! {

/// A question for the fate of a transaction.
#[derive(Debug, PartialEq, Eq)]
pub struct TxnStatusQuery {
    pub txn_id: u64,
    pub primary: Vec<u8>,
    pub caller_start_ts: u64,
    pub current_ts: u64,
    pub rollback_if_not_exist: bool,
    pub force_sync_commit: bool,
    pub resolving_pessimistic_lock: bool,
}

/// What is to be done next.
#[derive(Debug)]
pub enum CleanupAction {
    /// Ask for the fate of a transaction.
    CheckTxnStatus(TxnStatusQuery),
    /// Ask for the secondary locks of a transaction.
    CheckSecondaries { keys: Vec<Vec<u8>>, txn_id: u64, min_commit_ts: u64 },
    /// Remove the locks of the transactions from the region.
    BatchResolve { txn_infos: Vec<TxnInfo> },
    /// End.
    Return(Result<()>),
}

/// What the removal waits for.
#[derive(Debug)]
pub enum CleanupPhase {
    /// The fate of the transaction that holds the lock.
    Checking { lock: LockInfo, force_sync_commit: bool },
    /// What the secondary locks of the transaction tell.
    CheckingSecondaries { lock: LockInfo },
    /// The removal of the locks.
    Resolving,
    /// Nothing: the removal has ended.
    Over,
}

/// A removal of locks from a region.
#[derive(Debug)]
pub struct LockCleanup {
    pub region: RegionVerId,
    /// The locks that have not been looked at, the last one first.
    pub reversed: Vec<LockInfo>,
    /// The fates of the transactions so far.
    pub txn_infos: Vec<TxnInfo>,
    pub phase: CleanupPhase,
}

/// The fate of the transaction is among the given ones.
pub open spec fn is_known(txn_infos: Seq<TxnInfo>, txn_id: u64) -> bool {
    exists|i: int| 0 <= i < txn_infos.len() && (#[trigger] txn_infos[i]).txn == txn_id
}

/// The lock needs no question: the fate of its transaction is known, or its transaction has no
/// lock in the region any more.
pub open spec fn is_settled(
    lock: LockInfo,
    txn_infos: Seq<TxnInfo>,
    context: ContextModel,
    region: RegionVerId,
) -> bool {
    is_known(txn_infos, lock.lock_version) || context.clean_regions.contains(
        (lock.lock_version, region),
    )
}

/// The locks from the first one on that needs a question.
pub open spec fn unsettled(
    locks: Seq<LockInfo>,
    txn_infos: Seq<TxnInfo>,
    context: ContextModel,
    region: RegionVerId,
) -> Seq<LockInfo>
    decreases locks.len(),
{
    if locks.len() > 0 && is_settled(locks[0], txn_infos, context, region) {
        unsettled(locks.skip(1), txn_infos, context, region)
    } else {
        locks
    }
}

/// The action asks for the fate of the transaction that holds the lock. The question rolls the
/// transaction back even if its lock has not expired.
pub open spec fn asks_for_status(
    action: CleanupAction,
    lock: LockInfo,
    force_sync_commit: bool,
) -> bool {
    match action {
        CleanupAction::CheckTxnStatus(query) => {
            &&& query.txn_id == lock.lock_version
            &&& query.primary@ == lock.primary_lock@
            &&& query.caller_start_ts == 0
            &&& query.current_ts == u64::MAX
            &&& query.rollback_if_not_exist
            &&& query.force_sync_commit == force_sync_commit
            &&& query.resolving_pessimistic_lock == (lock.lock_type == OP_PESSIMISTIC_LOCK)
        },
        _ => false,
    }
}

fn ask_for_status(lock: &LockInfo, force_sync_commit: bool) -> (r: CleanupAction)
    ensures
        asks_for_status(r, *lock, force_sync_commit),
{
    CleanupAction::CheckTxnStatus(
        TxnStatusQuery {
            txn_id: lock.lock_version,
            primary: bytes_to_vec(&lock.primary_lock),
            caller_start_ts: 0,
            current_ts: u64::MAX,
            rollback_if_not_exist: true,
            force_sync_commit,
            resolving_pessimistic_lock: lock.lock_type == OP_PESSIMISTIC_LOCK,
        },
    )
}

impl LockCleanup {
    /// The locks that have not been looked at.
    pub open spec fn rest(self) -> Seq<LockInfo> {
        self.reversed@.reverse()
    }

    /// The removal goes on to the next lock that needs a question, or to the removal itself.
    pub open spec fn goes_on(
        rest: Seq<LockInfo>,
        txn_infos: Seq<TxnInfo>,
        context: ContextModel,
        region: RegionVerId,
        after: LockCleanup,
        action: CleanupAction,
    ) -> bool {
        let locks = unsettled(rest, txn_infos, context, region);
        &&& after.region == region
        &&& after.txn_infos@ == txn_infos
        &&& if locks.len() > 0 {
            &&& after.phase == (CleanupPhase::Checking { lock: locks[0], force_sync_commit: false })
            &&& after.rest() == locks.skip(1)
            &&& asks_for_status(action, locks[0], false)
        } else {
            &&& after.phase is Resolving
            &&& after.rest() == Seq::<LockInfo>::empty()
            &&& action is BatchResolve
            &&& action->txn_infos@ == txn_infos
        }
    }

    /// The removal ends.
    pub open spec fn ends(result: Result<()>, after: LockCleanup, action: CleanupAction) -> bool {
        after.phase is Over && action == CleanupAction::Return(result)
    }

    /// What comes of the fate of a transaction. One that is still locked may use asynchronous
    /// commit, so its secondary locks are asked for, but only once.
    pub open spec fn on_status(
        self,
        status: Result<TransactionStatus>,
        context: ContextModel,
        after: LockCleanup,
        action: CleanupAction,
    ) -> bool {
        let lock = self.phase->Checking_lock;
        match status {
            Err(error) => LockCleanup::ends(Err(error), after, action),
            Ok(status) => match status.kind {
                TransactionStatusKind::Locked(_, info) => if self.phase->force_sync_commit {
                    &&& after.phase is Over
                    &&& action is Return
                    &&& action->Return_0 is Err
                    &&& action->Return_0->Err_0 is ResolveLockError
                    &&& action->Return_0->Err_0->ResolveLockError_0@ == seq![info]
                } else {
                    &&& action == (CleanupAction::CheckSecondaries {
                        keys: info.secondaries,
                        txn_id: lock.lock_version,
                        min_commit_ts: info.min_commit_ts,
                    })
                    &&& after == (LockCleanup {
                        phase: CleanupPhase::CheckingSecondaries { lock },
                        ..self
                    })
                },
                TransactionStatusKind::Committed(ts) => LockCleanup::goes_on(
                    self.rest(),
                    self.txn_infos@.push(TxnInfo { txn: lock.lock_version, status: version_of(ts) }),
                    context,
                    self.region,
                    after,
                    action,
                ),
                TransactionStatusKind::RolledBack => LockCleanup::goes_on(
                    self.rest(),
                    self.txn_infos@.push(TxnInfo { txn: lock.lock_version, status: 0 }),
                    context,
                    self.region,
                    after,
                    action,
                ),
            },
        }
    }

    /// What comes of what the secondary locks tell. Where the transaction does not use
    /// asynchronous commit after all, its fate is asked for once more.
    pub open spec fn on_secondaries(
        self,
        secondaries: Result<SecondaryLocksStatus>,
        context: ContextModel,
        after: LockCleanup,
        action: CleanupAction,
    ) -> bool {
        let lock = self.phase->CheckingSecondaries_lock;
        match secondaries {
            Err(error) => LockCleanup::ends(Err(error), after, action),
            Ok(secondaries) => if secondaries.fallback_2pc {
                &&& asks_for_status(action, lock, true)
                &&& after == (LockCleanup {
                    phase: CleanupPhase::Checking { lock, force_sync_commit: true },
                    ..self
                })
            } else {
                LockCleanup::goes_on(
                    self.rest(),
                    self.txn_infos@.push(
                        TxnInfo { txn: lock.lock_version, status: secondaries.version() },
                    ),
                    context,
                    self.region,
                    after,
                    action,
                )
            },
        }
    }

    /// What comes of the removal of the locks. It is noted for each of the transactions.
    pub open spec fn on_locks_resolved(
        self,
        resolved: Result<RegionVerId>,
        context: ContextModel,
        noted: ContextModel,
        after: LockCleanup,
        action: CleanupAction,
    ) -> bool {
        match resolved {
            Err(error) => LockCleanup::ends(Err(error), after, action) && noted == context,
            Ok(region) => {
                &&& LockCleanup::ends(Ok(()), after, action)
                &&& noted.resolved == context.resolved
                &&& forall|pair: (u64, RegionVerId)| #[trigger]
                    noted.clean_regions.contains(pair) <==> context.clean_regions.contains(pair)
                        || (pair.1 == region && is_known(self.txn_infos@, pair.0))
            },
        }
    }

    fn go_on(&mut self, context: &ResolveLocksContext) -> (r: CleanupAction)
        ensures
            LockCleanup::goes_on(
                old(self).rest(),
                old(self).txn_infos@,
                context@,
                old(self).region,
                *final(self),
                r,
            ),
    {
        let ghost start = self.rest();
        let ghost infos = self.txn_infos@;
        let ghost at = self.region;
        loop
            invariant
                self.txn_infos@ == infos,
                self.region == at,
                unsettled(self.rest(), infos, context@, at) == unsettled(
                    start,
                    infos,
                    context@,
                    at,
                ),
                start == old(self).rest(),
                infos == old(self).txn_infos@,
                at == old(self).region,
            decreases self.reversed@.len(),
        {
            let ghost before = self.rest();
            match self.reversed.pop() {
                None => {
                    assert(self.rest() =~= Seq::<LockInfo>::empty());
                    assert(before =~= Seq::<LockInfo>::empty());
                    self.phase = CleanupPhase::Resolving;
                    return CleanupAction::BatchResolve { txn_infos: self.copy_txn_infos() };
                },
                Some(lock) => {
                    assert(before[0] == lock);
                    assert(self.rest() =~= before.skip(1));
                    if !self.has_info(lock.lock_version) && !context.is_region_cleaned(
                        lock.lock_version,
                        &self.region,
                    ) {
                        let action = ask_for_status(&lock, false);
                        self.phase = CleanupPhase::Checking { lock, force_sync_commit: false };
                        return action;
                    }
                },
            }
        }
    }

    fn has_info(&self, txn_id: u64) -> (r: bool)
        ensures
            r == is_known(self.txn_infos@, txn_id),
    {
        let mut i: usize = 0;
        while i < self.txn_infos.len()
            invariant
                i <= self.txn_infos.len(),
                forall|k: int| 0 <= k < i ==> (#[trigger] self.txn_infos@[k]).txn != txn_id,
            decreases self.txn_infos.len() - i,
        {
            if self.txn_infos[i].txn == txn_id {
                assert(self.txn_infos@[i as int].txn == txn_id);
                return true;
            }
            i = i + 1;
        }
        false
    }

    fn copy_txn_infos(&self) -> (r: Vec<TxnInfo>)
        ensures
            r@ == self.txn_infos@,
    {
        let mut r: Vec<TxnInfo> = Vec::new();
        let mut i: usize = 0;
        while i < self.txn_infos.len()
            invariant
                i <= self.txn_infos.len(),
                r@ == self.txn_infos@.take(i as int),
            decreases self.txn_infos.len() - i,
        {
            r.push(self.txn_infos[i]);
            i = i + 1;
            assert(r@ =~= self.txn_infos@.take(i as int));
        }
        assert(r@ =~= self.txn_infos@);
        r
    }

    /// Begin to remove the given locks from a region.
    pub fn start(region: RegionVerId, locks: Vec<LockInfo>, context: &ResolveLocksContext) -> (r: (
        LockCleanup,
        CleanupAction,
    ))
        ensures
            locks@.len() == 0 ==> LockCleanup::ends(Ok(()), r.0, r.1),
            locks@.len() > 0 ==> LockCleanup::goes_on(
                locks@,
                Seq::empty(),
                context@,
                region,
                r.0,
                r.1,
            ),
            r.0.wf(),
    {
        if locks.len() == 0 {
            let cleanup = LockCleanup {
                region,
                reversed: Vec::new(),
                txn_infos: Vec::new(),
                phase: CleanupPhase::Over,
            };
            return (cleanup, CleanupAction::Return(Ok(())));
        }
        let ghost input = locks@;
        let reversed = reversed(locks);
        assert(reversed@.reverse() =~= input);
        let mut cleanup = LockCleanup {
            region,
            reversed,
            txn_infos: Vec::new(),
            phase: CleanupPhase::Over,
        };
        assert(cleanup.txn_infos@ =~= Seq::<TxnInfo>::empty());
        let action = cleanup.go_on(context);
        proof {
            lemma_goes_on_wf(input, Seq::empty(), context@, region, cleanup, action);
        }
        (cleanup, action)
    }

    /// Go on with the fate of a transaction.
    pub fn status_checked(
        &mut self,
        status: Result<TransactionStatus>,
        context: &ResolveLocksContext,
    ) -> (r: CleanupAction)
        requires
            old(self).phase is Checking,
            status is Ok && status->Ok_0.kind is Committed ==> has_version(
                status->Ok_0.kind->Committed_0,
            ),
        ensures
            old(self).on_status(status, context@, *final(self), r),
    {
        let mut phase = CleanupPhase::Over;
        core::mem::swap(&mut self.phase, &mut phase);
        match phase {
            CleanupPhase::Checking { lock, force_sync_commit } => match status {
                Err(error) => CleanupAction::Return(Err(error)),
                Ok(status) => match status.kind {
                    TransactionStatusKind::Locked(_, info) => {
                        if force_sync_commit {
                            let mut locks: Vec<LockInfo> = Vec::new();
                            locks.push(info);
                            assert(locks@ =~= seq![info]);
                            return CleanupAction::Return(Err(Error::ResolveLockError(locks)));
                        }
                        let action = CleanupAction::CheckSecondaries {
                            keys: info.secondaries,
                            txn_id: lock.lock_version,
                            min_commit_ts: info.min_commit_ts,
                        };
                        self.phase = CleanupPhase::CheckingSecondaries { lock };
                        action
                    },
                    TransactionStatusKind::Committed(ts) => {
                        self.txn_infos.push(
                            TxnInfo { txn: lock.lock_version, status: ts.version() },
                        );
                        self.go_on(context)
                    },
                    TransactionStatusKind::RolledBack => {
                        self.txn_infos.push(TxnInfo { txn: lock.lock_version, status: 0 });
                        self.go_on(context)
                    },
                },
            },
            _ => vstd::pervasive::unreached(),
        }
    }

    /// Go on with what the secondary locks of a transaction tell.
    pub fn secondaries_checked(
        &mut self,
        secondaries: Result<SecondaryLocksStatus>,
        context: &ResolveLocksContext,
    ) -> (r: CleanupAction)
        requires
            old(self).phase is CheckingSecondaries,
            secondaries is Ok && secondaries->Ok_0.commit_ts is Some ==> has_version(
                secondaries->Ok_0.commit_ts->0,
            ),
        ensures
            old(self).on_secondaries(secondaries, context@, *final(self), r),
    {
        let mut phase = CleanupPhase::Over;
        core::mem::swap(&mut self.phase, &mut phase);
        match phase {
            CleanupPhase::CheckingSecondaries { lock } => match secondaries {
                Err(error) => CleanupAction::Return(Err(error)),
                Ok(secondaries) => {
                    if secondaries.fallback_2pc {
                        let action = ask_for_status(&lock, true);
                        self.phase = CleanupPhase::Checking { lock, force_sync_commit: true };
                        return action;
                    }
                    self.txn_infos.push(
                        TxnInfo { txn: lock.lock_version, status: secondaries.commit_version() },
                    );
                    self.go_on(context)
                },
            },
            _ => vstd::pervasive::unreached(),
        }
    }

    /// End with the removal of the locks, which is noted for each of the transactions.
    pub fn locks_resolved(
        &mut self,
        resolved: Result<RegionVerId>,
        context: &mut ResolveLocksContext,
    ) -> (r: CleanupAction)
        requires
            old(self).phase is Resolving,
        ensures
            old(self).on_locks_resolved(
                resolved,
                old(context)@,
                final(context)@,
                *final(self),
                r,
            ),
    {
        self.phase = CleanupPhase::Over;
        let region = match resolved {
            Err(error) => {
                return CleanupAction::Return(Err(error));
            },
            Ok(region) => region,
        };
        let ghost before = context@;
        let ghost infos = self.txn_infos@;
        let mut i: usize = 0;
        while i < self.txn_infos.len()
            invariant
                i <= self.txn_infos.len(),
                self.txn_infos@ == infos,
                self.phase is Over,
                context@.resolved == before.resolved,
                forall|pair: (u64, RegionVerId)| #[trigger]
                    context@.clean_regions.contains(pair) <==> before.clean_regions.contains(pair)
                        || (pair.1 == region && is_known(infos.take(i as int), pair.0)),
            decreases self.txn_infos.len() - i,
        {
            let ghost now = context@;
            context.save_cleaned_region(self.txn_infos[i].txn, region);
            proof {
                let done = infos.take(i as int);
                let more = infos.take(i + 1);
                assert(more =~= done.push(infos[i as int]));
                assert forall|pair: (u64, RegionVerId)| #[trigger]
                    context@.clean_regions.contains(pair) <==> before.clean_regions.contains(pair)
                        || (pair.1 == region && is_known(more, pair.0)) by {
                    if is_known(done, pair.0) {
                        let k = choose|k: int| 0 <= k < done.len() && (#[trigger] done[k]).txn == pair.0;
                        assert(more[k].txn == pair.0);
                    }
                    assert(more[i as int].txn == infos[i as int].txn);
                    if is_known(more, pair.0) {
                        let k = choose|k: int| 0 <= k < more.len() && (#[trigger] more[k]).txn == pair.0;
                        if k < i {
                            assert(done[k].txn == pair.0);
                        }
                    }
                    assert(now.clean_regions.contains(pair) <==> before.clean_regions.contains(pair)
                        || (pair.1 == region && is_known(done, pair.0)));
                }
            }
            i = i + 1;
        }
        assert(infos.take(i as int) =~= infos);
        CleanupAction::Return(Ok(()))
    }
}

/// No transaction occurs twice.
pub open spec fn all_different(txn_infos: Seq<TxnInfo>) -> bool {
    forall|i: int, j: int|
        0 <= i < j < txn_infos.len() ==> (#[trigger] txn_infos[i]).txn != (
        #[trigger] txn_infos[j]).txn
}

impl LockCleanup {
    /// No transaction is decided on twice: those that have been are all different, and the one
    /// that is asked for is not among them.
    pub open spec fn wf(self) -> bool {
        &&& all_different(self.txn_infos@)
        &&& match self.phase {
            CleanupPhase::Checking { lock, .. } => !is_known(self.txn_infos@, lock.lock_version),
            CleanupPhase::CheckingSecondaries { lock } => !is_known(
                self.txn_infos@,
                lock.lock_version,
            ),
            _ => true,
        }
    }
}

pub(crate) proof fn lemma_unsettled(
    locks: Seq<LockInfo>,
    txn_infos: Seq<TxnInfo>,
    context: ContextModel,
    region: RegionVerId,
)
    ensures
        ({
            let rest = unsettled(locks, txn_infos, context, region);
            let skipped = locks.len() - rest.len();
            &&& 0 <= skipped
            &&& rest == locks.skip(skipped)
            &&& forall|i: int|
                0 <= i < skipped ==> is_settled(#[trigger] locks[i], txn_infos, context, region)
            &&& rest.len() > 0 ==> !is_settled(rest[0], txn_infos, context, region)
        }),
    decreases locks.len(),
{
    if locks.len() > 0 && is_settled(locks[0], txn_infos, context, region) {
        let tail = locks.skip(1);
        lemma_unsettled(tail, txn_infos, context, region);
        let rest = unsettled(locks, txn_infos, context, region);
        let skipped = locks.len() - rest.len();
        assert(rest =~= locks.skip(skipped));
        assert forall|i: int| 0 <= i < skipped implies is_settled(
            #[trigger] locks[i],
            txn_infos,
            context,
            region,
        ) by {
            if i > 0 {
                assert(locks[i] == tail[i - 1]);
            }
        }
    } else {
        assert(locks.skip(0) =~= locks);
    }
}

/// A lock is passed over only if the fate of its transaction is known or its transaction has no
/// lock in the region any more. All other locks are asked about, in their order.
pub proof fn law_only_settled_locks_are_passed_over(
    locks: Seq<LockInfo>,
    txn_infos: Seq<TxnInfo>,
    context: ContextModel,
    region: RegionVerId,
    at: int,
)
    requires
        0 <= at < locks.len(),
        !is_settled(locks[at], txn_infos, context, region),
    ensures
        ({
            let rest = unsettled(locks, txn_infos, context, region);
            &&& rest.len() >= locks.len() - at
            &&& rest == locks.skip(locks.len() - rest.len())
        }),
{
    lemma_unsettled(locks, txn_infos, context, region);
}

proof fn lemma_goes_on_wf(
    rest: Seq<LockInfo>,
    txn_infos: Seq<TxnInfo>,
    context: ContextModel,
    region: RegionVerId,
    after: LockCleanup,
    action: CleanupAction,
)
    requires
        LockCleanup::goes_on(rest, txn_infos, context, region, after, action),
        all_different(txn_infos),
    ensures
        after.wf(),
{
    lemma_unsettled(rest, txn_infos, context, region);
}

proof fn lemma_one_more(txn_infos: Seq<TxnInfo>, info: TxnInfo)
    requires
        all_different(txn_infos),
        !is_known(txn_infos, info.txn),
    ensures
        all_different(txn_infos.push(info)),
{
    let more = txn_infos.push(info);
    assert forall|i: int, j: int| 0 <= i < j < more.len() implies (#[trigger] more[i]).txn != (
    #[trigger] more[j]).txn by {
        assert(txn_infos[i].txn == more[i].txn);
        if j < txn_infos.len() {
            assert(txn_infos[j].txn == more[j].txn);
        }
    }
}

impl LockCleanup {
    /// A bound on the number of actions until the removal ends.
    pub open spec fn work_left(self) -> nat {
        match self.phase {
            CleanupPhase::Over => 0,
            CleanupPhase::Resolving => 1,
            CleanupPhase::Checking { force_sync_commit, .. } => if force_sync_commit {
                self.rest().len() * 4 + 3
            } else {
                self.rest().len() * 4 + 5
            },
            CleanupPhase::CheckingSecondaries { .. } => self.rest().len() * 4 + 4,
        }
    }
}

/// Whatever comes of a question, less is left to be done. So a removal ends.
pub proof fn law_a_removal_ends(
    before: LockCleanup,
    status: Result<TransactionStatus>,
    secondaries: Result<SecondaryLocksStatus>,
    context: ContextModel,
    after: LockCleanup,
    action: CleanupAction,
)
    requires
        (before.phase is Checking && before.on_status(status, context, after, action)) || (
        before.phase is CheckingSecondaries && before.on_secondaries(
            secondaries,
            context,
            after,
            action,
        )),
    ensures
        after.work_left() < before.work_left(),
        after.work_left() == 0 ==> action is Return,
{
    assert forall|txn_infos: Seq<TxnInfo>|
        (#[trigger] unsettled(before.rest(), txn_infos, context, before.region)).len()
            <= before.rest().len() by {
        lemma_unsettled(before.rest(), txn_infos, context, before.region);
    }
}

/// Whatever comes of a question, no transaction is decided on twice.
pub proof fn law_a_transaction_is_decided_once(
    before: LockCleanup,
    status: Result<TransactionStatus>,
    secondaries: Result<SecondaryLocksStatus>,
    context: ContextModel,
    after: LockCleanup,
    action: CleanupAction,
)
    requires
        before.wf(),
        (before.phase is Checking && before.on_status(status, context, after, action)) || (
        before.phase is CheckingSecondaries && before.on_secondaries(
            secondaries,
            context,
            after,
            action,
        )),
        after.phase !is Over,
    ensures
        after.wf(),
{
    if before.phase is Checking {
        let lock = before.phase->Checking_lock;
        match status {
            Ok(status) => match status.kind {
                TransactionStatusKind::Committed(ts) => {
                    let info = TxnInfo { txn: lock.lock_version, status: version_of(ts) };
                    lemma_one_more(before.txn_infos@, info);
                    lemma_goes_on_wf(
                        before.rest(),
                        before.txn_infos@.push(info),
                        context,
                        before.region,
                        after,
                        action,
                    );
                },
                TransactionStatusKind::RolledBack => {
                    let info = TxnInfo { txn: lock.lock_version, status: 0 };
                    lemma_one_more(before.txn_infos@, info);
                    lemma_goes_on_wf(
                        before.rest(),
                        before.txn_infos@.push(info),
                        context,
                        before.region,
                        after,
                        action,
                    );
                },
                _ => {},
            },
            Err(_) => {},
        }
    } else {
        let lock = before.phase->CheckingSecondaries_lock;
        match secondaries {
            Ok(secondaries) => {
                if !secondaries.fallback_2pc {
                    let info = TxnInfo { txn: lock.lock_version, status: secondaries.version() };
                    lemma_one_more(before.txn_infos@, info);
                    lemma_goes_on_wf(
                        before.rest(),
                        before.txn_infos@.push(info),
                        context,
                        before.region,
                        after,
                        action,
                    );
                }
            },
            Err(_) => {},
        }
    }
}

/// What an action of a removal has come to.
pub enum CleanupAnswer {
    /// The fate of the transaction.
    Status(Result<TransactionStatus>),
    /// What the secondary locks of the transaction tell.
    Secondaries(Result<SecondaryLocksStatus>),
    /// The region from which the locks were removed.
    Resolved(Result<RegionVerId>),
}

/// A step of a removal: what an action has come to, and what was on record before and after the
/// removal went on with it.
pub struct CleanupStep {
    pub answer: CleanupAnswer,
    pub context: ContextModel,
    pub noted: ContextModel,
}

impl LockCleanup {
    /// What comes of a step. The region that locks are removed from is the one that was asked for.
    /// Only the end of the removal is put on record.
    pub open spec fn steps_to(
        self,
        step: CleanupStep,
        after: LockCleanup,
        action: CleanupAction,
    ) -> bool {
        match step.answer {
            CleanupAnswer::Status(status) => {
                &&& self.phase is Checking
                &&& step.noted == step.context
                &&& self.on_status(status, step.context, after, action)
            },
            CleanupAnswer::Secondaries(secondaries) => {
                &&& self.phase is CheckingSecondaries
                &&& step.noted == step.context
                &&& self.on_secondaries(secondaries, step.context, after, action)
            },
            CleanupAnswer::Resolved(resolved) => {
                &&& self.phase is Resolving
                &&& self.on_locks_resolved(resolved, step.context, step.noted, after, action)
                &&& resolved is Ok ==> resolved->Ok_0 == self.region
            },
        }
    }

    /// The lock that is being asked about.
    pub open spec fn at_hand(self) -> Option<LockInfo> {
        match self.phase {
            CleanupPhase::Checking { lock, .. } => Some(lock),
            CleanupPhase::CheckingSecondaries { lock } => Some(lock),
            _ => None,
        }
    }

    /// Each of the locks is still to be looked at, or is at hand, or needs no question.
    pub open spec fn accounts_for(self, locks: Seq<LockInfo>, context: ContextModel) -> bool {
        forall|i: int| #![trigger locks[i]]
            0 <= i < locks.len() ==> self.rest().contains(locks[i]) || self.at_hand() == Some(
                locks[i],
            ) || is_settled(locks[i], self.txn_infos@, context, self.region)
    }

    /// None of the transactions that have been decided on, or are being asked for, had its locks
    /// removed from the region by then.
    pub open spec fn is_needed(self, context: ContextModel) -> bool {
        &&& forall|i: int|
            0 <= i < self.txn_infos@.len() ==> !context.clean_regions.contains(
                ((#[trigger] self.txn_infos@[i]).txn, self.region),
            )
        &&& self.at_hand() is Some ==> !context.clean_regions.contains(
            (self.at_hand()->0.lock_version, self.region),
        )
    }
}

/// A removal from its start on: its states, the actions that it asked for, and its steps. Others
/// may put removals of their own on record meanwhile.
pub struct CleanupRun {
    pub states: Seq<LockCleanup>,
    pub actions: Seq<CleanupAction>,
    pub steps: Seq<CleanupStep>,
}

impl CleanupRun {
    /// What is on record after the first steps.
    pub open spec fn record(self, start: ContextModel, steps: int) -> ContextModel {
        if steps <= 0 {
            start
        } else {
            self.steps[steps - 1].noted
        }
    }

    /// A state comes of the one before, and nothing is taken off the record.
    pub open spec fn takes_step(self, start: ContextModel, i: int) -> bool {
        &&& self.states[i].steps_to(self.steps[i], self.states[i + 1], self.actions[i + 1])
        &&& self.record(start, i).clean_regions.subset_of(self.steps[i].context.clean_regions)
    }

    /// The run begins with the given locks and the given record.
    pub open spec fn is_run(
        self,
        locks: Seq<LockInfo>,
        start: ContextModel,
        region: RegionVerId,
    ) -> bool {
        &&& self.states.len() == self.steps.len() + 1
        &&& self.actions.len() == self.steps.len() + 1
        &&& if locks.len() == 0 {
            LockCleanup::ends(Ok(()), self.states[0], self.actions[0])
        } else {
            LockCleanup::goes_on(
                locks,
                Seq::empty(),
                start,
                region,
                self.states[0],
                self.actions[0],
            )
        }
        &&& forall|i: int| 0 <= i < self.steps.len() ==> #[trigger] self.takes_step(start, i)
    }

    /// The run up to the given number of steps.
    pub open spec fn up_to(self, steps: int) -> CleanupRun {
        CleanupRun {
            states: self.states.take(steps + 1),
            actions: self.actions.take(steps + 1),
            steps: self.steps.take(steps),
        }
    }

    /// No step has put anything on record.
    pub open spec fn notes_nothing(self) -> bool {
        forall|i: int|
            0 <= i < self.steps.len() ==> (#[trigger] self.steps[i]).noted == self.steps[i].context
    }

    /// What a run has come to.
    spec fn is_consistent(
        self,
        locks: Seq<LockInfo>,
        start: ContextModel,
        region: RegionVerId,
    ) -> bool {
        let state = self.states.last();
        let action = self.actions.last();
        let record = self.record(start, self.steps.len() as int);
        if state.phase is Over {
            &&& action is Return
            &&& action->Return_0 is Ok ==> all_clean(locks, record, region)
            &&& action->Return_0 is Err ==> self.notes_nothing()
        } else {
            &&& self.notes_nothing()
            &&& state.is_on_course(locks, start, record, region, action)
        }
    }
}

impl LockCleanup {
    /// The removal has not ended, and no lock has been lost.
    spec fn is_on_course(
        self,
        locks: Seq<LockInfo>,
        start: ContextModel,
        record: ContextModel,
        region: RegionVerId,
        action: CleanupAction,
    ) -> bool {
        &&& action !is Return
        &&& self.region == region
        &&& self.wf()
        &&& self.accounts_for(locks, record)
        &&& self.is_needed(start)
        &&& start.clean_regions.subset_of(record.clean_regions)
        &&& self.phase is Resolving ==> self.rest().len() == 0
        &&& action is BatchResolve ==> action->txn_infos@ == self.txn_infos@
    }
}

/// The transactions of all the locks are on record as removed from the region.
pub open spec fn all_clean(
    locks: Seq<LockInfo>,
    context: ContextModel,
    region: RegionVerId,
) -> bool {
    forall|i: int|
        0 <= i < locks.len() ==> context.clean_regions.contains(
            ((#[trigger] locks[i]).lock_version, region),
        )
}

proof fn lemma_part_of_run(
    run: CleanupRun,
    locks: Seq<LockInfo>,
    start: ContextModel,
    region: RegionVerId,
    steps: int,
)
    requires
        run.is_run(locks, start, region),
        0 <= steps <= run.steps.len(),
    ensures
        run.up_to(steps).is_run(locks, start, region),
{
    let part = run.up_to(steps);
    assert forall|i: int| 0 <= i < part.steps.len() implies #[trigger] part.takes_step(start, i) by {
        assert(run.takes_step(start, i));
        assert(part.record(start, i) == run.record(start, i));
    }
}

/// What is settled stays so when more is known.
proof fn lemma_settled_for_good(
    lock: LockInfo,
    known: Seq<TxnInfo>,
    more: Seq<TxnInfo>,
    context: ContextModel,
    later: ContextModel,
    region: RegionVerId,
)
    requires
        is_settled(lock, known, context, region),
        known.is_prefix_of(more),
        context.clean_regions.subset_of(later.clean_regions),
    ensures
        is_settled(lock, more, later, region),
{
    if is_known(known, lock.lock_version) {
        let i = choose|i: int| 0 <= i < known.len() && (#[trigger] known[i]).txn
            == lock.lock_version;
        assert(more[i].txn == lock.lock_version);
    }
}

/// Going on to the next lock leaves every lock accounted for.
proof fn lemma_goes_on_accounts(
    lock: LockInfo,
    rest: Seq<LockInfo>,
    txn_infos: Seq<TxnInfo>,
    context: ContextModel,
    region: RegionVerId,
    after: LockCleanup,
    action: CleanupAction,
)
    requires
        LockCleanup::goes_on(rest, txn_infos, context, region, after, action),
        rest.contains(lock) || is_settled(lock, txn_infos, context, region),
    ensures
        after.rest().contains(lock) || after.at_hand() == Some(lock) || is_settled(
            lock,
            txn_infos,
            context,
            region,
        ),
{
    lemma_unsettled(rest, txn_infos, context, region);
    let left = unsettled(rest, txn_infos, context, region);
    let skipped = rest.len() - left.len();
    if rest.contains(lock) {
        let i = choose|i: int| 0 <= i < rest.len() && rest[i] == lock;
        if i < skipped {
            assert(is_settled(rest[i], txn_infos, context, region));
        } else if i > skipped {
            assert(left.skip(1)[i - skipped - 1] == lock);
        } else {
            assert(left[0] == lock);
        }
    }
}

/// What a step that goes on to the next lock keeps.
proof fn lemma_going_on_is_consistent(
    locks: Seq<LockInfo>,
    start: ContextModel,
    record: ContextModel,
    context: ContextModel,
    before: LockCleanup,
    info: TxnInfo,
    after: LockCleanup,
    action: CleanupAction,
)
    requires
        before.wf(),
        before.at_hand() is Some,
        info.txn == before.at_hand()->0.lock_version,
        before.accounts_for(locks, record),
        before.is_needed(start),
        start.clean_regions.subset_of(context.clean_regions),
        record.clean_regions.subset_of(context.clean_regions),
        LockCleanup::goes_on(
            before.rest(),
            before.txn_infos@.push(info),
            context,
            before.region,
            after,
            action,
        ),
    ensures
        after.wf(),
        after.accounts_for(locks, context),
        after.is_needed(start),
{
    let known = before.txn_infos@;
    let more = known.push(info);
    lemma_one_more(known, info);
    lemma_goes_on_wf(before.rest(), more, context, before.region, after, action);
    lemma_unsettled(before.rest(), more, context, before.region);
    assert(known.is_prefix_of(more));
    assert(more[known.len() as int] == info);
    assert forall|i: int| #![trigger locks[i]] 0 <= i < locks.len() implies after.rest().contains(
        locks[i],
    ) || after.at_hand() == Some(locks[i]) || is_settled(
        locks[i],
        after.txn_infos@,
        context,
        after.region,
    ) by {
        let lock = locks[i];
        if before.at_hand() == Some(lock) {
            assert(more[known.len() as int].txn == lock.lock_version);
        } else if !before.rest().contains(lock) {
            lemma_settled_for_good(lock, known, more, record, context, before.region);
        }
        lemma_goes_on_accounts(lock, before.rest(), more, context, before.region, after, action);
    }
    assert forall|i: int| 0 <= i < more.len() implies !start.clean_regions.contains(
        ((#[trigger] more[i]).txn, before.region),
    ) by {
        if i < known.len() {
            assert(more[i] == known[i]);
        }
    }
}

/// What a step comes to.
proof fn lemma_step_is_consistent(
    locks: Seq<LockInfo>,
    start: ContextModel,
    record: ContextModel,
    region: RegionVerId,
    before: LockCleanup,
    step: CleanupStep,
    after: LockCleanup,
    action: CleanupAction,
)
    requires
        before.phase !is Over,
        before.region == region,
        before.wf(),
        before.accounts_for(locks, record),
        before.is_needed(start),
        before.phase is Resolving ==> before.rest().len() == 0,
        start.clean_regions.subset_of(record.clean_regions),
        record.clean_regions.subset_of(step.context.clean_regions),
        before.steps_to(step, after, action),
    ensures
        if after.phase is Over {
            &&& action is Return
            &&& action->Return_0 is Ok ==> all_clean(locks, step.noted, region)
            &&& action->Return_0 is Err ==> step.noted == step.context
        } else {
            &&& step.noted == step.context
            &&& after.is_on_course(locks, start, step.noted, region, action)
        },
{
    match step.answer {
        CleanupAnswer::Status(Ok(status)) => {
            let lock = before.phase->Checking_lock;
            match status.kind {
                TransactionStatusKind::Committed(ts) => lemma_going_on_is_consistent(
                    locks,
                    start,
                    record,
                    step.context,
                    before,
                    TxnInfo { txn: lock.lock_version, status: version_of(ts) },
                    after,
                    action,
                ),
                TransactionStatusKind::RolledBack => lemma_going_on_is_consistent(
                    locks,
                    start,
                    record,
                    step.context,
                    before,
                    TxnInfo { txn: lock.lock_version, status: 0 },
                    after,
                    action,
                ),
                TransactionStatusKind::Locked(_, _) => {
                    if !before.phase->force_sync_commit {
                        lemma_still_accounted(locks, record, step.context, before, after);
                    }
                },
            }
        },
        CleanupAnswer::Secondaries(Ok(secondaries)) => {
            let lock = before.phase->CheckingSecondaries_lock;
            if secondaries.fallback_2pc {
                lemma_still_accounted(locks, record, step.context, before, after);
            } else {
                lemma_going_on_is_consistent(
                    locks,
                    start,
                    record,
                    step.context,
                    before,
                    TxnInfo { txn: lock.lock_version, status: secondaries.version() },
                    after,
                    action,
                );
            }
        },
        CleanupAnswer::Resolved(Ok(_)) => {
            assert forall|i: int| 0 <= i < locks.len() implies step.noted.clean_regions.contains(
                ((#[trigger] locks[i]).lock_version, region),
            ) by {
                assert(is_settled(locks[i], before.txn_infos@, record, region));
                let pair = (locks[i].lock_version, region);
                assert(step.noted.clean_regions.contains(pair));
            }
        },
        _ => {},
    }
}

/// What the start of a removal comes to.
proof fn lemma_start_is_consistent(
    locks: Seq<LockInfo>,
    start: ContextModel,
    region: RegionVerId,
    state: LockCleanup,
    action: CleanupAction,
)
    requires
        LockCleanup::goes_on(locks, Seq::empty(), start, region, state, action),
    ensures
        state.phase !is Over,
        state.is_on_course(locks, start, start, region, action),
{
    lemma_goes_on_wf(locks, Seq::empty(), start, region, state, action);
    lemma_unsettled(locks, Seq::empty(), start, region);
    assert forall|i: int| #![trigger locks[i]] 0 <= i < locks.len() implies state.rest().contains(
        locks[i],
    ) || state.at_hand() == Some(locks[i]) || is_settled(
        locks[i],
        state.txn_infos@,
        start,
        state.region,
    ) by {
        lemma_goes_on_accounts(locks[i], locks, Seq::empty(), start, region, state, action);
    }
}

#[verifier::spinoff_prover]
proof fn lemma_run_is_consistent(
    run: CleanupRun,
    locks: Seq<LockInfo>,
    start: ContextModel,
    region: RegionVerId,
)
    requires
        run.is_run(locks, start, region),
    ensures
        run.is_consistent(locks, start, region),
    decreases run.steps.len(),
{
    if run.steps.len() == 0 {
        if locks.len() > 0 {
            lemma_start_is_consistent(locks, start, region, run.states[0], run.actions[0]);
        }
    } else {
        let n = run.steps.len() - 1;
        let past = run.up_to(n);
        lemma_part_of_run(run, locks, start, region, n);
        lemma_run_is_consistent(past, locks, start, region);
        let before = run.states[n];
        let after = run.states[n + 1];
        let action = run.actions[n + 1];
        let step = run.steps[n];
        assert(run.takes_step(start, n));
        assert(before == past.states.last());
        let record = run.record(start, n);
        assert(past.record(start, n) == record);
        assert forall|i: int| 0 <= i < n implies (#[trigger] run.steps[i]).noted
            == run.steps[i].context by {
            assert(past.steps[i].noted == past.steps[i].context);
        }
        lemma_step_is_consistent(locks, start, record, region, before, step, after, action);
    }
}

/// A lock at hand that is asked about once more stays at hand.
proof fn lemma_still_accounted(
    locks: Seq<LockInfo>,
    record: ContextModel,
    context: ContextModel,
    before: LockCleanup,
    after: LockCleanup,
)
    requires
        before.accounts_for(locks, record),
        record.clean_regions.subset_of(context.clean_regions),
        after.at_hand() == before.at_hand(),
        after.rest() == before.rest(),
        after.txn_infos@ == before.txn_infos@,
        after.region == before.region,
    ensures
        after.accounts_for(locks, context),
{
}

/// A removal that ends without an error has put the transaction of every given lock on record as
/// removed from the region. One that fails has put nothing on record. The locks are removed from
/// the region for no transaction twice, nor for one that was on record from the start. Without
/// locks nothing is asked for.
pub proof fn law_a_removal_is_complete(
    run: CleanupRun,
    locks: Seq<LockInfo>,
    start: ContextModel,
    region: RegionVerId,
)
    requires
        run.is_run(locks, start, region),
    ensures
        run.actions.last() == CleanupAction::Return(Ok(())) ==> all_clean(
            locks,
            run.record(start, run.steps.len() as int),
            region,
        ),
        run.actions.last() is Return && run.actions.last()->Return_0 is Err ==> run.notes_nothing(),
        forall|i: int| #![trigger run.actions[i]]
            0 <= i < run.actions.len() && run.actions[i] is BatchResolve ==> all_different(
                run.actions[i]->txn_infos@,
            ) && forall|k: int|
                0 <= k < run.actions[i]->txn_infos@.len() ==> !start.clean_regions.contains(
                    ((#[trigger] run.actions[i]->txn_infos@[k]).txn, region),
                ),
        locks.len() == 0 ==> run.steps.len() == 0 && run.actions.last() == CleanupAction::Return(
            Ok(()),
        ),
{
    lemma_run_is_consistent(run, locks, start, region);
    assert forall|i: int| #![trigger run.actions[i]]
        0 <= i < run.actions.len() && run.actions[i] is BatchResolve implies all_different(
        run.actions[i]->txn_infos@,
    ) && forall|k: int|
        0 <= k < run.actions[i]->txn_infos@.len() ==> !start.clean_regions.contains(
            ((#[trigger] run.actions[i]->txn_infos@[k]).txn, region),
        ) by {
        lemma_part_of_run(run, locks, start, region, i);
        lemma_run_is_consistent(run.up_to(i), locks, start, region);
        assert(run.up_to(i).actions.last() == run.actions[i]);
        assert(run.up_to(i).states.last() == run.states[i]);
    }
    if locks.len() == 0 && run.steps.len() > 0 {
        assert(run.takes_step(start, 0));
    }
}

} // verus!
