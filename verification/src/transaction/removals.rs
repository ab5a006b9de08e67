//! What holds of a removal of locks, whatever has become of their transactions.

use vstd::prelude::*;

use crate::common::errors::{Error, Result};
use crate::proto::kvrpcpb::{LockInfo, TxnInfo};
use crate::region::RegionVerId;
use crate::timestamp::has_version;
use crate::transaction::cleanup::{
    lemma_unsettled, CleanupAction, CleanupAnswer, CleanupPhase, CleanupRun, LockCleanup,
};
use crate::transaction::lock::{ContextModel, ResolveLocksContext};
use crate::transaction::status::{
    SecondaryLocksStatus, TransactionStatus, TransactionStatusKind,
};

verus! {

/// The fate of the transaction has been found out, or its locks were removed from the region
/// before.
pub open spec fn needs_no_question(
    lock: LockInfo,
    fates: Seq<TxnInfo>,
    context: ContextModel,
    region: RegionVerId,
) -> bool {
    (exists|i: int| 0 <= i < fates.len() && (#[trigger] fates[i]).txn == lock.lock_version)
        || context.clean_regions.contains((lock.lock_version, region))
}

/// The action asks for the fate of the lock's transaction, from a caller without a transaction and
/// at the end of time, so that the transaction is rolled back if it has not been committed.
pub open spec fn asks_about(action: CleanupAction, lock: LockInfo, force_sync_commit: bool) -> bool {
    match action {
        CleanupAction::CheckTxnStatus(query) => {
            &&& query.txn_id == lock.lock_version
            &&& query.primary@ == lock.primary_lock@
            &&& query.caller_start_ts == 0
            &&& query.current_ts == 0xffff_ffff_ffff_ffff
            &&& query.rollback_if_not_exist
            &&& query.force_sync_commit == force_sync_commit
            &&& query.resolving_pessimistic_lock <==> lock.lock_type == 5
        },
        _ => false,
    }
}

/// The removal goes on to the first of the locks that needs a question. Where none does, the locks
/// are removed, for all the transactions whose fates were found out and for no others.
pub open spec fn goes_on_to_next(
    locks: Seq<LockInfo>,
    fates: Seq<TxnInfo>,
    context: ContextModel,
    region: RegionVerId,
    after: LockCleanup,
    action: CleanupAction,
) -> bool {
    &&& after.txn_infos@ == fates
    &&& after.region == region
    &&& match action {
        CleanupAction::CheckTxnStatus(_) => exists|k: int|
            {
                &&& 0 <= k < locks.len()
                &&& asks_about(action, #[trigger] locks[k], false)
                &&& after.phase == (CleanupPhase::Checking {
                    lock: locks[k],
                    force_sync_commit: false,
                })
                &&& after.rest() == locks.skip(k + 1)
                &&& !needs_no_question(locks[k], fates, context, region)
                &&& forall|i: int|
                    0 <= i < k ==> needs_no_question(#[trigger] locks[i], fates, context, region)
            },
        CleanupAction::BatchResolve { txn_infos } => {
            &&& txn_infos@ == fates
            &&& after.phase is Resolving
            &&& after.rest().len() == 0
            &&& forall|i: int|
                0 <= i < locks.len() ==> needs_no_question(
                    #[trigger] locks[i],
                    fates,
                    context,
                    region,
                )
        },
        _ => false,
    }
}

proof fn lemma_goes_on(
    locks: Seq<LockInfo>,
    fates: Seq<TxnInfo>,
    context: ContextModel,
    region: RegionVerId,
    after: LockCleanup,
    action: CleanupAction,
)
    requires
        LockCleanup::goes_on(locks, fates, context, region, after, action),
    ensures
        goes_on_to_next(locks, fates, context, region, after, action),
{
    lemma_unsettled(locks, fates, context, region);
    let rest = crate::transaction::cleanup::unsettled(locks, fates, context, region);
    let k = locks.len() - rest.len();
    if rest.len() > 0 {
        assert(rest[0] == locks[k]);
        assert(after.rest() =~= locks.skip(k + 1));
        assert(asks_about(action, locks[k], false));
    }
}

/// A removal begins with the first lock whose transaction has not been seen off. Without locks
/// there is nothing to do.
pub proof fn law_a_removal_begins_with_the_first_open_lock(
    region: RegionVerId,
    locks: Vec<LockInfo>,
    context: ResolveLocksContext,
    r: (LockCleanup, CleanupAction),
)
    requires
        call_ensures(LockCleanup::start, (region, locks, &context), r),
    ensures
        locks@.len() == 0 ==> r.1 is Return && r.1->Return_0 is Ok && r.0.phase is Over,
        locks@.len() > 0 ==> goes_on_to_next(
            locks@,
            Seq::empty(),
            context@,
            region,
            r.0,
            r.1,
        ),
{
    if locks@.len() > 0 {
        lemma_goes_on(locks@, Seq::empty(), context@, region, r.0, r.1);
    }
}

/// What comes of the fate of a transaction. One that was committed has its locks removed as
/// committed at its version, one that was rolled back as rolled back. One that is locked has its
/// secondary locks asked for, unless it was found not to use asynchronous commit; then its lock
/// ends the removal.
pub proof fn law_locks_are_removed_as_their_transaction_ended(
    before: LockCleanup,
    status: Result<TransactionStatus>,
    context: ContextModel,
    after: LockCleanup,
    action: CleanupAction,
    lock: LockInfo,
    force_sync_commit: bool,
)
    requires
        before.phase == (CleanupPhase::Checking { lock, force_sync_commit }),
        before.on_status(status, context, after, action),
    ensures
        status matches Err(error) ==> action == CleanupAction::Return(Err(error)),
        status is Ok ==> match status->Ok_0.kind {
            TransactionStatusKind::Committed(ts) => has_version(ts) ==> exists|version: u64|
                ts.physical * 262144 + ts.logical == version && #[trigger] goes_on_to_next(
                    before.rest(),
                    before.txn_infos@.push(TxnInfo { txn: lock.lock_version, status: version }),
                    context,
                    before.region,
                    after,
                    action,
                ),
            TransactionStatusKind::RolledBack => goes_on_to_next(
                before.rest(),
                before.txn_infos@.push(TxnInfo { txn: lock.lock_version, status: 0 }),
                context,
                before.region,
                after,
                action,
            ),
            TransactionStatusKind::Locked(_, primary) => {
                &&& !force_sync_commit ==> {
                    &&& action is CheckSecondaries
                    &&& action->keys == primary.secondaries
                    &&& action->CheckSecondaries_txn_id == lock.lock_version
                    &&& action->CheckSecondaries_min_commit_ts == primary.min_commit_ts
                    &&& after.phase == (CleanupPhase::CheckingSecondaries { lock })
                    &&& after.txn_infos == before.txn_infos
                    &&& after.reversed == before.reversed
                }
                &&& force_sync_commit ==> {
                    &&& action is Return
                    &&& action->Return_0 is Err
                    &&& action->Return_0->Err_0 is ResolveLockError
                    &&& action->Return_0->Err_0->ResolveLockError_0@ == seq![primary]
                }
            },
        },
        action is Return ==> after.phase is Over,
{
    match status {
        Ok(status) => match status.kind {
            TransactionStatusKind::Committed(ts) => {
                let version = (ts.physical * 262144 + ts.logical) as u64;
                if has_version(ts) {
                    lemma_goes_on(
                        before.rest(),
                        before.txn_infos@.push(TxnInfo { txn: lock.lock_version, status: version }),
                        context,
                        before.region,
                        after,
                        action,
                    );
                }
            },
            TransactionStatusKind::RolledBack => {
                lemma_goes_on(
                    before.rest(),
                    before.txn_infos@.push(TxnInfo { txn: lock.lock_version, status: 0 }),
                    context,
                    before.region,
                    after,
                    action,
                );
            },
            _ => {},
        },
        Err(_) => {},
    }
}

/// What comes of what the secondary locks of a transaction tell. Where it was or can be committed,
/// its locks are removed as committed then, where it was not, as rolled back. Where it does not
/// use asynchronous commit after all, its fate is asked for once more, with word of that.
pub proof fn law_secondary_locks_decide_on_their_transaction(
    before: LockCleanup,
    secondaries: Result<SecondaryLocksStatus>,
    context: ContextModel,
    after: LockCleanup,
    action: CleanupAction,
    lock: LockInfo,
)
    requires
        before.phase == (CleanupPhase::CheckingSecondaries { lock }),
        before.on_secondaries(secondaries, context, after, action),
        secondaries is Ok && secondaries->Ok_0.commit_ts is Some ==> has_version(
            secondaries->Ok_0.commit_ts->0,
        ),
    ensures
        secondaries matches Err(error) ==> action == CleanupAction::Return(Err(error)),
        secondaries is Ok && secondaries->Ok_0.fallback_2pc ==> {
            &&& asks_about(action, lock, true)
            &&& after.phase == (CleanupPhase::Checking { lock, force_sync_commit: true })
            &&& after.txn_infos == before.txn_infos
            &&& after.reversed == before.reversed
            &&& after.region == before.region
        },
        secondaries is Ok && !secondaries->Ok_0.fallback_2pc ==> exists|version: u64|
            (match secondaries->Ok_0.commit_ts {
                Some(ts) => ts.physical * 262144 + ts.logical == version,
                None => secondaries->Ok_0.min_commit_ts == version,
            }) && #[trigger] goes_on_to_next(
                before.rest(),
                before.txn_infos@.push(TxnInfo { txn: lock.lock_version, status: version }),
                context,
                before.region,
                after,
                action,
            ),
{
    match secondaries {
        Ok(told) => {
            if !told.fallback_2pc {
                lemma_goes_on(
                    before.rest(),
                    before.txn_infos@.push(
                        TxnInfo { txn: lock.lock_version, status: told.version() },
                    ),
                    context,
                    before.region,
                    after,
                    action,
                );
            }
        },
        Err(_) => {},
    }
}

/// Once the locks have been removed, each of the transactions is on record as gone from the
/// region, and nothing else is put on record or taken off. Where that failed the record stays.
pub proof fn law_only_removed_transactions_are_put_on_record(
    before: LockCleanup,
    resolved: Result<RegionVerId>,
    context: ContextModel,
    noted: ContextModel,
    after: LockCleanup,
    action: CleanupAction,
    txn: u64,
    region: RegionVerId,
)
    requires
        before.on_locks_resolved(resolved, context, noted, after, action),
    ensures
        resolved matches Err(error) ==> action == CleanupAction::Return(Err(error)) && noted
            == context,
        resolved is Ok ==> action is Return && action->Return_0 is Ok,
        resolved is Ok ==> (noted.clean_regions.contains((txn, region))
            <==> context.clean_regions.contains((txn, region)) || (region == resolved->Ok_0
            && exists|i: int|
            0 <= i < before.txn_infos@.len() && (#[trigger] before.txn_infos@[i]).txn == txn)),
        noted.resolved == context.resolved,
{
    let pair = (txn, region);
    assert(noted.clean_regions.contains(pair) || !noted.clean_regions.contains(pair));
}

/// An answer tells that the transaction was committed at the version, or, where that is 0, that it
/// was rolled back.
pub open spec fn tells_of_end(answer: CleanupAnswer, version: u64) -> bool {
    match answer {
        CleanupAnswer::Status(Ok(status)) => match status.kind {
            TransactionStatusKind::Committed(ts) => has_version(ts) ==> ts.physical * 262144
                + ts.logical == version,
            TransactionStatusKind::RolledBack => version == 0,
            TransactionStatusKind::Locked(_, _) => false,
        },
        CleanupAnswer::Secondaries(Ok(told)) => {
            &&& !told.fallback_2pc
            &&& match told.commit_ts {
                Some(ts) => has_version(ts) ==> ts.physical * 262144 + ts.logical == version,
                None => told.min_commit_ts == version,
            }
        },
        _ => false,
    }
}

/// The run was told of the end of the transaction when it asked for that.
pub open spec fn was_told(run: CleanupRun, n: int, fate: TxnInfo) -> bool {
    exists|i: int|
        {
            &&& 0 <= i < n
            &&& tells_of_end((#[trigger] run.steps[i]).answer, fate.status)
            &&& run.states[i].at_hand() is Some
            &&& run.states[i].at_hand()->0.lock_version == fate.txn
        }
}

proof fn lemma_told(
    run: CleanupRun,
    locks: Seq<LockInfo>,
    start: ContextModel,
    region: RegionVerId,
    n: int,
    k: int,
)
    requires
        run.is_run(locks, start, region),
        0 <= n < run.states.len(),
        run.states[n].phase !is Over,
        0 <= k < run.states[n].txn_infos@.len(),
    ensures
        was_told(run, n, run.states[n].txn_infos@[k]),
        run.actions[n] is BatchResolve ==> run.actions[n]->txn_infos@
            == run.states[n].txn_infos@,
    decreases n,
{
    if n > 0 {
        let i = n - 1;
        let before = run.states[i];
        let after = run.states[n];
        assert(run.takes_step(start, i));
        assert(before.phase !is Over);
        let fate = after.txn_infos@[k];
        if k < before.txn_infos@.len() {
            lemma_told(run, locks, start, region, i, k);
            assert(before.txn_infos@[k] == fate);
            let j = choose|j: int|
                {
                    &&& 0 <= j < i
                    &&& tells_of_end((#[trigger] run.steps[j]).answer, fate.status)
                    &&& run.states[j].at_hand() is Some
                    &&& run.states[j].at_hand()->0.lock_version == fate.txn
                };
            assert(tells_of_end(run.steps[j].answer, fate.status));
        } else {
            assert(tells_of_end(run.steps[i].answer, fate.status));
        }
    }
}

/// Locks are removed only as their transactions have ended: for each transaction whose locks are
/// to be removed, the removal was told of just that end when it asked.
pub proof fn law_every_removal_was_told(
    run: CleanupRun,
    locks: Seq<LockInfo>,
    start: ContextModel,
    region: RegionVerId,
    n: int,
    k: int,
)
    requires
        run.is_run(locks, start, region),
        0 <= n < run.actions.len(),
        run.actions[n] is BatchResolve,
        0 <= k < run.actions[n]->txn_infos@.len(),
    ensures
        was_told(run, n, run.actions[n]->txn_infos@[k]),
{
    if n > 0 {
        assert(run.takes_step(start, n - 1));
    }
    assert(run.states[n].phase is Resolving);
    assert(run.actions[n]->txn_infos@ == run.states[n].txn_infos@);
    lemma_told(run, locks, start, region, n, k);
}

/// The steps that these laws speak of are those of the functions.
pub proof fn law_the_steps_of_a_removal_are_these()
    ensures
        forall|
            cleanup: &mut LockCleanup,
            status: Result<TransactionStatus>,
            context: &ResolveLocksContext,
            r: CleanupAction,
        | #[trigger]
            call_ensures(LockCleanup::status_checked, (cleanup, status, context), r)
                ==> cleanup.on_status(status, context@, *final(cleanup), r),
        forall|
            cleanup: &mut LockCleanup,
            secondaries: Result<SecondaryLocksStatus>,
            context: &ResolveLocksContext,
            r: CleanupAction,
        | #[trigger]
            call_ensures(LockCleanup::secondaries_checked, (cleanup, secondaries, context), r)
                ==> cleanup.on_secondaries(secondaries, context@, *final(cleanup), r),
        forall|
            cleanup: &mut LockCleanup,
            resolved: Result<RegionVerId>,
            context: &mut ResolveLocksContext,
            r: CleanupAction,
        | #[trigger]
            call_ensures(LockCleanup::locks_resolved, (cleanup, resolved, context), r)
                ==> cleanup.on_locks_resolved(
                resolved,
                context@,
                (*final(context))@,
                *final(cleanup),
                r,
            ),
{
}

} // verus!
