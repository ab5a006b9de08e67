//! What holds of the resolution of locks, step by step.

use vstd::prelude::*;

use crate::backoff::{has_delay, uses_delay};
use crate::common::errors::{Error, Result};
use crate::proto::errorpb;
use crate::proto::coprocessor::Response;
use crate::proto::kvrpcpb::{Action, LockInfo, ScanLockResponse};
use crate::proto::pdpb::Timestamp;
use crate::region::{RegionVerId, RegionWithLeader, RegionWithLeaderView};
use crate::request::shard_laws::{
    is_about_epoch, is_ahead_of, is_hopeless, is_misplaced, is_passing,
    law_each_error_has_its_remedy, names_leader,
};
use crate::transaction::cleanup::TxnStatusQuery;
use crate::transaction::expiry::{law_a_lock_lives_for_its_whole_time, lifetime};
use crate::transaction::lock::{HasLocks, ResolveLocksContext, ResolveLocksOptions};
use crate::transaction::resolve::{
    LockResolution, ResolutionModel, ResolveAction, ResolveOutcome, ResolvePhase, ResolveRetry,
    RetryAction,
};
use crate::transaction::resolver::{LockResolver, StatusCheck};
use crate::transaction::status::{has_outlived, TransactionStatus, TransactionStatusKind};

verus! {

/// The resolution goes on to the next lock, whose region is asked for, or ends with the locks that
/// are alive.
pub open spec fn turns_to_next(
    known: ResolutionModel,
    after: LockResolution,
    action: ResolveAction,
) -> bool {
    if known.rest.len() > 0 {
        &&& action is LocateRegion
        &&& action->LocateRegion_key@ == known.rest[0].key@
        &&& after.phase == (ResolvePhase::Locating { lock: known.rest[0] })
        &&& after@.rest == known.rest.skip(1)
        &&& after@.live == known.live
    } else {
        &&& action is Return
        &&& action->Return_0 is Ok
        &&& action->Return_0->Ok_0@ == known.live
        &&& after.phase is Over
    }
}

/// The action asks for the lock to be resolved, as its transaction has ended.
pub open spec fn resolves_as(action: ResolveAction, lock: LockInfo, commit_version: u64) -> bool {
    match action {
        ResolveAction::ResolveLock { key, start_version, commit_version: version } => {
            &&& key@ == lock.key@
            &&& start_version == lock.lock_version
            &&& version == commit_version
        },
        _ => false,
    }
}

/// Once the region of a lock is known, the lock needs nothing more if its transaction was resolved
/// there. Else it is resolved as its transaction has ended, if that is known; if not, the primary
/// lock of the transaction is cleaned up to find that out.
pub proof fn law_a_region_is_resolved_once(
    before: LockResolution,
    region: Result<RegionVerId>,
    after: LockResolution,
    action: ResolveAction,
    lock: LockInfo,
)
    requires
        before.phase == (ResolvePhase::Locating { lock }),
        before.on_region(region, after, action),
    ensures
        region matches Err(error) ==> action == ResolveAction::Return(Err(error)) && after.phase
            is Over,
        region is Ok ==> {
            let version = lock.lock_version;
            let resolved = before@.clean_regions.contains((version, region->Ok_0));
            let ended = before@.commit_versions.contains_key(version);
            &&& resolved ==> turns_to_next(before@, after, action)
            &&& !resolved && ended ==> resolves_as(action, lock, before@.commit_versions[version])
                && after.phase == (ResolvePhase::Resolving { lock })
            &&& !resolved && !ended ==> {
                &&& action is CleanUp
                &&& action->primary@ == lock.primary_lock@
                &&& action->CleanUp_start_version == version
                &&& after.phase == (ResolvePhase::CleaningUp { lock })
            }
            &&& after@.commit_versions == before@.commit_versions
            &&& after@.clean_regions == before@.clean_regions
            &&& !resolved ==> after@ == before@
        },
{
}

/// The lock is resolved with the version that the clean-up of its primary lock has told, which is
/// remembered for the other locks of the transaction.
pub proof fn law_a_lock_is_resolved_as_its_primary_was(
    before: LockResolution,
    commit_version: Result<u64>,
    after: LockResolution,
    action: ResolveAction,
    lock: LockInfo,
    other: u64,
)
    requires
        before.phase == (ResolvePhase::CleaningUp { lock }),
        before.on_cleaned_up(commit_version, after, action),
    ensures
        commit_version matches Err(error) ==> action == ResolveAction::Return(Err(error)),
        commit_version is Ok ==> {
            &&& resolves_as(action, lock, commit_version->Ok_0)
            &&& after.phase == (ResolvePhase::Resolving { lock })
            &&& after@.commit_versions.contains_key(lock.lock_version)
            &&& after@.commit_versions[lock.lock_version] == commit_version->Ok_0
            &&& other != lock.lock_version ==> (after@.commit_versions.contains_key(other)
                <==> before@.commit_versions.contains_key(other))
            &&& after@.rest == before@.rest && after@.live == before@.live
            &&& after@.clean_regions == before@.clean_regions
        },
{
}

/// A lock that has been resolved leads on to the next one, and the region counts as resolved for
/// its transaction, and for no other.
pub proof fn law_a_resolved_lock_leads_on(
    before: LockResolution,
    region: Result<RegionVerId>,
    after: LockResolution,
    action: ResolveAction,
    lock: LockInfo,
    version: u64,
    at: RegionVerId,
)
    requires
        before.phase == (ResolvePhase::Resolving { lock }),
        before.on_resolved(region, after, action),
    ensures
        region matches Err(error) ==> action == ResolveAction::Return(Err(error)),
        region is Ok ==> {
            &&& turns_to_next(before@, after, action)
            &&& after@.clean_regions.contains((version, at)) <==> (version == lock.lock_version
                && at == region->Ok_0) || before@.clean_regions.contains((version, at))
            &&& after@.commit_versions == before@.commit_versions
        },
{
}

/// The steps that these laws speak of are those of the functions.
pub proof fn law_the_steps_of_a_resolution_are_these()
    ensures
        forall|resolution: &mut LockResolution, region: Result<RegionVerId>, r: ResolveAction|
            #[trigger] call_ensures(LockResolution::region_located, (resolution, region), r)
                ==> resolution.on_region(region, *final(resolution), r),
        forall|resolution: &mut LockResolution, version: Result<u64>, r: ResolveAction| #[trigger]
            call_ensures(LockResolution::cleaned_up, (resolution, version), r)
                ==> resolution.on_cleaned_up(version, *final(resolution), r),
        forall|resolution: &mut LockResolution, region: Result<RegionVerId>, r: ResolveAction|
            #[trigger] call_ensures(LockResolution::lock_resolved, (resolution, region), r)
                ==> resolution.on_resolved(region, *final(resolution), r),
        forall|
            retry: &mut ResolveRetry,
            region: &RegionWithLeader,
            outcome: ResolveOutcome,
            r: RetryAction,
        | #[trigger]
            call_ensures(ResolveRetry::executed, (retry, region, outcome), r)
                ==> retry.on_executed(region@, outcome, *final(retry), r),
{
}

/// The attempt is over, and nothing is to be forgotten.
pub open spec fn gives(action: RetryAction, result: Result<RegionVerId>) -> bool {
    match action {
        RetryAction::Return { invalidate_region, invalidate_store, result: given } => {
            &&& invalidate_region is None
            &&& invalidate_store is None
            &&& given == result
        },
        _ => false,
    }
}

/// The errors end with an error of the region.
pub open spec fn ends_with(outcome: ResolveOutcome, e: errorpb::Error) -> bool {
    match outcome {
        Err(Error::ExtractedErrors(errors)) => errors@.len() > 0 && errors@.last()
            == Error::RegionError(Box::new(e)),
        _ => false,
    }
}

/// An attempt that succeeds gives the region. One that fails with anything but a region error
/// fails for good, with that error, the last one where there are several.
pub proof fn law_only_a_region_error_is_tried_again(
    before: ResolveRetry,
    region: RegionWithLeaderView,
    outcome: ResolveOutcome,
    after: ResolveRetry,
    action: RetryAction,
)
    requires
        before.on_executed(region, outcome, after, action),
    ensures
        outcome is Ok ==> gives(action, Ok(region.ver_id())),
        outcome matches Err(Error::ExtractedErrors(errors)) ==> {
            &&& errors@.len() == 0 ==> action is Return && action->result is Err
            &&& errors@.len() > 0 && !(errors@.last() is RegionError) ==> gives(
                action,
                Err(errors@.last()),
            )
        },
        outcome is Err && !(outcome->Err_0 is ExtractedErrors) ==> gives(
            action,
            Err(outcome->Err_0),
        ),
{
}

/// The attempt failed in a way that finding the region anew makes good at once.
pub open spec fn is_made_good(e: errorpb::Error, region: RegionWithLeaderView) -> bool {
    is_misplaced(e) || (is_about_epoch(e) && e.epoch_not_match->0.current_regions@.len() > 0
        && !is_ahead_of(region, e.epoch_not_match->0.current_regions@))
}

/// An attempt that fails with a region error is followed by another one, up to ten in all, with a
/// delay in between where one is left and the error needs one. A leader that is named is told to
/// the region cache first. A request that is too large fails for good, and the tenth attempt is
/// the last one. What is forgotten in between is what the error puts in doubt.
pub proof fn law_a_lock_is_tried_ten_times(
    before: ResolveRetry,
    region: RegionWithLeaderView,
    outcome: ResolveOutcome,
    e: errorpb::Error,
    after: ResolveRetry,
    action: RetryAction,
)
    requires
        before.wf(),
        before.on_executed(region, outcome, after, action),
        ends_with(outcome, e),
    ensures
        names_leader(e) ==> action == (RetryAction::UpdateLeader {
            ver_id: region.ver_id(),
            leader: e.not_leader->0.leader->0,
        }) && after.pending == Some(e) && after.attempt == before.attempt && after.backoff
            == before.backoff,
        is_hopeless(e) ==> gives(action, Err(Error::RegionError(Box::new(e)))),
        !names_leader(e) && !is_hopeless(e) ==> {
            &&& before.attempt < 9 ==> {
                &&& action is ResolveAfter
                &&& action->ResolveAfter_attempt == before.attempt + 1
                &&& after.attempt == before.attempt + 1
                &&& is_made_good(e, region) || !has_delay(before.backoff) ==> action->delay_ms
                    is None && after.backoff == before.backoff
                &&& !is_made_good(e, region) && has_delay(before.backoff) ==> action->delay_ms
                    is Some && uses_delay(before.backoff, action->delay_ms->0, after.backoff)
                &&& action->ResolveAfter_invalidate_region == doubtful_region(e, region)
                &&& action->ResolveAfter_invalidate_store == doubtful_store(e, region)
            }
            &&& before.attempt == 9 ==> {
                &&& action is Return
                &&& action->result == Err::<RegionVerId, Error>(Error::RegionError(Box::new(e)))
                &&& action->Return_invalidate_region == doubtful_region(e, region)
                &&& action->Return_invalidate_store == doubtful_store(e, region)
            }
        },
{
    law_each_error_has_its_remedy(e, region);
}

/// The region, if the error puts it in doubt. It does not where the client is ahead of the store,
/// and where the store is only busy or not ready.
pub open spec fn doubtful_region(e: errorpb::Error, region: RegionWithLeaderView) -> Option<
    RegionVerId,
> {
    if is_passing(e) || (is_about_epoch(e) && is_ahead_of(
        region,
        e.epoch_not_match->0.current_regions@,
    )) {
        None
    } else {
        Some(region.ver_id())
    }
}

/// The store of the region's leader, if it turned out to be another one.
pub open spec fn doubtful_store(e: errorpb::Error, region: RegionWithLeaderView) -> Option<u64> {
    if is_misplaced(e) && e.store_not_match is Some && region.leader is Some {
        Some(region.leader->0.store_id)
    } else {
        None
    }
}

/// A region cache that has taken the leader lets the lock be tried again at once, unless that was
/// the tenth attempt. One that has not makes the region be forgotten, and its error is the result.
pub proof fn law_a_told_leader_is_tried_at_once(ver_id: RegionVerId, e: errorpb::Error)
    ensures
        forall|retry: &mut ResolveRetry, updated: Result<()>, r: RetryAction|
            retry.wf() && retry.pending == Some(e) && #[trigger] call_ensures(
                ResolveRetry::leader_updated,
                (retry, ver_id, updated),
                r,
            ) ==> {
                &&& updated matches Err(error) ==> r == (RetryAction::Return {
                    invalidate_region: Some(ver_id),
                    invalidate_store: None,
                    result: Err(error),
                })
                &&& updated is Ok && retry.attempt < 9 ==> {
                    &&& r == (RetryAction::ResolveAfter {
                        invalidate_region: None,
                        invalidate_store: None,
                        delay_ms: None,
                        attempt: (retry.attempt + 1) as usize,
                    })
                    &&& final(retry).attempt == retry.attempt + 1
                    &&& final(retry).backoff == retry.backoff
                    &&& final(retry).pending is None
                }
                &&& updated is Ok && retry.attempt == 9 ==> gives(
                    r,
                    Err(Error::RegionError(Box::new(e))),
                )
            },
{
}

/// What is known of a transaction will not change if it has ended, unless it was rolled back only
/// for the sake of the one who asked.
pub proof fn law_only_an_end_that_stays_is_remembered(status: TransactionStatus, r: bool)
    requires
        call_ensures(TransactionStatus::is_cacheable, (&status,), r),
    ensures
        r ==> !(status.kind is Locked),
        r <==> !(status.kind is Locked) && (status.action == Action::NoAction || status.action
            == Action::LockNotExistRollback || status.action == Action::TtlExpireRollback),
{
}

/// The status of a transaction is the one that was told. Where it is locked, the lock counts as
/// expired from when its whole time has passed.
pub proof fn law_a_status_is_kept_as_it_was_told(txn_id: u64, current: Timestamp)
    ensures
        forall|context: &mut ResolveLocksContext, status: TransactionStatus, r: TransactionStatus|
            #[trigger] call_ensures(
                ResolveLocksContext::status_checked,
                (context, txn_id, status, current),
                r,
            ) ==> {
                let last = (*final(context))@;
                let ends = !(status.kind is Locked) && (status.action == Action::NoAction
                    || status.action == Action::LockNotExistRollback || status.action
                    == Action::TtlExpireRollback);
                &&& r@.kind == status@.kind
                &&& r@.action == status@.action
                &&& !(status.kind is Locked) ==> r.is_expired == status.is_expired
                &&& status.kind matches TransactionStatusKind::Locked(ttl, lock) ==> (r.is_expired
                    <==> status.is_expired || lock.lock_version / 262144 + lifetime(ttl)
                    <= current.physical)
                &&& ends ==> last.resolved == context@.resolved.insert(txn_id, r@)
                &&& !ends ==> last.resolved == context@.resolved
                &&& last.clean_regions == context@.clean_regions
            },
{
    assert forall|version: u64, ttl: u64|
        #[trigger] has_outlived(current, version, ttl) <==> version / 262144 + lifetime(ttl)
            <= current.physical by {
        vstd::arithmetic::div_mod::lemma_fundamental_div_mod(version as int, 262144);
        law_a_lock_lives_for_its_whole_time(
            current,
            version as int / 262144,
            version as int % 262144,
            version,
            ttl,
        );
    }
}

/// What is known of a transaction is not asked for again, and what is not known is asked for just
/// as it is to be.
pub proof fn law_what_is_known_is_not_asked_for<PdC, T, I>(
    resolver: LockResolver<PdC, T, I>,
    query: TxnStatusQuery,
    r: StatusCheck,
)
    requires
        call_ensures(LockResolver::<PdC, T, I>::check_txn_status, (&resolver, query), r),
    ensures
        r is Known <==> resolver.ctx@.resolved.contains_key(query.txn_id),
        r is Known ==> r->Known_0@ == resolver.ctx@.resolved[query.txn_id],
        r is Ask ==> r->Ask_0 == query,
{
}

/// What is noted of a transaction is found again, until something else is noted of it, and nothing
/// that is noted of one transaction changes what is known of another.
pub proof fn law_what_is_noted_of_a_transaction(
    txn_id: u64,
    status: TransactionStatus,
    region: RegionVerId,
    other: u64,
    other_region: RegionVerId,
)
    ensures
        forall|context: &mut ResolveLocksContext| #[trigger]
            call_ensures(ResolveLocksContext::save_resolved, (context, txn_id, status), ()) ==> {
                let last = (*final(context))@;
                &&& last.resolved.contains_key(txn_id) && last.resolved[txn_id] == status@
                &&& other != txn_id ==> (last.resolved.contains_key(other)
                    <==> context@.resolved.contains_key(other))
                &&& other != txn_id && last.resolved.contains_key(other) ==> last.resolved[other]
                    == context@.resolved[other]
                &&& last.clean_regions == context@.clean_regions
            },
        forall|context: &mut ResolveLocksContext| #[trigger]
            call_ensures(
                ResolveLocksContext::save_cleaned_region,
                (context, txn_id, region),
                (),
            ) ==> {
                let last = (*final(context))@;
                &&& last.clean_regions.contains((other, other_region)) <==> (other == txn_id
                    && other_region == region) || context@.clean_regions.contains(
                    (other, other_region),
                )
                &&& last.resolved == context@.resolved
            },
        forall|context: &ResolveLocksContext, r: Option<TransactionStatus>| #[trigger]
            call_ensures(ResolveLocksContext::get_resolved, (context, txn_id), r) ==> (r is Some
                <==> context@.resolved.contains_key(txn_id)) && (r is Some ==> r->0@
                == context@.resolved[txn_id]),
        forall|context: &ResolveLocksContext, r: bool| #[trigger]
            call_ensures(ResolveLocksContext::is_region_cleaned, (context, txn_id, &region), r)
                ==> (r <==> context@.clean_regions.contains((txn_id, region))),
{
}

/// All locks are cleaned up unless the caller says otherwise, 1024 at a time.
pub proof fn law_which_locks_are_cleaned_up(r: ResolveLocksOptions)
    requires
        call_ensures(<ResolveLocksOptions as Default>::default, (), r),
    ensures
        !r.async_commit_only,
        r.batch_size == 1024,
{
}

/// The locks that a response tells of are taken out of it, and the rest of it stays.
pub proof fn law_locks_are_taken_out_of_a_response()
    ensures
        forall|response: &mut Response, r: Vec<LockInfo>| #[trigger]
            call_ensures(<Response as HasLocks>::take_locks, (response,), r) ==> {
                &&& response.locked is Some ==> r@ == seq![response.locked->0]
                &&& response.locked is None ==> r@.len() == 0
                &&& final(response).locked is None
                &&& final(response).region_error == response.region_error
            },
        forall|response: &mut ScanLockResponse, r: Vec<LockInfo>| #[trigger]
            call_ensures(<ScanLockResponse as HasLocks>::take_locks, (response,), r) ==> {
                &&& r@ == response.locks@
                &&& final(response).locks@.len() == 0
                &&& final(response).region_error == response.region_error
                &&& final(response).error == response.error
            },
{
}

} // verus!
