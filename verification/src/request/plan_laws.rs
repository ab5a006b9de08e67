//! What holds of plans, whatever their requests are answered.

use vstd::prelude::*;

use crate::backoff::{has_delay, law_a_delay_is_given_while_one_is_left, uses_delay, Backoff};
use crate::common::errors::{Error, Result};
use crate::common::text::decimal;
use crate::kv::format::says;
use crate::proto::errorpb;
use crate::proto::kvrpcpb::LockInfo;
use crate::region::RegionWithLeader;
use crate::request::cleanup_locks::{
    merge_cleanup_results, total_resolved, CleanupLocks, CleanupLocksResult,
};
use crate::request::plan::{
    all_items, first_failure, first_missing, lemma_first_failure, lemma_first_missing,
    shard_items, store_responded, Collect, CollectError, CollectSingle, ExtractError, Merge,
    PreserveShard, ResponseWithShard, ShardResults, StoreStep,
};
use crate::request::region_error::{handle_region_error, RegionErrorStep};
use crate::request::resolve_lock::{
    reroute_to_leader, LiveLocksStep, LockWait, LocksStep, ResolveLock,
};
use crate::request::shard_laws::is_of_transport;
use crate::store::errors::{
    take_failure, Failure, HasKeyErrors, HasRegionError, HasRegionErrors, SetRegionError,
};
use crate::store::RegionStore;

verus! {

/// All responses are collected, in their order, or the first failure is the result.
pub proof fn law_the_first_failure_is_the_result<T>(
    merge: CollectError,
    input: Vec<Result<T>>,
    out: Result<Vec<T>>,
)
    requires
        call_ensures(<CollectError as Merge<T>>::merge, (&merge, input), out),
    ensures
        out is Ok <==> forall|i: int| 0 <= i < input@.len() ==> (#[trigger] input@[i]) is Ok,
        out is Ok ==> out->Ok_0@.len() == input@.len(),
        out is Ok ==> forall|i: int|
            0 <= i < input@.len() ==> #[trigger] input@[i] == Ok::<T, Error>(out->Ok_0@[i]),
        out is Err ==> exists|i: int|
            0 <= i < input@.len() && (#[trigger] input@[i]) is Err && input@[i]->Err_0
                == out->Err_0 && forall|k: int| 0 <= k < i ==> (#[trigger] input@[k]) is Ok,
{
    lemma_first_failure(input@);
    let at = first_failure(input@) as int;
    if at < input@.len() {
        assert(input@[at] is Err);
    } else {
        assert forall|i: int| 0 <= i < input@.len() implies #[trigger] input@[i] == Ok::<T, Error>(
            out->Ok_0@[i],
        ) by {
            assert(input@[i] is Ok);
        }
    }
}

/// The only response is the result. Where there is none, or more than one, that is an error.
pub proof fn law_the_only_response_is_the_result<T>(
    merge: CollectSingle,
    input: Vec<Result<T>>,
    out: Result<T>,
)
    requires
        call_ensures(<CollectSingle as Merge<T>>::merge, (&merge, input), out),
    ensures
        input@.len() == 1 ==> out == input@[0],
        input@.len() != 1 ==> out is Err && out->Err_0.is_internal(
            "CollectSingle expected 1 response, got "@ + decimal(input@.len()),
        ),
{
}

/// The number of locks that were removed by one removal after some others.
pub proof fn law_removed_locks_add_up(
    input: Seq<Result<CleanupLocksResult>>,
    more: CleanupLocksResult,
)
    ensures
        total_resolved(Seq::<Result<CleanupLocksResult>>::empty()) == 0,
        total_resolved(input.push(Ok(more))) == total_resolved(input) + more.resolved_locks,
{
    assert(input.push(Ok(more)).drop_last() =~= input);
}

/// Removals come to the number of locks that all of them removed, or to the first failure.
pub proof fn law_removals_are_merged_into_one(
    merge: Collect,
    input: Vec<Result<CleanupLocksResult>>,
    out: Result<CleanupLocksResult>,
)
    requires
        call_ensures(<Collect as Merge<CleanupLocksResult>>::merge, (&merge, input), out),
        total_resolved(input@) <= usize::MAX,
    ensures
        out is Ok <==> forall|i: int| 0 <= i < input@.len() ==> (#[trigger] input@[i]) is Ok,
        out is Ok ==> out->Ok_0.resolved_locks == total_resolved(input@)
            && out->Ok_0.region_error is None && out->Ok_0.key_error is None,
        out is Err ==> exists|i: int|
            0 <= i < input@.len() && (#[trigger] input@[i]) is Err && input@[i]->Err_0
                == out->Err_0 && forall|k: int| 0 <= k < i ==> (#[trigger] input@[k]) is Ok,
{
    lemma_first_failure(input@);
    let at = first_failure(input@) as int;
    if at < input@.len() {
        assert(input@[at] is Err);
    }
}

/// The results of a shard that failed are its error alone, and those of another one are its own.
/// The results of some shards and of one more are those of the first, and then those of the last.
pub proof fn law_the_results_of_shards_are_put_together<R>(
    slots: Seq<Option<Result<Vec<Result<R>>>>>,
    last: Result<Vec<Result<R>>>,
)
    ensures
        all_items(Seq::<Option<Result<Vec<Result<R>>>>>::empty()) == Seq::<Result<R>>::empty(),
        last is Ok ==> all_items(slots.push(Some(last))) == all_items(slots) + last->Ok_0@,
        last is Err ==> all_items(slots.push(Some(last))) == all_items(slots).push(
            Err(last->Err_0),
        ),
{
    assert(slots.push(Some(last)).drop_last() =~= slots);
    if last is Err {
        assert(all_items(slots) + seq![Err::<R, Error>(last->Err_0)] =~= all_items(slots).push(
            Err(last->Err_0),
        ));
    }
}

/// The results of all shards are given once each of them has some, in the order of the shards. A
/// shard without results is an error, which names the first one.
pub proof fn law_no_shard_is_left_out<R>(
    results: ShardResults<R>,
    r: Result<Vec<Result<R>>>,
)
    requires
        call_ensures(ShardResults::<R>::finish, (results,), r),
    ensures
        r is Ok <==> forall|i: int|
            0 <= i < results.slots@.len() ==> (#[trigger] results.slots@[i]) is Some,
        r is Ok ==> r->Ok_0@ == all_items(results.slots@),
        r is Err ==> exists|i: int|
            {
                &&& 0 <= i < results.slots@.len()
                &&& (#[trigger] results.slots@[i]) is None
                &&& forall|k: int| 0 <= k < i ==> (#[trigger] results.slots@[k]) is Some
                &&& r->Err_0.is_internal(
                    "RetryableMultiRegion missing shard result at index "@ + decimal(i as nat),
                )
            },
{
    lemma_first_missing(results.slots@);
    let at = first_missing(results.slots@) as int;
    if at < results.slots@.len() {
        assert(results.slots@[at] is None);
    }
}

/// The results of a shard are kept in its place, and nowhere else. A shard that failed ends the
/// request with its error, unless the results of all regions are to be given.
pub proof fn law_the_results_of_a_shard_are_kept_in_its_place<R>(shard: usize, other: int)
    ensures
        forall|results: &mut ShardResults<R>, result: Result<Vec<Result<R>>>, r: Result<()>|
            shard < results.slots@.len() && 0 <= other < results.slots@.len() && #[trigger]
            call_ensures(ShardResults::<R>::record, (results, shard, result), r) ==> {
                let last = final(results).slots@;
                &&& last.len() == results.slots@.len()
                &&& result is Err && !results.preserve_region_results <==> r is Err
                &&& r is Err ==> r->Err_0 == result->Err_0 && last == results.slots@
                &&& r is Ok ==> last[shard as int] == Some(result)
                &&& other != shard ==> last[other] == results.slots@[other]
                &&& final(results).preserve_region_results == results.preserve_region_results
            },
{
}

/// Errors of keys come before an error of the region, and without either the response is left as
/// it is.
pub proof fn law_errors_of_keys_come_first<R: HasKeyErrors + HasRegionError>()
    ensures
        forall|response: &mut R, r: Failure| #[trigger]
            call_ensures(take_failure::<R>, (response,), r) ==> {
                let keys = response.held_key_errors();
                let region = response.held_region_error();
                &&& keys is Some ==> r is Keys && r->Keys_0@ == keys->0
                &&& keys is None && region is Some ==> r == Failure::Region(region->0)
                &&& keys is None && region is None ==> r is Absent && *final(response) == *response
            },
{
}

/// A request to a store is sent again only after an error of the transport, and only while a delay
/// is left. Whatever else is answered is the result: errors of keys, then an error of the region,
/// then the response.
pub proof fn law_a_store_is_asked_again_only_after_an_error_of_the_transport<
    R: HasKeyErrors + HasRegionError,
>()
    ensures
        forall|backoff: &mut Backoff, response: Result<R>, r: StoreStep<R>| #[trigger]
            call_ensures(store_responded::<R>, (backoff, response), r) ==> {
                &&& r is Sleep <==> response is Err && is_of_transport(response->Err_0)
                    && has_delay(*backoff)
                &&& r is Sleep ==> uses_delay(*backoff, r->delay_ms, *final(backoff))
                &&& r is Return ==> *final(backoff) == *backoff
                &&& response is Err && r is Return ==> r->Return_0 == Err::<R, Error>(
                    response->Err_0,
                )
                &&& response is Ok ==> {
                    let keys = response->Ok_0.held_key_errors();
                    let region = response->Ok_0.held_region_error();
                    &&& keys is Some ==> r->Return_0 is Err && r->Return_0->Err_0
                        is MultipleKeyErrors && r->Return_0->Err_0->MultipleKeyErrors_0@ == keys->0
                    &&& keys is None && region is Some ==> r->Return_0 == Err::<R, Error>(
                        Error::RegionError(Box::new(region->0)),
                    )
                    &&& keys is None && region is None ==> r->Return_0 == response
                }
            },
{
}

/// The errors of a response are its result: those of keys, or else those of regions, each as an
/// error of the client, in their order. A response without errors is left as it is.
pub proof fn law_errors_are_made_the_result<P, R: HasKeyErrors + HasRegionErrors>(
    plan: ExtractError<P>,
    inner: Result<R>,
    r: Result<R>,
)
    requires
        call_ensures(ExtractError::<P>::finish::<R>, (&plan, inner), r),
    ensures
        inner is Err ==> r == inner,
        inner is Ok ==> {
            let keys = inner->Ok_0.held_key_errors();
            let regions = inner->Ok_0.held_region_errors();
            &&& keys is Some ==> r is Err && r->Err_0 is ExtractedErrors
                && r->Err_0->ExtractedErrors_0@ == keys->0
            &&& keys is None && regions is Some ==> {
                &&& r is Err && r->Err_0 is ExtractedErrors
                &&& r->Err_0->ExtractedErrors_0@.len() == regions->0.len()
                &&& forall|i: int|
                    0 <= i < regions->0.len() ==> #[trigger] r->Err_0->ExtractedErrors_0@[i]
                        == Error::RegionError(Box::new(regions->0[i]))
            }
            &&& keys is None && regions is None ==> r == inner
        },
{
}

/// The response comes with the shard that it belongs to.
pub proof fn law_a_response_comes_with_its_shard<P, S: Clone, R>(
    plan: PreserveShard<P, S>,
    inner: Result<R>,
    r: Result<ResponseWithShard<R, S>>,
)
    requires
        call_ensures(PreserveShard::<P, S>::finish::<R>, (&plan, inner), r),
    ensures
        inner is Err ==> r is Err && r->Err_0 == inner->Err_0,
        inner is Ok ==> (r is Ok <==> plan.shard is Some),
        r is Ok ==> r->Ok_0.0 == inner->Ok_0 && cloned(plan.shard->0, r->Ok_0.1),
{
}

/// A response without locks is the result. Locks are resolved, all of them, unless locks are not
/// waited for at all; then they are the error. A stale read that met one goes to the leader.
pub proof fn law_locks_stand_in_the_way(
    wait: LockWait,
    locks: Vec<LockInfo>,
    stale_read: bool,
    r: LocksStep,
)
    requires
        call_ensures(LockWait::locks_found, (&wait, locks, stale_read), r),
    ensures
        r is Return <==> locks@.len() == 0,
        r is Fail <==> locks@.len() > 0 && wait.gives_up,
        r is Fail ==> r->Fail_0 is ResolveLockError && r->Fail_0->ResolveLockError_0@ == locks@,
        r is Resolve ==> r->locks@ == locks@ && r->force_leader == stale_read,
{
}

/// Locks are waited for just if there are delays by design.
pub proof fn law_locks_are_waited_for_by_design<P, PdC, T, I>(
    plan: ResolveLock<P, PdC, T, I>,
    r: LockWait,
)
    requires
        call_ensures(LockWait::start::<P, PdC, T, I>, (&plan,), r),
    ensures
        r.gives_up <==> !plan.backoff.enabled,
        r.backoff == plan.backoff,
        r.timeout_ms == plan.lock_wait_timeout_ms,
{
}

/// The request is sent once more, to the leader after a stale read.
pub open spec fn is_sent_again(step: LiveLocksStep, stale_read: bool, delay_ms: Option<u64>) -> bool {
    match step {
        LiveLocksStep::Execute { delay_ms: delay } => !stale_read && delay == delay_ms,
        LiveLocksStep::Reroute { delay_ms: delay } => stale_read && delay == delay_ms,
        LiveLocksStep::Fail(_) => false,
    }
}

/// Once no lock is alive the request is sent again at once. While one is, it is sent again after
/// the next delay. It ends with the locks that are alive when no delay is left, or when they have
/// been waited for as long as is allowed, and with the error if they could not be resolved.
pub proof fn law_a_request_waits_for_live_locks(stale_read: bool, waited_ms: u64)
    ensures
        forall|wait: &mut LockWait, live: Result<Vec<LockInfo>>, r: LiveLocksStep| #[trigger]
            call_ensures(LockWait::locks_resolved, (wait, live, stale_read, waited_ms), r) ==> {
                let late = wait.timeout_ms is Some && wait.timeout_ms->0 <= waited_ms;
                &&& live matches Err(error) ==> r == LiveLocksStep::Fail(error)
                &&& live is Ok && live->Ok_0@.len() == 0 ==> is_sent_again(r, stale_read, None)
                &&& live is Ok && live->Ok_0@.len() > 0 && late ==> r == LiveLocksStep::Fail(
                    Error::LockWaitTimeout(live->Ok_0),
                )
                &&& live is Ok && live->Ok_0@.len() > 0 && !late && !has_delay(wait.backoff) ==> r
                    == LiveLocksStep::Fail(Error::ResolveLockError(live->Ok_0))
                &&& live is Ok && live->Ok_0@.len() > 0 && !late && has_delay(wait.backoff)
                    ==> exists|delay_ms: u64|
                    is_sent_again(r, stale_read, Some(delay_ms)) && #[trigger] uses_delay(
                        wait.backoff,
                        delay_ms,
                        final(wait).backoff,
                    )
                &&& final(wait).gives_up == wait.gives_up
                &&& final(wait).timeout_ms == wait.timeout_ms
            },
{
    assert forall|wait: &mut LockWait, live: Result<Vec<LockInfo>>, r: LiveLocksStep|
        #[trigger] call_ensures(LockWait::locks_resolved, (wait, live, stale_read, waited_ms), r)
            && live is Ok && live->Ok_0@.len() > 0 && !(wait.timeout_ms is Some
            && wait.timeout_ms->0 <= waited_ms) && has_delay(wait.backoff) implies exists|
        delay_ms: u64,
    |
        is_sent_again(r, stale_read, Some(delay_ms)) && #[trigger] uses_delay(
            wait.backoff,
            delay_ms,
            final(wait).backoff,
        ) by {
        law_a_delay_is_given_while_one_is_left(wait.backoff);
        let delay_ms = wait.backoff.next_delay()->0;
        assert(is_sent_again(r, stale_read, Some(delay_ms)));
        assert(uses_delay(wait.backoff, delay_ms, final(wait).backoff));
    }
}

/// Removals can be merged while the locks that they removed can be counted; then the sum is the
/// result, or the first failure is.
pub proof fn law_removals_can_be_merged_while_they_can_be_counted(
    input: Vec<Result<CleanupLocksResult>>,
    r: Option<Result<CleanupLocksResult>>,
)
    requires
        call_ensures(merge_cleanup_results, (input,), r),
        total_resolved(input@) <= usize::MAX,
        forall|i: int| 0 <= i < input@.len() ==> (#[trigger] input@[i]) is Ok,
    ensures
        r is Some,
        r->0 is Ok,
        r->0->Ok_0.resolved_locks == total_resolved(input@),
        r->0->Ok_0.region_error is None,
        r->0->Ok_0.key_error is None,
{
    lemma_first_failure(input@);
    let at = first_failure(input@) as int;
    if at < input@.len() {
        assert(input@[at] is Err);
    }
    assert(input@.take(at) =~= input@);
}

/// Locks are removed from the store that is attached, and from none if there is none.
pub proof fn law_locks_are_removed_from_the_attached_store<P, PdC, C, Ctx, T, I>(
    plan: &CleanupLocks<P, PdC, C, Ctx, T, I>,
    r: Result<&RegionStore<C, T, I>>,
)
    requires
        call_ensures(CleanupLocks::<P, PdC, C, Ctx, T, I>::attached_store, (plan,), r),
    ensures
        r is Ok <==> plan.store is Some,
        r is Ok ==> *r->Ok_0 == plan.store->0,
        r is Err ==> says(r->Err_0, "CleanupLocks executed without an attached store"@),
{
}

/// A response that sends a request to the leader holds an error for which the region is forgotten,
/// and the request tried again only after a delay. The store is not to blame.
pub proof fn law_a_rerouted_request_learns_of_its_region<R: Default + SetRegionError>(
    response: R,
    region: &RegionWithLeader,
    step: RegionErrorStep,
)
    requires
        call_ensures(reroute_to_leader::<R>, (), response),
        response.held_region_error() is Some ==> call_ensures(
            handle_region_error,
            (&response.held_region_error()->0, region),
            step,
        ),
    ensures
        response.held_region_error() is Some,
        step == (RegionErrorStep::Decided {
            invalidate_region: Some(region@.ver_id()),
            invalidate_store: None,
            resolved: false,
        }),
        response.held_region_error()->0.message@.len() == 0,
{
}

} // verus!
