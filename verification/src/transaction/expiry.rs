//! When locks expire, and that they are left alone until then.

use vstd::prelude::*;

use crate::proto::kvrpcpb::LockInfo;
use crate::proto::pdpb::Timestamp;
use crate::region::RegionVerId;
use crate::transaction::resolve::{
    expired_locks, is_expired, live_locks, split_expired, LockResolution, ResolutionRun, ResolveAction,
};
use crate::transaction::status::{
    has_outlived, outlives, SecondaryLocksStatus, TransactionStatus, TransactionStatusKind,
};

verus! {

/// For how long a lock lives. What does not fit in a signed number wraps around.
pub open spec fn lifetime(ttl: u64) -> int {
    if ttl < 0x8000_0000_0000_0000 {
        ttl as int
    } else {
        ttl - 0x1_0000_0000_0000_0000
    }
}

/// The whole life of the lock has passed.
pub open spec fn is_past_its_life(now: Timestamp, lock: LockInfo) -> bool {
    lock.lock_version / 262144 + lifetime(lock.lock_ttl) <= now.physical
}

/// A lock that was taken in a certain millisecond has outlived a time just when that millisecond
/// and the time together are past, whatever the logical part of its version.
pub proof fn law_a_lock_lives_for_its_whole_time(
    now: Timestamp,
    start: int,
    logical: int,
    lock_version: u64,
    ttl: u64,
)
    requires
        0 <= start,
        0 <= logical < 262144,
        lock_version == start * 262144 + logical,
    ensures
        ttl < 0x8000_0000_0000_0000 ==> (has_outlived(now, lock_version, ttl) <==> start + ttl
            <= now.physical),
        has_outlived(now, lock_version, ttl) <==> start + lifetime(ttl) <= now.physical,
{
    vstd::arithmetic::div_mod::lemma_fundamental_div_mod_converse(
        lock_version as int,
        262144,
        start,
        logical,
    );
    if ttl >= 0x8000_0000_0000_0000 {
        assert(ttl as i64 == ttl - 0x1_0000_0000_0000_0000) by (bit_vector)
            requires
                ttl >= 0x8000_0000_0000_0000,
        ;
    }
}

proof fn lemma_expiry(now: Timestamp, lock: LockInfo)
    ensures
        is_expired(now, lock) <==> is_past_its_life(now, lock),
{
    let version = lock.lock_version as int;
    vstd::arithmetic::div_mod::lemma_fundamental_div_mod(version, 262144);
    law_a_lock_lives_for_its_whole_time(
        now,
        version / 262144,
        version % 262144,
        lock.lock_version,
        lock.lock_ttl,
    );
}

/// Waiting does not bring a lock back to life, and a longer time does not make it expire sooner.
pub proof fn law_a_lock_expires_once(
    now: Timestamp,
    later: Timestamp,
    lock_version: u64,
    ttl: u64,
    longer: u64,
)
    requires
        now.physical <= later.physical,
        ttl <= longer < 0x8000_0000_0000_0000,
    ensures
        has_outlived(now, lock_version, ttl) ==> has_outlived(later, lock_version, ttl),
        has_outlived(now, lock_version, longer) ==> has_outlived(now, lock_version, ttl),
{
}

/// The locks are split into those whose whole life has passed and those that are alive, each in
/// their order.
pub proof fn law_locks_are_split_by_their_life(locks: Seq<LockInfo>, now: Timestamp)
    ensures
        expired_locks(locks, now) == locks.filter(|lock: LockInfo| is_past_its_life(now, lock)),
        live_locks(locks, now) == locks.filter(|lock: LockInfo| !is_past_its_life(now, lock)),
{
    assert forall|lock: LockInfo| is_expired(now, lock) <==> #[trigger] is_past_its_life(
        now,
        lock,
    ) by {
        lemma_expiry(now, lock);
    }
    assert((|lock: LockInfo| is_expired(now, lock)) =~= (|lock: LockInfo|
        is_past_its_life(now, lock)));
    assert((|lock: LockInfo| !is_expired(now, lock)) =~= (|lock: LockInfo|
        !is_past_its_life(now, lock)));
}

/// The action is about the lock.
pub open spec fn is_about(action: ResolveAction, lock: LockInfo) -> bool {
    match action {
        ResolveAction::LocateRegion { key } => key@ == lock.key@,
        ResolveAction::CleanUp { primary, start_version } => primary@ == lock.primary_lock@
            && start_version == lock.lock_version,
        ResolveAction::ResolveLock { key, start_version, .. } => key@ == lock.key@
            && start_version == lock.lock_version,
        ResolveAction::Return(_) => false,
    }
}

/// What is at hand, and what is to be looked at, is among the locks.
spec fn stays_among(state: LockResolution, locks: Seq<LockInfo>, action: ResolveAction) -> bool {
    &&& forall|i: int| 0 <= i < state@.rest.len() ==> locks.contains(#[trigger] state@.rest[i])
    &&& action !is Return ==> state.at_hand() is Some && locks.contains(state.at_hand()->0)
        && is_about(action, state.at_hand()->0)
    &&& action is Return ==> state.phase is Over
}

proof fn lemma_stays_among(
    run: ResolutionRun,
    locks: Seq<LockInfo>,
    now: Timestamp,
    region_of: spec_fn(Seq<u8>) -> RegionVerId,
    n: int,
)
    requires
        run.is_run(locks, now, region_of),
        0 <= n < run.actions.len(),
    ensures
        if run.actions[n] is Return && run.actions[n]->Return_0 is Err {
            run.states[n].phase is Over
        } else {
            stays_among(run.states[n], expired_locks(locks, now), run.actions[n])
        },
    decreases n,
{
    let expired = expired_locks(locks, now);
    if n == 0 {
        let state = run.states[0];
        if expired.len() > 0 {
            assert forall|i: int| 0 <= i < state@.rest.len() implies expired.contains(
                #[trigger] state@.rest[i],
            ) by {
                assert(state@.rest[i] == expired[i + 1]);
            }
            assert(expired.contains(expired[0]));
        }
    } else {
        lemma_stays_among(run, locks, now, region_of, n - 1);
        let before = run.states[n - 1];
        let after = run.states[n];
        let answer = run.answers[n - 1];
        assert(before.steps_to(answer, after, run.actions[n]));
        if !(run.actions[n] is Return && run.actions[n]->Return_0 is Err) {
            assert(before.phase !is Over);
            if before@.rest.len() > 0 {
                assert(expired.contains(before@.rest[0]));
            }
            assert forall|i: int| 0 <= i < after@.rest.len() implies expired.contains(
                #[trigger] after@.rest[i],
            ) by {
                if after@.rest.len() < before@.rest.len() {
                    assert(after@.rest[i] == before@.rest[i + 1]);
                }
            }
        }
    }
}

/// A resolution asks for nothing that concerns a lock before its whole life has passed: every
/// action is about a lock that was given and is past its life. One that ends without an error
/// gives back just the locks that are not, in their order.
pub proof fn law_no_lock_is_touched_before_its_time(
    run: ResolutionRun,
    locks: Seq<LockInfo>,
    now: Timestamp,
    region_of: spec_fn(Seq<u8>) -> RegionVerId,
    n: int,
)
    requires
        run.is_run(locks, now, region_of),
        0 <= n < run.actions.len(),
    ensures
        run.actions[n] !is Return ==> exists|i: int|
            0 <= i < locks.len() && is_about(run.actions[n], #[trigger] locks[i])
                && is_past_its_life(now, locks[i]),
        run.actions[n] is Return && run.actions[n]->Return_0 is Ok ==> n == run.actions.len() - 1
            && run.actions[n]->Return_0->Ok_0@ == locks.filter(
            |lock: LockInfo| !is_past_its_life(now, lock),
        ),
{
    broadcast use vstd::seq_lib::group_filter_ensures;

    let expired = expired_locks(locks, now);
    law_locks_are_split_by_their_life(locks, now);
    lemma_stays_among(run, locks, now, region_of, n);
    if run.actions[n] !is Return {
        let lock = run.states[n].at_hand()->0;
        let is_old = |lock: LockInfo| is_past_its_life(now, lock);
        let k = choose|k: int| 0 <= k < expired.len() && expired[k] == lock;
        assert(locks.filter(is_old)[k] == lock);
        assert(is_old(lock));
        locks.lemma_filter_contains_rev(is_old, lock);
        let i = choose|i: int| 0 <= i < locks.len() && locks[i] == lock;
        assert(is_about(run.actions[n], locks[i]));
    } else if run.actions[n]->Return_0 is Ok {
        if n < run.answers.len() {
            assert(run.states[n].steps_to(run.answers[n], run.states[n + 1], run.actions[n + 1]));
        }
        assert(run.states[n].phase is Over);
        crate::transaction::resolve::law_all_expired_locks_are_resolved(
            run,
            locks,
            now,
            region_of,
        );
    }
}

/// Whether a lock has outlived its time goes by the milliseconds that have passed since the one in
/// which it was taken.
pub proof fn law_milliseconds_tell_when_a_lock_expires(
    now: &Timestamp,
    lock_version: u64,
    ttl: u64,
    r: bool,
)
    requires
        call_ensures(outlives, (now, lock_version, ttl), r),
    ensures
        r <==> lock_version / 262144 + lifetime(ttl) <= now.physical,
{
    let version = lock_version as int;
    vstd::arithmetic::div_mod::lemma_fundamental_div_mod(version, 262144);
    law_a_lock_lives_for_its_whole_time(
        *now,
        version / 262144,
        version % 262144,
        lock_version,
        ttl,
    );
}

/// A status says that the lock has expired from when its whole time has passed, and it goes on to
/// say so. Nothing else of it changes.
pub proof fn law_a_status_says_when_a_lock_has_expired(current: Timestamp)
    ensures
        forall|status: &mut TransactionStatus| #[trigger]
            call_ensures(TransactionStatus::check_ttl, (status, current), ()) ==> {
                &&& status.is_expired ==> final(status).is_expired
                &&& !(status.kind is Locked) ==> final(status).is_expired == status.is_expired
                &&& status.kind matches TransactionStatusKind::Locked(ttl, lock) ==> (
                final(status).is_expired <==> status.is_expired || lock.lock_version / 262144
                    + lifetime(ttl) <= current.physical)
                &&& final(status).kind@ == status.kind@
                &&& final(status).action == status.action
            },
{
    assert forall|version: u64, ttl: u64|
        #[trigger] has_outlived(current, version, ttl) <==> version / 262144 + lifetime(ttl)
            <= current.physical by {
        vstd::arithmetic::div_mod::lemma_fundamental_div_mod(version as int, 262144);
        law_a_lock_lives_for_its_whole_time(
            current,
            version as int / 262144,
            version as int % 262144,
            version,
            ttl,
        );
    }
    assert forall|status: &mut TransactionStatus| #[trigger]
        call_ensures(TransactionStatus::check_ttl, (status, current), ()) implies {
        &&& final(status).kind@ == status.kind@
        &&& final(status).action == status.action
        &&& final(status).is_expired == (status.is_expired || (
        status.kind matches TransactionStatusKind::Locked(ttl, lock) && has_outlived(
            current,
            lock.lock_version,
            ttl,
        )))
    } by {
        assert(final(status)@.kind == final(status).kind@);
        assert(final(status)@.action == final(status).action);
        assert(final(status)@.is_expired == final(status).is_expired);
        assert(status@.kind == status.kind@);
    }
}

/// A transaction is committed at the version of the timestamp that is known, or else at the
/// smallest one that it may be committed at.
pub proof fn law_at_which_version_a_transaction_is_committed(
    status: &SecondaryLocksStatus,
    r: u64,
)
    requires
        call_ensures(SecondaryLocksStatus::commit_version, (status,), r),
        status.commit_ts is Some ==> 0 <= status.commit_ts->0.physical && 0
            <= status.commit_ts->0.logical && status.commit_ts->0.physical * 262144
            + status.commit_ts->0.logical <= u64::MAX,
    ensures
        status.commit_ts is Some ==> r == status.commit_ts->0.physical * 262144
            + status.commit_ts->0.logical,
        status.commit_ts is None ==> r == status.min_commit_ts,
{
}

/// Locks are told apart by whether their life has passed; none is lost, and both parts stay in
/// order.
pub proof fn law_locks_are_told_apart_by_their_life(
    locks: Vec<LockInfo>,
    now: &Timestamp,
    r: (Vec<LockInfo>, Vec<LockInfo>),
)
    requires
        call_ensures(split_expired, (locks, now), r),
    ensures
        r.0@ == locks@.filter(|lock: LockInfo| is_past_its_life(*now, lock)),
        r.1@ == locks@.filter(|lock: LockInfo| !is_past_its_life(*now, lock)),
{
    law_locks_are_split_by_their_life(locks@, *now);
}

} // verus!
