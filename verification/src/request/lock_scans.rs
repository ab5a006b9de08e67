//! What holds of a removal of the locks of a region, from its start to its end.

use vstd::prelude::*;

use crate::backoff::{has_delay, uses_delay, Backoff};
use crate::common::errors::{Error, Result};
use crate::kv::order::{lemma_lex_not_lt, lemma_lex_transitive, lex_le, lex_lt};
use crate::proto::kvrpcpb::LockInfo;
use crate::region::{RegionWithLeader, RegionWithLeaderView};
use crate::request::cleanup_locks::{
    wanted_locks, CleanupLocksResult, LockScan, ScanAction, ScannedLocks,
};
use crate::store::errors::Failure;
use crate::transaction::lock::ResolveLocksOptions;

verus! {

/// The lock is one of those that are to be removed.
pub open spec fn is_of_interest(options: ResolveLocksOptions, lock: LockInfo) -> bool {
    !options.async_commit_only || lock.use_async_commit
}

/// The key lies in the region, and before the end of the scan.
pub open spec fn is_in_reach(
    region: RegionWithLeaderView,
    end_key: Seq<u8>,
    key: Seq<u8>,
) -> bool {
    &&& lex_le(region.region.start_key, key)
    &&& region.region.end_key.len() == 0 || lex_lt(key, region.region.end_key)
    &&& end_key.len() == 0 || lex_lt(key, end_key)
}

/// There may be more locks: the batch is full, and what lies behind it is still in reach.
pub open spec fn may_have_more(
    options: ResolveLocksOptions,
    region: RegionWithLeaderView,
    end_key: Seq<u8>,
    scanned: ScannedLocks,
) -> bool {
    &&& scanned.locks@.len() >= options.batch_size
    &&& scanned.next_batch is Some
    &&& is_in_reach(region, end_key, (scanned.next_batch->0).0@)
}

/// The removal ends without errors, and tells how many locks were removed.
pub open spec fn ends_well(action: ScanAction, resolved_locks: usize) -> bool {
    match action {
        ScanAction::Return(Ok(result)) => {
            &&& result.region_error is None
            &&& result.key_error is None
            &&& result.resolved_locks == resolved_locks
        },
        _ => false,
    }
}

proof fn lemma_wanted(locks: Seq<LockInfo>, options: ResolveLocksOptions)
    ensures
        wanted_locks(locks, options.async_commit_only) == locks.filter(
            |lock: LockInfo| is_of_interest(options, lock),
        ),
        wanted_locks(locks, options.async_commit_only).len() == 0 <==> forall|i: int|
            0 <= i < locks.len() ==> !is_of_interest(options, #[trigger] locks[i]),
{
    broadcast use vstd::seq_lib::group_filter_ensures;

    let interest = |lock: LockInfo| is_of_interest(options, lock);
    if options.async_commit_only {
        assert((|lock: LockInfo| lock.use_async_commit) =~= interest);
    } else {
        lemma_all_kept(locks, interest);
    }
    let wanted = locks.filter(interest);
    if wanted.len() > 0 {
        assert(interest(wanted[0]));
        assert(wanted.contains(wanted[0]));
        locks.lemma_filter_contains_rev(interest, wanted[0]);
        let i = choose|i: int| 0 <= i < locks.len() && locks[i] == wanted[0];
        assert(is_of_interest(options, locks[i]));
    } else {
        assert forall|i: int| 0 <= i < locks.len() implies !is_of_interest(
            options,
            #[trigger] locks[i],
        ) by {
            if interest(locks[i]) {
                assert(wanted.contains(locks[i]));
            }
        }
    }
}

proof fn lemma_all_kept(locks: Seq<LockInfo>, keeps: spec_fn(LockInfo) -> bool)
    requires
        forall|lock: LockInfo| #[trigger] keeps(lock),
    ensures
        locks.filter(keeps) == locks,
    decreases locks.len(),
{
    reveal(Seq::filter);
    if locks.len() > 0 {
        lemma_all_kept(locks.drop_last(), keeps);
        assert(keeps(locks.last()));
        assert(locks.drop_last().push(locks.last()) =~= locks);
    }
}

/// Behind a full batch the scan goes on as long as the range behind it starts in the region and,
/// where there is an end, before the end. The locks of interest are removed first, all of them and
/// in their order, if there are any. Where there are none, and nothing is left to be scanned, the
/// removal ends.
pub proof fn law_the_scan_goes_on_behind_a_full_batch(
    before: LockScan,
    scanned: ScannedLocks,
    region: RegionWithLeaderView,
    end_key: Seq<u8>,
    after: LockScan,
    action: ScanAction,
)
    requires
        before.on_scanned(Ok(scanned), region, end_key, after, action),
        scanned.failure is Absent,
    ensures
        ({
            let more = scanned.locks@.len() > 0 && may_have_more(
                before.options,
                region,
                end_key,
                scanned,
            );
            let some = exists|i: int|
                0 <= i < scanned.locks@.len() && is_of_interest(
                    before.options,
                    #[trigger] scanned.locks@[i],
                );
            &&& some ==> {
                &&& action is CleanUp
                &&& action->locks@ == scanned.locks@.filter(
                    |lock: LockInfo| is_of_interest(before.options, lock),
                )
                &&& after.batch_locks == action->locks@.len()
                &&& after.next_range == (if more {
                    scanned.next_batch
                } else {
                    None
                })
            }
            &&& !some && more ==> action == (ScanAction::Scan { next_range: scanned.next_batch })
            &&& !some && !more ==> ends_well(action, before.resolved_locks)
        }),
        after.resolved_locks == before.resolved_locks,
        after.backoff == before.backoff,
        after.options == before.options,
{
    broadcast use vstd::seq_lib::group_filter_ensures;

    lemma_wanted(scanned.locks@, before.options);
    assert(scanned.locks.len() == scanned.locks@.len());
}

/// A scan that fails ends the removal, with its errors and with the number of locks that were
/// removed before.
pub proof fn law_a_failed_scan_ends_the_removal(
    before: LockScan,
    scanned: Result<ScannedLocks>,
    region: RegionWithLeaderView,
    end_key: Seq<u8>,
    after: LockScan,
    action: ScanAction,
)
    requires
        before.on_scanned(scanned, region, end_key, after, action),
    ensures
        scanned matches Err(error) ==> action == ScanAction::Return(Err(error)),
        scanned is Ok && scanned->Ok_0.failure is Keys ==> action == ScanAction::Return(
            Ok(
                CleanupLocksResult {
                    region_error: None,
                    key_error: Some(scanned->Ok_0.failure->Keys_0),
                    resolved_locks: before.resolved_locks,
                },
            ),
        ),
        scanned is Ok && scanned->Ok_0.failure is Region ==> action == ScanAction::Return(
            Ok(
                CleanupLocksResult {
                    region_error: Some(scanned->Ok_0.failure->Region_0),
                    key_error: None,
                    resolved_locks: before.resolved_locks,
                },
            ),
        ),
{
}

/// What comes of the removal of a batch. Once its locks are removed they are counted, and the scan
/// goes on behind the batch if there may be more. Locks that are alive are waited for while a
/// delay is left, and then the batch is scanned again. Any other error ends the removal; errors of
/// keys and of the region come with the number of locks that were removed before.
pub proof fn law_what_comes_of_a_batch(
    before: LockScan,
    cleaned: Result<()>,
    after: LockScan,
    action: ScanAction,
)
    requires
        before.on_cleaned(cleaned, after, action),
        before.resolved_locks + before.batch_locks <= usize::MAX,
    ensures
        cleaned is Ok ==> {
            &&& after.resolved_locks == before.resolved_locks + before.batch_locks
            &&& before.next_range is Some ==> action == (ScanAction::Scan {
                next_range: before.next_range,
            })
            &&& before.next_range is None ==> ends_well(action, after.resolved_locks)
            &&& after.backoff == before.backoff
        },
        cleaned matches Err(Error::ResolveLockError(live)) ==> {
            &&& after.resolved_locks == before.resolved_locks
            &&& has_delay(before.backoff) ==> action is SleepThenScan && uses_delay(
                before.backoff,
                action->delay_ms,
                after.backoff,
            )
            &&& !has_delay(before.backoff) ==> action == ScanAction::Return(
                Err(Error::ResolveLockError(live)),
            )
        },
        cleaned matches Err(Error::ExtractedErrors(errors)) ==> {
            &&& action is Return
            &&& errors@.len() == 0 ==> action->Return_0 is Err
            &&& errors@.len() > 0 ==> {
                let region_last = errors@.last() is RegionError;
                let result = action->Return_0->Ok_0;
                &&& action->Return_0 is Ok
                &&& result.resolved_locks == before.resolved_locks
                &&& result.region_error is Some <==> region_last
                &&& region_last ==> errors@.last() == Error::RegionError(
                    Box::new(result.region_error->0),
                )
                &&& result.key_error is Some <==> !region_last || errors@.len() > 1
                &&& result.key_error is Some && region_last ==> result.key_error->0@
                    == errors@.drop_last()
                &&& !region_last ==> result.key_error->0@ == errors@
            }
        },
        cleaned is Err && !(cleaned->Err_0 is ResolveLockError) && !(cleaned->Err_0
            is ExtractedErrors) ==> action == ScanAction::Return(Err(cleaned->Err_0)),
        action is SleepThenScan || action is Scan ==> after.next_range is None,
        action is SleepThenScan || action is Scan ==> after.options == before.options,
{
    crate::backoff::law_a_delay_is_given_while_one_is_left(before.backoff);
}

/// What an action of a removal has come to.
pub enum ScanAnswer {
    Scanned(Result<ScannedLocks>),
    Cleaned(Result<()>),
}

/// A removal from its start on: its states, the actions that it asked for, and what they came to.
pub struct ScanRun {
    pub states: Seq<LockScan>,
    pub actions: Seq<ScanAction>,
    pub answers: Seq<ScanAnswer>,
}

impl ScanRun {
    /// A state comes of the one before and of the answer.
    pub open spec fn takes_step(
        self,
        region: RegionWithLeaderView,
        end_key: Seq<u8>,
        i: int,
    ) -> bool {
        match self.answers[i] {
            ScanAnswer::Scanned(scanned) => {
                &&& self.actions[i] is Scan || self.actions[i] is SleepThenScan
                &&& self.states[i].on_scanned(
                    scanned,
                    region,
                    end_key,
                    self.states[i + 1],
                    self.actions[i + 1],
                )
            },
            ScanAnswer::Cleaned(cleaned) => {
                &&& self.actions[i] is CleanUp
                &&& self.states[i].resolved_locks + self.states[i].batch_locks <= usize::MAX
                &&& self.states[i].on_cleaned(cleaned, self.states[i + 1], self.actions[i + 1])
            },
        }
    }

    /// The removal begins with the given options.
    pub open spec fn is_run(
        self,
        options: ResolveLocksOptions,
        backoff: Backoff,
        region: RegionWithLeaderView,
        end_key: Seq<u8>,
    ) -> bool {
        &&& self.states.len() == self.answers.len() + 1
        &&& self.actions.len() == self.answers.len() + 1
        &&& self.states[0] == (LockScan {
            options,
            backoff,
            resolved_locks: 0,
            batch_locks: 0,
            next_range: None,
        })
        &&& self.actions[0] == (ScanAction::Scan { next_range: None })
        &&& forall|i: int|
            0 <= i < self.answers.len() ==> #[trigger] self.takes_step(region, end_key, i)
    }

    /// Where the last scan up to an action begins.
    pub open spec fn position(self, start: Seq<u8>, i: int) -> Seq<u8>
        decreases i,
    {
        if i <= 0 {
            start
        } else {
            match self.actions[i] {
                ScanAction::Scan { next_range: Some(range) } => range.0@,
                _ => self.position(start, i - 1),
            }
        }
    }

    /// The scan tells of all the locks from where it begins on, up to where the next batch begins
    /// if the batch is full, and up to the end of its reach else. The next batch does not begin
    /// before this one.
    pub open spec fn is_truthful(
        self,
        options: ResolveLocksOptions,
        region: RegionWithLeaderView,
        end_key: Seq<u8>,
        start: Seq<u8>,
        held: spec_fn(LockInfo) -> bool,
        i: int,
    ) -> bool {
        match self.answers[i] {
            ScanAnswer::Scanned(Ok(scanned)) => {
                let from = self.position(start, i);
                let full = scanned.locks@.len() >= options.batch_size && scanned.next_batch is Some;
                &&& full ==> lex_le(from, (scanned.next_batch->0).0@)
                &&& forall|lock: LockInfo| #[trigger]
                    held(lock) && is_in_reach(region, end_key, lock.key@) && lex_le(from, lock.key@)
                        && (full ==> lex_lt(lock.key@, (scanned.next_batch->0).0@))
                        ==> scanned.locks@.contains(lock)
            },
            _ => true,
        }
    }

    /// The batch at hand has been removed.
    pub open spec fn was_removed(self, i: int) -> bool {
        self.answers[i] is Cleaned && self.answers[i]->Cleaned_0 is Ok
    }

    /// The lock was in a batch that has been removed.
    pub open spec fn has_removed(self, lock: LockInfo, n: int) -> bool {
        exists|k: int|
            {
                &&& 0 <= k < n
                &&& (#[trigger] self.actions[k]) is CleanUp
                &&& self.actions[k]->locks@.contains(lock)
                &&& self.was_removed(k)
            }
    }

    /// The number of locks in the batches that have been removed.
    pub open spec fn removed(self, n: int) -> nat
        decreases n,
    {
        if n <= 0 {
            0
        } else {
            let earlier = self.removed(n - 1);
            if self.actions[n - 1] is CleanUp && self.was_removed(n - 1) {
                earlier + self.actions[n - 1]->locks@.len()
            } else {
                earlier
            }
        }
    }
}

/// The lock is to be removed.
pub open spec fn is_to_go(
    options: ResolveLocksOptions,
    region: RegionWithLeaderView,
    end_key: Seq<u8>,
    start: Seq<u8>,
    held: spec_fn(LockInfo) -> bool,
    lock: LockInfo,
) -> bool {
    &&& held(lock)
    &&& is_of_interest(options, lock)
    &&& is_in_reach(region, end_key, lock.key@)
    &&& lex_le(start, lock.key@)
}

proof fn lemma_run_so_far(
    run: ScanRun,
    options: ResolveLocksOptions,
    backoff: Backoff,
    region: RegionWithLeaderView,
    end_key: Seq<u8>,
    start: Seq<u8>,
    held: spec_fn(LockInfo) -> bool,
    lock: LockInfo,
    n: int,
)
    requires
        run.is_run(options, backoff, region, end_key),
        options.batch_size > 0,
        lex_le(region.region.start_key, start),
        is_to_go(options, region, end_key, start, held, lock),
        forall|i: int|
            0 <= i < run.answers.len() ==> #[trigger] run.is_truthful(
                options,
                region,
                end_key,
                start,
                held,
                i,
            ),
        0 <= n < run.actions.len(),
    ensures
        lex_le(region.region.start_key, run.position(start, n)),
        run.actions[n] !is Return ==> run.states[n].options == options,
        run.has_removed(lock, n) || match run.actions[n] {
            ScanAction::Return(result) => result is Err || result->Ok_0.region_error is Some
                || result->Ok_0.key_error is Some,
            ScanAction::CleanUp { locks } => lex_le(run.position(start, n), lock.key@) && (
            locks@.contains(lock) || (run.states[n].next_range is Some && lex_le(
                (run.states[n].next_range->0).0@,
                lock.key@,
            ))),
            _ => lex_le(run.position(start, n), lock.key@),
        },
        run.actions[n] is CleanUp && run.states[n].next_range is Some ==> lex_le(
            region.region.start_key,
            (run.states[n].next_range->0).0@,
        ),
    decreases n,
{
    broadcast use vstd::seq_lib::group_filter_ensures;

    if n > 0 {
        let i = n - 1;
        lemma_run_so_far(run, options, backoff, region, end_key, start, held, lock, i);
        assert(run.takes_step(region, end_key, i));
        assert(run.is_truthful(options, region, end_key, start, held, i));
        let before = run.states[i];
        let after = run.states[n];
        let action = run.actions[n];
        assert(before.options == options);
        let from = run.position(start, i);
        if run.has_removed(lock, i) {
            let k = choose|k: int|
                {
                    &&& 0 <= k < i
                    &&& (#[trigger] run.actions[k]) is CleanUp
                    &&& run.actions[k]->locks@.contains(lock)
                    &&& run.was_removed(k)
                };
            assert(run.actions[k] is CleanUp);
            assert(run.has_removed(lock, n));
        }
        match run.answers[i] {
            ScanAnswer::Scanned(Ok(scanned)) => {
                if scanned.failure is Absent {
                    law_the_scan_goes_on_behind_a_full_batch(
                        before,
                        scanned,
                        region,
                        end_key,
                        after,
                        action,
                    );
                    let full = scanned.locks@.len() >= options.batch_size && scanned.next_batch
                        is Some;
                    if full {
                        let next = (scanned.next_batch->0).0@;
                        lemma_lex_not_lt(lock.key@, next);
                        if lex_lt(region.region.start_key, from) && lex_lt(from, next) {
                            lemma_lex_transitive(region.region.start_key, from, next);
                        }
                        if !lex_lt(lock.key@, next) && !is_in_reach(region, end_key, next) {
                            if region.region.end_key.len() > 0 && lex_lt(next, lock.key@) {
                                lemma_lex_transitive(next, lock.key@, region.region.end_key);
                            }
                            if end_key.len() > 0 && lex_lt(next, lock.key@) {
                                lemma_lex_transitive(next, lock.key@, end_key);
                            }
                            assert(is_in_reach(region, end_key, next));
                        }
                    }
                    if !run.has_removed(lock, i) {
                        assert(held(lock));
                        if scanned.locks@.contains(lock) {
                            let k = choose|k: int|
                                0 <= k < scanned.locks@.len() && scanned.locks@[k] == lock;
                            let interest = |lock: LockInfo| is_of_interest(options, lock);
                            assert(interest(scanned.locks@[k]));
                            assert(scanned.locks@.filter(interest).contains(scanned.locks@[k]));
                            assert(is_of_interest(options, scanned.locks@[k]));
                        }
                    }
                } else {
                    law_a_failed_scan_ends_the_removal(
                        before,
                        Ok(scanned),
                        region,
                        end_key,
                        after,
                        action,
                    );
                }
            },
            ScanAnswer::Scanned(Err(_)) => {},
            ScanAnswer::Cleaned(cleaned) => {
                law_what_comes_of_a_batch(before, cleaned, after, action);
                if cleaned is Ok && run.actions[i]->locks@.contains(lock) {
                    assert(run.actions[i] is CleanUp);
                    assert(run.has_removed(lock, n));
                }
            },
        }
    }
}

/// A removal that ends without an error leaves no lock behind: each lock of interest that lies in
/// the region, from the start of the scan on and before its end, was in a batch that has been
/// removed. This holds wherever the scans tell of all the locks that they come by.
pub proof fn law_no_lock_is_left_behind(
    run: ScanRun,
    options: ResolveLocksOptions,
    backoff: Backoff,
    region: RegionWithLeaderView,
    end_key: Seq<u8>,
    start: Seq<u8>,
    held: spec_fn(LockInfo) -> bool,
    lock: LockInfo,
)
    requires
        run.is_run(options, backoff, region, end_key),
        options.batch_size > 0,
        lex_le(region.region.start_key, start),
        is_to_go(options, region, end_key, start, held, lock),
        forall|i: int|
            0 <= i < run.answers.len() ==> #[trigger] run.is_truthful(
                options,
                region,
                end_key,
                start,
                held,
                i,
            ),
        run.actions.last() is Return,
        run.actions.last()->Return_0 is Ok,
        run.actions.last()->Return_0->Ok_0.region_error is None,
        run.actions.last()->Return_0->Ok_0.key_error is None,
    ensures
        run.has_removed(lock, run.answers.len() as int),
{
    lemma_run_so_far(
        run,
        options,
        backoff,
        region,
        end_key,
        start,
        held,
        lock,
        run.answers.len() as int,
    );
}

/// The number that a removal ends with is that of the locks in the batches that were removed.
pub proof fn law_the_removed_locks_are_counted(
    run: ScanRun,
    options: ResolveLocksOptions,
    backoff: Backoff,
    region: RegionWithLeaderView,
    end_key: Seq<u8>,
    n: int,
)
    requires
        run.is_run(options, backoff, region, end_key),
        0 <= n < run.actions.len(),
    ensures
        run.actions[n] is Return && run.actions[n]->Return_0 is Ok
            ==> run.actions[n]->Return_0->Ok_0.resolved_locks == run.removed(n),
        run.actions[n] !is Return ==> run.states[n].resolved_locks == run.removed(n),
        run.actions[n] is CleanUp ==> run.states[n].batch_locks == run.actions[n]->locks@.len(),
    decreases n,
{
    broadcast use vstd::seq_lib::group_filter_ensures;

    if n > 0 {
        let i = n - 1;
        law_the_removed_locks_are_counted(run, options, backoff, region, end_key, i);
        assert(run.takes_step(region, end_key, i));
        match run.answers[i] {
            ScanAnswer::Scanned(Ok(scanned)) => {
                if scanned.failure is Absent {
                    law_the_scan_goes_on_behind_a_full_batch(
                        run.states[i],
                        scanned,
                        region,
                        end_key,
                        run.states[n],
                        run.actions[n],
                    );
                }
            },
            ScanAnswer::Scanned(Err(_)) => {},
            ScanAnswer::Cleaned(cleaned) => {
                law_what_comes_of_a_batch(run.states[i], cleaned, run.states[n], run.actions[n]);
            },
        }
    }
}

/// The steps that these laws speak of are those of the functions.
pub proof fn law_the_steps_of_a_scan_are_these()
    ensures
        forall|
            scan: &mut LockScan,
            scanned: Result<ScannedLocks>,
            region: &RegionWithLeader,
            end_key: &[u8],
            r: ScanAction,
        | #[trigger]
            call_ensures(LockScan::scanned, (scan, scanned, region, end_key), r)
                ==> scan.on_scanned(scanned, region@, end_key@, *final(scan), r),
        forall|scan: &mut LockScan, cleaned: Result<()>, r: ScanAction| #[trigger]
            call_ensures(LockScan::cleaned, (scan, cleaned), r) ==> scan.on_cleaned(
                cleaned,
                *final(scan),
                r,
            ),
        forall|options: ResolveLocksOptions, backoff: Backoff, r: (LockScan, ScanAction)|
            #[trigger] call_ensures(LockScan::start, (options, backoff), r) ==> r.0 == (LockScan {
                options,
                backoff,
                resolved_locks: 0,
                batch_locks: 0,
                next_range: None,
            }) && r.1 == (ScanAction::Scan { next_range: None }),
{
}

} // verus!
