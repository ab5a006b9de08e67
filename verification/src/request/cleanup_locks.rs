//! Plans that scan for locks and remove them.

use vstd::prelude::*;

use crate::backoff::Backoff;
use crate::common::errors::{internal_err, Error, Result};
use crate::kv::key::Key;
use crate::kv::order::{bytes_lt, lex_lt};
use crate::proto::errorpb;
use crate::proto::kvrpcpb::LockInfo;
use crate::region::{RegionWithLeader, RegionWithLeaderView};
use crate::request::keyspace::Keyspace;
use crate::request::plan::{first_failure, Collect, Merge, Plan};
use crate::request_context::RequestContext;
use crate::store::errors::{
    errors_view, only_error, take_only_error, Failure, HasKeyErrors, HasRegionError,
    HasRegionErrors,
};
use crate::store::RegionStore;
use crate::transaction::lock::ResolveLocksOptions;

verus! {

/// What a removal of locks comes to.
#[derive(Debug, PartialEq)]
pub struct CleanupLocksResult {
    pub region_error: Option<errorpb::Error>,
    pub key_error: Option<Vec<Error>>,
    pub resolved_locks: usize,
}

impl Default for CleanupLocksResult {
    fn default() -> (r: Self)
        ensures
            r == (CleanupLocksResult { region_error: None, key_error: None, resolved_locks: 0 }),
    {
        CleanupLocksResult { region_error: None, key_error: None, resolved_locks: 0 }
    }
}

impl Clone for CleanupLocksResult {
    /// The count, without the errors, which are to be taken out before.
    fn clone(&self) -> (r: Self)
        ensures
            r == (CleanupLocksResult {
                region_error: None,
                key_error: None,
                resolved_locks: self.resolved_locks,
            }),
    {
        CleanupLocksResult {
            region_error: None,
            key_error: None,
            resolved_locks: self.resolved_locks,
        }
    }
}

impl HasRegionError for CleanupLocksResult {
    open spec fn held_region_error(&self) -> Option<errorpb::Error> {
        self.region_error
    }

    fn region_error(&mut self) -> (r: Option<errorpb::Error>)
        ensures
            *final(self) == (CleanupLocksResult { region_error: None, ..*old(self) }),
    {
        self.region_error.take()
    }
}

impl HasRegionErrors for CleanupLocksResult {
    open spec fn held_region_errors(&self) -> Option<Seq<errorpb::Error>> {
        only_error(self.region_error)
    }

    fn region_errors(&mut self) -> (r: Option<Vec<errorpb::Error>>)
        ensures
            *final(self) == (CleanupLocksResult { region_error: None, ..*old(self) }),
    {
        take_only_error(&mut self.region_error)
    }
}

impl HasKeyErrors for CleanupLocksResult {
    open spec fn held_key_errors(&self) -> Option<Seq<Error>> {
        errors_view(self.key_error)
    }

    fn key_errors(&mut self) -> (r: Option<Vec<Error>>)
        ensures
            *final(self) == (CleanupLocksResult { key_error: None, ..*old(self) }),
    {
        self.key_error.take()
    }
}

/// The number of locks that were removed by the first of the given removals.
pub open spec fn total_resolved(input: Seq<Result<CleanupLocksResult>>) -> nat
    decreases input.len(),
{
    if input.len() == 0 {
        0
    } else {
        total_resolved(input.drop_last()) + input.last()->Ok_0.resolved_locks as nat
    }
}

proof fn lemma_total_grows(input: Seq<Result<CleanupLocksResult>>, n: int)
    requires
        0 <= n <= input.len(),
    ensures
        total_resolved(input.take(n)) <= total_resolved(input),
    decreases input.len(),
{
    if n < input.len() {
        let init = input.drop_last();
        assert(init.take(n) =~= input.take(n));
        lemma_total_grows(init, n);
    } else {
        assert(input.take(n) =~= input);
    }
}

/// The result counts the locks that were removed by all of the removals, or is the first failure.
pub open spec fn collects(
    input: Seq<Result<CleanupLocksResult>>,
    out: Result<CleanupLocksResult>,
) -> bool {
    let at = first_failure(input);
    if at < input.len() {
        out == Err::<CleanupLocksResult, Error>(input[at as int]->Err_0)
    } else {
        out == Ok::<CleanupLocksResult, Error>(
            CleanupLocksResult {
                region_error: None,
                key_error: None,
                resolved_locks: total_resolved(input) as usize,
            },
        )
    }
}

/// Merge the results of removals. `None` if there are more locks than can be counted.
#[verifier::loop_isolation(false)]
pub fn merge_cleanup_results(input: Vec<Result<CleanupLocksResult>>) -> (r: Option<
    Result<CleanupLocksResult>,
>)
    ensures
        r is None ==> total_resolved(input@.take(first_failure(input@) as int)) > usize::MAX,
        r is Some ==> collects(input@, r->0),
        r is Some && first_failure(input@) == input@.len() ==> total_resolved(input@)
            <= usize::MAX,
{
    let ghost results = input@;
    let mut resolved_locks: usize = 0;
    proof {
        crate::request::plan::lemma_first_failure(results);
    }
    for result in iter: input
        invariant
            iter.seq() == results,
            iter.index() <= first_failure(results),
            resolved_locks == total_resolved(results.take(iter.index())),
    {
        proof {
            let done = results.take(iter.index() + 1);
            assert(done.drop_last() =~= results.take(iter.index()));
            assert(done.last() == results[iter.index()]);
        }
        match result {
            Err(error) => {
                return Some(Err(error));
            },
            Ok(result) => match resolved_locks.checked_add(result.resolved_locks) {
                Some(sum) => {
                    resolved_locks = sum;
                },
                None => {
                    proof {
                        let upto = results.take(first_failure(results) as int);
                        assert(upto.take(iter.index() + 1) =~= results.take(iter.index() + 1));
                        lemma_total_grows(upto, iter.index() + 1);
                    }
                    return None;
                },
            },
        }
    }
    assert(results.take(results.len() as int) =~= results);
    Some(
        Ok(CleanupLocksResult { region_error: None, key_error: None, resolved_locks }),
    )
}

impl Merge<CleanupLocksResult> for Collect {
    type Out = CleanupLocksResult;

    /// There are no more locks than can be counted.
    open spec fn can_merge(&self, input: Seq<Result<CleanupLocksResult>>) -> bool {
        total_resolved(input.take(first_failure(input) as int)) <= usize::MAX
    }

    open spec fn merges(
        &self,
        input: Seq<Result<CleanupLocksResult>>,
        out: Result<CleanupLocksResult>,
    ) -> bool {
        collects(input, out)
    }

    fn merge(&self, input: Vec<Result<CleanupLocksResult>>) -> (r: Result<CleanupLocksResult>) {
        match merge_cleanup_results(input) {
            Some(result) => result,
            None => vstd::pervasive::unreached(),
        }
    }
}

/// The plan that scans for locks with another one and removes them.
#[derive(Debug)]
pub struct CleanupLocks<P, PdC, C, Ctx, T, I> {
    pub inner: P,
    pub ctx: Ctx,
    pub options: ResolveLocksOptions,
    pub store: Option<RegionStore<C, T, I>>,
    pub pd_client: PdC,
    pub keyspace: Keyspace,
    pub backoff: Backoff,
    pub request_context: RequestContext<T, I>,
}

impl<P: Plan, PdC, C, Ctx, T, I> Plan for CleanupLocks<P, PdC, C, Ctx, T, I> {
    type Result = CleanupLocksResult;
}

impl<P: Clone, PdC: Clone, C, Ctx: Clone, T, I> Clone for CleanupLocks<P, PdC, C, Ctx, T, I> {
    fn clone(&self) -> (r: Self)
        ensures
            cloned(self.inner, r.inner),
            cloned(self.ctx, r.ctx),
            r.options == self.options,
            r.store is None,
            cloned(self.pd_client, r.pd_client),
            r.keyspace == self.keyspace,
            r.backoff == self.backoff,
            r.request_context@ == self.request_context@,
    {
        CleanupLocks {
            inner: self.inner.clone(),
            ctx: self.ctx.clone(),
            options: self.options,
            store: None,
            pd_client: self.pd_client.clone(),
            keyspace: self.keyspace,
            backoff: self.backoff,
            request_context: self.request_context.clone(),
        }
    }
}

impl<P, PdC, C, Ctx, T, I> CleanupLocks<P, PdC, C, Ctx, T, I> {
    /// The store that the locks are removed from.
    pub fn attached_store(&self) -> (r: Result<&RegionStore<C, T, I>>)
        ensures
            match self.store {
                Some(store) => r == Ok::<&RegionStore<C, T, I>, Error>(&store),
                None => r is Err && r->Err_0.is_internal(
                    "CleanupLocks executed without an attached store"@,
                ),
            },
    {
        match &self.store {
            Some(store) => Ok(store),
            None => Err(internal_err("CleanupLocks executed without an attached store")),
        }
    }
}

/// What a scan for locks has found.
#[derive(Debug)]
pub struct ScannedLocks {
    pub failure: Failure,
    /// The range that is left to be scanned, if there may be more locks.
    pub next_batch: Option<(Vec<u8>, Vec<u8>)>,
    pub locks: Vec<LockInfo>,
}

/// What is to be done next.
#[derive(Debug)]
pub enum ScanAction {
    /// Scan for locks, in the given range if there is one, else in the same as before.
    Scan { next_range: Option<(Vec<u8>, Vec<u8>)> },
    /// Remove the locks.
    CleanUp { locks: Vec<LockInfo> },
    /// Wait, and then scan for locks in the same range as before.
    SleepThenScan { delay_ms: u64 },
    /// End.
    Return(Result<CleanupLocksResult>),
}

/// A removal of the locks of a region, one batch after the other.
#[derive(Debug)]
pub struct LockScan {
    pub options: ResolveLocksOptions,
    pub backoff: Backoff,
    pub resolved_locks: usize,
    /// The number of locks in the present batch.
    pub batch_locks: usize,
    /// The range behind the present batch, if there may be more locks.
    pub next_range: Option<(Vec<u8>, Vec<u8>)>,
}

/// The locks of interest.
pub open spec fn wanted_locks(locks: Seq<LockInfo>, async_commit_only: bool) -> Seq<LockInfo> {
    if async_commit_only {
        locks.filter(|lock: LockInfo| lock.use_async_commit)
    } else {
        locks
    }
}

fn keep_wanted(locks: Vec<LockInfo>, async_commit_only: bool) -> (r: Vec<LockInfo>)
    ensures
        r@ == wanted_locks(locks@, async_commit_only),
{
    if !async_commit_only {
        return locks;
    }
    let ghost input = locks@;
    let ghost is_wanted = |lock: LockInfo| lock.use_async_commit;
    let mut wanted: Vec<LockInfo> = Vec::new();
    proof {
        reveal(Seq::filter);
    }
    for lock in iter: locks
        invariant
            iter.seq() == input,
            is_wanted == (|lock: LockInfo| lock.use_async_commit),
            wanted@ == input.take(iter.index()).filter(is_wanted),
    {
        proof {
            reveal(Seq::filter);
            let after = input.take(iter.index() + 1);
            assert(after.drop_last() =~= input.take(iter.index()));
            assert(after.last() == input[iter.index()]);
        }
        if lock.use_async_commit {
            wanted.push(lock);
        }
    }
    assert(input.take(input.len() as int) =~= input);
    wanted
}

/// The range behind a batch is still to be scanned: it starts in the region, and before the end
/// of the scan.
pub open spec fn is_in_scan(
    next_batch: Option<(Vec<u8>, Vec<u8>)>,
    region: RegionWithLeaderView,
    end_key: Seq<u8>,
) -> bool {
    next_batch is Some && region.contains((next_batch->0).0@) && (end_key.len() == 0 || lex_lt(
        (next_batch->0).0@,
        end_key,
    ))
}

impl LockScan {
    /// The result so far, with errors.
    pub open spec fn result(
        self,
        region_error: Option<errorpb::Error>,
        key_error: Option<Vec<Error>>,
    ) -> CleanupLocksResult {
        CleanupLocksResult { region_error, key_error, resolved_locks: self.resolved_locks }
    }

    /// There may be more locks behind a batch: it is full, and the range behind it is still to be
    /// scanned.
    pub open spec fn has_more(
        self,
        scanned: ScannedLocks,
        region: RegionWithLeaderView,
        end_key: Seq<u8>,
    ) -> bool {
        scanned.locks@.len() >= self.options.batch_size && is_in_scan(
            scanned.next_batch,
            region,
            end_key,
        )
    }

    /// What comes of a scan. A batch without locks is the last one. One without locks of interest
    /// is passed over.
    pub open spec fn on_scanned(
        self,
        scanned: Result<ScannedLocks>,
        region: RegionWithLeaderView,
        end_key: Seq<u8>,
        after: LockScan,
        action: ScanAction,
    ) -> bool {
        match scanned {
            Err(error) => action == ScanAction::Return(Err(error)) && after == self,
            Ok(scanned) => match scanned.failure {
                Failure::Keys(errors) => {
                    &&& action == ScanAction::Return(Ok(self.result(None, Some(errors))))
                    &&& after == self
                },
                Failure::Region(e) => {
                    &&& action == ScanAction::Return(Ok(self.result(Some(e), None)))
                    &&& after == self
                },
                Failure::Absent => {
                    let wanted = wanted_locks(scanned.locks@, self.options.async_commit_only);
                    let more = self.has_more(scanned, region, end_key);
                    if scanned.locks@.len() == 0 || (wanted.len() == 0 && !more) {
                        &&& action == ScanAction::Return(Ok(self.result(None, None)))
                        &&& after == self
                    } else if wanted.len() == 0 {
                        &&& action == (ScanAction::Scan { next_range: scanned.next_batch })
                        &&& after == self
                    } else {
                        &&& action is CleanUp
                        &&& action->locks@ == wanted
                        &&& after == (LockScan {
                            batch_locks: wanted.len() as usize,
                            next_range: if more {
                                scanned.next_batch
                            } else {
                                None
                            },
                            ..self
                        })
                    }
                },
            },
        }
    }

    /// What comes of the removal of a batch. Only when its locks have been removed does the scan
    /// go on behind it.
    pub open spec fn on_cleaned(
        self,
        cleaned: Result<()>,
        after: LockScan,
        action: ScanAction,
    ) -> bool {
        match cleaned {
            Ok(()) => {
                let resolved_locks = (self.resolved_locks + self.batch_locks) as usize;
                &&& after == (LockScan { resolved_locks, next_range: None, ..self })
                &&& action == (if self.next_range is Some {
                    ScanAction::Scan { next_range: self.next_range }
                } else {
                    ScanAction::Return(Ok(after.result(None, None)))
                })
            },
            Err(Error::ResolveLockError(live)) => {
                &&& after == (LockScan {
                    backoff: self.backoff.after_next(),
                    next_range: None,
                    ..self
                })
                &&& action == match self.backoff.next_delay() {
                    Some(delay_ms) => ScanAction::SleepThenScan { delay_ms },
                    None => ScanAction::Return(Err(Error::ResolveLockError(live))),
                }
            },
            Err(Error::ExtractedErrors(errors)) => {
                &&& action is Return
                &&& if errors@.len() == 0 {
                    &&& action->Return_0 is Err
                    &&& action->Return_0->Err_0.is_internal("ExtractedErrors was empty"@)
                } else {
                    &&& action->Return_0 is Ok
                    &&& action->Return_0->Ok_0.resolved_locks == self.resolved_locks
                    &&& match errors@.last() {
                        Error::RegionError(e) => {
                            let others = errors@.drop_last();
                            &&& action->Return_0->Ok_0.region_error == Some(*e)
                            &&& match action->Return_0->Ok_0.key_error {
                                Some(rest) => others.len() > 0 && rest@ == others,
                                None => others.len() == 0,
                            }
                        },
                        _ => {
                            &&& action->Return_0->Ok_0.region_error is None
                            &&& action->Return_0->Ok_0.key_error is Some
                            &&& action->Return_0->Ok_0.key_error->0@ == errors@
                        },
                    }
                }
            },
            Err(error) => action == ScanAction::Return(Err(error)),
        }
    }

    /// Begin to remove the locks of a region.
    pub fn start(options: ResolveLocksOptions, backoff: Backoff) -> (r: (LockScan, ScanAction))
        ensures
            r.0 == (LockScan {
                options,
                backoff,
                resolved_locks: 0,
                batch_locks: 0,
                next_range: None,
            }),
            r.1 == (ScanAction::Scan { next_range: None }),
    {
        (
            LockScan { options, backoff, resolved_locks: 0, batch_locks: 0, next_range: None },
            ScanAction::Scan { next_range: None },
        )
    }

    fn give(
        &self,
        region_error: Option<errorpb::Error>,
        key_error: Option<Vec<Error>>,
    ) -> (r: ScanAction)
        ensures
            r == ScanAction::Return(Ok(self.result(region_error, key_error))),
    {
        ScanAction::Return(
            Ok(CleanupLocksResult { region_error, key_error, resolved_locks: self.resolved_locks }),
        )
    }

    /// Go on with what a scan has found in the region.
    pub fn scanned(
        &mut self,
        scanned: Result<ScannedLocks>,
        region: &RegionWithLeader,
        end_key: &[u8],
    ) -> (r: ScanAction)
        ensures
            old(self).on_scanned(scanned, region@, end_key@, *final(self), r),
    {
        let scanned = match scanned {
            Ok(scanned) => scanned,
            Err(error) => {
                return ScanAction::Return(Err(error));
            },
        };
        let ghost found = scanned;
        match scanned.failure {
            Failure::Keys(errors) => {
                return self.give(None, Some(errors));
            },
            Failure::Region(e) => {
                return self.give(Some(e), None);
            },
            Failure::Absent => {},
        }
        if scanned.locks.len() == 0 {
            return self.give(None, None);
        }
        let in_scan = match &scanned.next_batch {
            Some(range) => {
                let start = Key(crate::kv::order::bytes_to_vec(&range.0));
                region.contains(&start) && (end_key.len() == 0 || bytes_lt(&start.0, end_key))
            },
            None => false,
        };
        let more = in_scan && scanned.locks.len() as u64 >= self.options.batch_size as u64;
        assert(more == self.has_more(found, region@, end_key@));
        let wanted = keep_wanted(scanned.locks, self.options.async_commit_only);
        if wanted.len() == 0 {
            if more {
                return ScanAction::Scan { next_range: scanned.next_batch };
            }
            return self.give(None, None);
        }
        self.batch_locks = wanted.len();
        self.next_range = if more {
            scanned.next_batch
        } else {
            None
        };
        ScanAction::CleanUp { locks: wanted }
    }

    /// Go on with the removal of a batch.
    pub fn cleaned(&mut self, cleaned: Result<()>) -> (r: ScanAction)
        requires
            old(self).resolved_locks + old(self).batch_locks <= usize::MAX,
        ensures
            old(self).on_cleaned(cleaned, *final(self), r),
    {
        let next_range = self.next_range.take();
        match cleaned {
            Ok(()) => {
                self.resolved_locks = self.resolved_locks + self.batch_locks;
                if next_range.is_some() {
                    ScanAction::Scan { next_range }
                } else {
                    self.give(None, None)
                }
            },
            Err(Error::ResolveLockError(live)) => match self.backoff.next_delay_ms() {
                Some(delay_ms) => ScanAction::SleepThenScan { delay_ms },
                None => ScanAction::Return(Err(Error::ResolveLockError(live))),
            },
            Err(Error::ExtractedErrors(errors)) => {
                let ghost all = errors@;
                let mut errors = errors;
                match errors.pop() {
                    None => ScanAction::Return(Err(internal_err("ExtractedErrors was empty"))),
                    Some(Error::RegionError(e)) => {
                        assert(errors@ =~= all.drop_last());
                        if errors.len() > 0 {
                            self.give(Some(*e), Some(errors))
                        } else {
                            self.give(Some(*e), None)
                        }
                    },
                    Some(error) => {
                        errors.push(error);
                        assert(errors@ =~= all);
                        self.give(None, Some(errors))
                    },
                }
            },
            Err(error) => ScanAction::Return(Err(error)),
        }
    }
}

/// A batch whose locks could not be removed is scanned again: the scan goes on behind a batch only
/// after its locks have been removed, or where it has none of interest.
pub proof fn law_no_batch_is_skipped(
    before: LockScan,
    cleaned: Result<()>,
    after: LockScan,
    action: ScanAction,
)
    requires
        before.on_cleaned(cleaned, after, action),
    ensures
        action is Scan ==> cleaned is Ok,
        action is SleepThenScan ==> cleaned is Err && after.resolved_locks == before.resolved_locks,
{
}

/// Waiting for locks that are alive is bounded by the delays that are left.
pub proof fn law_waiting_for_a_batch_is_bounded(
    before: LockScan,
    cleaned: Result<()>,
    after: LockScan,
    action: ScanAction,
)
    requires
        before.on_cleaned(cleaned, after, action),
        action is SleepThenScan,
    ensures
        after.backoff.attempts_left() == before.backoff.attempts_left() - 1,
{
}

} // verus!
