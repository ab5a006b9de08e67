//! The fate of transactions.

use vstd::prelude::*;

use crate::common::errors::{internal_err, Error, Result};
use crate::common::text::{decimal, push_decimal, with_decimal};
use crate::proto::kvrpcpb::{Action, LockInfo, LockInfoView};
use crate::proto::pdpb::Timestamp;
use crate::timestamp::{has_version, timestamp_of, version_of};

verus! {

/// What has become of a transaction.
#[derive(Debug, PartialEq, Eq)]
pub enum TransactionStatusKind {
    /// It was committed at the timestamp.
    Committed(Timestamp),
    /// It was rolled back.
    RolledBack,
    /// It still holds its primary lock, which lives for the given time in milliseconds.
    Locked(u64, LockInfo),
}

/// What a [`TransactionStatusKind`] holds.
#[verifier::ext_equal]
pub enum StatusKindView {
    Committed(Timestamp),
    RolledBack,
    Locked(u64, LockInfoView),
}

impl View for TransactionStatusKind {
    type V = StatusKindView;

    open spec fn view(&self) -> StatusKindView {
        match *self {
            TransactionStatusKind::Committed(ts) => StatusKindView::Committed(ts),
            TransactionStatusKind::RolledBack => StatusKindView::RolledBack,
            TransactionStatusKind::Locked(ttl, lock) => StatusKindView::Locked(ttl, lock@),
        }
    }
}

/// What is known of a transaction.
#[derive(Debug, PartialEq, Eq)]
pub struct TransactionStatus {
    pub kind: TransactionStatusKind,
    pub action: Action,
    pub is_expired: bool,
}

/// What a [`TransactionStatus`] holds.
#[verifier::ext_equal]
pub struct StatusView {
    pub kind: StatusKindView,
    pub action: Action,
    pub is_expired: bool,
}

impl View for TransactionStatus {
    type V = StatusView;

    open spec fn view(&self) -> StatusView {
        StatusView { kind: self.kind@, action: self.action, is_expired: self.is_expired }
    }
}

impl Clone for TransactionStatus {
    fn clone(&self) -> (r: Self)
        ensures
            r@ == self@,
    {
        TransactionStatus {
            kind: match &self.kind {
                TransactionStatusKind::Committed(ts) => TransactionStatusKind::Committed(*ts),
                TransactionStatusKind::RolledBack => TransactionStatusKind::RolledBack,
                TransactionStatusKind::Locked(ttl, lock) => TransactionStatusKind::Locked(
                    *ttl,
                    lock.clone(),
                ),
            },
            action: self.action,
            is_expired: self.is_expired,
        }
    }
}

/// A lock that was taken at the given version has outlived the given time.
pub open spec fn has_outlived(now: Timestamp, lock_version: u64, ttl: u64) -> bool {
    now.physical - timestamp_of(lock_version).physical >= ttl as i64
}

/// Whether a lock that was taken at the given version has outlived the given time.
pub fn outlives(now: &Timestamp, lock_version: u64, ttl: u64) -> (r: bool)
    ensures
        r == has_outlived(*now, lock_version, ttl),
{
    let taken = Timestamp::from_version(lock_version);
    now.physical as i128 - taken.physical as i128 >= ttl as i64 as i128
}

impl TransactionStatus {
    /// Note that the lock has expired, if it has.
    pub fn check_ttl(&mut self, current: Timestamp)
        ensures
            final(self)@ == (StatusView {
                is_expired: match old(self)@.kind {
                    StatusKindView::Locked(ttl, lock) => old(self).is_expired || has_outlived(
                        current,
                        lock.lock_version,
                        ttl,
                    ),
                    _ => old(self).is_expired,
                },
                ..old(self)@
            }),
    {
        let expired = match &self.kind {
            TransactionStatusKind::Locked(ttl, lock) => outlives(
                &current,
                lock.lock_version,
                *ttl,
            ),
            _ => false,
        };
        if expired {
            self.is_expired = true;
        }
    }

    /// What is known of the transaction will not change: it has ended, and not by what another
    /// check may undo.
    pub open spec fn is_final(self) -> bool {
        &&& self.kind !is Locked
        &&& self.action is NoAction || self.action is LockNotExistRollback
            || self.action is TtlExpireRollback
    }

    /// Whether what is known of the transaction will not change.
    pub fn is_cacheable(&self) -> (r: bool)
        ensures
            r == self.is_final(),
    {
        match &self.kind {
            TransactionStatusKind::Locked(_, _) => false,
            _ => match self.action {
                Action::NoAction => true,
                Action::LockNotExistRollback => true,
                Action::TtlExpireRollback => true,
                _ => false,
            },
        }
    }
}

/// What the secondary locks of a transaction tell of it.
#[derive(Clone, Copy, Debug, PartialEq, Eq)]
pub struct SecondaryLocksStatus {
    /// When it was committed, if it was.
    pub commit_ts: Option<Timestamp>,
    /// When it may be committed, or was.
    pub min_commit_ts: u64,
    /// The transaction does not use asynchronous commit after all.
    pub fallback_2pc: bool,
}

/// What a region tells of the secondary locks that lie in it.
#[derive(Debug, PartialEq, Eq)]
pub struct SecondaryLocks {
    /// The number of locks that were asked for.
    pub expected: usize,
    /// The locks that are still there.
    pub locks: Vec<LockInfo>,
    /// When the transaction was committed. 0 if it was rolled back, or is not decided.
    pub commit_ts: u64,
}

/// What is known of a transaction after some of its secondary locks.
#[verifier::ext_equal]
pub struct SecondariesSoFar {
    pub min_commit_ts: u64,
    pub missing_lock: bool,
    pub commit_ts: Option<u64>,
}

/// What the secondary locks of a transaction tell of it.
pub enum SecondariesVerdict {
    /// Some lock does not use asynchronous commit.
    Fallback,
    /// A lock is missing, but the transaction was committed too early.
    TooEarly { commit_ts: u64, min_commit_ts: u64 },
    /// Two regions tell of different commits.
    Mismatch { first: u64, second: u64 },
    /// Nothing stands against what is known.
    Known(SecondariesSoFar),
}

/// The largest of the least commit timestamps.
pub open spec fn max_min_commit_ts(locks: Seq<LockInfo>, least: u64) -> u64
    decreases locks.len(),
{
    if locks.len() == 0 {
        least
    } else {
        let lock = locks[0].min_commit_ts;
        max_min_commit_ts(
            locks.skip(1),
            if lock > least {
                lock
            } else {
                least
            },
        )
    }
}

/// All the locks use asynchronous commit.
pub open spec fn all_async(locks: Seq<LockInfo>) -> bool {
    forall|i: int| 0 <= i < locks.len() ==> #[trigger] locks[i].use_async_commit
}

/// What is known after one more region.
pub open spec fn region_verdict(
    known: SecondariesSoFar,
    response: SecondaryLocks,
) -> SecondariesVerdict {
    if response.locks@.len() < response.expected {
        match known.commit_ts {
            None => if response.commit_ts != 0 && response.commit_ts < known.min_commit_ts {
                SecondariesVerdict::TooEarly {
                    commit_ts: response.commit_ts,
                    min_commit_ts: known.min_commit_ts,
                }
            } else {
                SecondariesVerdict::Known(
                    SecondariesSoFar {
                        missing_lock: true,
                        commit_ts: Some(response.commit_ts),
                        ..known
                    },
                )
            },
            Some(first) => if first == response.commit_ts {
                SecondariesVerdict::Known(SecondariesSoFar { missing_lock: true, ..known })
            } else {
                SecondariesVerdict::Mismatch { first, second: response.commit_ts }
            },
        }
    } else if !all_async(response.locks@) {
        SecondariesVerdict::Fallback
    } else if known.missing_lock {
        SecondariesVerdict::Known(known)
    } else {
        SecondariesVerdict::Known(
            SecondariesSoFar {
                min_commit_ts: max_min_commit_ts(response.locks@, known.min_commit_ts),
                ..known
            },
        )
    }
}

/// What is known after some more regions.
pub open spec fn secondaries_verdict(
    known: SecondariesSoFar,
    responses: Seq<SecondaryLocks>,
) -> SecondariesVerdict
    decreases responses.len(),
{
    if responses.len() == 0 {
        SecondariesVerdict::Known(known)
    } else {
        match region_verdict(known, responses[0]) {
            SecondariesVerdict::Known(known) => secondaries_verdict(known, responses.skip(1)),
            verdict => verdict,
        }
    }
}

/// What the regions tell of a transaction whose primary lock has the given least commit
/// timestamp.
pub open spec fn all_secondaries_verdict(
    responses: Seq<SecondaryLocks>,
    primary_min_commit_ts: u64,
) -> SecondariesVerdict {
    secondaries_verdict(
        SecondariesSoFar {
            min_commit_ts: primary_min_commit_ts,
            missing_lock: false,
            commit_ts: None,
        },
        responses,
    )
}

impl SecondariesVerdict {
    /// The result says what the verdict does.
    pub open spec fn tells(
        self,
        primary_min_commit_ts: u64,
        r: Result<SecondaryLocksStatus>,
    ) -> bool {
        match self {
            SecondariesVerdict::Fallback => r == Ok::<SecondaryLocksStatus, Error>(
                SecondaryLocksStatus {
                    commit_ts: None,
                    min_commit_ts: primary_min_commit_ts,
                    fallback_2pc: true,
                },
            ),
            SecondariesVerdict::TooEarly { commit_ts, min_commit_ts } => r is Err
                && r->Err_0.is_internal(
                "commit ts must be >= min commit ts: commit_ts="@ + decimal(commit_ts as nat)
                    + ", min_commit_ts="@ + decimal(min_commit_ts as nat),
            ),
            SecondariesVerdict::Mismatch { first, second } => r is Err && r->Err_0.is_internal(
                "commit ts mismatch in async commit recovery: "@ + decimal(first as nat) + " and "@
                    + decimal(second as nat),
            ),
            SecondariesVerdict::Known(known) => r == Ok::<SecondaryLocksStatus, Error>(
                match known.commit_ts {
                    Some(commit_ts) => SecondaryLocksStatus {
                        commit_ts: if commit_ts == 0 {
                            None
                        } else {
                            Some(timestamp_of(commit_ts))
                        },
                        min_commit_ts: commit_ts,
                        fallback_2pc: false,
                    },
                    None => SecondaryLocksStatus {
                        commit_ts: None,
                        min_commit_ts: known.min_commit_ts,
                        fallback_2pc: false,
                    },
                },
            ),
        }
    }
}

fn two_numbers(before: &str, first: u64, between: &str, second: u64) -> (r: Error)
    ensures
        r.is_internal(before@ + decimal(first as nat) + between@ + decimal(second as nat)),
{
    let mut message = with_decimal(before, first);
    message.append(between);
    push_decimal(&mut message, second);
    internal_err(message.as_str())
}

/// The largest of the least commit timestamps, if all the locks use asynchronous commit.
#[verifier::loop_isolation(false)]
fn look_at_locks(locks: &Vec<LockInfo>, least: u64) -> (r: Option<u64>)
    ensures
        r == (if all_async(locks@) {
            Some(max_min_commit_ts(locks@, least))
        } else {
            None
        }),
{
    let mut max: u64 = least;
    let mut i: usize = 0;
    assert(locks@.skip(0) =~= locks@);
    while i < locks.len()
        invariant
            i <= locks.len(),
            forall|k: int| 0 <= k < i ==> #[trigger] locks@[k].use_async_commit,
            max_min_commit_ts(locks@.skip(i as int), max) == max_min_commit_ts(locks@, least),
        decreases locks.len() - i,
    {
        if !locks[i].use_async_commit {
            return None;
        }
        assert(locks@.skip(i as int)[0] == locks@[i as int]);
        assert(locks@.skip(i as int).skip(1) =~= locks@.skip(i + 1));
        if locks[i].min_commit_ts > max {
            max = locks[i].min_commit_ts;
        }
        i = i + 1;
    }
    assert(locks@.skip(i as int) =~= Seq::<LockInfo>::empty());
    Some(max)
}

/// What the regions tell of a transaction whose primary lock has the given least commit
/// timestamp. Where some lock is missing, the transaction has ended when the region says that it
/// did. Else it can be committed at the largest of the least commit timestamps, whatever the
/// regions say of its end.
#[verifier::loop_isolation(false)]
pub fn check_all_secondaries(responses: &Vec<SecondaryLocks>, primary_min_commit_ts: u64) -> (r:
    Result<SecondaryLocksStatus>)
    ensures
        all_secondaries_verdict(responses@, primary_min_commit_ts).tells(
            primary_min_commit_ts,
            r,
        ),
{
    let mut min_commit_ts: u64 = primary_min_commit_ts;
    let mut missing_lock = false;
    let mut determined: Option<u64> = None;
    let mut i: usize = 0;
    assert(responses@.skip(0) =~= responses@);
    while i < responses.len()
        invariant
            i <= responses.len(),
            secondaries_verdict(
                SecondariesSoFar { min_commit_ts, missing_lock, commit_ts: determined },
                responses@.skip(i as int),
            ) == all_secondaries_verdict(responses@, primary_min_commit_ts),
        decreases responses.len() - i,
    {
        assert(responses@.skip(i as int)[0] == responses@[i as int]);
        assert(responses@.skip(i as int).skip(1) =~= responses@.skip(i + 1));
        let response = &responses[i];
        i = i + 1;
        if response.locks.len() < response.expected {
            missing_lock = true;
            match determined {
                None => {
                    if response.commit_ts != 0 && response.commit_ts < min_commit_ts {
                        return Err(
                            two_numbers(
                                "commit ts must be >= min commit ts: commit_ts=",
                                response.commit_ts,
                                ", min_commit_ts=",
                                min_commit_ts,
                            ),
                        );
                    }
                    determined = Some(response.commit_ts);
                },
                Some(first) => {
                    if first != response.commit_ts {
                        return Err(
                            two_numbers(
                                "commit ts mismatch in async commit recovery: ",
                                first,
                                " and ",
                                response.commit_ts,
                            ),
                        );
                    }
                },
            }
        } else {
            match look_at_locks(&response.locks, min_commit_ts) {
                None => {
                    return Ok(
                        SecondaryLocksStatus {
                            commit_ts: None,
                            min_commit_ts: primary_min_commit_ts,
                            fallback_2pc: true,
                        },
                    );
                },
                Some(max) => {
                    if !missing_lock {
                        min_commit_ts = max;
                    }
                },
            }
        }
    }
    assert(responses@.skip(i as int) =~= Seq::<SecondaryLocks>::empty());
    match determined {
        Some(commit_ts) => Ok(
            SecondaryLocksStatus {
                commit_ts: Timestamp::try_from_version(commit_ts),
                min_commit_ts: commit_ts,
                fallback_2pc: false,
            },
        ),
        None => Ok(SecondaryLocksStatus { commit_ts: None, min_commit_ts, fallback_2pc: false }),
    }
}

impl SecondaryLocksStatus {
    /// The version at which the transaction is to be committed.
    pub open spec fn version(self) -> u64 {
        match self.commit_ts {
            Some(ts) => version_of(ts),
            None => self.min_commit_ts,
        }
    }

    /// The version at which the transaction is to be committed, where 0 stands for a rollback.
    pub fn commit_version(&self) -> (r: u64)
        requires
            self.commit_ts is Some ==> has_version(self.commit_ts->0),
        ensures
            r == self.version(),
    {
        match self.commit_ts {
            Some(ts) => ts.version(),
            None => self.min_commit_ts,
        }
    }
}

/// No lock is missing, and all locks use asynchronous commit.
pub open spec fn all_locks_present(responses: Seq<SecondaryLocks>) -> bool {
    forall|i: int|
        0 <= i < responses.len() ==> (#[trigger] responses[i]).locks@.len()
            >= responses[i].expected && all_async(responses[i].locks@)
}

/// All the locks of all the regions.
pub open spec fn all_locks(responses: Seq<SecondaryLocks>) -> Seq<LockInfo>
    decreases responses.len(),
{
    if responses.len() == 0 {
        Seq::empty()
    } else {
        responses[0].locks@ + all_locks(responses.skip(1))
    }
}

proof fn lemma_max_of_two(a: Seq<LockInfo>, b: Seq<LockInfo>, least: u64)
    ensures
        max_min_commit_ts(a + b, least) == max_min_commit_ts(b, max_min_commit_ts(a, least)),
    decreases a.len(),
{
    if a.len() == 0 {
        assert(a + b =~= b);
    } else {
        let lock = a[0].min_commit_ts;
        let next = if lock > least {
            lock
        } else {
            least
        };
        assert((a + b).skip(1) =~= a.skip(1) + b);
        lemma_max_of_two(a.skip(1), b, next);
    }
}

proof fn lemma_present_locks_decide(known: SecondariesSoFar, responses: Seq<SecondaryLocks>)
    requires
        all_locks_present(responses),
        !known.missing_lock,
    ensures
        secondaries_verdict(known, responses) == SecondariesVerdict::Known(
            SecondariesSoFar {
                min_commit_ts: max_min_commit_ts(all_locks(responses), known.min_commit_ts),
                ..known
            },
        ),
    decreases responses.len(),
{
    if responses.len() > 0 {
        let rest = responses.skip(1);
        assert(responses[0].locks@.len() >= responses[0].expected);
        assert forall|i: int| 0 <= i < rest.len() implies (#[trigger] rest[i]).locks@.len()
            >= rest[i].expected && all_async(rest[i].locks@) by {
            assert(rest[i] == responses[i + 1]);
        }
        let least = max_min_commit_ts(responses[0].locks@, known.min_commit_ts);
        lemma_present_locks_decide(SecondariesSoFar { min_commit_ts: least, ..known }, rest);
        lemma_max_of_two(responses[0].locks@, all_locks(rest), known.min_commit_ts);
    }
}

/// Where all the locks are there, the transaction can be committed at the largest of their least
/// commit timestamps, even if some region tells of a commit.
pub proof fn law_present_locks_decide(responses: Seq<SecondaryLocks>, primary_min_commit_ts: u64)
    requires
        all_locks_present(responses),
    ensures
        all_secondaries_verdict(responses, primary_min_commit_ts) == SecondariesVerdict::Known(
            SecondariesSoFar {
                min_commit_ts: max_min_commit_ts(all_locks(responses), primary_min_commit_ts),
                missing_lock: false,
                commit_ts: None,
            },
        ),
{
    lemma_present_locks_decide(
        SecondariesSoFar {
            min_commit_ts: primary_min_commit_ts,
            missing_lock: false,
            commit_ts: None,
        },
        responses,
    );
}

/// The largest of the least commit timestamps is no smaller than any of them.
pub proof fn law_the_commit_is_not_too_early(locks: Seq<LockInfo>, least: u64)
    ensures
        max_min_commit_ts(locks, least) >= least,
        forall|i: int|
            0 <= i < locks.len() ==> max_min_commit_ts(locks, least)
                >= #[trigger] locks[i].min_commit_ts,
    decreases locks.len(),
{
    if locks.len() > 0 {
        let lock = locks[0].min_commit_ts;
        let next = if lock > least {
            lock
        } else {
            least
        };
        let rest = locks.skip(1);
        law_the_commit_is_not_too_early(rest, next);
        assert forall|i: int| 0 <= i < locks.len() implies max_min_commit_ts(locks, least)
            >= #[trigger] locks[i].min_commit_ts by {
            if i > 0 {
                assert(rest[i - 1] == locks[i]);
            }
        }
    }
}

proof fn lemma_a_known_end_stays(known: SecondariesSoFar, responses: Seq<SecondaryLocks>)
    requires
        known.commit_ts is Some,
    ensures
        match secondaries_verdict(known, responses) {
            SecondariesVerdict::Known(end) => end.commit_ts == known.commit_ts,
            _ => true,
        },
    decreases responses.len(),
{
    if responses.len() > 0 {
        match region_verdict(known, responses[0]) {
            SecondariesVerdict::Known(next) => lemma_a_known_end_stays(next, responses.skip(1)),
            _ => {},
        }
    }
}

proof fn lemma_a_missing_lock_decides(
    known: SecondariesSoFar,
    responses: Seq<SecondaryLocks>,
    at: int,
)
    requires
        0 <= at < responses.len(),
        responses[at].locks@.len() < responses[at].expected,
    ensures
        match secondaries_verdict(known, responses) {
            SecondariesVerdict::Known(end) => end.commit_ts == Some(responses[at].commit_ts),
            _ => true,
        },
    decreases responses.len(),
{
    match region_verdict(known, responses[0]) {
        SecondariesVerdict::Known(next) => {
            if at == 0 {
                lemma_a_known_end_stays(next, responses.skip(1));
            } else {
                lemma_a_missing_lock_decides(next, responses.skip(1), at - 1);
            }
        },
        _ => {},
    }
}

/// Where a lock is missing and nothing stands against it, the transaction has ended as the region
/// of that lock says.
pub proof fn law_a_missing_lock_decides(
    responses: Seq<SecondaryLocks>,
    primary_min_commit_ts: u64,
    at: int,
)
    requires
        0 <= at < responses.len(),
        responses[at].locks@.len() < responses[at].expected,
    ensures
        match all_secondaries_verdict(responses, primary_min_commit_ts) {
            SecondariesVerdict::Known(end) => end.commit_ts == Some(responses[at].commit_ts),
            _ => true,
        },
{
    lemma_a_missing_lock_decides(
        SecondariesSoFar {
            min_commit_ts: primary_min_commit_ts,
            missing_lock: false,
            commit_ts: None,
        },
        responses,
        at,
    );
}

} // verus!
