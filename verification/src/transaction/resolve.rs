//! Resolving locks that stand in the way.
//!
//! A key with a lock has no latest value until it is known what becomes of the transaction that
//! holds the lock. Where the lock has expired, the primary lock of the transaction is cleaned up,
//! which decides on the transaction, and then the lock itself is resolved accordingly.

use std::collections::HashMap;
use vstd::prelude::*;
use vstd::std_specs::hash::*;

use crate::backoff::Backoff;
use crate::common::errors::{internal_err, Error, Result};
use crate::common::vectors::reversed;
use crate::kv::order::bytes_to_vec;
use crate::proto::errorpb;
use crate::proto::kvrpcpb::LockInfo;
use crate::proto::metapb::Peer;
use crate::proto::pdpb::Timestamp;
use crate::region::{RegionVerId, RegionWithLeader, RegionWithLeaderView, StoreId};
use crate::request::region_error::{handle_region_error, region_error_step, RegionErrorStep};
use crate::transaction::lock::{CleanRegions, RESOLVE_LOCK_RETRY_LIMIT};
use crate::transaction::status::{has_outlived, outlives};

verus! {

broadcast use vstd::std_specs::hash::group_hash_axioms;

/// The lock has expired.
pub open spec fn is_expired(now: Timestamp, lock: LockInfo) -> bool {
    has_outlived(now, lock.lock_version, lock.lock_ttl)
}

/// The locks that have expired, in their order.
pub open spec fn expired_locks(locks: Seq<LockInfo>, now: Timestamp) -> Seq<LockInfo> {
    locks.filter(|lock: LockInfo| is_expired(now, lock))
}

/// The locks that are still alive, in their order.
pub open spec fn live_locks(locks: Seq<LockInfo>, now: Timestamp) -> Seq<LockInfo> {
    locks.filter(|lock: LockInfo| !is_expired(now, lock))
}

/// The locks that have expired, and those that are still alive.
pub fn split_expired(locks: Vec<LockInfo>, now: &Timestamp) -> (r: (Vec<LockInfo>, Vec<LockInfo>))
    ensures
        r.0@ == expired_locks(locks@, *now),
        r.1@ == live_locks(locks@, *now),
{
    let mut expired: Vec<LockInfo> = Vec::new();
    let mut live: Vec<LockInfo> = Vec::new();
    let ghost input = locks@;
    let ghost is_old = |lock: LockInfo| is_expired(*now, lock);
    let ghost is_live = |lock: LockInfo| !is_expired(*now, lock);
    proof {
        reveal(Seq::filter);
    }
    for lock in iter: locks
        invariant
            iter.seq() == input,
            is_old == (|lock: LockInfo| is_expired(*now, lock)),
            is_live == (|lock: LockInfo| !is_expired(*now, lock)),
            expired@ == input.take(iter.index()).filter(is_old),
            live@ == input.take(iter.index()).filter(is_live),
    {
        proof {
            reveal(Seq::filter);
            let i = iter.index();
            let after = input.take(i + 1);
            assert(after.drop_last() =~= input.take(i));
            assert(after.last() == input[i]);
        }
        if outlives(now, lock.lock_version, lock.lock_ttl) {
            expired.push(lock);
        } else {
            live.push(lock);
        }
    }
    assert(input.take(input.len() as int) =~= input);
    (expired, live)
}

/// What is to be done next.
#[derive(Debug)]
pub enum ResolveAction {
    /// Find the region of a key.
    LocateRegion { key: Vec<u8> },
    /// Clean up the primary lock of a transaction, which decides on the transaction.
    CleanUp { primary: Vec<u8>, start_version: u64 },
    /// Resolve the locks of a transaction in the region of a key.
    ResolveLock { key: Vec<u8>, start_version: u64, commit_version: u64 },
    /// End with the locks that are still alive, or with an error.
    Return(Result<Vec<LockInfo>>),
}

/// What the resolution waits for.
#[derive(Debug)]
pub enum ResolvePhase {
    /// The region of the lock's key.
    Locating { lock: LockInfo },
    /// The version at which the transaction was committed.
    CleaningUp { lock: LockInfo },
    /// The region in which the locks were resolved.
    Resolving { lock: LockInfo },
    /// Nothing: the resolution has ended.
    Over,
}

/// A resolution of locks.
#[derive(Debug)]
pub struct LockResolution {
    /// The expired locks that have not been looked at, the last one first.
    pub reversed: Vec<LockInfo>,
    /// The locks that are still alive.
    pub live: Vec<LockInfo>,
    /// The version at which each transaction was committed, 0 if it was rolled back.
    pub commit_versions: HashMap<u64, u64>,
    /// The regions in which the locks of transactions have been resolved.
    pub clean_regions: CleanRegions,
    pub phase: ResolvePhase,
}

/// What a [`LockResolution`] knows beside its phase.
#[verifier::ext_equal]
pub struct ResolutionModel {
    pub rest: Seq<LockInfo>,
    pub live: Seq<LockInfo>,
    pub commit_versions: Map<u64, u64>,
    pub clean_regions: Set<(u64, RegionVerId)>,
}

impl View for LockResolution {
    type V = ResolutionModel;

    open spec fn view(&self) -> ResolutionModel {
        ResolutionModel {
            rest: self.reversed@.reverse(),
            live: self.live@,
            commit_versions: self.commit_versions@,
            clean_regions: self.clean_regions@,
        }
    }
}

/// The action asks for the region of the lock's key.
pub open spec fn locates(action: ResolveAction, lock: LockInfo) -> bool {
    action is LocateRegion && action->LocateRegion_key@ == lock.key@
}

/// The action asks for the transaction of the lock to be decided on.
pub open spec fn cleans_up(action: ResolveAction, lock: LockInfo) -> bool {
    action is CleanUp && action->primary@ == lock.primary_lock@ && action->CleanUp_start_version
        == lock.lock_version
}

/// The action asks for the lock to be resolved.
pub open spec fn resolves(action: ResolveAction, lock: LockInfo, commit_version: u64) -> bool {
    action is ResolveLock && action->ResolveLock_key@ == lock.key@
        && action->ResolveLock_start_version == lock.lock_version && action->commit_version
        == commit_version
}

impl LockResolution {
    /// The resolution goes on to the next expired lock, or ends with the live ones.
    pub open spec fn goes_on(
        known: ResolutionModel,
        after: LockResolution,
        action: ResolveAction,
    ) -> bool {
        if known.rest.len() > 0 {
            &&& after@ == (ResolutionModel { rest: known.rest.skip(1), ..known })
            &&& after.phase == (ResolvePhase::Locating { lock: known.rest[0] })
            &&& locates(action, known.rest[0])
        } else {
            &&& after@ == (ResolutionModel { live: Seq::empty(), ..known })
            &&& after.phase is Over
            &&& action is Return
            &&& action->Return_0 is Ok
            &&& action->Return_0->Ok_0@ == known.live
        }
    }

    /// The resolution ends with an error.
    pub open spec fn fails(error: Error, after: LockResolution, action: ResolveAction) -> bool {
        after.phase is Over && action == ResolveAction::Return(Err(error))
    }

    /// What comes of the region of the lock's key. A region in which the transaction's locks have
    /// been resolved needs no more, and a transaction that has been decided on is not decided on
    /// again.
    pub open spec fn on_region(
        self,
        region: Result<RegionVerId>,
        after: LockResolution,
        action: ResolveAction,
    ) -> bool {
        let lock = self.phase->Locating_lock;
        match region {
            Err(error) => LockResolution::fails(error, after, action),
            Ok(region) => if self@.clean_regions.contains((lock.lock_version, region)) {
                LockResolution::goes_on(self@, after, action)
            } else if self@.commit_versions.contains_key(lock.lock_version) {
                &&& after@ == self@
                &&& after.phase == (ResolvePhase::Resolving { lock })
                &&& resolves(action, lock, self@.commit_versions[lock.lock_version])
            } else {
                &&& after@ == self@
                &&& after.phase == (ResolvePhase::CleaningUp { lock })
                &&& cleans_up(action, lock)
            },
        }
    }

    /// What comes of the decision on a transaction.
    pub open spec fn on_cleaned_up(
        self,
        commit_version: Result<u64>,
        after: LockResolution,
        action: ResolveAction,
    ) -> bool {
        let lock = self.phase->CleaningUp_lock;
        match commit_version {
            Err(error) => LockResolution::fails(error, after, action),
            Ok(version) => {
                &&& after@ == (ResolutionModel {
                    commit_versions: self@.commit_versions.insert(lock.lock_version, version),
                    ..self@
                })
                &&& after.phase == (ResolvePhase::Resolving { lock })
                &&& resolves(action, lock, version)
            },
        }
    }

    /// What comes of the resolution of a lock.
    pub open spec fn on_resolved(
        self,
        region: Result<RegionVerId>,
        after: LockResolution,
        action: ResolveAction,
    ) -> bool {
        let lock = self.phase->Resolving_lock;
        match region {
            Err(error) => LockResolution::fails(error, after, action),
            Ok(region) => LockResolution::goes_on(
                ResolutionModel {
                    clean_regions: self@.clean_regions.insert((lock.lock_version, region)),
                    ..self@
                },
                after,
                action,
            ),
        }
    }

    fn go_on(&mut self) -> (r: ResolveAction)
        requires
            old(self).phase is Over,
        ensures
            LockResolution::goes_on(old(self)@, *final(self), r),
    {
        let ghost before = self@;
        match self.reversed.pop() {
            Some(lock) => {
                assert(before.rest[0] == lock);
                assert(self@.rest =~= before.rest.skip(1));
                let action = ResolveAction::LocateRegion { key: bytes_to_vec(&lock.key) };
                self.phase = ResolvePhase::Locating { lock };
                action
            },
            None => {
                let mut live: Vec<LockInfo> = Vec::new();
                core::mem::swap(&mut self.live, &mut live);
                assert(self@.rest =~= before.rest);
                assert(self@.live =~= Seq::<LockInfo>::empty());
                ResolveAction::Return(Ok(live))
            },
        }
    }

    /// Begin to resolve the given locks, at the given moment.
    pub fn start(locks: Vec<LockInfo>, now: &Timestamp) -> (r: (LockResolution, ResolveAction))
        ensures
            LockResolution::goes_on(
                ResolutionModel {
                    rest: expired_locks(locks@, *now),
                    live: live_locks(locks@, *now),
                    commit_versions: Map::empty(),
                    clean_regions: Set::empty(),
                },
                r.0,
                r.1,
            ),
    {
        let (expired, live) = split_expired(locks, now);
        let ghost old_locks = expired@;
        let mut resolution = LockResolution {
            reversed: reversed(expired),
            live,
            commit_versions: HashMap::new(),
            clean_regions: CleanRegions::new(),
            phase: ResolvePhase::Over,
        };
        assert(resolution@.rest =~= old_locks);
        let action = resolution.go_on();
        (resolution, action)
    }

    fn take_phase(&mut self) -> (r: ResolvePhase)
        ensures
            r == old(self).phase,
            *final(self) == (LockResolution { phase: ResolvePhase::Over, ..*old(self) }),
    {
        let mut phase = ResolvePhase::Over;
        core::mem::swap(&mut self.phase, &mut phase);
        phase
    }

    fn resolve(&mut self, lock: LockInfo, commit_version: u64) -> (r: ResolveAction)
        ensures
            final(self)@ == old(self)@,
            final(self).phase == (ResolvePhase::Resolving { lock }),
            resolves(r, lock, commit_version),
    {
        let action = ResolveAction::ResolveLock {
            key: bytes_to_vec(&lock.key),
            start_version: lock.lock_version,
            commit_version,
        };
        self.phase = ResolvePhase::Resolving { lock };
        action
    }

    /// Go on with the region of the lock's key.
    pub fn region_located(&mut self, region: Result<RegionVerId>) -> (r: ResolveAction)
        requires
            old(self).phase is Locating,
        ensures
            old(self).on_region(region, *final(self), r),
    {
        let phase = self.take_phase();
        match phase {
            ResolvePhase::Locating { lock } => match region {
                Err(error) => ResolveAction::Return(Err(error)),
                Ok(region) => {
                    if self.clean_regions.contains(lock.lock_version, region) {
                        return self.go_on();
                    }
                    let version: Option<u64> = match self.commit_versions.get(&lock.lock_version) {
                        Some(version) => Some(*version),
                        None => None,
                    };
                    match version {
                        Some(version) => self.resolve(lock, version),
                        None => {
                            let action = ResolveAction::CleanUp {
                                primary: bytes_to_vec(&lock.primary_lock),
                                start_version: lock.lock_version,
                            };
                            self.phase = ResolvePhase::CleaningUp { lock };
                            action
                        },
                    }
                },
            },
            _ => vstd::pervasive::unreached(),
        }
    }

    /// Go on with the version at which the transaction was committed.
    pub fn cleaned_up(&mut self, commit_version: Result<u64>) -> (r: ResolveAction)
        requires
            old(self).phase is CleaningUp,
        ensures
            old(self).on_cleaned_up(commit_version, *final(self), r),
    {
        let phase = self.take_phase();
        match phase {
            ResolvePhase::CleaningUp { lock } => match commit_version {
                Err(error) => ResolveAction::Return(Err(error)),
                Ok(version) => {
                    self.commit_versions.insert(lock.lock_version, version);
                    self.resolve(lock, version)
                },
            },
            _ => vstd::pervasive::unreached(),
        }
    }

    /// Go on with the region in which the lock was resolved.
    pub fn lock_resolved(&mut self, region: Result<RegionVerId>) -> (r: ResolveAction)
        requires
            old(self).phase is Resolving,
        ensures
            old(self).on_resolved(region, *final(self), r),
    {
        let phase = self.take_phase();
        match phase {
            ResolvePhase::Resolving { lock } => match region {
                Err(error) => ResolveAction::Return(Err(error)),
                Ok(region) => {
                    self.clean_regions.insert(lock.lock_version, region);
                    self.go_on()
                },
            },
            _ => vstd::pervasive::unreached(),
        }
    }
}

/// Each lock is either alive or expired, and those that are alive are the ones that a resolution
/// ends with: it never touches them.
pub proof fn law_live_locks_are_left_alone(locks: Seq<LockInfo>, now: Timestamp, at: int)
    requires
        0 <= at < locks.len(),
    ensures
        is_expired(now, locks[at]) <==> expired_locks(locks, now).contains(locks[at]),
        !is_expired(now, locks[at]) <==> live_locks(locks, now).contains(locks[at]),
{
    broadcast use vstd::seq_lib::group_filter_ensures;

    let is_old = |lock: LockInfo| is_expired(now, lock);
    let is_live = |lock: LockInfo| !is_expired(now, lock);
    if is_expired(now, locks[at]) {
        assert(locks.filter(is_old).contains(locks[at]));
        if locks.filter(is_live).contains(locks[at]) {
            let i = choose|i: int|
                0 <= i < locks.filter(is_live).len() && locks.filter(is_live)[i] == locks[at];
            assert(is_live(locks.filter(is_live)[i]));
        }
    } else {
        assert(locks.filter(is_live).contains(locks[at]));
        if locks.filter(is_old).contains(locks[at]) {
            let i = choose|i: int|
                0 <= i < locks.filter(is_old).len() && locks.filter(is_old)[i] == locks[at];
            assert(is_old(locks.filter(is_old)[i]));
        }
    }
}

/// A transaction is decided on at most once: a primary lock is cleaned up only if the transaction
/// has not been decided on yet, and afterwards it has been.
pub proof fn law_a_transaction_is_cleaned_up_once(
    before: LockResolution,
    region: Result<RegionVerId>,
    between: LockResolution,
    first: ResolveAction,
    version: u64,
    after: LockResolution,
    second: ResolveAction,
)
    requires
        before.phase is Locating,
        before.on_region(region, between, first),
        first is CleanUp,
        between.on_cleaned_up(Ok(version), after, second),
    ensures
        !before@.commit_versions.contains_key(first->CleanUp_start_version),
        after@.commit_versions.contains_key(first->CleanUp_start_version),
        after@.commit_versions[first->CleanUp_start_version] == version,
{
}

impl LockResolution {
    /// A bound on the number of actions until the resolution ends.
    pub open spec fn work_left(self) -> nat {
        match self.phase {
            ResolvePhase::Over => 0,
            ResolvePhase::Resolving { .. } => self@.rest.len() * 4 + 1,
            ResolvePhase::CleaningUp { .. } => self@.rest.len() * 4 + 2,
            ResolvePhase::Locating { .. } => self@.rest.len() * 4 + 3,
        }
    }
}

/// Whatever comes of an action, less is left to be done. So a resolution ends.
pub proof fn law_a_resolution_ends(
    before: LockResolution,
    region: Result<RegionVerId>,
    commit_version: Result<u64>,
    after: LockResolution,
    action: ResolveAction,
)
    requires
        match before.phase {
            ResolvePhase::Locating { .. } => before.on_region(region, after, action),
            ResolvePhase::CleaningUp { .. } => before.on_cleaned_up(commit_version, after, action),
            ResolvePhase::Resolving { .. } => before.on_resolved(region, after, action),
            ResolvePhase::Over => false,
        },
    ensures
        after.work_left() < before.work_left(),
        after.work_left() == 0 ==> action is Return,
{
}

/// What an action of a resolution has come to.
pub enum ResolveAnswer {
    /// The region of the key.
    Located(Result<RegionVerId>),
    /// The version at which the transaction was committed.
    CleanedUp(Result<u64>),
    /// The region in which the locks were resolved.
    Resolved(Result<RegionVerId>),
}

impl LockResolution {
    /// What comes of an answer.
    pub open spec fn steps_to(
        self,
        answer: ResolveAnswer,
        after: LockResolution,
        action: ResolveAction,
    ) -> bool {
        match answer {
            ResolveAnswer::Located(region) => self.phase is Locating && self.on_region(
                region,
                after,
                action,
            ),
            ResolveAnswer::CleanedUp(version) => self.phase is CleaningUp && self.on_cleaned_up(
                version,
                after,
                action,
            ),
            ResolveAnswer::Resolved(region) => self.phase is Resolving && self.on_resolved(
                region,
                after,
                action,
            ),
        }
    }

    /// The lock that is being looked at.
    pub open spec fn at_hand(self) -> Option<LockInfo> {
        match self.phase {
            ResolvePhase::Locating { lock } => Some(lock),
            ResolvePhase::CleaningUp { lock } => Some(lock),
            ResolvePhase::Resolving { lock } => Some(lock),
            ResolvePhase::Over => None,
        }
    }

    /// The answer names the region that holds the key of the lock at hand.
    pub open spec fn is_told_rightly(
        self,
        answer: ResolveAnswer,
        region_of: spec_fn(Seq<u8>) -> RegionVerId,
    ) -> bool {
        match answer {
            ResolveAnswer::Located(Ok(region)) => self.at_hand() is Some && region == region_of(
                self.at_hand()->0.key@,
            ),
            ResolveAnswer::Resolved(Ok(region)) => self.at_hand() is Some && region == region_of(
                self.at_hand()->0.key@,
            ),
            _ => true,
        }
    }

    /// The transaction of the lock has been resolved in the region that holds the lock's key.
    pub open spec fn has_resolved_lock(
        self,
        lock: LockInfo,
        region_of: spec_fn(Seq<u8>) -> RegionVerId,
    ) -> bool {
        self@.clean_regions.contains((lock.lock_version, region_of(lock.key@)))
    }

    /// Each of the locks is still to be looked at, or is at hand, or has been resolved.
    pub open spec fn accounts_for(
        self,
        locks: Seq<LockInfo>,
        region_of: spec_fn(Seq<u8>) -> RegionVerId,
    ) -> bool {
        forall|i: int| #![trigger locks[i]]
            0 <= i < locks.len() ==> self@.rest.contains(locks[i]) || self.at_hand() == Some(
                locks[i],
            ) || self.has_resolved_lock(locks[i], region_of)
    }
}

/// Whatever comes of an action, each of the locks is still to be looked at, or is at hand, or has
/// been resolved in the region that holds its key, unless the resolution fails. When it ends
/// without an error, all of them have been resolved.
pub proof fn law_no_expired_lock_is_lost(
    locks: Seq<LockInfo>,
    region_of: spec_fn(Seq<u8>) -> RegionVerId,
    before: LockResolution,
    answer: ResolveAnswer,
    after: LockResolution,
    action: ResolveAction,
)
    requires
        before.accounts_for(locks, region_of),
        before.is_told_rightly(answer, region_of),
        before.steps_to(answer, after, action),
    ensures
        action is Return && action->Return_0 is Err || after.accounts_for(locks, region_of),
        action is Return && action->Return_0 is Ok ==> forall|i: int| #![trigger locks[i]]
            0 <= i < locks.len() ==> after.has_resolved_lock(locks[i], region_of),
{
    if !(action is Return && action->Return_0 is Err) {
        assert forall|i: int| #![trigger locks[i]] 0 <= i < locks.len() implies after@.rest.contains(
            locks[i],
        ) || after.at_hand() == Some(locks[i]) || after.has_resolved_lock(locks[i], region_of) by {
            lemma_head_or_tail(before@.rest, locks[i]);
        }
    }
}

/// An element of a sequence is the first one or among the others.
proof fn lemma_head_or_tail(locks: Seq<LockInfo>, lock: LockInfo)
    ensures
        locks.contains(lock) ==> locks.len() > 0 && (lock == locks[0] || locks.skip(1).contains(
            lock,
        )),
{
    if locks.contains(lock) {
        let i = choose|i: int| 0 <= i < locks.len() && locks[i] == lock;
        if i > 0 {
            assert(locks.skip(1)[i - 1] == lock);
        }
    }
}

/// A resolution from its start on: its states, the actions that it asked for, and what they came
/// to.
pub struct ResolutionRun {
    pub states: Seq<LockResolution>,
    pub actions: Seq<ResolveAction>,
    pub answers: Seq<ResolveAnswer>,
}

impl ResolutionRun {
    /// The run begins with the given locks at the given moment. Each state comes of the one before
    /// and of an answer, which tells rightly which region holds a key.
    pub open spec fn is_run(
        self,
        locks: Seq<LockInfo>,
        now: Timestamp,
        region_of: spec_fn(Seq<u8>) -> RegionVerId,
    ) -> bool {
        &&& self.states.len() == self.answers.len() + 1
        &&& self.actions.len() == self.answers.len() + 1
        &&& LockResolution::goes_on(
            ResolutionModel {
                rest: expired_locks(locks, now),
                live: live_locks(locks, now),
                commit_versions: Map::empty(),
                clean_regions: Set::empty(),
            },
            self.states[0],
            self.actions[0],
        )
        &&& forall|i: int| #![trigger self.answers[i]]
            0 <= i < self.answers.len() ==> self.states[i].steps_to(
                self.answers[i],
                self.states[i + 1],
                self.actions[i + 1],
            ) && self.states[i].is_told_rightly(self.answers[i], region_of)
    }

    /// The run has asked for the locks of the transaction to be resolved in the region, as the
    /// transaction has ended, and that was done.
    pub open spec fn has_resolved(
        self,
        region_of: spec_fn(Seq<u8>) -> RegionVerId,
        start_version: u64,
        commit_version: u64,
        region: RegionVerId,
    ) -> bool {
        exists|i: int| #![trigger self.answers[i]]
            0 <= i < self.answers.len() && self.answers[i] == ResolveAnswer::Resolved(
                Ok(region),
            ) && self.actions[i] is ResolveLock && self.actions[i]->ResolveLock_start_version
                == start_version && self.actions[i]->commit_version == commit_version && region_of(
                self.actions[i]->ResolveLock_key@,
            ) == region
    }

    /// The run has cleaned up the primary lock of the transaction, and learnt of the version.
    pub open spec fn has_decided(self, start_version: u64, commit_version: u64) -> bool {
        exists|i: int| #![trigger self.answers[i]]
            0 <= i < self.answers.len() && self.answers[i] == ResolveAnswer::CleanedUp(
                Ok(commit_version),
            ) && self.actions[i] is CleanUp && self.actions[i]->CleanUp_start_version
                == start_version
    }

    /// The run without its last answer.
    pub open spec fn without_last(self) -> ResolutionRun {
        ResolutionRun {
            states: self.states.drop_last(),
            actions: self.actions.drop_last(),
            answers: self.answers.drop_last(),
        }
    }

    /// What a run that has not failed has come to: every expired lock is accounted for, every
    /// version was learnt, and every region that counts as clean was asked to resolve.
    spec fn is_consistent(
        self,
        locks: Seq<LockInfo>,
        now: Timestamp,
        region_of: spec_fn(Seq<u8>) -> RegionVerId,
    ) -> bool {
        let state = self.states.last();
        let action = self.actions.last();
        &&& state.accounts_for(expired_locks(locks, now), region_of)
        &&& action is Return ==> state.phase is Over && action->Return_0->Ok_0@ == live_locks(
            locks,
            now,
        )
        &&& action !is Return ==> state@.live == live_locks(locks, now)
        &&& match state.phase {
            ResolvePhase::Locating { lock } => locates(action, lock),
            ResolvePhase::CleaningUp { lock } => cleans_up(action, lock)
                && !state@.commit_versions.contains_key(lock.lock_version),
            ResolvePhase::Resolving { lock } => state@.commit_versions.contains_key(
                lock.lock_version,
            ) && resolves(action, lock, state@.commit_versions[lock.lock_version]),
            ResolvePhase::Over => action is Return && state@.rest.len() == 0,
        }
        &&& forall|version: u64| #[trigger]
            state@.commit_versions.contains_key(version) ==> self.has_decided(
                version,
                state@.commit_versions[version],
            )
        &&& forall|version: u64, region: RegionVerId| #[trigger]
            state@.clean_regions.contains((version, region)) ==> state@.commit_versions.contains_key(
                version,
            ) && self.has_resolved(
                region_of,
                version,
                state@.commit_versions[version],
                region,
            )
    }
}

proof fn lemma_run_is_consistent(
    run: ResolutionRun,
    locks: Seq<LockInfo>,
    now: Timestamp,
    region_of: spec_fn(Seq<u8>) -> RegionVerId,
)
    requires
        run.is_run(locks, now, region_of),
    ensures
        if run.actions.last() is Return && run.actions.last()->Return_0 is Err {
            run.states.last().phase is Over
        } else {
            run.is_consistent(locks, now, region_of)
        },
    decreases run.answers.len(),
{
    let expired = expired_locks(locks, now);
    if run.answers.len() == 0 {
        let state = run.states[0];
        assert forall|i: int| #![trigger expired[i]] 0 <= i < expired.len() implies state@.rest.contains(
            expired[i],
        ) || state.at_hand() == Some(expired[i]) by {
            lemma_head_or_tail(expired, expired[i]);
        }
    } else {
        let past = run.without_last();
        let n = run.answers.len() - 1;
        assert(past.is_run(locks, now, region_of)) by {
            assert forall|i: int| #![trigger past.answers[i]] 0 <= i < past.answers.len() implies
                past.states[i].steps_to(past.answers[i], past.states[i + 1], past.actions[i + 1])
                && past.states[i].is_told_rightly(past.answers[i], region_of) by {
                assert(past.answers[i] == run.answers[i]);
            }
        }
        lemma_run_is_consistent(past, locks, now, region_of);
        let before = run.states[n];
        let after = run.states[n + 1];
        let action = run.actions[n + 1];
        let answer = run.answers[n];
        assert(before == past.states.last());
        assert(run.actions[n] == past.actions.last());
        assert(before.phase !is Over);
        if !(action is Return && action->Return_0 is Err) {
            law_no_expired_lock_is_lost(expired, region_of, before, answer, after, action);
            assert forall|version: u64| #[trigger]
                after@.commit_versions.contains_key(version) implies run.has_decided(
                version,
                after@.commit_versions[version],
            ) by {
                let found = after@.commit_versions[version];
                if past.has_decided(version, found) {
                    let i = choose|i: int| #![trigger past.answers[i]]
                        0 <= i < past.answers.len() && past.answers[i] == ResolveAnswer::CleanedUp(
                            Ok(found),
                        ) && past.actions[i] is CleanUp
                            && past.actions[i]->CleanUp_start_version == version;
                    assert(run.answers[i] == past.answers[i]);
                    assert(run.actions[i] == past.actions[i]);
                }
                if !before@.commit_versions.contains_key(version) {
                    assert(run.answers[n] == answer);
                }
            }
            assert forall|version: u64, region: RegionVerId| #[trigger]
                after@.clean_regions.contains((version, region)) implies
                after@.commit_versions.contains_key(version) && run.has_resolved(
                region_of,
                version,
                after@.commit_versions[version],
                region,
            ) by {
                let found = after@.commit_versions[version];
                if past.has_resolved(region_of, version, found, region) {
                    let i = choose|i: int| #![trigger past.answers[i]]
                        0 <= i < past.answers.len() && past.answers[i] == ResolveAnswer::Resolved(
                            Ok(region),
                        ) && past.actions[i] is ResolveLock
                            && past.actions[i]->ResolveLock_start_version == version
                            && past.actions[i]->commit_version == found && region_of(
                            past.actions[i]->ResolveLock_key@,
                        ) == region;
                    assert(run.answers[i] == past.answers[i]);
                    assert(run.actions[i] == past.actions[i]);
                }
                if before@.clean_regions.contains((version, region)) {
                    assert(before@.commit_versions.contains_key(version));
                } else {
                    assert(run.answers[n] == answer);
                }
            }
        }
    }
}

/// A resolution that ends without an error gives back the locks that are alive, and has resolved
/// all the others: for each of them, what has become of its transaction was found out, and the
/// transaction's locks were resolved accordingly in the region that holds the lock's key.
pub proof fn law_all_expired_locks_are_resolved(
    run: ResolutionRun,
    locks: Seq<LockInfo>,
    now: Timestamp,
    region_of: spec_fn(Seq<u8>) -> RegionVerId,
)
    requires
        run.is_run(locks, now, region_of),
        run.actions.last() is Return,
        run.actions.last()->Return_0 is Ok,
    ensures
        run.actions.last()->Return_0->Ok_0@ == live_locks(locks, now),
        forall|i: int| #![trigger locks[i]]
            0 <= i < locks.len() && is_expired(now, locks[i]) ==> exists|commit_version: u64|
                #[trigger] run.has_decided(locks[i].lock_version, commit_version)
                    && run.has_resolved(
                    region_of,
                    locks[i].lock_version,
                    commit_version,
                    region_of(locks[i].key@),
                ),
{
    lemma_run_is_consistent(run, locks, now, region_of);
    let state = run.states.last();
    let expired = expired_locks(locks, now);
    assert forall|i: int| #![trigger locks[i]]
        0 <= i < locks.len() && is_expired(now, locks[i]) implies exists|commit_version: u64|
        #[trigger] run.has_decided(locks[i].lock_version, commit_version) && run.has_resolved(
            region_of,
            locks[i].lock_version,
            commit_version,
            region_of(locks[i].key@),
        ) by {
        law_live_locks_are_left_alone(locks, now, i);
        let at = choose|at: int| 0 <= at < expired.len() && expired[at] == locks[i];
        assert(expired[at] == locks[i]);
        let version = locks[i].lock_version;
        assert(state@.clean_regions.contains((version, region_of(locks[i].key@))));
        assert(run.has_decided(version, state@.commit_versions[version]));
    }
}

/// What is to be done next.
#[derive(Debug)]
pub enum RetryAction {
    /// Find the store of the key, and resolve the lock there. Earlier attempts are counted.
    Resolve { attempt: usize },
    /// Forget what is in doubt, wait if there is a delay, and then find the store of the key and
    /// resolve the lock there.
    ResolveAfter {
        invalidate_region: Option<RegionVerId>,
        invalidate_store: Option<StoreId>,
        delay_ms: Option<u64>,
        attempt: usize,
    },
    /// Tell the region cache of the region's leader.
    UpdateLeader { ver_id: RegionVerId, leader: Peer },
    /// End, after what is in doubt has been forgotten.
    Return {
        invalidate_region: Option<RegionVerId>,
        invalidate_store: Option<StoreId>,
        result: Result<RegionVerId>,
    },
}

/// A lock that is being resolved, for as many attempts as there may be.
#[derive(Debug)]
pub struct ResolveRetry {
    /// The number of attempts before the present one.
    pub attempt: usize,
    pub backoff: Backoff,
    /// The region error of the present attempt, while the region cache is told of the leader.
    pub pending: Option<errorpb::Error>,
}

/// The result of an attempt.
pub type ResolveOutcome = core::result::Result<(), Error>;

impl ResolveRetry {
    /// There are attempts left, the present one included.
    pub open spec fn wf(self) -> bool {
        self.attempt < RESOLVE_LOCK_RETRY_LIMIT
    }

    /// Nothing is forgotten, and the lock has been resolved or not.
    pub open spec fn ends(result: Result<RegionVerId>, action: RetryAction) -> bool {
        action == (RetryAction::Return {
            invalidate_region: None,
            invalidate_store: None,
            result,
        })
    }

    /// The attempt has failed with a region error that has been decided on: there is another
    /// attempt, after a delay if the error has not been resolved, or none is left.
    pub open spec fn on_decided(
        self,
        e: errorpb::Error,
        invalidate_region: Option<RegionVerId>,
        invalidate_store: Option<StoreId>,
        resolved: bool,
        after: ResolveRetry,
        action: RetryAction,
    ) -> bool {
        if self.attempt + 1 < RESOLVE_LOCK_RETRY_LIMIT {
            &&& after.attempt == self.attempt + 1
            &&& after.pending is None
            &&& after.backoff == (if resolved {
                self.backoff
            } else {
                self.backoff.after_next()
            })
            &&& action == (RetryAction::ResolveAfter {
                invalidate_region,
                invalidate_store,
                delay_ms: if resolved {
                    None
                } else {
                    self.backoff.next_delay()
                },
                attempt: (self.attempt + 1) as usize,
            })
        } else {
            action == (RetryAction::Return {
                invalidate_region,
                invalidate_store,
                result: Err(Error::RegionError(Box::new(e))),
            })
        }
    }

    /// What comes of an attempt in the given region. Only a region error leads to another one.
    pub open spec fn on_executed(
        self,
        region: RegionWithLeaderView,
        outcome: ResolveOutcome,
        after: ResolveRetry,
        action: RetryAction,
    ) -> bool {
        match outcome {
            Ok(()) => ResolveRetry::ends(Ok(region.ver_id()), action),
            Err(Error::ExtractedErrors(errors)) => if errors@.len() == 0 {
                &&& action is Return
                &&& action->Return_invalidate_region is None
                &&& action->Return_invalidate_store is None
                &&& action->result is Err
                &&& action->result->Err_0.is_internal(
                    "ResolveLock returned ExtractedErrors([]), which violates plan invariants"@,
                )
            } else {
                match errors@.last() {
                    Error::RegionError(e) => match region_error_step(*e, region) {
                        RegionErrorStep::UpdateLeader { ver_id, leader } => {
                            &&& after == (ResolveRetry { pending: Some(*e), ..self })
                            &&& action == (RetryAction::UpdateLeader { ver_id, leader })
                        },
                        RegionErrorStep::Fail => ResolveRetry::ends(
                            Err(Error::RegionError(e)),
                            action,
                        ),
                        RegionErrorStep::Decided { invalidate_region, invalidate_store, resolved } =>
                            self.on_decided(
                            *e,
                            invalidate_region,
                            invalidate_store,
                            resolved,
                            after,
                            action,
                        ),
                    },
                    error => ResolveRetry::ends(Err(error), action),
                }
            },
            Err(error) => ResolveRetry::ends(Err(error), action),
        }
    }

    /// Begin to resolve a lock.
    pub fn start(backoff: Backoff) -> (r: (ResolveRetry, RetryAction))
        ensures
            r.0 == (ResolveRetry { attempt: 0, backoff, pending: None }),
            r.0.wf(),
            r.1 == (RetryAction::Resolve { attempt: 0 }),
    {
        (
            ResolveRetry { attempt: 0, backoff, pending: None },
            RetryAction::Resolve { attempt: 0 },
        )
    }

    fn decided(
        &mut self,
        e: errorpb::Error,
        invalidate_region: Option<RegionVerId>,
        invalidate_store: Option<StoreId>,
        resolved: bool,
    ) -> (r: RetryAction)
        requires
            old(self).wf(),
            old(self).pending is None,
        ensures
            old(self).on_decided(
                e,
                invalidate_region,
                invalidate_store,
                resolved,
                *final(self),
                r,
            ),
            r is ResolveAfter ==> final(self).wf(),
    {
        if self.attempt + 1 < RESOLVE_LOCK_RETRY_LIMIT {
            let delay_ms: Option<u64> = if resolved {
                None
            } else {
                self.backoff.next_delay_ms()
            };
            self.attempt = self.attempt + 1;
            RetryAction::ResolveAfter {
                invalidate_region,
                invalidate_store,
                delay_ms,
                attempt: self.attempt,
            }
        } else {
            RetryAction::Return {
                invalidate_region,
                invalidate_store,
                result: Err(Error::RegionError(Box::new(e))),
            }
        }
    }

    /// Go on with the outcome of an attempt in the given region.
    pub fn executed(&mut self, region: &RegionWithLeader, outcome: ResolveOutcome) -> (r:
        RetryAction)
        requires
            old(self).wf(),
            old(self).pending is None,
        ensures
            old(self).on_executed(region@, outcome, *final(self), r),
            r is ResolveAfter || r is UpdateLeader ==> final(self).wf(),
    {
        let mut errors = match outcome {
            Ok(()) => {
                return RetryAction::Return {
                    invalidate_region: None,
                    invalidate_store: None,
                    result: Ok(region.ver_id()),
                };
            },
            Err(Error::ExtractedErrors(errors)) => errors,
            Err(error) => {
                return RetryAction::Return {
                    invalidate_region: None,
                    invalidate_store: None,
                    result: Err(error),
                };
            },
        };
        match errors.pop() {
            Some(Error::RegionError(e)) => {
                let e = *e;
                match handle_region_error(&e, region) {
                    RegionErrorStep::UpdateLeader { ver_id, leader } => {
                        self.pending = Some(e);
                        RetryAction::UpdateLeader { ver_id, leader }
                    },
                    RegionErrorStep::Fail => RetryAction::Return {
                        invalidate_region: None,
                        invalidate_store: None,
                        result: Err(Error::RegionError(Box::new(e))),
                    },
                    RegionErrorStep::Decided { invalidate_region, invalidate_store, resolved } =>
                        self.decided(e, invalidate_region, invalidate_store, resolved),
                }
            },
            Some(error) => RetryAction::Return {
                invalidate_region: None,
                invalidate_store: None,
                result: Err(error),
            },
            None => RetryAction::Return {
                invalidate_region: None,
                invalidate_store: None,
                result: Err(
                    internal_err(
                        "ResolveLock returned ExtractedErrors([]), which violates plan invariants",
                    ),
                ),
            },
        }
    }

    /// Go on after the region cache was told of the region's leader. A leader that it has taken
    /// resolves the region error.
    pub fn leader_updated(&mut self, ver_id: RegionVerId, updated: Result<()>) -> (r: RetryAction)
        requires
            old(self).wf(),
            old(self).pending is Some,
        ensures
            match updated {
                Ok(()) => (ResolveRetry { pending: None, ..*old(self) }).on_decided(
                    old(self).pending->0,
                    None,
                    None,
                    true,
                    *final(self),
                    r,
                ),
                Err(error) => r == (RetryAction::Return {
                    invalidate_region: Some(ver_id),
                    invalidate_store: None,
                    result: Err(error),
                }),
            },
            r is ResolveAfter ==> final(self).wf(),
    {
        match updated {
            Ok(()) => match self.pending.take() {
                Some(e) => self.decided(e, None, None, true),
                None => vstd::pervasive::unreached(),
            },
            Err(error) => RetryAction::Return {
                invalidate_region: Some(ver_id),
                invalidate_store: None,
                result: Err(error),
            },
        }
    }
}

/// Every further attempt is the next one, so there are at most as many as the limit allows, and
/// the last one's error is the result.
pub proof fn law_attempts_to_resolve_are_bounded(
    before: ResolveRetry,
    e: errorpb::Error,
    invalidate_region: Option<RegionVerId>,
    invalidate_store: Option<StoreId>,
    resolved: bool,
    after: ResolveRetry,
    action: RetryAction,
)
    requires
        before.wf(),
        before.on_decided(e, invalidate_region, invalidate_store, resolved, after, action),
    ensures
        action is ResolveAfter ==> before.attempt < after.attempt < RESOLVE_LOCK_RETRY_LIMIT,
        action !is ResolveAfter ==> before.attempt + 1 == RESOLVE_LOCK_RETRY_LIMIT && action
            is Return && action->result == Err::<RegionVerId, Error>(
            Error::RegionError(Box::new(e)),
        ),
{
}

} // verus!
