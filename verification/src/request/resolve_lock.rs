//! Plans that resolve the locks that their responses tell of.

use vstd::prelude::*;

use crate::backoff::Backoff;
use crate::common::errors::{Error, Result};
use crate::proto::errorpb::{self, EpochNotMatch};
use crate::proto::kvrpcpb::LockInfo;
use crate::proto::metapb::Region;
use crate::request::keyspace::Keyspace;
use crate::request::plan::Plan;
use crate::request::read_routing::ReadRouting;
use crate::request_context::RequestContext;
use crate::store::errors::SetRegionError;

verus! {

/// The plan that resolves the locks that the response of another one tells of.
#[derive(Debug)]
pub struct ResolveLock<P, PdC, T, I> {
    pub inner: P,
    pub pd_client: PdC,
    pub backoff: Backoff,
    /// For how long to wait for locks, if there is a limit.
    pub lock_wait_timeout_ms: Option<u64>,
    pub keyspace: Keyspace,
    pub request_context: RequestContext<T, I>,
    pub read_routing: ReadRouting,
}

impl<P: Plan, PdC, T, I> Plan for ResolveLock<P, PdC, T, I> {
    type Result = P::Result;
}

impl<P: Clone, PdC: Clone, T, I> Clone for ResolveLock<P, PdC, T, I> {
    fn clone(&self) -> (r: Self)
        ensures
            cloned(self.inner, r.inner),
            cloned(self.pd_client, r.pd_client),
            r.backoff == self.backoff,
            r.lock_wait_timeout_ms == self.lock_wait_timeout_ms,
            r.keyspace == self.keyspace,
            r.request_context@ == self.request_context@,
            r.read_routing@ == self.read_routing@,
    {
        ResolveLock {
            inner: self.inner.clone(),
            pd_client: self.pd_client.clone(),
            backoff: self.backoff,
            lock_wait_timeout_ms: self.lock_wait_timeout_ms,
            keyspace: self.keyspace,
            request_context: self.request_context.clone(),
            read_routing: self.read_routing.clone(),
        }
    }
}

/// What is to be done about the locks of a response.
#[derive(Debug)]
pub enum LocksStep {
    /// There are none: the response is the result.
    Return,
    /// End with an error.
    Fail(Error),
    /// Resolve the locks. A stale read that has met a lock goes to the leader from now on.
    Resolve { locks: Vec<LockInfo>, force_leader: bool },
}

/// What is to be done after the locks of a response have been resolved, as far as they could be.
#[derive(Debug)]
pub enum LiveLocksStep {
    /// Execute the inner plan again, after a delay if there is one.
    Execute { delay_ms: Option<u64> },
    /// End with a response that sends the request to the leader, after a delay if there is one.
    Reroute { delay_ms: Option<u64> },
    /// End with an error.
    Fail(Error),
}

/// An execution of a plan that resolves locks.
#[derive(Debug)]
pub struct LockWait {
    pub backoff: Backoff,
    /// Locks are not waited for at all.
    pub gives_up: bool,
    pub timeout_ms: Option<u64>,
}

impl LockWait {
    /// What comes of the locks of a response.
    pub open spec fn on_locks(self, locks: Seq<LockInfo>, stale_read: bool, step: LocksStep) -> bool {
        if locks.len() == 0 {
            step is Return
        } else if self.gives_up {
            step is Fail && step->0 is ResolveLockError && step->0->ResolveLockError_0@ == locks
        } else {
            step is Resolve && step->locks@ == locks && step->force_leader == stale_read
        }
    }

    /// The locks have been waited for long enough.
    pub open spec fn is_timed_out(self, waited_ms: u64) -> bool {
        self.timeout_ms is Some && waited_ms >= self.timeout_ms->0
    }

    /// What comes of the locks that are still alive. Those that are not do not stand in the way
    /// any more, so without live ones the request is sent again at once; a stale read is sent to
    /// the leader.
    pub open spec fn on_live_locks(
        self,
        live: Result<Vec<LockInfo>>,
        stale_read: bool,
        waited_ms: u64,
        after: LockWait,
        step: LiveLocksStep,
    ) -> bool {
        match live {
            Err(error) => step == LiveLocksStep::Fail(error) && after == self,
            Ok(live) => if live@.len() == 0 {
                &&& after == self
                &&& step == (if stale_read {
                    LiveLocksStep::Reroute { delay_ms: None }
                } else {
                    LiveLocksStep::Execute { delay_ms: None }
                })
            } else if self.is_timed_out(waited_ms) {
                after == self && step == LiveLocksStep::Fail(Error::LockWaitTimeout(live))
            } else {
                &&& after == (LockWait { backoff: self.backoff.after_next(), ..self })
                &&& step == match self.backoff.next_delay() {
                    None => LiveLocksStep::Fail(Error::ResolveLockError(live)),
                    Some(delay) => if stale_read {
                        LiveLocksStep::Reroute { delay_ms: Some(delay) }
                    } else {
                        LiveLocksStep::Execute { delay_ms: Some(delay) }
                    },
                }
            },
        }
    }

    /// Begin an execution.
    pub fn start<P, PdC, T, I>(plan: &ResolveLock<P, PdC, T, I>) -> (r: LockWait)
        ensures
            r == (LockWait {
                backoff: plan.backoff,
                gives_up: !plan.backoff.enabled,
                timeout_ms: plan.lock_wait_timeout_ms,
            }),
    {
        LockWait {
            backoff: plan.backoff,
            gives_up: plan.backoff.is_none(),
            timeout_ms: plan.lock_wait_timeout_ms,
        }
    }

    /// Go on with the locks of a response.
    pub fn locks_found(&self, locks: Vec<LockInfo>, stale_read: bool) -> (r: LocksStep)
        ensures
            self.on_locks(locks@, stale_read, r),
    {
        if locks.len() == 0 {
            LocksStep::Return
        } else if self.gives_up {
            LocksStep::Fail(Error::ResolveLockError(locks))
        } else {
            LocksStep::Resolve { locks, force_leader: stale_read }
        }
    }

    /// Go on with the locks that are still alive, after the given time.
    pub fn locks_resolved(
        &mut self,
        live: Result<Vec<LockInfo>>,
        stale_read: bool,
        waited_ms: u64,
    ) -> (r: LiveLocksStep)
        ensures
            old(self).on_live_locks(live, stale_read, waited_ms, *final(self), r),
    {
        let live = match live {
            Ok(live) => live,
            Err(error) => {
                return LiveLocksStep::Fail(error);
            },
        };
        if live.len() == 0 {
            return if stale_read {
                LiveLocksStep::Reroute { delay_ms: None }
            } else {
                LiveLocksStep::Execute { delay_ms: None }
            };
        }
        if let Some(timeout_ms) = self.timeout_ms {
            if waited_ms >= timeout_ms {
                return LiveLocksStep::Fail(Error::LockWaitTimeout(live));
            }
        }
        match self.backoff.next_delay_ms() {
            None => LiveLocksStep::Fail(Error::ResolveLockError(live)),
            Some(delay) => if stale_read {
                LiveLocksStep::Reroute { delay_ms: Some(delay) }
            } else {
                LiveLocksStep::Execute { delay_ms: Some(delay) }
            },
        }
    }
}

/// The error says that the region has changed, without saying into what.
pub open spec fn is_bare_epoch_error(e: errorpb::Error) -> bool {
    &&& e.epoch_not_match is Some
    &&& e.epoch_not_match->0.current_regions@ == Seq::<Region>::empty()
    &&& (errorpb::Error { epoch_not_match: None, ..e }).is_blank()
}

/// A response that makes the request be sent again, to the leader: it holds an error about the
/// region's epoch.
pub fn reroute_to_leader<R: Default + SetRegionError>() -> (r: R)
    ensures
        r.held_region_error() is Some,
        is_bare_epoch_error(r.held_region_error()->0),
{
    let mut response = R::default();
    let mut e = errorpb::Error::with_message(String::new());
    e.epoch_not_match = Some(EpochNotMatch { current_regions: Vec::new() });
    assert((errorpb::Error { epoch_not_match: None, ..e }).is_blank());
    response.set_region_error(e);
    response
}

/// A delay is only ever for locks that are alive, and it uses up one of the delays that are left.
pub proof fn law_only_live_locks_are_waited_for(
    before: LockWait,
    live: Result<Vec<LockInfo>>,
    stale_read: bool,
    waited_ms: u64,
    after: LockWait,
    step: LiveLocksStep,
)
    requires
        before.on_live_locks(live, stale_read, waited_ms, after, step),
        match step {
            LiveLocksStep::Execute { delay_ms } => delay_ms is Some,
            LiveLocksStep::Reroute { delay_ms } => delay_ms is Some,
            LiveLocksStep::Fail(_) => false,
        },
    ensures
        live is Ok && live->Ok_0@.len() > 0,
        after.backoff.attempts_left() == before.backoff.attempts_left() - 1,
        before.timeout_ms is Some ==> waited_ms < before.timeout_ms->0,
{
}

/// Where locks stand in the way for longer than the limit, the execution ends with them.
pub proof fn law_a_lock_wait_ends_at_its_limit(
    before: LockWait,
    live: Vec<LockInfo>,
    stale_read: bool,
    waited_ms: u64,
    after: LockWait,
    step: LiveLocksStep,
)
    requires
        before.on_live_locks(Ok(live), stale_read, waited_ms, after, step),
        live@.len() > 0,
        before.is_timed_out(waited_ms),
    ensures
        step == LiveLocksStep::Fail(Error::LockWaitTimeout(live)),
{
}

} // verus!
