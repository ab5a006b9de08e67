//! What is told of a request before it is sent, and code of the caller that sees it then.

use std::sync::Arc;
use vstd::prelude::*;

use crate::proto::kvrpcpb::Context;
use crate::proto::metapb::{Peer, PeerRole};
use crate::region::{RegionId, StoreId};

verus! {

/// The part that a peer plays in its region.
#[derive(Clone, Copy, Debug, PartialEq, Eq, Structural)]
pub enum ReplicaKind {
    Leader,
    Follower,
    Learner,
}

/// What is told of a request before it is sent.
#[derive(Clone, Copy, Debug, PartialEq, Eq)]
pub struct RpcContextInfo {
    pub label: &'static str,
    pub attempt: usize,
    pub region_id: Option<RegionId>,
    pub store_id: Option<StoreId>,
    pub replica_kind: Option<ReplicaKind>,
    pub replica_read: bool,
    pub stale_read: bool,
}

/// The part that a peer plays beside the leader of its region. A peer on the leader's store is
/// the leader, and an unknown role counts as that of a follower.
pub open spec fn replica_kind(leader: Peer, peer: Peer) -> ReplicaKind {
    if peer.store_id == leader.store_id {
        ReplicaKind::Leader
    } else if PeerRole::spec_from_number(peer.role as int) == Some(PeerRole::Learner) {
        ReplicaKind::Learner
    } else {
        ReplicaKind::Follower
    }
}

/// The part that a peer plays beside the leader of its region.
pub fn replica_kind_for_peer(leader: &Peer, peer: &Peer) -> (r: ReplicaKind)
    ensures
        r == replica_kind(*leader, *peer),
{
    if peer.store_id == leader.store_id {
        return ReplicaKind::Leader;
    }
    match PeerRole::from_number(peer.role) {
        Some(PeerRole::Learner) => ReplicaKind::Learner,
        _ => ReplicaKind::Follower,
    }
}

impl ReplicaKind {
    /// The name of the part.
    pub open spec fn name(self) -> Seq<char> {
        match self {
            ReplicaKind::Leader => "leader"@,
            ReplicaKind::Follower => "follower"@,
            ReplicaKind::Learner => "learner"@,
        }
    }
}

/// The name of the part that a peer plays.
pub fn replica_kind_str(kind: ReplicaKind) -> (r: &'static str)
    ensures
        r@ == kind.name(),
{
    match kind {
        ReplicaKind::Leader => "leader",
        ReplicaKind::Follower => "follower",
        ReplicaKind::Learner => "learner",
    }
}

/// Sees the context of each request, and may change it.
#[derive(Debug)]
pub struct RpcInterceptor<I> {
    pub name: String,
    pub intercept: Arc<I>,
}

/// What an [`RpcInterceptor`] holds.
pub struct RpcInterceptorView<I> {
    pub name: Seq<char>,
    pub intercept: I,
}

impl<I> View for RpcInterceptor<I> {
    type V = RpcInterceptorView<I>;

    open spec fn view(&self) -> RpcInterceptorView<I> {
        RpcInterceptorView { name: self.name@, intercept: *self.intercept }
    }
}

/// An interceptor with the given name.
pub fn rpc_interceptor<I>(name: String, intercept: I) -> (r: RpcInterceptor<I>)
    ensures
        r@ == (RpcInterceptorView { name: name@, intercept }),
{
    RpcInterceptor { name, intercept: Arc::new(intercept) }
}

/// Interceptors that run one after the other.
#[derive(Debug)]
pub struct RpcInterceptorChain<I> {
    pub interceptors: Vec<RpcInterceptor<I>>,
}

impl<I> View for RpcInterceptorChain<I> {
    type V = Seq<RpcInterceptorView<I>>;

    open spec fn view(&self) -> Seq<RpcInterceptorView<I>> {
        self.interceptors@.map_values(|interceptor: RpcInterceptor<I>| interceptor@)
    }
}

/// The position of the first interceptor with the given name, or the number of interceptors if
/// there is none.
pub open spec fn position_of<I>(interceptors: Seq<RpcInterceptorView<I>>, name: Seq<char>) -> nat
    decreases interceptors.len(),
{
    if interceptors.len() == 0 || interceptors[0].name == name {
        0
    } else {
        1 + position_of(interceptors.skip(1), name)
    }
}

/// The interceptors with one more, which takes the place of the first one with the same name, if
/// there is one.
pub open spec fn linked<I>(
    interceptors: Seq<RpcInterceptorView<I>>,
    interceptor: RpcInterceptorView<I>,
) -> Seq<RpcInterceptorView<I>> {
    let at = position_of(interceptors, interceptor.name);
    if at < interceptors.len() {
        interceptors.update(at as int, interceptor)
    } else {
        interceptors.push(interceptor)
    }
}

/// Each interceptor takes every context.
pub open spec fn take_all<I: Fn(&RpcContextInfo, Context) -> Context>(
    interceptors: Seq<RpcInterceptorView<I>>,
) -> bool {
    forall|i: int, info: &RpcContextInfo, context: Context|
        0 <= i < interceptors.len() ==> #[trigger] call_requires(
            interceptors[i].intercept,
            (info, context),
        )
}

/// Each interceptor makes the next context of the one before.
pub open spec fn is_run<I: Fn(&RpcContextInfo, Context) -> Context>(
    interceptors: Seq<RpcInterceptorView<I>>,
    info: RpcContextInfo,
    contexts: Seq<Context>,
) -> bool {
    &&& contexts.len() == interceptors.len() + 1
    &&& forall|i: int|
        0 <= i < interceptors.len() ==> call_ensures(
            (#[trigger] interceptors[i]).intercept,
            (&info, contexts[i]),
            contexts[i + 1],
        )
}

/// The interceptors, run one after the other, can make `after` of `before`.
pub open spec fn runs<I: Fn(&RpcContextInfo, Context) -> Context>(
    interceptors: Seq<RpcInterceptorView<I>>,
    info: RpcContextInfo,
    before: Context,
    after: Context,
) -> bool {
    exists|contexts: Seq<Context>| #[trigger]
        is_run(interceptors, info, contexts) && contexts.first() == before && contexts.last()
            == after
}

impl<I> RpcInterceptorChain<I> {
    /// No interceptor.
    pub fn new() -> (r: Self)
        ensures
            r@ == Seq::<RpcInterceptorView<I>>::empty(),
    {
        let r = RpcInterceptorChain { interceptors: Vec::new() };
        assert(r@ =~= Seq::<RpcInterceptorView<I>>::empty());
        r
    }

    fn position(&self, name: &String) -> (r: usize)
        ensures
            r == position_of(self@, name@),
            r <= self@.len(),
    {
        let ghost all = self@;
        let mut i: usize = 0;
        assert(all.skip(0) =~= all);
        while i < self.interceptors.len()
            invariant
                all == self@,
                i <= all.len(),
                i + position_of(all.skip(i as int), name@) == position_of(all, name@),
            decreases self.interceptors.len() - i,
        {
            assert(all.skip(i as int)[0] == all[i as int]);
            assert(all.skip(i as int).skip(1) =~= all.skip(i + 1));
            if self.interceptors[i].name == *name {
                return i;
            }
            i = i + 1;
        }
        i
    }

    /// Add an interceptor. It takes the place of the one with the same name, if there is one.
    pub fn link(&mut self, interceptor: RpcInterceptor<I>)
        ensures
            final(self)@ == linked(old(self)@, interceptor@),
    {
        let ghost before = self@;
        let ghost added = interceptor@;
        let at: usize = self.position(&interceptor.name);
        if at < self.interceptors.len() {
            self.interceptors.set(at, interceptor);
        } else {
            self.interceptors.push(interceptor);
        }
        assert(self@ =~= linked(before, added));
    }
}

impl<I> Clone for RpcInterceptorChain<I> {
    fn clone(&self) -> (r: Self)
        ensures
            r@ == self@,
    {
        let mut interceptors: Vec<RpcInterceptor<I>> = Vec::new();
        let mut i: usize = 0;
        while i < self.interceptors.len()
            invariant
                i <= self.interceptors.len(),
                interceptors@.len() == i,
                forall|k: int|
                    0 <= k < i ==> (#[trigger] interceptors@[k])@ == self.interceptors@[k]@,
            decreases self.interceptors.len() - i,
        {
            interceptors.push(
                RpcInterceptor {
                    name: self.interceptors[i].name.clone(),
                    intercept: self.interceptors[i].intercept.clone(),
                },
            );
            i = i + 1;
        }
        let r = RpcInterceptorChain { interceptors };
        assert(r@ =~= self@);
        r
    }
}

impl<I: Fn(&RpcContextInfo, Context) -> Context> RpcInterceptorChain<I> {
    /// Run the interceptors.
    pub fn apply(&self, info: &RpcContextInfo, context: Context) -> (r: Context)
        requires
            take_all(self@),
        ensures
            runs(self@, *info, context, r),
    {
        let ghost all = self@;
        let ghost before = context;
        let ghost mut contexts = seq![context];
        let mut context = context;
        let mut i: usize = 0;
        while i < self.interceptors.len()
            invariant
                all == self@,
                take_all(all),
                i <= all.len(),
                is_run(all.take(i as int), *info, contexts),
                contexts.first() == before,
                contexts.last() == context,
            decreases self.interceptors.len() - i,
        {
            assert(all[i as int].intercept == *self.interceptors@[i as int].intercept);
            let intercept: &I = &*self.interceptors[i].intercept;
            assert(call_requires(all[i as int].intercept, (info, context)));
            context = intercept(info, context);
            proof {
                let ran = contexts;
                contexts = ran.push(context);
                let done = all.take(i + 1);
                assert forall|k: int| 0 <= k < done.len() implies call_ensures(
                    (#[trigger] done[k]).intercept,
                    (info, contexts[k]),
                    contexts[k + 1],
                ) by {
                    if k < i {
                        assert(done[k] == all.take(i as int)[k]);
                    }
                }
            }
            i = i + 1;
        }
        assert(all.take(i as int) =~= all);
        context
    }
}

} // verus!
