//! Requests to stores.

use vstd::prelude::*;

use crate::common::errors::{Error, Result};
use crate::interceptor::{runs, take_all, ReplicaKind, RpcContextInfo};
use crate::kv::bound::Bound;
use crate::kv::bound_range::{lower_bound, upper_bound, BoundRange};
use crate::kv::key::Key;
use crate::kv::order::{
    bytes_lt, bytes_to_vec, in_key_range, lemma_lex_chain, lemma_lex_not_lt, lemma_lex_transitive,
    lex_le, lex_lt,
};
use crate::proto::kvrpcpb::{Context, ContextView};
use crate::region::RegionWithLeader;
use crate::request::shard_run::Target;
use crate::request_context::{clone_text, text_view, RequestContext, RequestContextView};
use crate::store::request::{Request, RequestView};

pub mod errors;
pub mod request;
pub mod sending;

verus! {

/// A region, the client of the store that serves it, and how requests are to be served.
#[derive(Debug)]
pub struct RegionStore<C, T, I> {
    pub region_with_leader: RegionWithLeader,
    pub client: C,
    pub replica_read: bool,
    pub stale_read: bool,
    pub attempt: usize,
    pub patched_request_source: Option<String>,
    pub request_context: RequestContext<T, I>,
    pub replica_kind: Option<ReplicaKind>,
}

/// A store.
#[derive(Debug)]
pub struct Store<C> {
    pub client: C,
}

impl<C: Clone> Clone for Store<C> {
    fn clone(&self) -> (r: Self)
        ensures
            cloned(self.client, r.client),
    {
        Store { client: self.client.clone() }
    }
}

impl<C> Store<C> {
    /// A store.
    pub fn new(client: C) -> (r: Store<C>)
        ensures
            r.client == client,
    {
        Store { client }
    }
}

impl<C: Clone, T, I> Clone for RegionStore<C, T, I> {
    fn clone(&self) -> (r: Self)
        ensures
            r.region_with_leader@ == self.region_with_leader@,
            cloned(self.client, r.client),
            r.replica_read == self.replica_read,
            r.stale_read == self.stale_read,
            r.attempt == self.attempt,
            text_view(r.patched_request_source) == text_view(self.patched_request_source),
            r.request_context@ == self.request_context@,
            r.replica_kind == self.replica_kind,
    {
        RegionStore {
            region_with_leader: self.region_with_leader.clone(),
            client: self.client.clone(),
            replica_read: self.replica_read,
            stale_read: self.stale_read,
            attempt: self.attempt,
            patched_request_source: clone_text(&self.patched_request_source),
            request_context: self.request_context.clone(),
            replica_kind: self.replica_kind,
        }
    }
}

impl<C, T, I> RegionStore<C, T, I> {
    /// A region whose leader serves it.
    pub fn new(region_with_leader: RegionWithLeader, client: C) -> (r: Self)
        ensures
            r.region_with_leader == region_with_leader,
            r.client == client,
            !r.replica_read,
            !r.stale_read,
            r.attempt == 0,
            r.patched_request_source is None,
            r.request_context@ == RequestContextView::<T, I>::blank(),
            r.replica_kind is None,
    {
        RegionStore {
            region_with_leader,
            client,
            replica_read: false,
            stale_read: false,
            attempt: 0,
            patched_request_source: None,
            request_context: RequestContext::default(),
            replica_kind: None,
        }
    }

    /// Aim the requests to this region at the given peer, with what is set on them.
    pub fn aim(self, target: Target, request_context: RequestContext<T, I>) -> (r: Self)
        ensures
            r == (RegionStore {
                replica_read: target.read_peer.replica_read,
                stale_read: target.read_peer.stale_read,
                attempt: target.attempt,
                patched_request_source: target.request_source,
                request_context,
                replica_kind: Some(target.replica_kind),
                ..self
            }),
    {
        RegionStore {
            replica_read: target.read_peer.replica_read,
            stale_read: target.read_peer.stale_read,
            attempt: target.attempt,
            patched_request_source: target.request_source,
            request_context,
            replica_kind: Some(target.replica_kind),
            ..self
        }
    }

    /// What is told of a request before it is sent.
    pub open spec fn info(self, label: Seq<char>, r: RpcContextInfo) -> bool {
        &&& r.label@ == label
        &&& r.attempt == self.attempt
        &&& r.region_id == Some(self.region_with_leader.region.id)
        &&& r.store_id == match self.region_with_leader.leader {
            Some(leader) => Some(leader.store_id),
            None => None,
        }
        &&& r.replica_kind == self.replica_kind
        &&& r.replica_read == self.replica_read
        &&& r.stale_read == self.stale_read
    }

    /// The request, which is aimed at the leader and says how it is to be read, with word of
    /// whether it is a retry and where it comes from.
    pub open spec fn aimed<P>(self, request: RequestView<P>) -> RequestView<P> {
        request.with(
            ContextView {
                is_retry_request: self.attempt > 0,
                request_source: match self.patched_request_source {
                    Some(source) => source@,
                    None => request.started().request_source,
                },
                ..request.started()
            },
        )
    }
}

impl<
    C,
    T: Fn(&RpcContextInfo, &Context) -> Vec<u8>,
    I: Fn(&RpcContextInfo, Context) -> Context,
> RegionStore<C, T, I> {
    /// The tagger and the interceptors take every request.
    pub open spec fn can_apply(self) -> bool {
        &&& take_all(self.request_context@.rpc_interceptors)
        &&& self.request_context@.resource_group_tagger is Some ==> forall|
            info: &RpcContextInfo,
            context: &Context,
        | call_requires(self.request_context@.resource_group_tagger->0, (info, context))
    }

    /// `after` is the request with word of whether it is a retry and where it comes from, and with
    /// the tag that the tagger gives where none is fixed.
    pub open spec fn tags<P>(
        self,
        request: RequestView<P>,
        info: RpcContextInfo,
        after: RequestView<P>,
    ) -> bool {
        let aimed = self.aimed(request);
        let tagger = self.request_context@.resource_group_tagger;
        if self.request_context@.resource_group_tag is Some || tagger is None {
            after == aimed
        } else {
            exists|context: Context, tag: Vec<u8>|
                #![trigger call_ensures(tagger->0, (&info, &context), tag)]
                {
                    &&& aimed.context == Some(context@)
                    &&& call_ensures(tagger->0, (&info, &context), tag)
                    &&& after == aimed.with(
                        ContextView { resource_group_tag: tag@, ..context@ },
                    )
                }
        }
    }

    /// `after` is the request as it is sent to this region, given the request that is aimed at the
    /// leader and says how it is to be read: with the tag that the tagger gives, and then with what
    /// the interceptors make of it.
    pub open spec fn sends<P>(self, request: RequestView<P>, after: RequestView<P>) -> bool {
        exists|info: RpcContextInfo, tagged: Context, sent: Context|
            {
                &&& #[trigger] runs(self.request_context@.rpc_interceptors, info, tagged, sent)
                &&& self.info(request.label, info)
                &&& self.tags(request, info, request.with(tagged@))
                &&& after == request.with(sent@)
            }
    }

    /// Run the tagger, where no tag is fixed, and then the interceptors, on a request that is aimed
    /// at the leader and says how it is to be read.
    fn finish_request<R: Request>(&self, request: &mut R)
        requires
            self.can_apply(),
        ensures
            self.sends(old(request).model(), final(request).model()),
    {
        let info = RpcContextInfo {
            label: request.label(),
            attempt: self.attempt,
            region_id: Some(self.region_with_leader.region.id),
            store_id: match self.region_with_leader.leader {
                Some(leader) => Some(leader.store_id),
                None => None,
            },
            replica_kind: self.replica_kind,
            replica_read: self.replica_read,
            stale_read: self.stale_read,
        };
        let ghost start = request.model();
        let context = request.context_mut();
        context.is_retry_request = self.attempt > 0;
        if let Some(source) = &self.patched_request_source {
            context.request_source = source.clone();
        }
        if !self.request_context.has_resource_group_tag() {
            if let Some(tagger) = &self.request_context.resource_group_tagger {
                let tagger: &T = &**tagger;
                assert(self.request_context@.resource_group_tagger == Some(*tagger));
                let ghost aimed = *context;
                assert(call_requires(
                    self.request_context@.resource_group_tagger->0,
                    (&info, &aimed),
                ));
                let tag = tagger(&info, &*context);
                assert(call_ensures(*tagger, (&info, &aimed), tag));
                context.resource_group_tag = tag;
            }
        }
        let mut before = Context::default();
        core::mem::swap(context, &mut before);
        let ghost given = before;
        let after = self.request_context.rpc_interceptors.apply(&info, before);
        let ghost made = after;
        *context = after;
        proof {
            assert(self.tags(start, info, start.with(given@)));
            assert(runs(self.request_context@.rpc_interceptors, info, given, made));
        }
    }

    /// Prepare a request to be sent to this region. It is aimed at the leader, and told how it is
    /// to be read, as far as its kind takes that. The tagger gives the tag of the resource group
    /// where none is fixed; then the interceptors run.
    pub fn apply_to_request<R: Request>(&self, request: &mut R) -> (r: Result<()>)
        requires
            self.can_apply(),
        ensures
            old(request).model().is_for_region && self.region_with_leader.leader is None ==> {
                &&& r == Err::<(), Error>(
                    Error::LeaderNotFound { region: self.region_with_leader@.ver_id() },
                )
                &&& final(request).model() == old(request).model().led(self.region_with_leader@)
            },
            !old(request).model().is_for_region || self.region_with_leader.leader is Some ==> {
                &&& r == Ok::<(), Error>(())
                &&& exists|led: &mut R, routed: &mut R|
                    #![trigger call_ensures(R::set_replica_read, (led, self.replica_read), ()),
                        call_ensures(R::set_stale_read, (routed, self.stale_read), ())]
                    {
                        &&& led.model() == old(request).model().led(self.region_with_leader@)
                        &&& call_ensures(R::set_replica_read, (led, self.replica_read), ())
                        &&& *final(led) == *routed
                        &&& call_ensures(R::set_stale_read, (routed, self.stale_read), ())
                        &&& self.sends(final(routed).model(), final(request).model())
                    }
            },
    {
        request.set_leader(&self.region_with_leader)?;
        request.set_replica_read(self.replica_read);
        request.set_stale_read(self.stale_read);
        self.finish_request(request);
        Ok(())
    }
}

/// The range in which the keys of two ranges lie, where an empty end stands for the end of the key
/// space.
pub open spec fn intersection(
    region_range: (Seq<u8>, Seq<u8>),
    range: (Seq<u8>, Seq<u8>),
) -> (Seq<u8>, Seq<u8>) {
    let start = if lex_lt(range.0, region_range.0) {
        region_range.0
    } else {
        range.0
    };
    let end = if region_range.1.len() == 0 {
        range.1
    } else if range.1.len() == 0 || lex_lt(region_range.1, range.1) {
        region_range.1
    } else {
        range.1
    };
    (start, end)
}

/// The part of a range that lies in a region.
pub fn range_intersection(region_range: (Key, Key), range: (Key, Key)) -> (r: (Key, Key))
    ensures
        (r.0@, r.1@) == intersection(
            (region_range.0@, region_range.1@),
            (range.0@, range.1@),
        ),
{
    let (lower, upper) = region_range;
    let (start, end) = range;
    let up = if upper.is_empty() {
        end
    } else if end.is_empty() {
        upper
    } else if bytes_lt(&upper.0, &end.0) {
        upper
    } else {
        end
    };
    let low = if bytes_lt(&start.0, &lower.0) {
        lower
    } else {
        start
    };
    (low, up)
}

/// A key lies in the intersection of two ranges exactly if it lies in both.
pub proof fn law_the_intersection_holds_the_common_keys(
    region_range: (Seq<u8>, Seq<u8>),
    range: (Seq<u8>, Seq<u8>),
    key: Seq<u8>,
)
    ensures
        ({
            let r = intersection(region_range, range);
            in_key_range(r.0, r.1, key) <==> in_key_range(region_range.0, region_range.1, key)
                && in_key_range(range.0, range.1, key)
        }),
{
    lemma_lex_not_lt(range.0, region_range.0);
    if lex_lt(range.0, region_range.0) {
        if lex_le(region_range.0, key) {
            lemma_lex_chain(range.0, region_range.0, key);
        }
    } else if lex_le(range.0, key) {
        lemma_lex_chain(region_range.0, range.0, key);
    }
    lemma_lex_not_lt(region_range.1, range.1);
    if lex_lt(region_range.1, range.1) {
        if lex_lt(key, region_range.1) {
            lemma_lex_transitive(key, region_range.1, range.1);
        }
    } else if lex_lt(key, range.1) {
        lemma_lex_chain(key, range.1, region_range.1);
    }
}

/// `r` is the range whose regions a request for the given range goes to, where an empty end stands
/// for the end of the key space.
pub open spec fn is_cover(range: (Seq<u8>, Seq<u8>), r: BoundRange) -> bool {
    &&& r.from.bytes() == (if range.1.len() == 0 {
        Bound::Included(range.0)
    } else {
        lower_bound(range.0)
    })
    &&& r.to.bytes() == (if range.1.len() == 0 {
        Bound::Unbounded
    } else {
        upper_bound(range.1)
    })
}

/// The range whose regions a request for the given range goes to, where an empty end stands for
/// the end of the key space.
pub fn range_to_cover(range: &(Vec<u8>, Vec<u8>)) -> (r: BoundRange)
    ensures
        is_cover((range.0@, range.1@), r),
{
    if range.1.len() == 0 {
        BoundRange::range_from(Key(bytes_to_vec(&range.0)))
    } else {
        BoundRange::from_keys(Key(bytes_to_vec(&range.0)), Key(bytes_to_vec(&range.1)))
    }
}

/// The part of a requested range that the given region serves.
pub fn shard_of_range(range: &(Vec<u8>, Vec<u8>), region: &RegionWithLeader) -> (r: (
    Vec<u8>,
    Vec<u8>,
))
    ensures
        (r.0@, r.1@) == intersection(
            (region@.region.start_key, region@.region.end_key),
            (range.0@, range.1@),
        ),
{
    let part = range_intersection(
        region.range(),
        (Key(bytes_to_vec(&range.0)), Key(bytes_to_vec(&range.1))),
    );
    (part.0.0, part.1.0)
}

} // verus!
