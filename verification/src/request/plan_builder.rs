//! How plans are put together.

use core::marker::PhantomData;
use vstd::prelude::*;

use crate::backoff::Backoff;
use crate::common::errors::{Error, Result};
use crate::interceptor::{linked, runs, RpcContextInfo, RpcInterceptor, RpcInterceptorChain};
use crate::proto::kvrpcpb::{ApiVersion, Consumption, Context, ContextView, DiskFullOpt};
use crate::request::cleanup_locks::CleanupLocks;
use crate::request::keyspace::Keyspace;
use crate::request::plan::{
    DefaultProcessor, Dispatch, ExtractError, Merge, MergeResponse, PreserveShard, ProcessResponse,
    RetryableAllStores, RetryableMultiRegion, MULTI_REGION_CONCURRENCY,
};
use crate::request::read_routing::{ReadRouting, ReadRoutingView, ReplicaReadType};
use crate::request::resolve_lock::ResolveLock;
use crate::request_context::{RequestContext, RequestContextView, TraceControlFlags};
use crate::store::request::{CommandPriority, Request, RequestView};
use crate::store::RegionStore;
use crate::transaction::lock::ResolveLocksOptions;

verus! {

/// How far a plan has been put together.
pub trait PlanBuilderPhase {

}

/// It has not been said yet which stores the plan's requests go to.
#[derive(Clone, Copy, Debug)]
pub struct NoTarget;

impl PlanBuilderPhase for NoTarget {

}

/// It has been said which stores the plan's requests go to.
#[derive(Clone, Copy, Debug)]
pub struct Targetted;

impl PlanBuilderPhase for Targetted {

}

/// A request for a single key.
pub trait SingleKey: Sized {
    /// The key, as far as a kind of request says so.
    open spec fn only_key(&self) -> Vec<u8> {
        vstd::pervasive::arbitrary()
    }

    /// The key.
    fn key(&self) -> (r: &Vec<u8>)
        ensures
            *r == self.only_key(),
    ;
}

/// A plan that is being put together.
#[derive(Debug)]
pub struct PlanBuilder<PdC, P, Ph, T, I> {
    pub pd_client: PdC,
    pub plan: P,
    pub request_context: RequestContext<T, I>,
    pub read_routing: ReadRouting,
    pub phantom: PhantomData<Ph>,
}

/// The request with the version of the protocol, and with a source if it has none.
pub open spec fn prepared<Payload>(
    request: RequestView<Payload>,
    api_version: ApiVersion,
) -> RequestView<Payload> {
    request.with(
        ContextView {
            api_version: api_version.spec_number(),
            request_source: if request.started().request_source.len() == 0 {
                "unknown"@
            } else {
                request.started().request_source
            },
            ..request.started()
        },
    )
}

impl<PdC, Req: Request, C, T, I> PlanBuilder<PdC, Dispatch<Req, C>, NoTarget, T, I> {
    /// The builder with what is set on all requests.
    pub open spec fn sets(
        self,
        request_context: RequestContextView<T, I>,
        read_routing: ReadRoutingView,
        r: Self,
    ) -> bool {
        &&& r.pd_client == self.pd_client
        &&& r.plan.kv_client == self.plan.kv_client
        &&& r.request_context@ == request_context
        &&& r.read_routing@ == read_routing
        &&& r.plan.request.model() == self.plan.request.model().with(
            request_context.applied_to(self.plan.request.model().started()),
        )
    }

    /// A plan that sends a request in a keyspace. A request without a source gets one.
    pub fn new(pd_client: PdC, keyspace: Keyspace, request: Req) -> (r: Self)
        ensures
            r.pd_client == pd_client,
            r.plan.kv_client is None,
            r.plan.request.model() == prepared(
                request.model(),
                keyspace.spec_api_version(),
            ),
            r.request_context@ == RequestContextView::<T, I>::blank(),
            r.read_routing@ == (ReadRoutingView {
                replica_read: ReplicaReadType::Leader,
                stale_read: false,
                seed: 0,
                request_source: None,
            }),
    {
        let mut request = request;
        request.set_api_version(keyspace.api_version());
        let context = request.context_mut();
        if context.request_source.as_str().unicode_len() == 0 {
            context.request_source = "unknown".to_owned();
        }
        PlanBuilder {
            pd_client,
            plan: Dispatch { request, kv_client: None },
            request_context: RequestContext::default(),
            read_routing: ReadRouting::default(),
            phantom: PhantomData,
        }
    }

    /// Name the source of all requests of the plan.
    #[must_use]
    pub fn with_request_source(self, source: String) -> (r: Self)
        ensures
            self.sets(
                (RequestContextView { request_source: Some(source@), ..self.request_context@ }),
                (ReadRoutingView { request_source: Some(source@), ..self.read_routing@ }),
                r,
            ),
    {
        let mut r = self;
        r.read_routing.request_source = Some(source.clone());
        r.request_context = r.request_context.with_request_source(source);
        r.plan.request = r.request_context.apply_to(r.plan.request);
        r
    }

    /// Set the tag of the resource group on all requests of the plan.
    #[must_use]
    pub fn with_resource_group_tag(self, tag: Vec<u8>) -> (r: Self)
        ensures
            self.sets(
                (RequestContextView { resource_group_tag: Some(tag@), ..self.request_context@ }),
                self.read_routing@,
                r,
            ),
    {
        let mut r = self;
        r.request_context = r.request_context.with_resource_group_tag(tag);
        r.plan.request = r.request_context.apply_to(r.plan.request);
        r
    }

    /// Set the name of the resource group on all requests of the plan.
    #[must_use]
    pub fn with_resource_group_name(self, name: String) -> (r: Self)
        ensures
            self.sets(
                (RequestContextView { resource_group_name: Some(name@), ..self.request_context@ }),
                self.read_routing@,
                r,
            ),
    {
        let mut r = self;
        r.request_context = r.request_context.with_resource_group_name(name);
        r.plan.request = r.request_context.apply_to(r.plan.request);
        r
    }

    /// Set the priority of all requests of the plan.
    #[must_use]
    pub fn with_priority(self, priority: CommandPriority) -> (r: Self)
        ensures
            self.sets(
                (RequestContextView { priority: Some(priority), ..self.request_context@ }),
                self.read_routing@,
                r,
            ),
    {
        let mut r = self;
        r.request_context = r.request_context.with_priority(priority);
        r.plan.request = r.request_context.apply_to(r.plan.request);
        r
    }

    /// Say whether stores with a full disk may serve the requests of the plan.
    #[must_use]
    pub fn with_disk_full_opt(self, disk_full_opt: DiskFullOpt) -> (r: Self)
        ensures
            self.sets(
                (RequestContextView { disk_full_opt: Some(disk_full_opt), ..self.request_context@ }),
                self.read_routing@,
                r,
            ),
    {
        let mut r = self;
        r.request_context = r.request_context.with_disk_full_opt(disk_full_opt);
        r.plan.request = r.request_context.apply_to(r.plan.request);
        r
    }

    /// Set the source of the transaction on all requests of the plan.
    #[must_use]
    pub fn with_txn_source(self, txn_source: u64) -> (r: Self)
        ensures
            self.sets(
                (RequestContextView { txn_source: Some(txn_source), ..self.request_context@ }),
                self.read_routing@,
                r,
            ),
    {
        let mut r = self;
        r.request_context = r.request_context.with_txn_source(txn_source);
        r.plan.request = r.request_context.apply_to(r.plan.request);
        r
    }

    /// Set the id under which all requests of the plan are traced.
    #[must_use]
    pub fn with_trace_id(self, trace_id: Vec<u8>) -> (r: Self)
        ensures
            self.sets(
                (RequestContextView { trace_id: Some(trace_id@), ..self.request_context@ }),
                self.read_routing@,
                r,
            ),
    {
        let mut r = self;
        r.request_context = r.request_context.with_trace_id(trace_id);
        r.plan.request = r.request_context.apply_to(r.plan.request);
        r
    }

    /// Set the flags that say what is traced of all requests of the plan.
    #[must_use]
    pub fn with_trace_control_flags(self, flags: u64) -> (r: Self)
        ensures
            self.sets(
                (RequestContextView { trace_control_flags: Some(flags), ..self.request_context@ }),
                self.read_routing@,
                r,
            ),
    {
        let mut r = self;
        r.request_context = r.request_context.with_trace_control_flags(flags);
        r.plan.request = r.request_context.apply_to(r.plan.request);
        r
    }

    /// Set what is traced of all requests of the plan.
    #[must_use]
    pub fn with_trace_control(self, flags: TraceControlFlags) -> (r: Self)
        ensures
            self.sets(
                (RequestContextView {
                    trace_control_flags: Some(flags.0),
                    ..self.request_context@
                }),
                self.read_routing@,
                r,
            ),
    {
        self.with_trace_control_flags(flags.0)
    }

    /// Set the priority that stands in for that of the resource group on all requests of the plan.
    #[must_use]
    pub fn with_resource_control_override_priority(self, override_priority: u64) -> (r: Self)
        ensures
            self.sets(
                (RequestContextView { resource_control_override_priority: Some(override_priority), ..self.request_context@ }),
                self.read_routing@,
                r,
            ),
    {
        let mut r = self;
        r.request_context = r.request_context.with_resource_control_override_priority(override_priority);
        r.plan.request = r.request_context.apply_to(r.plan.request);
        r
    }

    /// Set what the resource group is charged in advance on all requests of the plan.
    #[must_use]
    pub fn with_resource_control_penalty(self, penalty: Consumption) -> (r: Self)
        ensures
            self.sets(
                (RequestContextView { resource_control_penalty: Some(penalty.encoded@), ..self.request_context@ }),
                self.read_routing@,
                r,
            ),
    {
        let mut r = self;
        r.request_context = r.request_context.with_resource_control_penalty(penalty);
        r.plan.request = r.request_context.apply_to(r.plan.request);
        r
    }

    /// The builder with code that runs before its requests are sent.
    pub open spec fn runs_before(self, request_context: RequestContextView<T, I>, r: Self) -> bool {
        &&& r.request_context@ == request_context
        &&& r.pd_client == self.pd_client
        &&& r.plan == self.plan
        &&& r.read_routing == self.read_routing
    }

    /// Let the tagger give the tag of the resource group for all requests of the plan. A fixed tag
    /// takes precedence.
    #[must_use]
    pub fn with_resource_group_tagger(self, tagger: T) -> (r: Self)
        ensures
            self.runs_before(
                (RequestContextView {
                    resource_group_tagger: Some(tagger),
                    ..self.request_context@
                }),
                r,
            ),
    {
        let mut r = self;
        r.request_context = r.request_context.with_resource_group_tagger(tagger);
        r
    }

    /// Let the interceptor, and no other one, see all requests of the plan.
    #[must_use]
    pub fn with_rpc_interceptor(self, interceptor: RpcInterceptor<I>) -> (r: Self)
        ensures
            self.runs_before(
                (RequestContextView {
                    rpc_interceptors: seq![interceptor@],
                    ..self.request_context@
                }),
                r,
            ),
    {
        let mut chain = RpcInterceptorChain::new();
        chain.link(interceptor);
        assert(chain@ =~= seq![interceptor@]);
        let mut r = self;
        r.request_context = r.request_context.with_rpc_interceptors(chain);
        r
    }

    /// Let one more interceptor see all requests of the plan. It takes the place of the one with
    /// the same name, if there is one.
    #[must_use]
    pub fn with_added_rpc_interceptor(self, interceptor: RpcInterceptor<I>) -> (r: Self)
        ensures
            self.runs_before(
                (RequestContextView {
                    rpc_interceptors: linked(
                        self.request_context@.rpc_interceptors,
                        interceptor@,
                    ),
                    ..self.request_context@
                }),
                r,
            ),
    {
        let mut r = self;
        r.request_context = r.request_context.add_rpc_interceptor(interceptor);
        r
    }

    /// Say which peers reads go to.
    #[must_use]
    pub fn replica_read(self, replica_read: ReplicaReadType) -> (r: Self)
        ensures
            r.read_routing@ == (ReadRoutingView { replica_read, ..self.read_routing@ }),
            r.pd_client == self.pd_client,
            r.plan == self.plan,
            r.request_context == self.request_context,
    {
        let mut r = self;
        r.read_routing.replica_read = replica_read;
        r
    }

    /// Say whether stale answers will do.
    #[must_use]
    pub fn stale_read(self, stale_read: bool) -> (r: Self)
        ensures
            r.read_routing@ == (ReadRoutingView { stale_read, ..self.read_routing@ }),
            r.pd_client == self.pd_client,
            r.plan == self.plan,
            r.request_context == self.request_context,
    {
        let mut r = self;
        r.read_routing.stale_read = stale_read;
        r
    }

    /// Say what the choice among several peers depends on.
    #[must_use]
    pub fn replica_read_seed(self, seed: u32) -> (r: Self)
        ensures
            r.read_routing@ == (ReadRoutingView { seed, ..self.read_routing@ }),
            r.pd_client == self.pd_client,
            r.plan == self.plan,
            r.request_context == self.request_context,
    {
        let mut r = self;
        r.read_routing.seed = seed;
        r
    }
}

impl<
    PdC,
    Req: Request,
    C,
    T: Fn(&RpcContextInfo, &Context) -> Vec<u8>,
    I: Fn(&RpcContextInfo, Context) -> Context,
> PlanBuilder<PdC, Dispatch<Req, C>, NoTarget, T, I> {
    /// Direct the request to a single region. The tagger and the interceptors that come with the
    /// store run.
    pub fn single_region_with_store(self, store: RegionStore<C, T, I>) -> (r: Result<
        PlanBuilder<PdC, Dispatch<Req, C>, Targetted, T, I>,
    >)
        requires
            store.can_apply(),
        ensures
            ({
                let request = self.plan.request.model();
                let leaderless = request.is_for_region && store.region_with_leader.leader is None;
                &&& leaderless ==> r == Err::<
                    PlanBuilder<PdC, Dispatch<Req, C>, Targetted, T, I>,
                    Error,
                >(Error::LeaderNotFound { region: store.region_with_leader@.ver_id() })
                &&& !leaderless ==> {
                    &&& r is Ok
                    &&& self.keeps(r->Ok_0)
                    &&& r->Ok_0.plan.kv_client == Some(store.client)
                    &&& exists|led: &mut Req, routed: &mut Req|
                        #![trigger call_ensures(Req::set_replica_read, (led, store.replica_read), ()),
                            call_ensures(Req::set_stale_read, (routed, store.stale_read), ())]
                        {
                            &&& led.model() == request.led(store.region_with_leader@)
                            &&& call_ensures(Req::set_replica_read, (led, store.replica_read), ())
                            &&& *final(led) == *routed
                            &&& call_ensures(Req::set_stale_read, (routed, store.stale_read), ())
                            &&& store.sends(final(routed).model(), r->Ok_0.plan.request.model())
                        }
                }
            }),
    {
        let mut plan = self.plan;
        store.apply_to_request(&mut plan.request)?;
        plan.kv_client = Some(store.client);
        Ok(
            PlanBuilder {
                pd_client: self.pd_client,
                plan,
                request_context: self.request_context,
                read_routing: self.read_routing,
                phantom: PhantomData,
            },
        )
    }
}

impl<PdC, P, T, I> PlanBuilder<PdC, P, Targetted, T, I> {
    /// The plan.
    pub fn plan(self) -> (r: P)
        ensures
            r == self.plan,
    {
        self.plan
    }

    /// Make the errors in the result into an error.
    pub fn extract_error(self) -> (r: PlanBuilder<PdC, ExtractError<P>, Targetted, T, I>)
        ensures
            r.plan.inner == self.plan,
            self.keeps(r),
    {
        PlanBuilder {
            pd_client: self.pd_client,
            plan: ExtractError { inner: self.plan },
            request_context: self.request_context,
            read_routing: self.read_routing,
            phantom: PhantomData,
        }
    }
}

impl<PdC, P, Ph, T, I> PlanBuilder<PdC, P, Ph, T, I> {
    /// The other builder differs only in the plan.
    pub open spec fn keeps<Q, Other>(self, r: PlanBuilder<PdC, Q, Other, T, I>) -> bool {
        &&& r.pd_client == self.pd_client
        &&& r.request_context == self.request_context
        &&& r.read_routing == self.read_routing
    }
}

impl<PdC: Clone, P, Ph, T, I> PlanBuilder<PdC, P, Ph, T, I> {
    /// With what is set on the requests that the plan makes on its own.
    pub fn with_request_context(self, request_context: RequestContext<T, I>) -> (r: Self)
        ensures
            r == (PlanBuilder { request_context, ..self }),
    {
        PlanBuilder { request_context, ..self }
    }

    /// With the peers that reads go to.
    pub fn with_read_routing(self, read_routing: ReadRouting) -> (r: Self)
        ensures
            r == (PlanBuilder { read_routing, ..self }),
    {
        PlanBuilder { read_routing, ..self }
    }

    /// Resolve the locks that stand in the way of the request.
    pub fn resolve_lock(self, backoff: Backoff, keyspace: Keyspace) -> (r: PlanBuilder<
        PdC,
        ResolveLock<P, PdC, T, I>,
        Ph,
        T,
        I,
    >)
        ensures
            self.keeps(r),
            r.plan.inner == self.plan,
            r.plan.backoff == backoff,
            r.plan.keyspace == keyspace,
            r.plan.lock_wait_timeout_ms is None,
            cloned(self.pd_client, r.plan.pd_client),
            r.plan.request_context@ == self.request_context@,
            r.plan.read_routing@ == self.read_routing@,
    {
        self.resolve_lock_with_timeout(backoff, keyspace, None)
    }

    /// Resolve the locks that stand in the way of the request, but do not wait for longer than the
    /// limit if there is one.
    pub fn resolve_lock_with_timeout(
        self,
        backoff: Backoff,
        keyspace: Keyspace,
        lock_wait_timeout_ms: Option<u64>,
    ) -> (r: PlanBuilder<PdC, ResolveLock<P, PdC, T, I>, Ph, T, I>)
        ensures
            self.keeps(r),
            r.plan.inner == self.plan,
            r.plan.backoff == backoff,
            r.plan.keyspace == keyspace,
            r.plan.lock_wait_timeout_ms == lock_wait_timeout_ms,
            cloned(self.pd_client, r.plan.pd_client),
            r.plan.request_context@ == self.request_context@,
            r.plan.read_routing@ == self.read_routing@,
    {
        PlanBuilder {
            plan: ResolveLock {
                inner: self.plan,
                pd_client: self.pd_client.clone(),
                backoff,
                lock_wait_timeout_ms,
                keyspace,
                request_context: self.request_context.clone(),
                read_routing: self.read_routing.clone(),
            },
            pd_client: self.pd_client,
            request_context: self.request_context,
            read_routing: self.read_routing,
            phantom: PhantomData,
        }
    }

    /// Remove the locks that a scan finds.
    pub fn cleanup_locks<C, Ctx>(
        self,
        ctx: Ctx,
        options: ResolveLocksOptions,
        backoff: Backoff,
        keyspace: Keyspace,
    ) -> (r: PlanBuilder<PdC, CleanupLocks<P, PdC, C, Ctx, T, I>, Ph, T, I>)
        ensures
            self.keeps(r),
            r.plan.inner == self.plan,
            r.plan.ctx == ctx,
            r.plan.options == options,
            r.plan.store is None,
            r.plan.backoff == backoff,
            r.plan.keyspace == keyspace,
            cloned(self.pd_client, r.plan.pd_client),
            r.plan.request_context@ == self.request_context@,
    {
        PlanBuilder {
            plan: CleanupLocks {
                inner: self.plan,
                ctx,
                options,
                store: None,
                pd_client: self.pd_client.clone(),
                keyspace,
                backoff,
                request_context: self.request_context.clone(),
            },
            pd_client: self.pd_client,
            request_context: self.request_context,
            read_routing: self.read_routing,
            phantom: PhantomData,
        }
    }

    /// Merge the results of the plan.
    pub fn merge<In, M: Merge<In>>(self, merge: M) -> (r: PlanBuilder<
        PdC,
        MergeResponse<P, In, M>,
        Ph,
        T,
        I,
    >)
        ensures
            self.keeps(r),
            r.plan.inner == self.plan,
            r.plan.merge == merge,
    {
        PlanBuilder {
            plan: MergeResponse { inner: self.plan, merge, phantom: PhantomData },
            pd_client: self.pd_client,
            request_context: self.request_context,
            read_routing: self.read_routing,
            phantom: PhantomData,
        }
    }

    /// Process the result of the plan in the way that is usual for it.
    pub fn post_process_default(self) -> (r: PlanBuilder<
        PdC,
        ProcessResponse<P, DefaultProcessor>,
        Ph,
        T,
        I,
    >)
        ensures
            self.keeps(r),
            r.plan.inner == self.plan,
    {
        PlanBuilder {
            plan: ProcessResponse { inner: self.plan, processor: DefaultProcessor },
            pd_client: self.pd_client,
            request_context: self.request_context,
            read_routing: self.read_routing,
            phantom: PhantomData,
        }
    }
}

impl<PdC: Clone, P, T, I> PlanBuilder<PdC, P, NoTarget, T, I> {
    /// The builder whose plan sends the request to the regions of its shards.
    pub open spec fn sends_to_regions(
        self,
        backoff: Backoff,
        preserve_region_results: bool,
        concurrency: usize,
        r: PlanBuilder<PdC, RetryableMultiRegion<P, PdC, T, I>, Targetted, T, I>,
    ) -> bool {
        &&& self.keeps(r)
        &&& r.plan.inner == self.plan
        &&& r.plan.backoff == backoff
        &&& r.plan.concurrency == concurrency
        &&& r.plan.preserve_region_results == preserve_region_results
        &&& cloned(self.pd_client, r.plan.pd_client)
        &&& r.plan.request_context@ == self.request_context@
        &&& r.plan.read_routing@ == self.read_routing@
    }

    /// Split the request into shards, and send each to its region.
    pub fn retry_multi_region(self, backoff: Backoff) -> (r: PlanBuilder<
        PdC,
        RetryableMultiRegion<P, PdC, T, I>,
        Targetted,
        T,
        I,
    >)
        ensures
            self.sends_to_regions(backoff, false, MULTI_REGION_CONCURRENCY, r),
    {
        self.make_retry_multi_region(backoff, false, MULTI_REGION_CONCURRENCY)
    }

    /// Split the request into shards, and send a number of them at a time.
    pub fn retry_multi_region_with_concurrency(self, backoff: Backoff, concurrency: usize) -> (r:
        PlanBuilder<PdC, RetryableMultiRegion<P, PdC, T, I>, Targetted, T, I>)
        ensures
            self.sends_to_regions(backoff, false, concurrency, r),
    {
        self.make_retry_multi_region(backoff, false, concurrency)
    }

    /// Split the request into shards, and give all their results, even if some have failed.
    pub fn retry_multi_region_preserve_results(self, backoff: Backoff) -> (r: PlanBuilder<
        PdC,
        RetryableMultiRegion<P, PdC, T, I>,
        Targetted,
        T,
        I,
    >)
        ensures
            self.sends_to_regions(backoff, true, MULTI_REGION_CONCURRENCY, r),
    {
        self.make_retry_multi_region(backoff, true, MULTI_REGION_CONCURRENCY)
    }

    /// Split the request into shards, send a number of them at a time, and give all their results,
    /// even if some have failed.
    pub fn retry_multi_region_preserve_results_with_concurrency(
        self,
        backoff: Backoff,
        concurrency: usize,
    ) -> (r: PlanBuilder<PdC, RetryableMultiRegion<P, PdC, T, I>, Targetted, T, I>)
        ensures
            self.sends_to_regions(backoff, true, concurrency, r),
    {
        self.make_retry_multi_region(backoff, true, concurrency)
    }

    fn make_retry_multi_region(
        self,
        backoff: Backoff,
        preserve_region_results: bool,
        concurrency: usize,
    ) -> (r: PlanBuilder<PdC, RetryableMultiRegion<P, PdC, T, I>, Targetted, T, I>)
        ensures
            self.sends_to_regions(backoff, preserve_region_results, concurrency, r),
    {
        PlanBuilder {
            plan: RetryableMultiRegion {
                inner: self.plan,
                pd_client: self.pd_client.clone(),
                backoff,
                concurrency,
                preserve_region_results,
                request_context: self.request_context.clone(),
                read_routing: self.read_routing.clone(),
            },
            pd_client: self.pd_client,
            request_context: self.request_context,
            read_routing: self.read_routing,
            phantom: PhantomData,
        }
    }

    /// Send the request to all stores.
    pub fn all_stores(self, backoff: Backoff) -> (r: PlanBuilder<
        PdC,
        RetryableAllStores<P, PdC>,
        Targetted,
        T,
        I,
    >)
        ensures
            self.keeps(r),
            r.plan.inner == self.plan,
            r.plan.backoff == backoff,
            cloned(self.pd_client, r.plan.pd_client),
    {
        PlanBuilder {
            plan: RetryableAllStores {
                inner: self.plan,
                pd_client: self.pd_client.clone(),
                backoff,
            },
            pd_client: self.pd_client,
            request_context: self.request_context,
            read_routing: self.read_routing,
            phantom: PhantomData,
        }
    }

    /// Give the shards along with the responses.
    pub fn preserve_shard<S>(self) -> (r: PlanBuilder<PdC, PreserveShard<P, S>, NoTarget, T, I>)
        ensures
            self.keeps(r),
            r.plan.inner == self.plan,
            r.plan.shard is None,
    {
        PlanBuilder {
            plan: PreserveShard { inner: self.plan, shard: None },
            pd_client: self.pd_client,
            request_context: self.request_context,
            read_routing: self.read_routing,
            phantom: PhantomData,
        }
    }
}

/// The tagger and the interceptors that a plan was built with act on the requests that it sends to
/// regions.
pub proof fn law_the_code_of_the_caller_sees_the_requests<
    PdC: Clone,
    P,
    C,
    Payload,
    T: Fn(&RpcContextInfo, &Context) -> Vec<u8>,
    I: Fn(&RpcContextInfo, Context) -> Context,
>(
    builder: PlanBuilder<PdC, P, NoTarget, T, I>,
    backoff: Backoff,
    preserve_region_results: bool,
    concurrency: usize,
    built: PlanBuilder<PdC, RetryableMultiRegion<P, PdC, T, I>, Targetted, T, I>,
    store: RegionStore<C, T, I>,
    request: RequestView<Payload>,
    sent: RequestView<Payload>,
)
    requires
        builder.sends_to_regions(backoff, preserve_region_results, concurrency, built),
        store.request_context@ == built.plan.request_context@,
        store.sends(request, sent),
    ensures
        store.request_context@.resource_group_tagger
            == builder.request_context@.resource_group_tagger,
        exists|info: RpcContextInfo, tagged: Context, last: Context|
            {
                &&& #[trigger] runs(builder.request_context@.rpc_interceptors, info, tagged, last)
                &&& store.tags(request, info, request.with(tagged@))
                &&& sent == request.with(last@)
            },
{
}

} // verus!
