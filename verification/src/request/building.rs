//! What a plan is made of once it is put together.

use vstd::prelude::*;

use crate::backoff::Backoff;
use crate::common::errors::{Error, Result};
use crate::interceptor::{RpcContextInfo, RpcInterceptor};
use crate::kv::format::says;
use crate::proto::kvrpcpb::{CommandPri, Consumption, Context, DiskFullOpt};
use crate::request::keyspace::Keyspace;
use crate::request::plan::{
    Dispatch, ExtractError, PreserveShard, RetryableAllStores, RetryableMultiRegion,
};
use crate::request::plan_builder::{NoTarget, PlanBuilder, Targetted};
use crate::request::read_routing::ReplicaReadType;
use crate::request::resolve_lock::ResolveLock;
use crate::request::RetryOptions;
use crate::store::request::{Request, RequestHead, RequestKind};
use crate::store::sending::{context_of, control_of};
use crate::store::RegionStore;

verus! {

/// A plan that is put together for a single request.
pub type HeadBuilder<PdC, C, T, I> = PlanBuilder<PdC, Dispatch<RequestHead, C>, NoTarget, T, I>;

/// A plan begins with a request that tells the version of its keyspace and, if nobody said where it
/// comes from, that this is unknown. It goes to leaders, and nothing else is set.
pub proof fn law_a_plan_begins_in_its_keyspace<PdC, C, T, I>(
    pd_client: PdC,
    keyspace: Keyspace,
    request: RequestHead,
    r: HeadBuilder<PdC, C, T, I>,
)
    requires
        call_ensures(HeadBuilder::<PdC, C, T, I>::new, (pd_client, keyspace, request), r),
    ensures
        ({
            let (was, is) = (context_of(request), context_of(r.plan.request));
            &&& r.plan.request.kind == request.kind
            &&& is.api_version == (if keyspace is Enable {
                2int
            } else {
                0
            })
            &&& was.request_source.len() > 0 ==> is.request_source == was.request_source
            &&& was.request_source.len() == 0 ==> is.request_source == "unknown"@
            &&& is.region_id == was.region_id && is.region_epoch == was.region_epoch && is.peer
                == was.peer && is.priority == was.priority && is.replica_read == was.replica_read
                && is.stale_read == was.stale_read && is.is_retry_request == was.is_retry_request
            &&& is.disk_full_opt == was.disk_full_opt && is.txn_source == was.txn_source
                && is.trace_control_flags == was.trace_control_flags && is.trace_id == was.trace_id
                && is.resource_group_tag == was.resource_group_tag && is.resource_control_context
                == was.resource_control_context
        }),
        r.plan.kv_client is None,
        r.read_routing.replica_read == ReplicaReadType::Leader,
        !r.read_routing.stale_read,
        r.read_routing.seed == 0,
        r.read_routing.request_source is None,
        r.request_context.request_source is None,
        r.request_context.priority is None,
        r.request_context.resource_group_tag is None,
        r.request_context.resource_group_tagger is None,
        r.request_context.rpc_interceptors.interceptors@.len() == 0,
{
    assert(r.read_routing@.replica_read == r.read_routing.replica_read);
    assert(r.read_routing@.request_source is None);
    assert(r.request_context@.request_source is None);
    assert(r.request_context@.resource_group_tag is None);
    assert(r.request_context@.resource_group_tagger is None);
    assert(r.request_context@.rpc_interceptors.len()
        == r.request_context.rpc_interceptors.interceptors@.len());
}

/// The source that a caller names is that of the request at hand and of all that the plan makes.
pub proof fn law_a_named_source_is_that_of_all_requests<PdC, C, T, I>(
    builder: HeadBuilder<PdC, C, T, I>,
    source: String,
    r: HeadBuilder<PdC, C, T, I>,
)
    requires
        call_ensures(HeadBuilder::<PdC, C, T, I>::with_request_source, (builder, source), r),
    ensures
        context_of(r.plan.request).request_source == source@,
        r.request_context@.request_source == Some(source@),
        r.read_routing@.request_source == Some(source@),
        r.read_routing.replica_read == builder.read_routing.replica_read,
        r.read_routing.stale_read == builder.read_routing.stale_read,
        r.plan.request.kind == builder.plan.request.kind,
{
    assert(r.read_routing@.replica_read == r.read_routing.replica_read);
    assert(r.read_routing@.stale_read == r.read_routing.stale_read);
}

/// What a caller sets in numbers stands in the request at hand, and in all that the plan makes.
pub proof fn law_numbers_are_set_on_all_requests<PdC, C, T, I>(
    builder: HeadBuilder<PdC, C, T, I>,
    priority: CommandPri,
    with_priority: HeadBuilder<PdC, C, T, I>,
    option: DiskFullOpt,
    with_option: HeadBuilder<PdC, C, T, I>,
    txn_source: u64,
    with_source: HeadBuilder<PdC, C, T, I>,
    flags: u64,
    with_flags: HeadBuilder<PdC, C, T, I>,
)
    requires
        call_ensures(
            HeadBuilder::<PdC, C, T, I>::with_priority,
            (builder, priority),
            with_priority,
        ),
        call_ensures(
            HeadBuilder::<PdC, C, T, I>::with_disk_full_opt,
            (builder, option),
            with_option,
        ),
        call_ensures(
            HeadBuilder::<PdC, C, T, I>::with_txn_source,
            (builder, txn_source),
            with_source,
        ),
        call_ensures(
            HeadBuilder::<PdC, C, T, I>::with_trace_control_flags,
            (builder, flags),
            with_flags,
        ),
    ensures
        with_priority.request_context.priority == Some(priority),
        context_of(with_priority.plan.request).priority == (match priority {
            CommandPri::Normal => 0int,
            CommandPri::Low => 1,
            CommandPri::High => 2,
        }),
        with_option.request_context.disk_full_opt == Some(option),
        context_of(with_option.plan.request).disk_full_opt == (match option {
            DiskFullOpt::NotAllowedOnFull => 0int,
            DiskFullOpt::AllowedOnAlmostFull => 1,
            DiskFullOpt::AllowedOnAlreadyFull => 2,
        }),
        with_source.request_context.txn_source == Some(txn_source),
        context_of(with_source.plan.request).txn_source == txn_source,
        with_flags.request_context.trace_control_flags == Some(flags),
        context_of(with_flags.plan.request).trace_control_flags == flags,
{
    assert(with_priority.request_context@.priority == with_priority.request_context.priority);
    assert(with_option.request_context@.disk_full_opt == with_option.request_context.disk_full_opt);
    assert(with_source.request_context@.txn_source == with_source.request_context.txn_source);
    assert(with_flags.request_context@.trace_control_flags
        == with_flags.request_context.trace_control_flags);
}

/// What a caller sets in texts stands in the request at hand, and in all that the plan makes.
pub proof fn law_texts_are_set_on_all_requests<PdC, C, T, I>(
    builder: HeadBuilder<PdC, C, T, I>,
    tag: Vec<u8>,
    with_tag: HeadBuilder<PdC, C, T, I>,
    trace_id: Vec<u8>,
    with_trace: HeadBuilder<PdC, C, T, I>,
)
    requires
        call_ensures(
            HeadBuilder::<PdC, C, T, I>::with_resource_group_tag,
            (builder, tag),
            with_tag,
        ),
        call_ensures(HeadBuilder::<PdC, C, T, I>::with_trace_id, (builder, trace_id), with_trace),
    ensures
        with_tag.request_context@.resource_group_tag == Some(tag@),
        context_of(with_tag.plan.request).resource_group_tag == tag@,
        with_trace.request_context@.trace_id == Some(trace_id@),
        context_of(with_trace.plan.request).trace_id == trace_id@,
{
}

/// What a caller sets of the control of resources stands in the request at hand, and in all that
/// the plan makes.
pub proof fn law_resources_are_controlled_on_all_requests<PdC, C, T, I>(
    builder: HeadBuilder<PdC, C, T, I>,
    name: String,
    with_name: HeadBuilder<PdC, C, T, I>,
    priority: u64,
    with_priority: HeadBuilder<PdC, C, T, I>,
    penalty: Consumption,
    with_penalty: HeadBuilder<PdC, C, T, I>,
)
    requires
        call_ensures(
            HeadBuilder::<PdC, C, T, I>::with_resource_group_name,
            (builder, name),
            with_name,
        ),
        call_ensures(
            HeadBuilder::<PdC, C, T, I>::with_resource_control_override_priority,
            (builder, priority),
            with_priority,
        ),
        call_ensures(
            HeadBuilder::<PdC, C, T, I>::with_resource_control_penalty,
            (builder, penalty),
            with_penalty,
        ),
    ensures
        control_of(context_of(with_name.plan.request)).resource_group_name == name@,
        with_name.request_context@.resource_group_name == Some(name@),
        control_of(context_of(with_priority.plan.request)).override_priority == priority,
        with_priority.request_context@.resource_control_override_priority == Some(priority),
        control_of(context_of(with_penalty.plan.request)).penalty == Some(penalty.encoded@),
        with_penalty.request_context@.resource_control_penalty == Some(penalty.encoded@),
{
}

/// How reads go is what the caller said, and the request stays as it is.
pub proof fn law_reads_go_as_the_caller_said<PdC, C, T, I>(
    builder: HeadBuilder<PdC, C, T, I>,
    replica_read: ReplicaReadType,
    with_replica: HeadBuilder<PdC, C, T, I>,
    stale_read: bool,
    with_stale: HeadBuilder<PdC, C, T, I>,
    seed: u32,
    with_seed: HeadBuilder<PdC, C, T, I>,
)
    requires
        call_ensures(
            HeadBuilder::<PdC, C, T, I>::replica_read,
            (builder, replica_read),
            with_replica,
        ),
        call_ensures(HeadBuilder::<PdC, C, T, I>::stale_read, (builder, stale_read), with_stale),
        call_ensures(HeadBuilder::<PdC, C, T, I>::replica_read_seed, (builder, seed), with_seed),
    ensures
        with_replica.read_routing.replica_read == replica_read,
        with_replica.read_routing.stale_read == builder.read_routing.stale_read,
        with_replica.plan == builder.plan,
        with_stale.read_routing.stale_read == stale_read,
        with_stale.read_routing.replica_read == builder.read_routing.replica_read,
        with_stale.plan == builder.plan,
        with_seed.read_routing.seed == seed,
        with_seed.read_routing.replica_read == builder.read_routing.replica_read,
        with_seed.plan == builder.plan,
{
    assert(with_replica.read_routing@.replica_read == with_replica.read_routing.replica_read);
    assert(with_replica.read_routing@.stale_read == with_replica.read_routing.stale_read);
    assert(with_stale.read_routing@.replica_read == with_stale.read_routing.replica_read);
    assert(with_stale.read_routing@.stale_read == with_stale.read_routing.stale_read);
    assert(with_seed.read_routing@.replica_read == with_seed.read_routing.replica_read);
    assert(with_seed.read_routing@.seed == with_seed.read_routing.seed);
}

/// The plan of many regions has the plan at hand inside, and all that the builder knows.
pub open spec fn is_for_regions<PdC: Clone, P, T, I>(
    builder: PlanBuilder<PdC, P, NoTarget, T, I>,
    backoff: Backoff,
    r: PlanBuilder<PdC, RetryableMultiRegion<P, PdC, T, I>, Targetted, T, I>,
) -> bool {
    &&& r.plan.inner == builder.plan
    &&& r.plan.backoff == backoff
    &&& r.plan.request_context@ == builder.request_context@
    &&& r.plan.read_routing@ == builder.read_routing@
    &&& r.request_context == builder.request_context
    &&& r.read_routing == builder.read_routing
    &&& r.pd_client == builder.pd_client
}

/// Shards are sent to their regions sixteen at a time unless the caller says otherwise, and the
/// results of all of them are kept apart just if the caller says so.
pub proof fn law_how_shards_are_sent<PdC: Clone, P, T, I>(
    builder: PlanBuilder<PdC, P, NoTarget, T, I>,
    backoff: Backoff,
    concurrency: usize,
    usual: PlanBuilder<PdC, RetryableMultiRegion<P, PdC, T, I>, Targetted, T, I>,
    limited: PlanBuilder<PdC, RetryableMultiRegion<P, PdC, T, I>, Targetted, T, I>,
    apart: PlanBuilder<PdC, RetryableMultiRegion<P, PdC, T, I>, Targetted, T, I>,
    both: PlanBuilder<PdC, RetryableMultiRegion<P, PdC, T, I>, Targetted, T, I>,
)
    requires
        call_ensures(
            PlanBuilder::<PdC, P, NoTarget, T, I>::retry_multi_region,
            (builder, backoff),
            usual,
        ),
        call_ensures(
            PlanBuilder::<PdC, P, NoTarget, T, I>::retry_multi_region_with_concurrency,
            (builder, backoff, concurrency),
            limited,
        ),
        call_ensures(
            PlanBuilder::<PdC, P, NoTarget, T, I>::retry_multi_region_preserve_results,
            (builder, backoff),
            apart,
        ),
        call_ensures(
            PlanBuilder::<
                PdC,
                P,
                NoTarget,
                T,
                I,
            >::retry_multi_region_preserve_results_with_concurrency,
            (builder, backoff, concurrency),
            both,
        ),
    ensures
        is_for_regions(builder, backoff, usual),
        usual.plan.concurrency == 16 && !usual.plan.preserve_region_results,
        is_for_regions(builder, backoff, limited),
        limited.plan.concurrency == concurrency && !limited.plan.preserve_region_results,
        is_for_regions(builder, backoff, apart),
        apart.plan.concurrency == 16 && apart.plan.preserve_region_results,
        is_for_regions(builder, backoff, both),
        both.plan.concurrency == concurrency && both.plan.preserve_region_results,
{
}

/// Locks are waited for as the caller says: with the delays that are given, and no longer than the
/// limit if there is one.
pub proof fn law_how_locks_are_waited_for<PdC: Clone, P, Ph, T, I>(
    builder: PlanBuilder<PdC, P, Ph, T, I>,
    backoff: Backoff,
    keyspace: Keyspace,
    limit: Option<u64>,
    unlimited: PlanBuilder<PdC, ResolveLock<P, PdC, T, I>, Ph, T, I>,
    limited: PlanBuilder<PdC, ResolveLock<P, PdC, T, I>, Ph, T, I>,
)
    requires
        call_ensures(
            PlanBuilder::<PdC, P, Ph, T, I>::resolve_lock,
            (builder, backoff, keyspace),
            unlimited,
        ),
        call_ensures(
            PlanBuilder::<PdC, P, Ph, T, I>::resolve_lock_with_timeout,
            (builder, backoff, keyspace, limit),
            limited,
        ),
    ensures
        unlimited.plan.inner == builder.plan && limited.plan.inner == builder.plan,
        unlimited.plan.backoff == backoff && limited.plan.backoff == backoff,
        unlimited.plan.keyspace == keyspace && limited.plan.keyspace == keyspace,
        unlimited.plan.lock_wait_timeout_ms is None,
        limited.plan.lock_wait_timeout_ms == limit,
        unlimited.plan.request_context@ == builder.request_context@,
        limited.plan.request_context@ == builder.request_context@,
        unlimited.plan.read_routing@ == builder.read_routing@,
        limited.plan.read_routing@ == builder.read_routing@,
{
}

/// The delays are the ten that double from two milliseconds on, up to half a second.
pub open spec fn are_the_usual_delays(backoff: Backoff) -> bool {
    &&& backoff.enabled
    &&& backoff.current_attempts == 0
    &&& backoff.max_attempts == 10
    &&& backoff.current_delay_ms == 2
    &&& backoff.max_delay_ms == 500
}

/// Both kinds of transactions wait in the usual way; who waits for nothing does not wait.
pub proof fn law_how_transactions_wait(
    optimistic: RetryOptions,
    pessimistic: RetryOptions,
    none: RetryOptions,
)
    requires
        call_ensures(RetryOptions::default_optimistic, (), optimistic),
        call_ensures(RetryOptions::default_pessimistic, (), pessimistic),
        call_ensures(RetryOptions::none, (), none),
    ensures
        are_the_usual_delays(optimistic.region_backoff),
        are_the_usual_delays(optimistic.lock_backoff),
        are_the_usual_delays(pessimistic.region_backoff),
        are_the_usual_delays(pessimistic.lock_backoff),
        !none.region_backoff.enabled,
        !none.lock_backoff.enabled,
{
}

/// Delays are what the caller asked for, or the usual ones, or none.
pub proof fn law_which_delays_there_are(
    base: u64,
    most: u64,
    attempts: u32,
    asked: Backoff,
    region: Backoff,
    optimistic: Backoff,
    pessimistic: Backoff,
    none: Backoff,
)
    requires
        call_ensures(Backoff::no_jitter_backoff, (base, most, attempts), asked),
        call_ensures(Backoff::default_region, (), region),
        call_ensures(Backoff::optimistic, (), optimistic),
        call_ensures(Backoff::pessimistic, (), pessimistic),
        call_ensures(Backoff::no_backoff, (), none),
    ensures
        asked.enabled && asked.current_attempts == 0 && asked.max_attempts == attempts
            && asked.current_delay_ms == base && asked.max_delay_ms == most,
        are_the_usual_delays(region),
        are_the_usual_delays(optimistic),
        are_the_usual_delays(pessimistic),
        !none.enabled,
{
}

/// At least one request is sent at a time, and otherwise as many as the plan says.
pub proof fn law_how_many_requests_are_sent_at_a_time<P, PdC, T, I>(
    plan: &RetryableMultiRegion<P, PdC, T, I>,
    r: usize,
)
    requires
        call_ensures(RetryableMultiRegion::<P, PdC, T, I>::permits, (plan,), r),
    ensures
        r >= 1,
        plan.concurrency >= 1 ==> r == plan.concurrency,
        plan.concurrency == 0 ==> r == 1,
{
}

/// A request is sent with the client that is attached, and not at all if there is none.
pub proof fn law_a_request_is_sent_with_the_attached_client<Req, C>(
    plan: &Dispatch<Req, C>,
    r: Result<&C>,
)
    requires
        call_ensures(Dispatch::<Req, C>::client, (plan,), r),
    ensures
        r is Ok <==> plan.kv_client is Some,
        r is Ok ==> *r->Ok_0 == plan.kv_client->0,
        r is Err ==> says(r->Err_0, "Dispatch plan executed without an attached kv_client"@),
{
}

/// A plan for a single region is sent with the client of its store, unless the request needs a
/// leader and there is none.
pub proof fn law_a_single_region_is_asked_through_its_store<
    PdC,
    C,
    T: Fn(&RpcContextInfo, &Context) -> Vec<u8>,
    I: Fn(&RpcContextInfo, Context) -> Context,
>(
    builder: HeadBuilder<PdC, C, T, I>,
    store: RegionStore<C, T, I>,
    r: Result<PlanBuilder<PdC, Dispatch<RequestHead, C>, Targetted, T, I>>,
)
    requires
        call_ensures(
            HeadBuilder::<PdC, C, T, I>::single_region_with_store,
            (builder, store),
            r,
        ),
    ensures
        r is Err <==> builder.plan.request.kind != RequestKind::GetHealthFeedback
            && store.region_with_leader.leader is None,
        r is Err ==> (r->Err_0 matches Error::LeaderNotFound { region } && region.id
            == store.region_with_leader.region.id),
        r is Ok ==> {
            &&& r->Ok_0.plan.kv_client == Some(store.client)
            &&& r->Ok_0.plan.request.kind == builder.plan.request.kind
            &&& r->Ok_0.pd_client == builder.pd_client
            &&& r->Ok_0.request_context == builder.request_context
            &&& r->Ok_0.read_routing == builder.read_routing
        },
{
    if r is Ok {
        let request = builder.plan.request.model();
        let sent = r->Ok_0.plan.request.model();
        let (led, routed) = choose|led: &mut RequestHead, routed: &mut RequestHead|
            #![trigger call_ensures(RequestHead::set_replica_read, (led, store.replica_read), ()),
                call_ensures(RequestHead::set_stale_read, (routed, store.stale_read), ())]
            {
                &&& led.model() == request.led(store.region_with_leader@)
                &&& call_ensures(RequestHead::set_replica_read, (led, store.replica_read), ())
                &&& *final(led) == *routed
                &&& call_ensures(RequestHead::set_stale_read, (routed, store.stale_read), ())
                &&& store.sends(final(routed).model(), sent)
            };
        assert(sent.payload == request.payload);
    }
}

/// A plan for all stores, one that keeps the shards and one that makes errors the result have the
/// plan at hand inside.
pub proof fn law_plans_have_the_plan_at_hand_inside<PdC: Clone, P, S, T, I>(
    builder: PlanBuilder<PdC, P, NoTarget, T, I>,
    backoff: Backoff,
    stores: PlanBuilder<PdC, RetryableAllStores<P, PdC>, Targetted, T, I>,
    shards: PlanBuilder<PdC, PreserveShard<P, S>, NoTarget, T, I>,
    targetted: PlanBuilder<PdC, P, Targetted, T, I>,
    errors: PlanBuilder<PdC, ExtractError<P>, Targetted, T, I>,
    plan: P,
)
    requires
        call_ensures(
            PlanBuilder::<PdC, P, NoTarget, T, I>::all_stores,
            (builder, backoff),
            stores,
        ),
        call_ensures(
            PlanBuilder::<PdC, P, NoTarget, T, I>::preserve_shard::<S>,
            (builder,),
            shards,
        ),
        call_ensures(PlanBuilder::<PdC, P, Targetted, T, I>::extract_error, (targetted,), errors),
        call_ensures(PlanBuilder::<PdC, P, Targetted, T, I>::plan, (targetted,), plan),
    ensures
        stores.plan.inner == builder.plan && stores.plan.backoff == backoff,
        shards.plan.inner == builder.plan && shards.plan.shard is None,
        errors.plan.inner == targetted.plan,
        plan == targetted.plan,
        stores.request_context == builder.request_context,
        shards.request_context == builder.request_context,
        errors.request_context == targetted.request_context,
{
}

/// What a caller lets see the requests is noted: a tagger, a single interceptor in place of all
/// others, or one more.
pub proof fn law_who_sees_the_requests<PdC, C, T, I>(
    builder: HeadBuilder<PdC, C, T, I>,
    tagger: T,
    tagged: HeadBuilder<PdC, C, T, I>,
    interceptor: RpcInterceptor<I>,
    single: HeadBuilder<PdC, C, T, I>,
)
    requires
        call_ensures(
            HeadBuilder::<PdC, C, T, I>::with_resource_group_tagger,
            (builder, tagger),
            tagged,
        ),
        call_ensures(
            HeadBuilder::<PdC, C, T, I>::with_rpc_interceptor,
            (builder, interceptor),
            single,
        ),
    ensures
        tagged.request_context.resource_group_tagger is Some,
        *tagged.request_context.resource_group_tagger->0 == tagger,
        tagged.plan == builder.plan,
        single.request_context.rpc_interceptors.interceptors@.len() == 1,
        single.request_context.rpc_interceptors.interceptors@[0]@ == interceptor@,
        single.plan == builder.plan,
        tagged.request_context@.rpc_interceptors == builder.request_context@.rpc_interceptors,
        single.request_context@.resource_group_tagger
            == builder.request_context@.resource_group_tagger,
{
    assert(tagged.request_context@.resource_group_tagger == Some(tagger));
    let seen = single.request_context@.rpc_interceptors;
    assert(seen == seq![interceptor@]);
    assert(seen.len() == single.request_context.rpc_interceptors.interceptors@.len());
    assert(seen[0] == single.request_context.rpc_interceptors.interceptors@[0]@);
}

} // verus!
