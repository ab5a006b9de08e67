//! What goes along with a request, and which part of a range it is for.

use vstd::prelude::*;

use crate::common::errors::{Error, Result};
use crate::interceptor::{
    is_run, position_of, replica_kind_for_peer, runs, ReplicaKind, RpcContextInfo, RpcInterceptor,
    RpcInterceptorChain, RpcInterceptorView,
};
use crate::kv::bound_range::{law_bounds_give_back_their_keys, law_bounds_mean_their_keys, BoundRange};
use crate::kv::key::Key;
use crate::kv::order::{lex_le, lex_lt};
use crate::proto::errorpb;
use crate::proto::kvrpcpb::{
    ApiVersion, CommandPri, Context, ContextView, DiskFullOpt, ResourceControlContextView,
};
use crate::proto::metapb::{Peer, PeerRole, StoreState};
use crate::region::{RegionVerId, RegionWithLeader, StoreId};
use crate::request::shard_run::Target;
use crate::request_context::RequestContext;
use crate::store::errors::{errors_view, only_error, take_only_error};
use crate::store::request::{BatchCommandKind, Request, RequestHead, RequestKind};
use crate::store::{
    law_the_intersection_holds_the_common_keys, range_intersection, range_to_cover,
    shard_of_range, RegionStore,
};

verus! {

/// A request goes by the name of its method.
pub proof fn law_each_request_has_its_name(kind: &RequestKind, r: &'static str)
    requires
        call_ensures(RequestKind::label, (kind,), r),
    ensures
        *kind == RequestKind::RawGet ==> r@ == "raw_get"@,
        *kind == RequestKind::RawBatchGet ==> r@ == "raw_batch_get"@,
        *kind == RequestKind::RawGetKeyTtl ==> r@ == "raw_get_key_ttl"@,
        *kind == RequestKind::RawPut ==> r@ == "raw_put"@,
        *kind == RequestKind::RawBatchPut ==> r@ == "raw_batch_put"@,
        *kind == RequestKind::RawDelete ==> r@ == "raw_delete"@,
        *kind == RequestKind::RawBatchDelete ==> r@ == "raw_batch_delete"@,
        *kind == RequestKind::RawScan ==> r@ == "raw_scan"@,
        *kind == RequestKind::RawBatchScan ==> r@ == "raw_batch_scan"@,
        *kind == RequestKind::RawDeleteRange ==> r@ == "raw_delete_range"@,
        *kind == RequestKind::RawCas ==> r@ == "raw_compare_and_swap"@,
        *kind == RequestKind::RawCoprocessor ==> r@ == "raw_coprocessor"@,
        *kind == RequestKind::RawChecksum ==> r@ == "raw_checksum"@,
        *kind == RequestKind::Coprocessor ==> r@ == "coprocessor"@,
        *kind == RequestKind::Get ==> r@ == "kv_get"@,
        *kind == RequestKind::Scan ==> r@ == "kv_scan"@,
        *kind == RequestKind::Prewrite ==> r@ == "kv_prewrite"@,
        *kind == RequestKind::Commit ==> r@ == "kv_commit"@,
        *kind == RequestKind::Cleanup ==> r@ == "kv_cleanup"@,
        *kind == RequestKind::BatchGet ==> r@ == "kv_batch_get"@,
        *kind == RequestKind::BatchRollback ==> r@ == "kv_batch_rollback"@,
        *kind == RequestKind::PessimisticRollback ==> r@ == "kv_pessimistic_rollback"@,
        *kind == RequestKind::ResolveLock ==> r@ == "kv_resolve_lock"@,
        *kind == RequestKind::ScanLock ==> r@ == "kv_scan_lock"@,
        *kind == RequestKind::Flush ==> r@ == "kv_flush"@,
        *kind == RequestKind::BufferBatchGet ==> r@ == "kv_buffer_batch_get"@,
        *kind == RequestKind::PessimisticLock ==> r@ == "kv_pessimistic_lock"@,
        *kind == RequestKind::TxnHeartBeat ==> r@ == "kv_txn_heart_beat"@,
        *kind == RequestKind::CheckTxnStatus ==> r@ == "kv_check_txn_status"@,
        *kind == RequestKind::CheckSecondaryLocks ==> r@ == "kv_check_secondary_locks_request"@,
        *kind == RequestKind::Gc ==> r@ == "kv_gc"@,
        *kind == RequestKind::DeleteRange ==> r@ == "kv_delete_range"@,
        *kind == RequestKind::UnsafeDestroyRange ==> r@ == "unsafe_destroy_range"@,
        *kind == RequestKind::BroadcastTxnStatus ==> r@ == "broadcast_txn_status"@,
        *kind == RequestKind::GetHealthFeedback ==> r@ == "get_health_feedback"@,
{
}

/// A request that can be sent among several ones is then the command of the same name; the others
/// can only be sent alone.
pub proof fn law_which_requests_can_be_sent_together(kind: &RequestKind, r: Option<BatchCommandKind>)
    requires
        call_ensures(RequestKind::batch_kind, (kind,), r),
    ensures
        r == Some(BatchCommandKind::RawGet) <==> *kind == RequestKind::RawGet,
        r == Some(BatchCommandKind::RawBatchGet) <==> *kind == RequestKind::RawBatchGet,
        r == Some(BatchCommandKind::RawPut) <==> *kind == RequestKind::RawPut,
        r == Some(BatchCommandKind::RawBatchPut) <==> *kind == RequestKind::RawBatchPut,
        r == Some(BatchCommandKind::RawDelete) <==> *kind == RequestKind::RawDelete,
        r == Some(BatchCommandKind::RawBatchDelete) <==> *kind == RequestKind::RawBatchDelete,
        r == Some(BatchCommandKind::RawScan) <==> *kind == RequestKind::RawScan,
        r == Some(BatchCommandKind::RawBatchScan) <==> *kind == RequestKind::RawBatchScan,
        r == Some(BatchCommandKind::RawDeleteRange) <==> *kind == RequestKind::RawDeleteRange,
        r == Some(BatchCommandKind::RawCoprocessor) <==> *kind == RequestKind::RawCoprocessor,
        r == Some(BatchCommandKind::Get) <==> *kind == RequestKind::Get,
        r == Some(BatchCommandKind::Scan) <==> *kind == RequestKind::Scan,
        r == Some(BatchCommandKind::Prewrite) <==> *kind == RequestKind::Prewrite,
        r == Some(BatchCommandKind::Commit) <==> *kind == RequestKind::Commit,
        r == Some(BatchCommandKind::Cleanup) <==> *kind == RequestKind::Cleanup,
        r == Some(BatchCommandKind::BatchGet) <==> *kind == RequestKind::BatchGet,
        r == Some(BatchCommandKind::BatchRollback) <==> *kind == RequestKind::BatchRollback,
        r == Some(BatchCommandKind::PessimisticRollback) <==> *kind == RequestKind::PessimisticRollback,
        r == Some(BatchCommandKind::ResolveLock) <==> *kind == RequestKind::ResolveLock,
        r == Some(BatchCommandKind::ScanLock) <==> *kind == RequestKind::ScanLock,
        r == Some(BatchCommandKind::Flush) <==> *kind == RequestKind::Flush,
        r == Some(BatchCommandKind::BufferBatchGet) <==> *kind == RequestKind::BufferBatchGet,
        r == Some(BatchCommandKind::PessimisticLock) <==> *kind == RequestKind::PessimisticLock,
        r == Some(BatchCommandKind::TxnHeartBeat) <==> *kind == RequestKind::TxnHeartBeat,
        r == Some(BatchCommandKind::CheckTxnStatus) <==> *kind == RequestKind::CheckTxnStatus,
        r == Some(BatchCommandKind::CheckSecondaryLocks) <==> *kind == RequestKind::CheckSecondaryLocks,
        r == Some(BatchCommandKind::Gc) <==> *kind == RequestKind::Gc,
        r == Some(BatchCommandKind::DeleteRange) <==> *kind == RequestKind::DeleteRange,
        r == Some(BatchCommandKind::BroadcastTxnStatus) <==> *kind == RequestKind::BroadcastTxnStatus,
        r == Some(BatchCommandKind::GetHealthFeedback) <==> *kind == RequestKind::GetHealthFeedback,
        r is None <==> *kind == RequestKind::RawGetKeyTtl || *kind == RequestKind::RawCas || *kind == RequestKind::RawChecksum || *kind == RequestKind::Coprocessor || *kind == RequestKind::UnsafeDestroyRange,
{
}

/// The numbers by which the protocol knows versions, priorities and options.
pub proof fn law_the_numbers_of_the_protocol(
    version: &ApiVersion,
    version_number: i32,
    priority: &CommandPri,
    priority_number: i32,
    option: &DiskFullOpt,
    option_number: i32,
)
    requires
        call_ensures(ApiVersion::number, (version,), version_number),
        call_ensures(CommandPri::number, (priority,), priority_number),
        call_ensures(DiskFullOpt::number, (option,), option_number),
    ensures
        version_number == 0 <==> *version == ApiVersion::V1,
        version_number == 1 <==> *version == ApiVersion::V1ttl,
        version_number == 2 <==> *version == ApiVersion::V2,
        priority_number == 0 <==> *priority == CommandPri::Normal,
        priority_number == 1 <==> *priority == CommandPri::Low,
        priority_number == 2 <==> *priority == CommandPri::High,
        option_number == 0 <==> *option == DiskFullOpt::NotAllowedOnFull,
        option_number == 1 <==> *option == DiskFullOpt::AllowedOnAlmostFull,
        option_number == 2 <==> *option == DiskFullOpt::AllowedOnAlreadyFull,
{
}

/// The numbers by which the protocol knows the roles of peers and the states of stores.
pub proof fn law_the_numbers_of_roles_and_states(
    role_number: i32,
    role: Option<PeerRole>,
    state_number: i32,
    state: Option<StoreState>,
)
    requires
        call_ensures(PeerRole::from_number, (role_number,), role),
        call_ensures(StoreState::from_number, (state_number,), state),
    ensures
        role == Some(PeerRole::Voter) <==> role_number == 0,
        role == Some(PeerRole::Learner) <==> role_number == 1,
        role == Some(PeerRole::IncomingVoter) <==> role_number == 2,
        role == Some(PeerRole::DemotingVoter) <==> role_number == 3,
        state == Some(StoreState::Up) <==> state_number == 0,
        state == Some(StoreState::Offline) <==> state_number == 1,
        state == Some(StoreState::Tombstone) <==> state_number == 2,
{
}

/// A peer on the store of the leader is the leader; any other is a learner if that is its role, and
/// else a follower.
pub proof fn law_which_part_a_peer_plays(leader: &Peer, peer: &Peer, r: ReplicaKind)
    requires
        call_ensures(replica_kind_for_peer, (leader, peer), r),
    ensures
        r == ReplicaKind::Leader <==> peer.store_id == leader.store_id,
        r == ReplicaKind::Learner <==> peer.store_id != leader.store_id && peer.role == 1,
        r == ReplicaKind::Follower <==> peer.store_id != leader.store_id && peer.role != 1,
{
}

proof fn lemma_position<I>(all: Seq<RpcInterceptorView<I>>, name: Seq<char>)
    ensures
        position_of(all, name) <= all.len(),
        position_of(all, name) < all.len() ==> all[position_of(all, name) as int].name == name,
        forall|i: int| 0 <= i < position_of(all, name) ==> (#[trigger] all[i]).name != name,
    decreases all.len(),
{
    if all.len() > 0 && all[0].name != name {
        let rest = all.skip(1);
        lemma_position(rest, name);
        assert forall|i: int| 0 <= i < position_of(all, name) implies (#[trigger] all[i]).name
            != name by {
            if i > 0 {
                assert(rest[i - 1].name != name);
            }
        }
    }
}

/// An interceptor comes behind all others unless there is one of its name, whose place it takes.
/// The others stay, in their order.
pub proof fn law_an_interceptor_takes_the_place_of_its_namesake<I>(interceptor: RpcInterceptor<I>)
    ensures
        forall|chain: &mut RpcInterceptorChain<I>| #[trigger]
            call_ensures(RpcInterceptorChain::<I>::link, (chain, interceptor), ()) ==> {
                let before = chain.interceptors@;
                let after = final(chain).interceptors@;
                exists|at: int|
                    {
                        &&& 0 <= at < after.len()
                        &&& (#[trigger] after[at])@ == interceptor@
                        &&& forall|i: int|
                            0 <= i < before.len() && i < at ==> (#[trigger] before[i]).name@
                                != interceptor.name@
                        &&& forall|i: int|
                            0 <= i < after.len() && i != at ==> i < before.len() && (
                            #[trigger] after[i])@ == before[i]@
                        &&& at < before.len() ==> before[at].name@ == interceptor.name@
                            && after.len() == before.len()
                        &&& at >= before.len() ==> at == before.len() && after.len()
                            == before.len() + 1
                    }
            },
{
    assert forall|chain: &mut RpcInterceptorChain<I>| #[trigger]
        call_ensures(RpcInterceptorChain::<I>::link, (chain, interceptor), ()) implies {
        let before = chain.interceptors@;
        let after = final(chain).interceptors@;
        exists|at: int|
            {
                &&& 0 <= at < after.len()
                &&& (#[trigger] after[at])@ == interceptor@
                &&& forall|i: int|
                    0 <= i < before.len() && i < at ==> (#[trigger] before[i]).name@
                        != interceptor.name@
                &&& forall|i: int|
                    0 <= i < after.len() && i != at ==> i < before.len() && (#[trigger] after[i])@
                        == before[i]@
                &&& at < before.len() ==> before[at].name@ == interceptor.name@ && after.len()
                    == before.len()
                &&& at >= before.len() ==> at == before.len() && after.len() == before.len() + 1
            }
    } by {
        let before = chain.interceptors@;
        let after = final(chain).interceptors@;
        let was = chain@;
        let is = final(chain)@;
        let at = position_of(was, interceptor@.name) as int;
        lemma_position(was, interceptor@.name);
        assert(was.len() == before.len() && is.len() == after.len());
        assert forall|i: int| 0 <= i < before.len() implies (#[trigger] before[i])@ == was[i] by {}
        assert forall|i: int| 0 <= i < after.len() implies (#[trigger] after[i])@ == is[i] by {}
        assert(after[at]@ == is[at]);
        assert forall|i: int| 0 <= i < before.len() && i < at implies (#[trigger] before[i]).name@
            != interceptor.name@ by {
            assert(was[i].name != interceptor@.name);
        }
        assert forall|i: int| 0 <= i < after.len() && i != at implies i < before.len() && (
        #[trigger] after[i])@ == before[i]@ by {
            assert(is[i] == was[i]);
        }
        if at < before.len() {
            assert(before[at]@ == was[at]);
        }
    }
}

/// Interceptors run in their order, each on what the one before it made.
pub proof fn law_interceptors_run_in_order<I: Fn(&RpcContextInfo, Context) -> Context>(
    chain: &RpcInterceptorChain<I>,
    info: &RpcContextInfo,
    context: Context,
    r: Context,
) -> (contexts: Seq<Context>)
    requires
        call_ensures(RpcInterceptorChain::<I>::apply, (chain, info, context), r),
    ensures
        contexts.len() == chain.interceptors@.len() + 1,
        contexts[0] == context,
        contexts[chain.interceptors@.len() as int] == r,
        forall|i: int|
            0 <= i < chain.interceptors@.len() ==> call_ensures(
                *(#[trigger] chain.interceptors@[i]).intercept,
                (info, contexts[i]),
                contexts[i + 1],
            ),
{
    let contexts = choose|contexts: Seq<Context>| #[trigger]
        is_run(chain@, *info, contexts) && contexts.first() == context && contexts.last() == r;
    assert(chain@.len() == chain.interceptors@.len());
    assert forall|i: int| 0 <= i < chain.interceptors@.len() implies call_ensures(
        *(#[trigger] chain.interceptors@[i]).intercept,
        (info, contexts[i]),
        contexts[i + 1],
    ) by {
        assert(chain@[i].intercept == *chain.interceptors@[i].intercept);
    }
    contexts
}

/// The context of the request, where nothing is set if it has none.
pub open spec fn context_of(request: RequestHead) -> ContextView {
    match request.context {
        Some(context) => context@,
        None => ContextView {
            region_id: 0,
            region_epoch: None,
            peer: None,
            priority: 0,
            api_version: 0,
            replica_read: false,
            stale_read: false,
            is_retry_request: false,
            disk_full_opt: 0,
            txn_source: 0,
            trace_control_flags: 0,
            trace_id: Seq::empty(),
            request_source: Seq::empty(),
            resource_group_tag: Seq::empty(),
            resource_control_context: None,
        },
    }
}

/// The control of resources, where nothing is set if there is none.
pub open spec fn control_of(context: ContextView) -> ResourceControlContextView {
    match context.resource_control_context {
        Some(control) => control,
        None => ResourceControlContextView {
            resource_group_name: Seq::empty(),
            override_priority: 0,
            penalty: None,
        },
    }
}

/// What the client sets stands in the request afterwards, and all else stays as it was.
pub proof fn law_what_is_set_stands_in_the_request<T, I>(
    set: &RequestContext<T, I>,
    request: RequestHead,
    r: RequestHead,
)
    requires
        call_ensures(RequestContext::<T, I>::apply_to::<RequestHead>, (set, request), r),
    ensures
        r.kind == request.kind,
        r.context is Some,
        ({
            let (was, is) = (context_of(request), context_of(r));
            &&& is.request_source == (if set.request_source is Some {
                set.request_source->0@
            } else {
                was.request_source
            })
            &&& is.resource_group_tag == (if set.resource_group_tag is Some {
                set.resource_group_tag->0@
            } else {
                was.resource_group_tag
            })
            &&& is.trace_id == (if set.trace_id is Some {
                set.trace_id->0@
            } else {
                was.trace_id
            })
            &&& is.txn_source == (if set.txn_source is Some {
                set.txn_source->0
            } else {
                was.txn_source
            })
            &&& is.trace_control_flags == (if set.trace_control_flags is Some {
                set.trace_control_flags->0
            } else {
                was.trace_control_flags
            })
            &&& set.priority is None ==> is.priority == was.priority
            &&& set.priority == Some(CommandPri::Normal) ==> is.priority == 0
            &&& set.priority == Some(CommandPri::Low) ==> is.priority == 1
            &&& set.priority == Some(CommandPri::High) ==> is.priority == 2
            &&& set.disk_full_opt is None ==> is.disk_full_opt == was.disk_full_opt
            &&& set.disk_full_opt == Some(DiskFullOpt::NotAllowedOnFull) ==> is.disk_full_opt == 0
            &&& set.disk_full_opt == Some(DiskFullOpt::AllowedOnAlmostFull) ==> is.disk_full_opt
                == 1
            &&& set.disk_full_opt == Some(DiskFullOpt::AllowedOnAlreadyFull) ==> is.disk_full_opt
                == 2
            &&& is.region_id == was.region_id && is.region_epoch == was.region_epoch && is.peer
                == was.peer
            &&& is.api_version == was.api_version && is.replica_read == was.replica_read
                && is.stale_read == was.stale_read && is.is_retry_request == was.is_retry_request
        }),
{
}

/// The control of resources changes in what is set of it, and is there if anything is.
pub proof fn law_what_is_set_of_resources_stands_in_the_request<T, I>(
    set: &RequestContext<T, I>,
    request: RequestHead,
    r: RequestHead,
)
    requires
        call_ensures(RequestContext::<T, I>::apply_to::<RequestHead>, (set, request), r),
    ensures
        ({
            let (was, is) = (context_of(request), context_of(r));
            let nothing = set.resource_group_name is None
                && set.resource_control_override_priority is None
                && set.resource_control_penalty is None;
            &&& nothing ==> is.resource_control_context == was.resource_control_context
            &&& !nothing ==> {
                &&& is.resource_control_context is Some
                &&& control_of(is).resource_group_name == (if set.resource_group_name is Some {
                    set.resource_group_name->0@
                } else {
                    control_of(was).resource_group_name
                })
                &&& control_of(is).override_priority == (
                if set.resource_control_override_priority is Some {
                    set.resource_control_override_priority->0
                } else {
                    control_of(was).override_priority
                })
                &&& control_of(is).penalty == (if set.resource_control_penalty is Some {
                    Some(set.resource_control_penalty->0.encoded@)
                } else {
                    control_of(was).penalty
                })
            }
        }),
{
}

/// A request that is not for a store as such is aimed at the leader of its region, and says how it
/// is to be read. Without a leader it is not sent. It says whether it was sent before, and where it
/// comes from if that is known. Without a tagger and without interceptors that is all.
pub proof fn law_a_request_is_aimed_at_its_region<
    C,
    T: Fn(&RpcContextInfo, &Context) -> Vec<u8>,
    I: Fn(&RpcContextInfo, Context) -> Context,
>(store: &RegionStore<C, T, I>)
    ensures
        forall|request: &mut RequestHead, r: Result<()>| #[trigger]
            call_ensures(
                RegionStore::<C, T, I>::apply_to_request::<RequestHead>,
                (store, request),
                r,
            ) ==> {
                let leader = store.region_with_leader.leader;
                let for_region = request.kind != RequestKind::GetHealthFeedback;
                let (was, is) = (context_of(*request), context_of(*final(request)));
                &&& r is Err <==> for_region && leader is None
                &&& r is Err ==> (r->Err_0 matches Error::LeaderNotFound { region } && region.id
                    == store.region_with_leader.region.id)
                &&& final(request).kind == request.kind
                &&& r is Ok && store.request_context.rpc_interceptors.interceptors@.len() == 0 && (
                store.request_context.resource_group_tagger is None
                    || store.request_context.resource_group_tag is Some) ==> {
                    &&& is.is_retry_request <==> store.attempt > 0
                    &&& is.request_source == (if store.patched_request_source is Some {
                        store.patched_request_source->0@
                    } else {
                        was.request_source
                    })
                    &&& is.region_id == (if for_region {
                        store.region_with_leader.region.id
                    } else {
                        was.region_id
                    })
                    &&& is.region_epoch == (if for_region {
                        store.region_with_leader.region.region_epoch
                    } else {
                        was.region_epoch
                    })
                    &&& is.peer == (if for_region {
                        leader
                    } else {
                        was.peer
                    })
                    &&& is.replica_read == (if for_region {
                        store.replica_read
                    } else {
                        was.replica_read
                    })
                    &&& is.stale_read == (if for_region {
                        store.stale_read
                    } else {
                        was.stale_read
                    })
                    &&& is.priority == was.priority && is.api_version == was.api_version
                        && is.disk_full_opt == was.disk_full_opt && is.txn_source
                        == was.txn_source && is.trace_control_flags == was.trace_control_flags
                        && is.trace_id == was.trace_id && is.resource_group_tag
                        == was.resource_group_tag && is.resource_control_context
                        == was.resource_control_context
                }
            },
{
    assert forall|request: &mut RequestHead, r: Result<()>| #[trigger]
        call_ensures(
            RegionStore::<C, T, I>::apply_to_request::<RequestHead>,
            (store, request),
            r,
        ) && (request.kind == RequestKind::GetHealthFeedback
            || store.region_with_leader.leader is Some) implies {
        &&& r is Ok
        &&& exists|routed: RequestHead| #[trigger] is_routed(*store, *request, routed)
            && store.sends(routed.model(), final(request).model())
    } by {
        let (led, routed) = choose|led: &mut RequestHead, routed: &mut RequestHead|
            #![trigger call_ensures(RequestHead::set_replica_read, (led, store.replica_read), ()),
                call_ensures(RequestHead::set_stale_read, (routed, store.stale_read), ())]
            {
                &&& led.model() == request.model().led(store.region_with_leader@)
                &&& call_ensures(RequestHead::set_replica_read, (led, store.replica_read), ())
                &&& *final(led) == *routed
                &&& call_ensures(RequestHead::set_stale_read, (routed, store.stale_read), ())
                &&& store.sends(final(routed).model(), final(request).model())
            };
        assert(is_routed(*store, *request, *final(routed)));
    }
    assert forall|request: &mut RequestHead, r: Result<()>| #[trigger]
        call_ensures(
            RegionStore::<C, T, I>::apply_to_request::<RequestHead>,
            (store, request),
            r,
        ) && (request.kind == RequestKind::GetHealthFeedback
            || store.region_with_leader.leader is Some) implies {
        &&& final(request).kind == request.kind
        &&& store.request_context.rpc_interceptors.interceptors@.len() == 0 && (
        store.request_context.resource_group_tagger is None
            || store.request_context.resource_group_tag is Some) ==> exists|routed: RequestHead|
            #[trigger] is_routed(*store, *request, routed) && final(request).model()
                == store.aimed(routed.model())
    } by {
        let routed = choose|routed: RequestHead| #[trigger] is_routed(*store, *request, routed)
            && store.sends(routed.model(), final(request).model());
        let (info, tagged, sent) = choose|info: RpcContextInfo, tagged: Context, sent: Context|
            {
                &&& #[trigger] runs(store.request_context@.rpc_interceptors, info, tagged, sent)
                &&& store.info(routed.model().label, info)
                &&& store.tags(routed.model(), info, routed.model().with(tagged@))
                &&& final(request).model() == routed.model().with(sent@)
            };
        assert(store.request_context@.rpc_interceptors.len()
            == store.request_context.rpc_interceptors.interceptors@.len());
        if store.request_context@.rpc_interceptors.len() == 0 {
            assert(tagged == sent);
        }
        assert(is_routed(*store, *request, routed));
    }
}

/// The request says where it goes and how it is to be read.
spec fn is_routed<C, T, I>(
    store: RegionStore<C, T, I>,
    request: RequestHead,
    routed: RequestHead,
) -> bool {
    routed.model() == request.model().led(store.region_with_leader@).with_replica_read(
        store.replica_read,
    ).with_stale_read(store.stale_read)
}

/// The code of the caller is told which region, store and peer the request goes to, how it is read,
/// and how often it was tried.
pub open spec fn is_told_of<C, T, I>(
    store: RegionStore<C, T, I>,
    kind: RequestKind,
    info: RpcContextInfo,
) -> bool {
    &&& info.label@ == kind.spec_label()
    &&& info.attempt == store.attempt
    &&& info.region_id == Some(store.region_with_leader.region.id)
    &&& store.region_with_leader.leader is Some ==> info.store_id == Some(
        store.region_with_leader.leader->0.store_id,
    )
    &&& store.region_with_leader.leader is None ==> info.store_id is None
    &&& info.replica_kind == store.replica_kind
    &&& info.replica_read == store.replica_read
    &&& info.stale_read == store.stale_read
}

/// The interceptors have the last word on a request. Before that the tagger gives it a tag, but not
/// where one is fixed.
pub proof fn law_the_interceptors_have_the_last_word<
    C,
    T: Fn(&RpcContextInfo, &Context) -> Vec<u8>,
    I: Fn(&RpcContextInfo, Context) -> Context,
>(store: &RegionStore<C, T, I>)
    ensures
        forall|request: &mut RequestHead, r: Result<()>| #[trigger]
            call_ensures(
                RegionStore::<C, T, I>::apply_to_request::<RequestHead>,
                (store, request),
                r,
            ) && r is Ok ==> exists|info: RpcContextInfo, tagged: Context, sent: Context|
                {
                    &&& #[trigger] runs(store.request_context.rpc_interceptors@, info, tagged, sent)
                    &&& is_told_of(*store, request.kind, info)
                    &&& context_of(*final(request)) == sent@
                    &&& store.request_context.resource_group_tag is Some || store.request_context.resource_group_tagger is None
                        ==> tagged.resource_group_tag@ == context_of(*request).resource_group_tag
                    &&& store.request_context.resource_group_tag is None && store.request_context.resource_group_tagger is Some
                        ==> exists|untagged: Context, tag: Vec<u8>|
                        #![trigger call_ensures(*store.request_context.resource_group_tagger->0, (&info, &untagged), tag)]
                        call_ensures(*store.request_context.resource_group_tagger->0, (&info, &untagged), tag)
                            && tagged@ == (ContextView { resource_group_tag: tag@, ..untagged@ })
                            && untagged.resource_group_tag@ == context_of(
                            *request,
                        ).resource_group_tag
                },
{
    assert forall|request: &mut RequestHead, r: Result<()>| #[trigger]
        call_ensures(
            RegionStore::<C, T, I>::apply_to_request::<RequestHead>,
            (store, request),
            r,
        ) && r is Ok implies exists|info: RpcContextInfo, tagged: Context, sent: Context|
        {
            &&& #[trigger] runs(store.request_context.rpc_interceptors@, info, tagged, sent)
            &&& is_told_of(*store, request.kind, info)
            &&& context_of(*final(request)) == sent@
            &&& store.request_context.resource_group_tag is Some || store.request_context.resource_group_tagger is None
                ==> tagged.resource_group_tag@ == context_of(*request).resource_group_tag
            &&& store.request_context.resource_group_tag is None && store.request_context.resource_group_tagger is Some ==> exists|
                untagged: Context,
                tag: Vec<u8>,
            |
                #![trigger call_ensures(*store.request_context.resource_group_tagger->0, (&info, &untagged), tag)]
                call_ensures(*store.request_context.resource_group_tagger->0, (&info, &untagged), tag) && tagged@ == (
                ContextView { resource_group_tag: tag@, ..untagged@ })
                    && untagged.resource_group_tag@ == context_of(*request).resource_group_tag
        } by {
        let (led, routed) = choose|led: &mut RequestHead, routed: &mut RequestHead|
            #![trigger call_ensures(RequestHead::set_replica_read, (led, store.replica_read), ()),
                call_ensures(RequestHead::set_stale_read, (routed, store.stale_read), ())]
            {
                &&& led.model() == request.model().led(store.region_with_leader@)
                &&& call_ensures(RequestHead::set_replica_read, (led, store.replica_read), ())
                &&& *final(led) == *routed
                &&& call_ensures(RequestHead::set_stale_read, (routed, store.stale_read), ())
                &&& store.sends(final(routed).model(), final(request).model())
            };
        assert(is_routed(*store, *request, *final(routed)));
        let aimed = final(routed).model();
        let (info, tagged, sent) = choose|info: RpcContextInfo, tagged: Context, sent: Context|
            {
                &&& #[trigger] runs(store.request_context@.rpc_interceptors, info, tagged, sent)
                &&& store.info(aimed.label, info)
                &&& store.tags(aimed, info, aimed.with(tagged@))
                &&& final(request).model() == aimed.with(sent@)
            };
        let set = store.request_context;
        assert(set@.rpc_interceptors == set.rpc_interceptors@);
        assert(runs(set.rpc_interceptors@, info, tagged, sent));
        assert(tagged@.resource_group_tag == tagged.resource_group_tag@);
        assert(aimed.with(tagged@).context == Some(tagged@));
        if set.resource_group_tag is None && set.resource_group_tagger is Some {
            let tagger = set@.resource_group_tagger;
            assert(tagger == Some(*set.resource_group_tagger->0));
            let (untagged, tag) = choose|untagged: Context, tag: Vec<u8>|
                #![trigger call_ensures(tagger->0, (&info, &untagged), tag)]
                {
                    &&& store.aimed(aimed).context == Some(untagged@)
                    &&& call_ensures(tagger->0, (&info, &untagged), tag)
                    &&& aimed.with(tagged@) == store.aimed(aimed).with(
                        ContextView { resource_group_tag: tag@, ..untagged@ },
                    )
                };
            assert(call_ensures(*set.resource_group_tagger->0, (&info, &untagged), tag));
            assert(untagged@.resource_group_tag == untagged.resource_group_tag@);
        } else {
            assert(store.aimed(aimed).context == Some(tagged@));
        }
    }
}

/// The key lies in the range, which has no end if its end is empty.
pub open spec fn is_within(range: (Seq<u8>, Seq<u8>), key: Seq<u8>) -> bool {
    lex_le(range.0, key) && (range.1.len() == 0 || lex_lt(key, range.1))
}

/// The part of a range that a region serves holds just the keys that lie in both.
pub proof fn law_a_region_serves_its_part_of_a_range(
    range: &(Vec<u8>, Vec<u8>),
    region: &RegionWithLeader,
    r: (Vec<u8>, Vec<u8>),
    key: Seq<u8>,
)
    requires
        call_ensures(shard_of_range, (range, region), r),
    ensures
        is_within((r.0@, r.1@), key) <==> is_within((range.0@, range.1@), key) && is_within(
            (region.region.start_key@, region.region.end_key@),
            key,
        ),
{
    assert(region@.region.start_key == region.region.start_key@);
    law_the_intersection_holds_the_common_keys(
        (region.region.start_key@, region.region.end_key@),
        (range.0@, range.1@),
        key,
    );
}

/// The intersection of two ranges holds just the keys that lie in both.
pub proof fn law_ranges_meet_where_both_lie(
    region_range: (Key, Key),
    range: (Key, Key),
    r: (Key, Key),
    key: Seq<u8>,
)
    requires
        call_ensures(range_intersection, (region_range, range), r),
    ensures
        is_within((r.0@, r.1@), key) <==> is_within((region_range.0@, region_range.1@), key)
            && is_within((range.0@, range.1@), key),
{
    law_the_intersection_holds_the_common_keys(
        (region_range.0@, region_range.1@),
        (range.0@, range.1@),
        key,
    );
}

/// A request for a range goes to the regions of just its keys.
pub proof fn law_a_range_is_covered(range: &(Vec<u8>, Vec<u8>), r: BoundRange, key: Seq<u8>)
    requires
        call_ensures(range_to_cover, (range,), r),
    ensures
        r.has(key) <==> is_within((range.0@, range.1@), key),
{
    law_bounds_mean_their_keys(r.from.bytes(), r.to.bytes(), key);
    law_bounds_give_back_their_keys(range.0@, range.1@);
}

/// A region holds the keys of its range, and is known by its id and its epoch. Requests for it go
/// to the store of its leader.
pub proof fn law_what_is_known_of_a_region(
    region: &RegionWithLeader,
    key: &Key,
    holds: bool,
    range: (Key, Key),
    ver_id: RegionVerId,
    store: Result<StoreId>,
)
    requires
        call_ensures(RegionWithLeader::contains, (region, key), holds),
        call_ensures(RegionWithLeader::range, (region,), range),
        call_ensures(RegionWithLeader::ver_id, (region,), ver_id),
        call_ensures(RegionWithLeader::get_store_id, (region,), store),
    ensures
        holds <==> is_within((region.region.start_key@, region.region.end_key@), key@),
        holds <==> is_within((range.0@, range.1@), key@),
        ver_id.id == region.region.id,
        region.region.region_epoch is Some ==> ver_id.conf_ver
            == region.region.region_epoch->0.conf_ver && ver_id.ver
            == region.region.region_epoch->0.version,
        region.region.region_epoch is None ==> ver_id.conf_ver == 0 && ver_id.ver == 0,
        store is Ok <==> region.leader is Some,
        store is Ok ==> store->Ok_0 == region.leader->0.store_id,
        store is Err ==> (store->Err_0 matches Error::LeaderNotFound { region: id } && id == ver_id),
{
    assert(region@.region.start_key == region.region.start_key@);
    assert(region@.region.end_key == region.region.end_key@);
}

/// What is set on a request stands in its context, and nothing else changes: texts and tags.
pub proof fn law_texts_are_set_on_a_request(source: &str, tag: &[u8], name: &str)
    ensures
        forall|request: &mut RequestHead| #[trigger]
            call_ensures(RequestHead::set_request_source, (request, source), ())
                ==> context_of(*final(request)) == (ContextView {
                request_source: source@,
                ..context_of(*request)
            }) && final(request).kind == request.kind,
        forall|request: &mut RequestHead| #[trigger]
            call_ensures(RequestHead::set_resource_group_tag, (request, tag), ())
                ==> context_of(*final(request)) == (ContextView {
                resource_group_tag: tag@,
                ..context_of(*request)
            }) && final(request).kind == request.kind,
        forall|request: &mut RequestHead| #[trigger]
            call_ensures(RequestHead::set_resource_group_name, (request, name), ())
                ==> control_of(context_of(*final(request))) == (ResourceControlContextView {
                resource_group_name: name@,
                ..control_of(context_of(*request))
            }) && final(request).kind == request.kind,
{
}

/// What is set on a request stands in its context, and nothing else changes: numbers.
pub proof fn law_numbers_are_set_on_a_request(
    priority: CommandPri,
    option: DiskFullOpt,
    version: ApiVersion,
    number: u64,
)
    ensures
        forall|request: &mut RequestHead| #[trigger]
            call_ensures(RequestHead::set_priority, (request, priority), ()) ==> {
                let is = context_of(*final(request));
                &&& is == (ContextView { priority: is.priority, ..context_of(*request) })
                &&& priority == CommandPri::Normal <==> is.priority == 0
                &&& priority == CommandPri::Low <==> is.priority == 1
                &&& priority == CommandPri::High <==> is.priority == 2
            },
        forall|request: &mut RequestHead| #[trigger]
            call_ensures(RequestHead::set_disk_full_opt, (request, option), ()) ==> {
                let is = context_of(*final(request));
                &&& is == (ContextView { disk_full_opt: is.disk_full_opt, ..context_of(*request) })
                &&& option == DiskFullOpt::NotAllowedOnFull <==> is.disk_full_opt == 0
                &&& option == DiskFullOpt::AllowedOnAlmostFull <==> is.disk_full_opt == 1
                &&& option == DiskFullOpt::AllowedOnAlreadyFull <==> is.disk_full_opt == 2
            },
        forall|request: &mut RequestHead| #[trigger]
            call_ensures(RequestHead::set_api_version, (request, version), ()) ==> {
                let is = context_of(*final(request));
                &&& is == (ContextView { api_version: is.api_version, ..context_of(*request) })
                &&& version == ApiVersion::V1 <==> is.api_version == 0
                &&& version == ApiVersion::V1ttl <==> is.api_version == 1
                &&& version == ApiVersion::V2 <==> is.api_version == 2
            },
        forall|request: &mut RequestHead| #[trigger]
            call_ensures(RequestHead::set_txn_source, (request, number), ()) ==> context_of(
                *final(request),
            ) == (ContextView { txn_source: number, ..context_of(*request) }),
        forall|request: &mut RequestHead| #[trigger]
            call_ensures(
                RequestHead::set_resource_control_override_priority,
                (request, number),
                (),
            ) ==> control_of(context_of(*final(request))) == (ResourceControlContextView {
                override_priority: number,
                ..control_of(context_of(*request))
            }),
{
}

/// A request for a region says whether a follower may answer and whether a stale answer will do; a
/// request for a store as such says neither.
pub proof fn law_only_requests_for_regions_say_how_they_are_read(flag: bool)
    ensures
        forall|request: &mut RequestHead| #[trigger]
            call_ensures(RequestHead::set_replica_read, (request, flag), ()) ==> {
                let is = context_of(*final(request));
                &&& request.kind == RequestKind::GetHealthFeedback ==> is == context_of(*request)
                &&& request.kind != RequestKind::GetHealthFeedback ==> is == (ContextView {
                    replica_read: flag,
                    ..context_of(*request)
                })
            },
        forall|request: &mut RequestHead| #[trigger]
            call_ensures(RequestHead::set_stale_read, (request, flag), ()) ==> {
                let is = context_of(*final(request));
                &&& request.kind == RequestKind::GetHealthFeedback ==> is == context_of(*request)
                &&& request.kind != RequestKind::GetHealthFeedback ==> is == (ContextView {
                    stale_read: flag,
                    ..context_of(*request)
                })
            },
{
}

/// A request for a region is aimed at the leader that the region has, in its epoch; without a
/// leader it cannot be. A request for a store as such is left alone.
pub proof fn law_a_request_goes_to_the_leader(leader: &RegionWithLeader)
    ensures
        forall|request: &mut RequestHead, r: Result<()>| #[trigger]
            call_ensures(RequestHead::set_leader, (request, leader), r) ==> {
                let (was, is) = (context_of(*request), context_of(*final(request)));
                let for_region = request.kind != RequestKind::GetHealthFeedback;
                &&& r is Err <==> for_region && leader.leader is None
                &&& !for_region || leader.leader is None ==> is == was
                &&& for_region && leader.leader is Some ==> is == (ContextView {
                    region_id: leader.region.id,
                    region_epoch: leader.region.region_epoch,
                    peer: leader.leader,
                    ..was
                })
            },
{
}

/// Requests to a store go to the peer that they are aimed at, and say so; the region and the client
/// stay.
pub proof fn law_requests_go_where_they_are_aimed_at<C, T, I>(
    store: RegionStore<C, T, I>,
    target: Target,
    set: RequestContext<T, I>,
    r: RegionStore<C, T, I>,
    region: RegionWithLeader,
    client: C,
    plain: RegionStore<C, T, I>,
)
    requires
        call_ensures(RegionStore::<C, T, I>::aim, (store, target, set), r),
        call_ensures(RegionStore::<C, T, I>::new, (region, client), plain),
    ensures
        r.region_with_leader == store.region_with_leader && r.client == store.client,
        r.replica_read == target.read_peer.replica_read,
        r.stale_read == target.read_peer.stale_read,
        r.attempt == target.attempt,
        r.patched_request_source == target.request_source,
        r.replica_kind == Some(target.replica_kind),
        r.request_context == set,
        plain.region_with_leader == region && plain.client == client,
        !plain.replica_read && !plain.stale_read && plain.attempt == 0,
        plain.patched_request_source is None && plain.replica_kind is None,
        plain.request_context.rpc_interceptors.interceptors@.len() == 0,
{
    assert(plain.request_context@.rpc_interceptors.len()
        == plain.request_context.rpc_interceptors.interceptors@.len());
}

/// The only error of a response is taken out of it, and is there no more.
pub proof fn law_the_only_error_is_taken_out()
    ensures
        forall|error: &mut Option<errorpb::Error>, r: Option<Vec<errorpb::Error>>| #[trigger]
            call_ensures(take_only_error, (error,), r) ==> {
                &&& r is Some <==> *error is Some
                &&& r is Some ==> r->0@.len() == 1 && r->0@[0] == (*error)->0
                &&& *final(error) is None
            },
{
    assert forall|error: &mut Option<errorpb::Error>, r: Option<Vec<errorpb::Error>>| #[trigger]
        call_ensures(take_only_error, (error,), r) implies {
        &&& r is Some <==> *error is Some
        &&& r is Some ==> r->0@.len() == 1 && r->0@[0] == (*error)->0
        &&& *final(error) is None
    } by {
        assert(errors_view(r) == only_error(*error));
    }
}

} // verus!
