//! How a request to the placement driver goes on after a failure.

use vstd::prelude::*;

use crate::common::errors::{Error, Result};
use crate::common::text::decimal;
use crate::kv::format::says;
use crate::pd::retry::{
    min_ts_from_response, region_from_response, region_load_from_response, safepoint_is_taken,
    should_connect, store_from_response, PdRetry, PdRetryAction, PdRetryConfig,
};
use crate::proto::metapb::Store;
use crate::proto::pdpb::{GetRegionResponse, Timestamp, UpdateGcSafePointResponse};
use crate::region::{RegionWithLeader, StoreId};
use crate::region_cache::map::RegionLoadResult;

verus! {

/// A request is sent at once, unless it may not be sent at all.
pub proof fn law_a_request_is_sent_at_once(config: PdRetryConfig, r: (PdRetry, PdRetryAction))
    requires
        call_ensures(PdRetry::start, (config,), r),
    ensures
        r.1 is Call <==> config.leader_change_retry > 0,
        r.1 is Fail <==> config.leader_change_retry == 0,
        r.1 is Fail ==> says(r.1->Fail_0, "PdRetryConfig.leader_change_retry must be > 0"@),
        r.0.config == config,
        r.0.calls_left == config.leader_change_retry,
{
}

/// After a failure the client reconnects, as often as that may be tried, and remembers what went
/// wrong.
pub proof fn law_a_failed_request_makes_the_client_reconnect(error: Error)
    ensures
        forall|retry: &mut PdRetry, r: PdRetryAction| #[trigger]
            call_ensures(PdRetry::call_failed, (retry, error), r) ==> {
                &&& r is Reconnect
                &&& final(retry).last_error == Some(error)
                &&& final(retry).reconnects_left == retry.config.max_reconnect_attempts
                &&& final(retry).calls_left == retry.calls_left
                &&& final(retry).config == retry.config
            },
{
}

/// Once reconnected, the client sends the request again while it may, and else gives up with what
/// went wrong last. While reconnecting fails it waits and tries again, until it has no attempt left
/// and gives up with the failure to reconnect.
pub proof fn law_a_request_is_sent_again_once_reconnected(result: Result<()>)
    ensures
        forall|retry: &mut PdRetry, r: PdRetryAction|
            retry.calls_left > 0 && retry.last_error is Some && (result is Err
                ==> retry.reconnects_left > 0) && #[trigger] call_ensures(
                PdRetry::reconnected,
                (retry, result),
                r,
            ) ==> {
                &&& r is Call <==> result is Ok && retry.calls_left > 1
                &&& result is Ok && retry.calls_left == 1 ==> r == PdRetryAction::Fail(
                    retry.last_error->0,
                )
                &&& r is SleepThenReconnect <==> result is Err && retry.reconnects_left > 1
                &&& r matches PdRetryAction::SleepThenReconnect { delay_ns } ==> delay_ns
                    == retry.config.reconnect_interval_ns
                &&& result is Err && retry.reconnects_left == 1 ==> r == PdRetryAction::Fail(
                    result->Err_0,
                )
                &&& result is Ok ==> final(retry).calls_left == retry.calls_left - 1
                &&& result is Err ==> final(retry).calls_left == retry.calls_left
                    && final(retry).reconnects_left == retry.reconnects_left - 1
                    && final(retry).last_error == retry.last_error
                &&& final(retry).config == retry.config
            },
{
}

/// A client that has failed and reconnected this often still sends its request just if it has
/// failed less often than it may send it.
pub open spec fn is_run_of_failures(states: Seq<PdRetry>, actions: Seq<PdRetryAction>) -> bool {
    &&& states.len() > 0
    &&& actions.len() == states.len()
    &&& actions[0] is Call
    &&& states[0].calls_left == states[0].config.leader_change_retry > 0
    &&& forall|i: int|
        0 <= i < states.len() - 1 ==> actions[i] is Call && fails_and_reconnects(
            #[trigger] states[i],
            states[i + 1],
            actions[i + 1],
        )
}

/// The request fails, the client reconnects, and this is what it does then.
pub open spec fn fails_and_reconnects(
    before: PdRetry,
    after: PdRetry,
    action: PdRetryAction,
) -> bool {
    exists|failed: PdRetry|
        {
            &&& failed.calls_left == before.calls_left
            &&& failed.config == before.config
            &&& failed.is_reconnecting()
            &&& #[trigger] failed.goes_on(Ok(()), after, action)
        }
}

/// A request is sent as often as the configuration says if reconnecting succeeds each time: the
/// client gives up just after so many failures.
pub proof fn law_a_request_is_sent_as_often_as_it_may(
    states: Seq<PdRetry>,
    actions: Seq<PdRetryAction>,
    n: int,
)
    requires
        is_run_of_failures(states, actions),
        0 <= n < states.len(),
    ensures
        actions[n] is Call <==> n < states[0].config.leader_change_retry,
        actions[n] is Call || actions[n] is Fail,
        n <= states[0].config.leader_change_retry,
        states[n].calls_left == states[0].config.leader_change_retry - n,
        states[n].config == states[0].config,
    decreases n,
{
    if n > 0 {
        law_a_request_is_sent_as_often_as_it_may(states, actions, n - 1);
        assert(fails_and_reconnects(states[n - 1], states[n], actions[n]));
    }
}

/// The client connects anew just if more than the interval lies between the last time and the
/// beginning.
pub proof fn law_a_fresh_connection_is_kept(
    begin_ns: u128,
    last_connected_ns: u128,
    interval_ns: u128,
    r: bool,
)
    requires
        call_ensures(should_connect, (begin_ns, last_connected_ns, interval_ns), r),
    ensures
        r <==> begin_ns - last_connected_ns > interval_ns,
{
}

/// A response gives the region that it holds, with the leader and the buckets that it names; the
/// given error stands in for a region that it does not hold.
pub proof fn law_a_response_gives_its_region(
    resp: GetRegionResponse,
    missing: Error,
    load: Result<RegionLoadResult>,
    region: Result<RegionWithLeader>,
)
    requires
        call_ensures(region_load_from_response, (resp, missing), load),
        call_ensures(region_from_response, (resp, missing), region),
    ensures
        load is Ok <==> resp.region is Some,
        region is Ok <==> resp.region is Some,
        load is Ok ==> load->Ok_0.region.region == resp.region->0 && load->Ok_0.region.leader
            == resp.leader && load->Ok_0.buckets == resp.buckets,
        region is Ok ==> region->Ok_0.region == resp.region->0 && region->Ok_0.leader
            == resp.leader,
        load is Err ==> load->Err_0 == missing,
        region is Err ==> region->Err_0 == missing,
{
}

/// A response gives the store and the timestamp that it holds, and else an error that says what is
/// missing. A safe point is taken if the new one is the one that was asked for.
pub proof fn law_a_response_gives_what_it_holds(
    store: Option<Store>,
    id: StoreId,
    found: Result<Store>,
    timestamp: Option<Timestamp>,
    told: Result<Timestamp>,
    resp: &UpdateGcSafePointResponse,
    safepoint: u64,
    taken: bool,
)
    requires
        call_ensures(store_from_response, (store, id), found),
        call_ensures(min_ts_from_response, (timestamp,), told),
        call_ensures(safepoint_is_taken, (resp, safepoint), taken),
    ensures
        found is Ok <==> store is Some,
        found is Ok ==> found->Ok_0 == store->0,
        found is Err ==> says(
            found->Err_0,
            "missing store in PD GetStoreResponse (store_id="@ + decimal(id as nat) + ")"@,
        ),
        told is Ok <==> timestamp is Some,
        told is Ok ==> told->Ok_0 == timestamp->0,
        told is Err ==> says(told->Err_0, "missing timestamp in PD GetMinTsResponse"@),
        taken <==> resp.new_safe_point == safepoint,
{
}

} // verus!
