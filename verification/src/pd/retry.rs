//! How often requests to the placement driver are tried.

use vstd::prelude::*;

use crate::common::errors::{internal_err, Error, Result};
use crate::common::text::{decimal, with_decimal};
use crate::proto::keyspacepb::KeyspaceMeta;
use crate::proto::metapb::Store;
use crate::proto::pdpb::{GetRegionResponse, Timestamp, UpdateGcSafePointResponse};
use crate::region::{RegionId, RegionWithLeader, StoreId};
use crate::region_cache::map::RegionLoadResult;

verus! {

/// How often requests to the placement driver are tried.
#[derive(Clone, Copy, Debug, PartialEq, Eq, Structural)]
pub struct PdRetryConfig {
    /// The time between two attempts to reconnect, in nanoseconds.
    pub reconnect_interval_ns: u128,
    /// How often to try to reconnect.
    pub max_reconnect_attempts: usize,
    /// How often to try the request.
    pub leader_change_retry: usize,
}

/// What to do next about a request to the placement driver.
#[derive(Debug, PartialEq)]
pub enum PdRetryAction {
    /// Send the request.
    Call,
    /// Reconnect to the leader.
    Reconnect,
    /// Wait, and then reconnect to the leader.
    SleepThenReconnect { delay_ns: u128 },
    /// Give up.
    Fail(Error),
}

/// A request to the placement driver that is being tried.
#[derive(Debug)]
pub struct PdRetry {
    pub config: PdRetryConfig,
    /// How often the request may still be tried, the present attempt included.
    pub calls_left: usize,
    /// How often to try to reconnect, the present attempt included.
    pub reconnects_left: usize,
    /// What the last attempt failed with.
    pub last_error: Option<Error>,
}

impl PdRetry {
    /// The request is being tried for the first time.
    pub fn start(config: PdRetryConfig) -> (r: (PdRetry, PdRetryAction))
        ensures
            r.0.config == config,
            r.0.calls_left == config.leader_change_retry,
            r.0.reconnects_left == 0,
            r.0.last_error is None,
            config.leader_change_retry > 0 ==> r.1 is Call,
            config.leader_change_retry == 0 ==> r.1 is Fail && r.1->0.is_internal(
                "PdRetryConfig.leader_change_retry must be > 0"@,
            ),
    {
        let retry = PdRetry {
            config,
            calls_left: config.leader_change_retry,
            reconnects_left: 0,
            last_error: None,
        };
        let action = if config.leader_change_retry == 0 {
            PdRetryAction::Fail(internal_err("PdRetryConfig.leader_change_retry must be > 0"))
        } else {
            PdRetryAction::Call
        };
        (retry, action)
    }

    /// The request has failed.
    pub fn call_failed(&mut self, error: Error) -> (r: PdRetryAction)
        ensures
            r is Reconnect,
            *final(self) == (PdRetry {
                reconnects_left: old(self).config.max_reconnect_attempts,
                last_error: Some(error),
                ..*old(self)
            }),
    {
        self.last_error = Some(error);
        self.reconnects_left = self.config.max_reconnect_attempts;
        PdRetryAction::Reconnect
    }

    /// What becomes of the request, and what is to be done, after an attempt to reconnect.
    pub open spec fn goes_on(self, result: Result<()>, after: PdRetry, action: PdRetryAction) -> bool {
        match result {
            Ok(()) => {
                &&& after.calls_left == self.calls_left - 1
                &&& after.config == self.config
                &&& after.reconnects_left == self.reconnects_left
                &&& self.calls_left > 1 ==> action is Call && after.last_error == self.last_error
                &&& self.calls_left == 1 ==> action == PdRetryAction::Fail(self.last_error->0)
            },
            Err(error) => {
                &&& after == (PdRetry {
                    reconnects_left: (self.reconnects_left - 1) as usize,
                    ..self
                })
                &&& action == (if self.reconnects_left == 1 {
                    PdRetryAction::Fail(error)
                } else {
                    PdRetryAction::SleepThenReconnect {
                        delay_ns: self.config.reconnect_interval_ns,
                    }
                })
            },
        }
    }

    /// The request has failed, and an attempt to reconnect is under way.
    pub open spec fn is_reconnecting(self) -> bool {
        &&& 0 < self.calls_left <= self.config.leader_change_retry
        &&& self.reconnects_left <= self.config.max_reconnect_attempts
        &&& self.last_error is Some
    }

    /// The attempt to reconnect has succeeded or failed.
    pub fn reconnected(&mut self, result: Result<()>) -> (r: PdRetryAction)
        requires
            old(self).is_reconnecting(),
            result is Err ==> old(self).reconnects_left > 0,
        ensures
            old(self).goes_on(result, *final(self), r),
    {
        match result {
            Ok(()) => {
                self.calls_left = self.calls_left - 1;
                if self.calls_left > 0 {
                    return PdRetryAction::Call;
                }
                match self.last_error.take() {
                    Some(error) => PdRetryAction::Fail(error),
                    None => PdRetryAction::Fail(
                        internal_err("pd retry loop exhausted without producing an error"),
                    ),
                }
            },
            Err(error) => {
                self.reconnects_left = self.reconnects_left - 1;
                if self.reconnects_left == 0 {
                    PdRetryAction::Fail(error)
                } else {
                    PdRetryAction::SleepThenReconnect {
                        delay_ns: self.config.reconnect_interval_ns,
                    }
                }
            },
        }
    }
}

/// Each attempt to reconnect uses itself up, and each one that succeeds an attempt to send the
/// request. So a request is sent no more often, and between two times reconnecting is tried no
/// more often, than the configuration says.
pub proof fn law_retries_are_bounded(
    before: PdRetry,
    result: Result<()>,
    after: PdRetry,
    action: PdRetryAction,
)
    requires
        before.is_reconnecting(),
        result is Err ==> before.reconnects_left > 0,
        before.goes_on(result, after, action),
    ensures
        after.calls_left + after.reconnects_left + 1 == before.calls_left + before.reconnects_left,
        action is Call ==> 0 < after.calls_left < after.config.leader_change_retry,
        action is SleepThenReconnect ==> after.is_reconnecting() && after.reconnects_left > 0,
        action !is Reconnect,
{
}

/// Whether to connect anew. Where another task has connected within the interval before this one
/// began, the connection is fresh enough. All times are in nanoseconds.
pub fn should_connect(begin_ns: u128, last_connected_ns: u128, interval_ns: u128) -> (r: bool)
    ensures
        r == (begin_ns > last_connected_ns + interval_ns),
{
    begin_ns > last_connected_ns && begin_ns - last_connected_ns > interval_ns
}

/// The region of a response and its buckets, or the given error if the response has none.
pub fn region_load_from_response(resp: GetRegionResponse, missing: Error) -> (r: Result<
    RegionLoadResult,
>)
    ensures
        match resp.region {
            Some(region) => r == Ok::<RegionLoadResult, Error>(
                RegionLoadResult {
                    region: RegionWithLeader { region, leader: resp.leader },
                    buckets: resp.buckets,
                },
            ),
            None => r == Err::<RegionLoadResult, Error>(missing),
        },
{
    match resp.region {
        Some(region) => Ok(
            RegionLoadResult::new(
                RegionWithLeader { region, leader: resp.leader },
                resp.buckets,
            ),
        ),
        None => Err(missing),
    }
}

/// The region of a response, or the given error if the response has none.
pub fn region_from_response(resp: GetRegionResponse, missing: Error) -> (r: Result<
    RegionWithLeader,
>)
    ensures
        match resp.region {
            Some(region) => r == Ok::<RegionWithLeader, Error>(
                RegionWithLeader { region, leader: resp.leader },
            ),
            None => r == Err::<RegionWithLeader, Error>(missing),
        },
{
    match region_load_from_response(resp, missing) {
        Ok(loaded) => Ok(loaded.into_region()),
        Err(error) => Err(error),
    }
}

/// The store of a response.
pub fn store_from_response(store: Option<Store>, id: StoreId) -> (r: Result<Store>)
    ensures
        match store {
            Some(store) => r == Ok::<Store, Error>(store),
            None => r is Err && r->Err_0.is_internal(
                "missing store in PD GetStoreResponse (store_id="@ + decimal(id as nat) + ")"@,
            ),
        },
{
    match store {
        Some(store) => Ok(store),
        None => {
            let mut message = with_decimal("missing store in PD GetStoreResponse (store_id=", id);
            message.append(")");
            Err(internal_err(message.as_str()))
        },
    }
}

/// The timestamp of a response.
pub fn min_ts_from_response(timestamp: Option<Timestamp>) -> (r: Result<Timestamp>)
    ensures
        match timestamp {
            Some(timestamp) => r == Ok::<Timestamp, Error>(timestamp),
            None => r is Err && r->Err_0.is_internal(
                "missing timestamp in PD GetMinTsResponse"@,
            ),
        },
{
    match timestamp {
        Some(timestamp) => Ok(timestamp),
        None => Err(internal_err("missing timestamp in PD GetMinTsResponse")),
    }
}

/// Whether the placement driver has taken the requested safe point.
pub fn safepoint_is_taken(resp: &UpdateGcSafePointResponse, safepoint: u64) -> (r: bool)
    ensures
        r == (resp.new_safe_point == safepoint),
{
    resp.new_safe_point == safepoint
}

/// A client of the placement driver, which tries each request as often as it takes. It knows
/// nothing of the encoding of keys.
pub trait RetryClientTrait: Sized {
    /// The region that holds a key.
    fn get_region(&self, key: Vec<u8>) -> Result<RegionWithLeader>;

    /// The region with the given id.
    fn get_region_by_id(&self, region_id: RegionId) -> Result<RegionWithLeader>;

    /// The store with the given id.
    fn get_store(&self, id: StoreId) -> Result<Store>;

    /// All the stores.
    fn get_all_stores(&self) -> Result<Vec<Store>>;

    /// A new timestamp.
    fn get_timestamp(&self) -> Result<Timestamp>;

    /// The smallest timestamp that is still in use.
    fn get_min_ts(&self) -> Result<Timestamp>;

    /// Move the safe point, and tell whether it was taken.
    fn update_safepoint(&self, safepoint: u64) -> Result<bool>;

    /// The keyspace with the given name.
    fn load_keyspace(&self, keyspace: &str) -> Result<KeyspaceMeta>;

    /// The region that holds a key, with its buckets.
    fn get_region_with_buckets(&self, key: Vec<u8>) -> (r: Result<RegionLoadResult>)
        default_ensures
            r is Err ==> call_ensures(
                Self::get_region,
                (self, key),
                Err::<RegionWithLeader, Error>(r->Err_0),
            ),
            r is Ok ==> r->Ok_0.buckets is None && call_ensures(
                Self::get_region,
                (self, key),
                Ok::<RegionWithLeader, Error>(r->Ok_0.region),
            ),
    {
        match self.get_region(key) {
            Ok(region) => Ok(RegionLoadResult::new(region, None)),
            Err(error) => Err(error),
        }
    }

    /// The region with the given id, with its buckets.
    fn get_region_by_id_with_buckets(&self, region_id: RegionId) -> (r: Result<RegionLoadResult>)
        default_ensures
            r is Err ==> call_ensures(
                Self::get_region_by_id,
                (self, region_id),
                Err::<RegionWithLeader, Error>(r->Err_0),
            ),
            r is Ok ==> r->Ok_0.buckets is None && call_ensures(
                Self::get_region_by_id,
                (self, region_id),
                Ok::<RegionWithLeader, Error>(r->Ok_0.region),
            ),
    {
        match self.get_region_by_id(region_id) {
            Ok(region) => Ok(RegionLoadResult::new(region, None)),
            Err(error) => Err(error),
        }
    }
}

} // verus!
