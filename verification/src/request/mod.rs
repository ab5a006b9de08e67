//! Requests, and the keyspaces that they are made in.

use vstd::prelude::*;

use crate::backoff::Backoff;

pub mod bucket_keys;
pub mod bucket_laws;
pub mod building;
pub mod cleanup_locks;
pub mod epoch_laws;
pub mod keyspace;
pub mod keyspace_laws;
pub mod lock_scans;
pub mod plan;
pub mod plan_builder;
pub mod plan_laws;
pub mod read_routing;
pub mod region_error;
pub mod resolve_lock;
pub mod shard_laws;
pub mod shard_run;
pub mod truncate;
pub mod truncate_epoch;
pub mod truncate_error;
pub mod truncate_laws;

verus! {

/// How often, and after which delays, requests are tried again.
#[derive(Clone, Copy, Debug, PartialEq, Eq, Structural)]
pub struct RetryOptions {
    /// How to retry when there is a region error and the regions are to be found out anew.
    pub region_backoff: Backoff,
    /// How to retry when a key is locked.
    pub lock_backoff: Backoff,
}

impl RetryOptions {
    /// The given ways to retry.
    pub fn new(region_backoff: Backoff, lock_backoff: Backoff) -> (r: RetryOptions)
        ensures
            r == (RetryOptions { region_backoff, lock_backoff }),
    {
        RetryOptions { region_backoff, lock_backoff }
    }

    /// The way of an optimistic transaction.
    pub fn default_optimistic() -> (r: RetryOptions)
        ensures
            r.region_backoff == crate::backoff::usual_delays(),
            r.lock_backoff == crate::backoff::usual_delays(),
    {
        RetryOptions {
            region_backoff: Backoff::default_region(),
            lock_backoff: Backoff::optimistic(),
        }
    }

    /// The way of a pessimistic transaction.
    pub fn default_pessimistic() -> (r: RetryOptions)
        ensures
            r.region_backoff == crate::backoff::usual_delays(),
            r.lock_backoff == crate::backoff::usual_delays(),
    {
        RetryOptions {
            region_backoff: Backoff::default_region(),
            lock_backoff: Backoff::pessimistic(),
        }
    }

    /// No retry at all.
    pub fn none() -> (r: RetryOptions)
        ensures
            r.region_backoff == (Backoff {
                enabled: false,
                current_attempts: 0,
                max_attempts: 0,
                current_delay_ms: 0,
                max_delay_ms: 0,
            }),
            r.lock_backoff == r.region_backoff,
            r.region_backoff.next_delay() is None,
            r.lock_backoff.next_delay() is None,
    {
        RetryOptions { region_backoff: Backoff::no_backoff(), lock_backoff: Backoff::no_backoff() }
    }
}

} // verus!
