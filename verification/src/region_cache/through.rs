//! Looking regions and stores up, and asking the placement driver for those that are not cached.

use vstd::prelude::*;

use crate::common::errors::{Error, Result};
use crate::kv::key::Key;
use crate::kv::order::bytes_to_vec;
use crate::pd::retry::RetryClientTrait;
use crate::proto::metapb::Store;
use crate::region::{RegionId, RegionVerId, RegionWithLeader, StoreId};
use crate::region_cache::cache::RegionCache;
use crate::region_cache::map::{buckets_view, bucket_version, loads, RegionLoadResult};

verus! {

/// The client has answered with a region that holds the key, or has failed. Buckets come along if
/// they were asked for.
pub open spec fn answers_by_key<C: RetryClientTrait>(
    client: C,
    key: Seq<u8>,
    with_buckets: bool,
    answer: Result<RegionLoadResult>,
) -> bool {
    exists|bytes: Vec<u8>|
        #![trigger bytes@]
        {
            &&& bytes@ == key
            &&& if with_buckets {
                call_ensures(C::get_region_with_buckets, (&client, bytes), answer)
            } else {
                match answer {
                    Ok(loaded) => loaded.buckets is None && call_ensures(
                        C::get_region,
                        (&client, bytes),
                        Ok::<RegionWithLeader, Error>(loaded.region),
                    ),
                    Err(error) => call_ensures(
                        C::get_region,
                        (&client, bytes),
                        Err::<RegionWithLeader, Error>(error),
                    ),
                }
            }
        }
}

/// The client has answered with the region with the given id, or has failed. Buckets come along if
/// they were asked for.
pub open spec fn answers_by_id<C: RetryClientTrait>(
    client: C,
    id: RegionId,
    with_buckets: bool,
    answer: Result<RegionLoadResult>,
) -> bool {
    if with_buckets {
        call_ensures(C::get_region_by_id_with_buckets, (&client, id), answer)
    } else {
        match answer {
            Ok(loaded) => loaded.buckets is None && call_ensures(
                C::get_region_by_id,
                (&client, id),
                Ok::<RegionWithLeader, Error>(loaded.region),
            ),
            Err(error) => call_ensures(
                C::get_region_by_id,
                (&client, id),
                Err::<RegionWithLeader, Error>(error),
            ),
        }
    }
}

/// The region without its buckets.
pub open spec fn region_of(load: Result<RegionLoadResult>) -> Result<RegionWithLeader> {
    match load {
        Ok(loaded) => Ok(loaded.region),
        Err(error) => Err(error),
    }
}

impl RegionCache {
    /// `after` is the cache once the answer of the client has been taken note of, and `r` is that
    /// answer.
    pub open spec fn takes(
        self,
        answer: Result<RegionLoadResult>,
        now_epoch_sec: i64,
        after: RegionCache,
        r: Result<RegionLoadResult>,
    ) -> bool {
        match answer {
            Ok(loaded) => {
                &&& r is Ok
                &&& r->Ok_0.region@ == loaded.region@
                &&& buckets_view(r->Ok_0.buckets) == buckets_view(loaded.buckets)
                &&& self.adds(loaded, now_epoch_sec, after.region_cache@)
            },
            Err(error) => r == answer && after == self,
        }
    }

    /// Ask the client for the region that holds a key, and add it.
    pub fn read_through_region_by_key<C: RetryClientTrait>(
        &mut self,
        client: &C,
        key: &Key,
        now_epoch_sec: i64,
    ) -> (r: Result<RegionLoadResult>)
        requires
            old(self).wf(),
        ensures
            final(self).wf(),
            final(self).differs_in_regions(*old(self)),
            exists|answer: Result<RegionLoadResult>| #[trigger]
                answers_by_key(*client, key@, false, answer) && old(self).takes(
                    answer,
                    now_epoch_sec,
                    *final(self),
                    r,
                ),
    {
        let bytes = bytes_to_vec(&key.0);
        let ghost asked = bytes;
        let answer = match client.get_region(bytes) {
            Ok(region) => Ok(RegionLoadResult::new(region, None)),
            Err(error) => Err(error),
        };
        assert(asked@ == key@);
        assert(answers_by_key(*client, key@, false, answer));
        self.read_through_region(answer, now_epoch_sec)
    }

    /// Ask the client for the region that holds a key, with its buckets, and add it.
    pub fn read_through_region_by_key_with_buckets<C: RetryClientTrait>(
        &mut self,
        client: &C,
        key: &Key,
        now_epoch_sec: i64,
    ) -> (r: Result<RegionLoadResult>)
        requires
            old(self).wf(),
        ensures
            final(self).wf(),
            final(self).differs_in_regions(*old(self)),
            exists|answer: Result<RegionLoadResult>| #[trigger]
                answers_by_key(*client, key@, true, answer) && old(self).takes(
                    answer,
                    now_epoch_sec,
                    *final(self),
                    r,
                ),
    {
        let bytes = bytes_to_vec(&key.0);
        let ghost asked = bytes;
        let answer = client.get_region_with_buckets(bytes);
        assert(asked@ == key@);
        assert(answers_by_key(*client, key@, true, answer));
        self.read_through_region(answer, now_epoch_sec)
    }

    /// Ask the client for the region with the given id, with its buckets, and add it.
    pub fn read_through_region_by_id_with_buckets<C: RetryClientTrait>(
        &mut self,
        client: &C,
        id: RegionId,
        now_epoch_sec: i64,
    ) -> (r: Result<RegionLoadResult>)
        requires
            old(self).wf(),
        ensures
            final(self).wf(),
            final(self).differs_in_regions(*old(self)),
            exists|answer: Result<RegionLoadResult>| #[trigger]
                answers_by_id(*client, id, true, answer) && old(self).takes(
                    answer,
                    now_epoch_sec,
                    *final(self),
                    r,
                ),
    {
        let answer = client.get_region_by_id_with_buckets(id);
        assert(answers_by_id(*client, id, true, answer));
        self.read_through_region(answer, now_epoch_sec)
    }

    /// The region that holds a key, with buckets if they are required, comes from the cache if it is
    /// there. Else the client is asked.
    pub open spec fn gives_by_key<C: RetryClientTrait>(
        self,
        client: C,
        key: Seq<u8>,
        now_epoch_sec: i64,
        require_buckets: bool,
        after: RegionCache,
        r: Result<RegionLoadResult>,
    ) -> bool {
        let model = self.region_cache@;
        let candidate = model.candidate_by_key(key);
        let hit = model.finds(candidate, self.ttl, now_epoch_sec, require_buckets)
            && model.regions[candidate->0].region@.contains(key);
        &&& after.wf()
        &&& after.differs_in_regions(self)
        &&& hit ==> r is Ok && loads(r->Ok_0, model.regions[candidate->0]) && model.used(
            candidate,
            self.ttl,
            now_epoch_sec,
            require_buckets,
            after.region_cache@,
        )
        &&& !hit ==> exists|looked: RegionCache, answer: Result<RegionLoadResult>|
            {
                &&& looked.differs_in_regions(self)
                &&& model.used(
                    candidate,
                    self.ttl,
                    now_epoch_sec,
                    require_buckets,
                    looked.region_cache@,
                )
                &&& #[trigger] answers_by_key(client, key, require_buckets, answer)
                &&& #[trigger] looked.takes(answer, now_epoch_sec, after, r)
            }
    }

    /// The region with the given id comes from the cache if it is there. Else the client is asked.
    pub open spec fn gives_by_id<C: RetryClientTrait>(
        self,
        client: C,
        id: RegionId,
        now_epoch_sec: i64,
        after: RegionCache,
        r: Result<RegionLoadResult>,
    ) -> bool {
        let model = self.region_cache@;
        let candidate = model.candidate_by_id(id);
        let hit = model.finds(candidate, self.ttl, now_epoch_sec, false);
        &&& after.wf()
        &&& after.differs_in_regions(self)
        &&& hit ==> r is Ok && loads(r->Ok_0, model.regions[candidate->0]) && model.used(
            candidate,
            self.ttl,
            now_epoch_sec,
            false,
            after.region_cache@,
        )
        &&& !hit ==> exists|looked: RegionCache, answer: Result<RegionLoadResult>|
            {
                &&& looked.differs_in_regions(self)
                &&& model.used(candidate, self.ttl, now_epoch_sec, false, looked.region_cache@)
                &&& #[trigger] answers_by_id(client, id, false, answer)
                &&& #[trigger] looked.takes(answer, now_epoch_sec, after, r)
            }
    }

    /// The region that holds a key, with buckets if they are required. The client is asked only if
    /// the region is not cached.
    pub fn get_region_load_by_key<C: RetryClientTrait>(
        &mut self,
        client: &C,
        key: &Key,
        now_epoch_sec: i64,
        require_buckets: bool,
    ) -> (r: Result<RegionLoadResult>)
        requires
            old(self).wf(),
        ensures
            old(self).gives_by_key(
                *client,
                key@,
                now_epoch_sec,
                require_buckets,
                *final(self),
                r,
            ),
    {
        if let Some(cached) = self.cached_region_load_by_key(key, now_epoch_sec, require_buckets) {
            return Ok(cached);
        }
        let ghost looked = *self;
        let r = if require_buckets {
            self.read_through_region_by_key_with_buckets(client, key, now_epoch_sec)
        } else {
            self.read_through_region_by_key(client, key, now_epoch_sec)
        };
        proof {
            let answer = choose|answer: Result<RegionLoadResult>| #[trigger]
                answers_by_key(*client, key@, require_buckets, answer) && looked.takes(
                    answer,
                    now_epoch_sec,
                    *self,
                    r,
                );
            assert(looked.takes(answer, now_epoch_sec, *self, r));
        }
        r
    }

    /// The region that holds a key. The client is asked only if the region is not cached.
    pub fn get_region_by_key<C: RetryClientTrait>(
        &mut self,
        client: &C,
        key: &Key,
        now_epoch_sec: i64,
    ) -> (r: Result<RegionWithLeader>)
        requires
            old(self).wf(),
        ensures
            exists|load: Result<RegionLoadResult>| #[trigger]
                old(self).gives_by_key(*client, key@, now_epoch_sec, false, *final(self), load)
                    && r == region_of(load),
    {
        let load = self.get_region_load_by_key(client, key, now_epoch_sec, false);
        let ghost given = load;
        assert(old(self).gives_by_key(*client, key@, now_epoch_sec, false, *self, given));
        match load {
            Ok(loaded) => Ok(loaded.into_region()),
            Err(error) => Err(error),
        }
    }

    /// The region that holds a key, and the version of its buckets. The client is asked only if the
    /// region is not cached with its buckets.
    pub fn get_region_with_bucket_version_by_key<C: RetryClientTrait>(
        &mut self,
        client: &C,
        key: &Key,
        now_epoch_sec: i64,
    ) -> (r: Result<(RegionWithLeader, u64)>)
        requires
            old(self).wf(),
        ensures
            exists|load: Result<RegionLoadResult>|
                {
                    &&& #[trigger] old(self).gives_by_key(
                        *client,
                        key@,
                        now_epoch_sec,
                        true,
                        *final(self),
                        load,
                    )
                    &&& r == match load {
                        Ok(loaded) => Ok::<(RegionWithLeader, u64), Error>(
                            (loaded.region, bucket_version(loaded.buckets)),
                        ),
                        Err(error) => Err(error),
                    }
                },
    {
        let load = self.get_region_load_by_key(client, key, now_epoch_sec, true);
        let ghost given = load;
        assert(old(self).gives_by_key(*client, key@, now_epoch_sec, true, *self, given));
        match load {
            Ok(loaded) => {
                let version: u64 = loaded.bucket_version();
                Ok((loaded.into_region(), version))
            },
            Err(error) => Err(error),
        }
    }

    /// The region with the given id. The client is asked only if the region is not cached.
    pub fn get_region_by_id<C: RetryClientTrait>(
        &mut self,
        client: &C,
        id: RegionId,
        now_epoch_sec: i64,
    ) -> (r: Result<RegionWithLeader>)
        requires
            old(self).wf(),
        ensures
            exists|load: Result<RegionLoadResult>| #[trigger]
                old(self).gives_by_id(*client, id, now_epoch_sec, *final(self), load) && r
                    == region_of(load),
    {
        if let Some(cached) = self.cached_region_load_by_id(id, now_epoch_sec, false) {
            let ghost load = Ok::<RegionLoadResult, Error>(cached);
            assert(old(self).gives_by_id(*client, id, now_epoch_sec, *self, load));
            return Ok(cached.into_region());
        }
        let ghost looked = *self;
        let answer = match client.get_region_by_id(id) {
            Ok(region) => Ok(RegionLoadResult::new(region, None)),
            Err(error) => Err(error),
        };
        let ghost told = answer;
        assert(answers_by_id(*client, id, false, told));
        let load = self.read_through_region(answer, now_epoch_sec);
        let ghost given = load;
        assert(looked.takes(told, now_epoch_sec, *self, given));
        assert(old(self).gives_by_id(*client, id, now_epoch_sec, *self, given));
        match load {
            Ok(loaded) => Ok(loaded.into_region()),
            Err(error) => Err(error),
        }
    }

    /// The store with the given id. The client is asked only if the store is not cached.
    pub fn get_store_by_id<C: RetryClientTrait>(&mut self, client: &C, id: StoreId) -> (r: Result<
        Store,
    >)
        ensures
            final(self).region_cache == old(self).region_cache,
            final(self).ttl == old(self).ttl,
            old(self).store_cache@.contains_key(id) ==> r is Ok && r->Ok_0@
                == old(self).store_cache@[id] && final(self).store_cache == old(self).store_cache,
            !old(self).store_cache@.contains_key(id) ==> exists|answer: Result<Store>|
                {
                    &&& #[trigger] call_ensures(C::get_store, (client, id), answer)
                    &&& match answer {
                        Ok(store) => r is Ok && r->Ok_0@ == store@ && final(self).store_cache@
                            == old(self).store_cache@.insert(id, store@),
                        Err(error) => r == answer && final(self).store_cache == old(
                            self,
                        ).store_cache,
                    }
                },
    {
        match self.cached_store(id) {
            Some(store) => Ok(store),
            None => {
                let answer = client.get_store(id);
                self.read_through_store_by_id(id, answer)
            },
        }
    }

    /// Load a region again if its cached buckets are older than the given version, and tell whether
    /// they were.
    pub fn refresh_region_buckets_if_stale<C: RetryClientTrait>(
        &mut self,
        client: &C,
        ver_id: RegionVerId,
        latest_buckets_version: u64,
        now_epoch_sec: i64,
    ) -> (r: Result<bool>)
        requires
            old(self).wf(),
        ensures
            final(self).wf(),
            final(self).differs_in_regions(*old(self)),
            ({
                let model = old(self).region_cache@;
                let cached = model.regions[ver_id];
                let stale = model.regions.contains_key(ver_id) && bucket_version(cached.buckets)
                    < latest_buckets_version;
                &&& !stale ==> r == Ok::<bool, Error>(false) && *final(self) == *old(self)
                &&& stale ==> exists|answer: Result<RegionLoadResult>|
                    {
                        &&& #[trigger] answers_by_id(*client, cached.region@.region.id, true, answer)
                        &&& match answer {
                            Ok(loaded) => r == Ok::<bool, Error>(true) && old(self).adds(
                                loaded,
                                now_epoch_sec,
                                final(self).region_cache@,
                            ),
                            Err(error) => r == Err::<bool, Error>(error) && *final(self) == *old(
                                self,
                            ),
                        }
                    }
            }),
    {
        match self.region_to_refresh(ver_id, latest_buckets_version) {
            None => Ok(false),
            Some(id) => match self.read_through_region_by_id_with_buckets(
                client,
                id,
                now_epoch_sec,
            ) {
                Ok(_) => Ok(true),
                Err(error) => Err(error),
            },
        }
    }
}

} // verus!
