//! The region cache.

use vstd::prelude::*;

use crate::common::errors::{Error, Result};
use crate::kv::key::Key;
use crate::proto::metapb::{Buckets, Peer, Store};
use crate::region::{RegionId, RegionVerId, RegionWithLeader, StoreId};
use crate::region_cache::map::{
    bucket_version, buckets_view, loads, CacheModel, CachedRegion, RegionCacheMap,
    RegionLoadResult,
};
use crate::region_cache::stores::{is_tikv_store, with_stores, StoreCache};
use crate::region_cache::ttl::{clamp_secs, RegionCacheTtl};

verus! {

/// The regions and the stores that the placement driver has told of.
#[derive(Debug)]
pub struct RegionCache {
    pub region_cache: RegionCacheMap,
    pub store_cache: StoreCache,
    pub ttl: RegionCacheTtl,
}

impl RegionCache {
    /// The parts of the cache are in order.
    pub open spec fn wf(self) -> bool {
        self.region_cache.wf()
    }

    /// The stores and the time to live are those of `other`.
    pub open spec fn differs_in_regions(self, other: RegionCache) -> bool {
        self.store_cache == other.store_cache && self.ttl == other.ttl
    }

    /// `after` is the cache with the region added at the given moment.
    pub open spec fn adds(
        self,
        loaded: RegionLoadResult,
        now_epoch_sec: i64,
        after: CacheModel,
    ) -> bool {
        exists|buckets: Option<Buckets>, ttl_epoch_sec: i64|
            #![trigger self.region_cache@.keeps_buckets(loaded, buckets), self.ttl.may_last_until(now_epoch_sec, ttl_epoch_sec)]
            self.region_cache@.keeps_buckets(loaded, buckets) && self.ttl.may_last_until(
                now_epoch_sec,
                ttl_epoch_sec,
            ) && after == self.region_cache@.added(
                CachedRegion { region: loaded.region, buckets, ttl_epoch_sec },
            )
    }

    /// An empty cache whose regions expire after the given seconds.
    pub fn new_with_ttl(region_cache_ttl_secs: u64, region_cache_ttl_jitter_secs: u64) -> (r:
        RegionCache)
        ensures
            r.wf(),
            r.region_cache@ == (CacheModel {
                regions: Map::empty(),
                starts: Map::empty(),
                ids: Map::empty(),
            }),
            r.store_cache@ == Map::<StoreId, crate::proto::metapb::StoreView>::empty(),
            r.ttl.base_sec == clamp_secs(region_cache_ttl_secs),
            r.ttl.jitter_sec == clamp_secs(region_cache_ttl_jitter_secs),
    {
        RegionCache {
            region_cache: RegionCacheMap::new(),
            store_cache: StoreCache::new(),
            ttl: RegionCacheTtl::new(region_cache_ttl_secs, region_cache_ttl_jitter_secs),
        }
    }

    /// The cached region that holds a key, with buckets if they are required.
    pub fn cached_region_load_by_key(
        &mut self,
        key: &Key,
        now_epoch_sec: i64,
        require_buckets: bool,
    ) -> (r: Option<RegionLoadResult>)
        requires
            old(self).wf(),
        ensures
            final(self).wf(),
            final(self).differs_in_regions(*old(self)),
            ({
                let model = old(self).region_cache@;
                let candidate = model.candidate_by_key(key@);
                let ttl = old(self).ttl;
                &&& model.used(
                    candidate,
                    ttl,
                    now_epoch_sec,
                    require_buckets,
                    final(self).region_cache@,
                )
                &&& r is Some <==> model.finds(candidate, ttl, now_epoch_sec, require_buckets)
                    && model.regions[candidate->0].region@.contains(key@)
                &&& r is Some ==> loads(r->0, model.regions[candidate->0])
            }),
    {
        let ttl = self.ttl;
        self.region_cache.cached_region_load_by_key(key, ttl, now_epoch_sec, require_buckets)
    }

    /// The cached region with the given identity, with buckets if they are required.
    pub fn cached_region_load_by_ver_id(
        &mut self,
        ver_id: RegionVerId,
        now_epoch_sec: i64,
        require_buckets: bool,
    ) -> (r: Option<RegionLoadResult>)
        requires
            old(self).wf(),
        ensures
            final(self).wf(),
            final(self).differs_in_regions(*old(self)),
            ({
                let model = old(self).region_cache@;
                let candidate = model.known(ver_id);
                let ttl = old(self).ttl;
                &&& model.used(
                    candidate,
                    ttl,
                    now_epoch_sec,
                    require_buckets,
                    final(self).region_cache@,
                )
                &&& r is Some <==> model.finds(candidate, ttl, now_epoch_sec, require_buckets)
                &&& r is Some ==> loads(r->0, model.regions[ver_id])
            }),
    {
        let ttl = self.ttl;
        self.region_cache.cached_region_load_by_ver_id(ver_id, ttl, now_epoch_sec, require_buckets)
    }

    /// The cached region with the given id, with buckets if they are required.
    pub fn cached_region_load_by_id(
        &mut self,
        id: RegionId,
        now_epoch_sec: i64,
        require_buckets: bool,
    ) -> (r: Option<RegionLoadResult>)
        requires
            old(self).wf(),
        ensures
            final(self).wf(),
            final(self).differs_in_regions(*old(self)),
            ({
                let model = old(self).region_cache@;
                let candidate = model.candidate_by_id(id);
                let ttl = old(self).ttl;
                &&& model.used(
                    candidate,
                    ttl,
                    now_epoch_sec,
                    require_buckets,
                    final(self).region_cache@,
                )
                &&& r is Some <==> model.finds(candidate, ttl, now_epoch_sec, require_buckets)
                &&& r is Some ==> loads(r->0, model.regions[candidate->0])
            }),
    {
        let ttl = self.ttl;
        self.region_cache.cached_region_load_by_id(id, ttl, now_epoch_sec, require_buckets)
    }

    /// The buckets of the cached region with the given id.
    pub fn get_cached_region_buckets_by_id(&mut self, id: RegionId, now_epoch_sec: i64) -> (r:
        Option<Buckets>)
        requires
            old(self).wf(),
        ensures
            final(self).wf(),
            final(self).differs_in_regions(*old(self)),
            ({
                let model = old(self).region_cache@;
                let candidate = model.candidate_by_id(id);
                let ttl = old(self).ttl;
                &&& model.used(candidate, ttl, now_epoch_sec, true, final(self).region_cache@)
                &&& buckets_view(r) == (if model.finds(candidate, ttl, now_epoch_sec, true) {
                    buckets_view(model.regions[candidate->0].buckets)
                } else {
                    None
                })
            }),
    {
        match self.cached_region_load_by_id(id, now_epoch_sec, true) {
            Some(loaded) => loaded.buckets,
            None => None,
        }
    }

    /// The buckets of the cached region with the given identity.
    pub fn get_cached_region_buckets_by_ver_id(
        &mut self,
        ver_id: RegionVerId,
        now_epoch_sec: i64,
    ) -> (r: Option<Buckets>)
        requires
            old(self).wf(),
        ensures
            final(self).wf(),
            final(self).differs_in_regions(*old(self)),
            ({
                let model = old(self).region_cache@;
                let candidate = model.known(ver_id);
                let ttl = old(self).ttl;
                &&& model.used(candidate, ttl, now_epoch_sec, true, final(self).region_cache@)
                &&& buckets_view(r) == (if model.finds(candidate, ttl, now_epoch_sec, true) {
                    buckets_view(model.regions[ver_id].buckets)
                } else {
                    None
                })
            }),
    {
        match self.cached_region_load_by_ver_id(ver_id, now_epoch_sec, true) {
            Some(loaded) => loaded.buckets,
            None => None,
        }
    }

    /// Give a cached region the newer buckets that a store has told of. Whether it has got them.
    pub fn update_region_buckets_from_mismatch(
        &mut self,
        ver_id: RegionVerId,
        version: u64,
        keys: Vec<Vec<u8>>,
        now_epoch_sec: i64,
    ) -> (r: bool)
        requires
            old(self).wf(),
        ensures
            final(self).wf(),
            final(self).differs_in_regions(*old(self)),
            ({
                let model = old(self).region_cache@;
                &&& r == (model.regions.contains_key(ver_id) && bucket_version(
                    model.regions[ver_id].buckets,
                ) < version)
                &&& !r ==> final(self).region_cache@ == model
                &&& r ==> exists|ttl_epoch_sec: i64| #[trigger]
                    old(self).ttl.may_last_until(now_epoch_sec, ttl_epoch_sec)
                        && final(self).region_cache@ == model.with(
                        ver_id,
                        CachedRegion {
                            buckets: Some(
                                Buckets {
                                    region_id: model.regions[ver_id].region@.region.id,
                                    version,
                                    keys,
                                    period_in_ms: 0,
                                },
                            ),
                            ttl_epoch_sec,
                            ..model.regions[ver_id]
                        },
                    )
            }),
    {
        let ttl_epoch_sec: i64 = self.ttl.next_ttl(now_epoch_sec);
        self.region_cache.update_buckets(ver_id, version, keys, ttl_epoch_sec)
    }

    /// The id of the region that has to be loaded again because its cached buckets are older than
    /// the given version; `None` where it is not cached or its buckets are new enough.
    pub fn region_to_refresh(
        &self,
        ver_id: RegionVerId,
        latest_buckets_version: u64,
    ) -> (r: Option<RegionId>)
        requires
            self.wf(),
        ensures
            r == (if self.region_cache@.regions.contains_key(ver_id) && bucket_version(
                self.region_cache@.regions[ver_id].buckets,
            ) < latest_buckets_version {
                Some(self.region_cache@.regions[ver_id].region@.region.id)
            } else {
                None
            }),
    {
        self.region_cache.region_with_stale_buckets(ver_id, latest_buckets_version)
    }

    /// Add a region.
    pub fn add_region(&mut self, region: RegionWithLeader, now_epoch_sec: i64)
        requires
            old(self).wf(),
        ensures
            final(self).wf(),
            final(self).differs_in_regions(*old(self)),
            old(self).adds(
                RegionLoadResult { region, buckets: None },
                now_epoch_sec,
                final(self).region_cache@,
            ),
    {
        self.add_region_load(RegionLoadResult::from(region), now_epoch_sec)
    }

    /// Add a region with its buckets, in place of its older version and of all regions that
    /// overlap it.
    pub fn add_region_load(&mut self, loaded: RegionLoadResult, now_epoch_sec: i64)
        requires
            old(self).wf(),
        ensures
            final(self).wf(),
            final(self).differs_in_regions(*old(self)),
            old(self).adds(loaded, now_epoch_sec, final(self).region_cache@),
    {
        let ttl_epoch_sec: i64 = self.ttl.next_ttl(now_epoch_sec);
        self.region_cache.add_region_load(loaded, ttl_epoch_sec);
    }

    /// Add a region that was fetched, and hand it back.
    pub fn read_through_region(
        &mut self,
        fetched: Result<RegionLoadResult>,
        now_epoch_sec: i64,
    ) -> (r: Result<RegionLoadResult>)
        requires
            old(self).wf(),
        ensures
            final(self).wf(),
            final(self).differs_in_regions(*old(self)),
            match fetched {
                Ok(loaded) => {
                    &&& r is Ok
                    &&& r->Ok_0.region@ == loaded.region@
                    &&& buckets_view(r->Ok_0.buckets) == buckets_view(loaded.buckets)
                    &&& old(self).adds(loaded, now_epoch_sec, final(self).region_cache@)
                },
                Err(error) => r == fetched && *final(self) == *old(self),
            },
    {
        match fetched {
            Ok(loaded) => {
                let copy = loaded.clone();
                self.add_region_load(loaded, now_epoch_sec);
                Ok(copy)
            },
            Err(error) => Err(error),
        }
    }

    /// Make a peer the leader of a region. A region that is not cached is passed over.
    pub fn update_leader(&mut self, ver_id: RegionVerId, leader: Peer, now_epoch_sec: i64) -> (r:
        Result<()>)
        requires
            old(self).wf(),
        ensures
            final(self).wf(),
            final(self).differs_in_regions(*old(self)),
            r is Ok,
            ({
                let model = old(self).region_cache@;
                let cached = model.regions[ver_id];
                if model.regions.contains_key(ver_id) {
                    exists|ttl_epoch_sec: i64| #[trigger]
                        old(self).ttl.may_last_until(now_epoch_sec, ttl_epoch_sec)
                            && final(self).region_cache@ == model.with(
                            ver_id,
                            CachedRegion {
                                region: RegionWithLeader { leader: Some(leader), ..cached.region },
                                ttl_epoch_sec,
                                ..cached
                            },
                        )
                } else {
                    final(self).region_cache@ == model
                }
            }),
    {
        let ttl_epoch_sec: i64 = self.ttl.next_ttl(now_epoch_sec);
        self.region_cache.update_leader(ver_id, leader, ttl_epoch_sec);
        Ok(())
    }

    /// Drop a region.
    pub fn invalidate_region_cache(&mut self, ver_id: RegionVerId)
        requires
            old(self).wf(),
        ensures
            final(self).wf(),
            final(self).differs_in_regions(*old(self)),
            final(self).region_cache@ == old(self).region_cache@.without(ver_id),
    {
        self.region_cache.invalidate(ver_id);
    }

    /// The cached store with the given id.
    pub fn cached_store(&self, id: StoreId) -> (r: Option<Store>)
        ensures
            r is Some <==> self.store_cache@.contains_key(id),
            r is Some ==> r->0@ == self.store_cache@[id],
    {
        self.store_cache.get(id)
    }

    /// Remember a store that was fetched, and hand it back.
    pub fn read_through_store_by_id(&mut self, id: StoreId, fetched: Result<Store>) -> (r: Result<
        Store,
    >)
        ensures
            final(self).region_cache == old(self).region_cache,
            final(self).ttl == old(self).ttl,
            match fetched {
                Ok(store) => r is Ok && r->Ok_0@ == store@ && final(self).store_cache@ == old(
                    self,
                ).store_cache@.insert(id, store@),
                Err(error) => r == fetched && final(self).store_cache == old(self).store_cache,
            },
    {
        match fetched {
            Ok(store) => {
                let copy = store.clone();
                self.store_cache.insert(id, store);
                Ok(copy)
            },
            Err(error) => Err(error),
        }
    }

    /// Forget a store.
    pub fn invalidate_store_cache(&mut self, store_id: StoreId)
        ensures
            final(self).region_cache == old(self).region_cache,
            final(self).ttl == old(self).ttl,
            final(self).store_cache@ == old(self).store_cache@.remove(store_id),
    {
        self.store_cache.remove(store_id);
    }

    /// Remember the stores that were fetched, and hand back those that serve the key-value
    /// service.
    pub fn read_through_all_stores(&mut self, fetched: Result<Vec<Store>>) -> (r: Result<Vec<Store>>)
        ensures
            final(self).region_cache == old(self).region_cache,
            final(self).ttl == old(self).ttl,
            match fetched {
                Ok(stores) => {
                    &&& r is Ok
                    &&& r->Ok_0@ == stores@.filter(|store: Store| is_tikv_store(store@))
                    &&& final(self).store_cache@ == with_stores(old(self).store_cache@, r->Ok_0@)
                },
                Err(error) => r == Err::<Vec<Store>, Error>(error) && final(self).store_cache
                    == old(self).store_cache,
            },
    {
        match fetched {
            Ok(stores) => Ok(self.store_cache.insert_all(stores)),
            Err(error) => Err(error),
        }
    }
}

} // verus!
