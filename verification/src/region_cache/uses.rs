//! What holds of the region cache for those who use it.

use vstd::prelude::*;

use crate::common::errors::Result;
use crate::kv::key::Key;
use crate::kv::order::{lex_le, lex_lt};
use crate::proto::metapb::{Peer, Store, StoreView};
use crate::region::{RegionId, RegionVerId, RegionWithLeader, StoreId};
use crate::region_cache::cache::RegionCache;
use crate::region_cache::laws::{
    law_a_dropped_region_is_gone, law_adding_drops_just_what_overlaps,
    law_adding_keeps_the_cache_consistent, law_changing_an_entry_keeps_the_cache_consistent,
    law_overlap_is_a_common_key, law_the_region_of_a_key_is_found,
};
use crate::region_cache::loading::{LoadAction, LoadEvent, LoadingIds, LoadingKeys, RegionLoad};
use crate::region_cache::map::{
    buckets_view, CacheModel, CachedRegion, RegionLoadResult,
};
use crate::region_cache::stores::{is_tikv_store, is_valid_tikv_store, with_stores, StoreCache};
use crate::region_cache::ttl::RegionCacheTtl;

verus! {

/// The moment is as many seconds away as the base says, and up to as many more as chance may add,
/// or it is the end of time. Without a base it is the end of time.
pub open spec fn is_due(ttl: RegionCacheTtl, now: i64, moment: i64) -> bool {
    let most = if ttl.jitter_sec > 0 {
        ttl.jitter_sec - 1
    } else {
        0
    };
    if ttl.base_sec > 0 {
        &&& now + ttl.base_sec <= moment || moment == i64::MAX
        &&& moment <= now + ttl.base_sec + most
    } else {
        moment == i64::MAX
    }
}

/// A region that is used now stays for the base, and for no longer than chance may add to that.
pub proof fn law_a_region_stays_for_its_time(ttl: RegionCacheTtl, now: i64, moment: i64)
    requires
        call_ensures(RegionCacheTtl::next_ttl, (ttl, now), moment),
    ensures
        is_due(ttl, now, moment),
{
}

/// The times are those that were given, as far as they can be.
pub proof fn law_the_times_are_those_that_were_given(
    base_secs: u64,
    jitter_secs: u64,
    r: RegionCacheTtl,
)
    requires
        call_ensures(RegionCacheTtl::new, (base_secs, jitter_secs), r),
    ensures
        base_secs <= i64::MAX ==> r.base_sec == base_secs,
        base_secs > i64::MAX ==> r.base_sec == i64::MAX,
        jitter_secs <= i64::MAX ==> r.jitter_sec == jitter_secs,
        jitter_secs > i64::MAX ==> r.jitter_sec == i64::MAX,
{
}

/// A region counts as expired once its moment has passed, and only if regions expire at all. The
/// use of one whose moment is no further away than the base gives it a new moment; else the moment
/// stays.
pub proof fn law_a_region_expires_when_its_moment_has_passed(ttl: RegionCacheTtl, now: i64)
    ensures
        forall|moment: &mut i64, r: bool| #[trigger]
            call_ensures(RegionCacheTtl::check_and_refresh, (ttl, moment, now), r) ==> {
                &&& r <==> ttl.base_sec <= 0 || now <= *moment
                &&& ttl.base_sec > 0 && now <= *moment && *moment <= now + ttl.base_sec ==> is_due(
                    ttl,
                    now,
                    *final(moment),
                )
                &&& ttl.base_sec <= 0 || *moment < now || *moment > now + ttl.base_sec
                    ==> *final(moment) == *moment
            },
{
}

/// The key lies in the range of the cached region.
pub open spec fn holds_key(model: CacheModel, ver_id: RegionVerId, key: Seq<u8>) -> bool {
    &&& model.regions.contains_key(ver_id)
    &&& lex_le(model.regions[ver_id].region.region.start_key@, key)
    &&& model.regions[ver_id].region.region.end_key@.len() == 0 || lex_lt(
        key,
        model.regions[ver_id].region.region.end_key@,
    )
}

/// The cached region has not expired, and has buckets if they are required.
pub open spec fn is_usable(
    cache: RegionCache,
    ver_id: RegionVerId,
    now: i64,
    require_buckets: bool,
) -> bool {
    let cached = cache.region_cache@.regions[ver_id];
    &&& cache.region_cache@.regions.contains_key(ver_id)
    &&& cache.ttl.base_sec <= 0 || now <= cached.ttl_epoch_sec
    &&& require_buckets ==> cached.buckets is Some
}

/// The load is what is cached.
pub open spec fn is_cached(
    loaded: RegionLoadResult,
    cache: RegionCache,
    ver_id: RegionVerId,
) -> bool {
    let cached = cache.region_cache@.regions[ver_id];
    &&& loaded.region@ == cached.region@
    &&& buckets_view(loaded.buckets) == buckets_view(cached.buckets)
}

/// The caches differ at most in the moments at which their regions expire.
pub open spec fn differ_in_times(a: RegionCache, b: RegionCache) -> bool {
    &&& a.region_cache@.regions.dom() == b.region_cache@.regions.dom()
    &&& a.region_cache@.starts == b.region_cache@.starts
    &&& a.region_cache@.ids == b.region_cache@.ids
    &&& forall|v: RegionVerId| #[trigger]
        a.region_cache@.regions.contains_key(v) ==> a.region_cache@.regions[v].region
            == b.region_cache@.regions[v].region && a.region_cache@.regions[v].buckets
            == b.region_cache@.regions[v].buckets
    &&& a.store_cache == b.store_cache && a.ttl == b.ttl
}

pub(crate) proof fn lemma_used(
    model: CacheModel,
    candidate: Option<RegionVerId>,
    ttl: RegionCacheTtl,
    now: i64,
    require_buckets: bool,
    after: CacheModel,
)
    requires
        model.used(candidate, ttl, now, require_buckets, after),
        candidate is Some ==> model.regions.contains_key(candidate->0),
    ensures
        after.regions.dom() == model.regions.dom(),
        after.starts == model.starts,
        after.ids == model.ids,
        forall|v: RegionVerId| #[trigger]
            model.regions.contains_key(v) ==> after.regions[v].region == model.regions[v].region
                && after.regions[v].buckets == model.regions[v].buckets,
        forall|v: RegionVerId| #[trigger]
            model.regions.contains_key(v) && candidate != Some(v) ==> after.regions[v]
                == model.regions[v],
{
    assert(after.regions.dom() =~= model.regions.dom());
}

/// A key is found in the cache just if a cached region that has not expired holds it, and what is
/// found is that region. Nothing is dropped or changed but the moment at which it expires.
pub proof fn law_a_key_is_found_in_its_region(key: &Key, now: i64, require_buckets: bool)
    ensures
        forall|cache: &mut RegionCache, r: Option<RegionLoadResult>|
            cache.region_cache@.consistent() && #[trigger] call_ensures(
                RegionCache::cached_region_load_by_key,
                (cache, key, now, require_buckets),
                r,
            ) ==> {
                &&& r is Some <==> exists|v: RegionVerId| #[trigger]
                    holds_key(cache.region_cache@, v, key@) && is_usable(
                        *cache,
                        v,
                        now,
                        require_buckets,
                    )
                &&& forall|v: RegionVerId|
                    r is Some && #[trigger] holds_key(cache.region_cache@, v, key@) ==> is_cached(
                        r->0,
                        *cache,
                        v,
                    )
                &&& differ_in_times(*cache, *final(cache))
            },
{
    assert forall|cache: &mut RegionCache, r: Option<RegionLoadResult>|
        cache.region_cache@.consistent() && #[trigger] call_ensures(
            RegionCache::cached_region_load_by_key,
            (cache, key, now, require_buckets),
            r,
        ) implies {
        &&& r is Some <==> exists|v: RegionVerId| #[trigger]
            holds_key(cache.region_cache@, v, key@) && is_usable(*cache, v, now, require_buckets)
        &&& forall|v: RegionVerId|
            r is Some && #[trigger] holds_key(cache.region_cache@, v, key@) ==> is_cached(
                r->0,
                *cache,
                v,
            )
        &&& differ_in_times(*cache, *final(cache))
    } by {
        let model = cache.region_cache@;
        let candidate = model.candidate_by_key(key@);
        lemma_used(
            model,
            candidate,
            cache.ttl,
            now,
            require_buckets,
            final(cache).region_cache@,
        );
        assert forall|v: RegionVerId| #[trigger] holds_key(model, v, key@) implies candidate
            == Some(v) by {
            law_the_region_of_a_key_is_found(model, v, key@);
        }
        if candidate is Some && model.regions[candidate->0].region@.contains(key@) {
            assert(holds_key(model, candidate->0, key@));
        }
    }
}

/// A region is found by its id just if it is cached under that id and has not expired.
pub proof fn law_a_region_is_found_by_its_id(id: RegionId, now: i64, require_buckets: bool)
    ensures
        forall|cache: &mut RegionCache, r: Option<RegionLoadResult>|
            cache.region_cache@.consistent() && #[trigger] call_ensures(
                RegionCache::cached_region_load_by_id,
                (cache, id, now, require_buckets),
                r,
            ) ==> {
                &&& r is Some <==> exists|v: RegionVerId|
                    cache.region_cache@.regions.contains_key(v)
                        && cache.region_cache@.regions[v].region.region.id == id
                        && #[trigger] is_usable(*cache, v, now, require_buckets)
                &&& r is Some ==> r->0.region.region.id == id
                &&& forall|v: RegionVerId| #[trigger]
                    cache.region_cache@.regions.contains_key(v)
                        && cache.region_cache@.regions[v].region.region.id == id && r is Some
                        ==> is_cached(r->0, *cache, v)
                &&& differ_in_times(*cache, *final(cache))
            },
{
    assert forall|cache: &mut RegionCache, r: Option<RegionLoadResult>|
        cache.region_cache@.consistent() && #[trigger] call_ensures(
            RegionCache::cached_region_load_by_id,
            (cache, id, now, require_buckets),
            r,
        ) implies {
        &&& r is Some <==> exists|v: RegionVerId|
            cache.region_cache@.regions.contains_key(v)
                && cache.region_cache@.regions[v].region.region.id == id && #[trigger] is_usable(
                *cache,
                v,
                now,
                require_buckets,
            )
        &&& r is Some ==> r->0.region.region.id == id
        &&& forall|v: RegionVerId| #[trigger]
            cache.region_cache@.regions.contains_key(v)
                && cache.region_cache@.regions[v].region.region.id == id && r is Some
                ==> is_cached(r->0, *cache, v)
        &&& differ_in_times(*cache, *final(cache))
    } by {
        let model = cache.region_cache@;
        let candidate = model.candidate_by_id(id);
        lemma_used(
            model,
            candidate,
            cache.ttl,
            now,
            require_buckets,
            final(cache).region_cache@,
        );
        assert forall|v: RegionVerId| #[trigger]
            model.regions.contains_key(v) && model.regions[v].region.region.id
                == id implies candidate == Some(v) by {
            assert(model.indexes(v));
            assert(model.regions[v].region@.region.id == id);
        }
        if candidate is Some {
            let v = candidate->0;
            assert(model.ids.contains_key(id));
            assert(model.regions[v].region@.region.id == id);
            assert(model.regions[v].region.region.id == id);
            if r is Some {
                assert(r->0.region@.region.id == id);
                assert(is_usable(*cache, v, now, require_buckets));
            }
        }
        if exists|v: RegionVerId|
            model.regions.contains_key(v) && model.regions[v].region.region.id == id
                && #[trigger] is_usable(*cache, v, now, require_buckets) {
            let v = choose|v: RegionVerId|
                model.regions.contains_key(v) && model.regions[v].region.region.id == id
                    && #[trigger] is_usable(*cache, v, now, require_buckets);
            assert(candidate == Some(v));
        }
        assert(differ_in_times(*cache, *final(cache)));
    }
}

/// A region is found by its identity just if it is cached under it and has not expired.
pub proof fn law_a_region_is_found_by_its_identity(
    ver_id: RegionVerId,
    now: i64,
    require_buckets: bool,
)
    ensures
        forall|cache: &mut RegionCache, r: Option<RegionLoadResult>| #[trigger]
            call_ensures(
                RegionCache::cached_region_load_by_ver_id,
                (cache, ver_id, now, require_buckets),
                r,
            ) ==> {
                &&& r is Some <==> is_usable(*cache, ver_id, now, require_buckets)
                &&& r is Some ==> is_cached(r->0, *cache, ver_id)
                &&& differ_in_times(*cache, *final(cache))
            },
{
    assert forall|cache: &mut RegionCache, r: Option<RegionLoadResult>| #[trigger]
        call_ensures(
            RegionCache::cached_region_load_by_ver_id,
            (cache, ver_id, now, require_buckets),
            r,
        ) implies {
        &&& r is Some <==> is_usable(*cache, ver_id, now, require_buckets)
        &&& r is Some ==> is_cached(r->0, *cache, ver_id)
        &&& differ_in_times(*cache, *final(cache))
    } by {
        let model = cache.region_cache@;
        lemma_used(
            model,
            model.known(ver_id),
            cache.ttl,
            now,
            require_buckets,
            final(cache).region_cache@,
        );
    }
}

/// The two cached regions have a key in common.
pub open spec fn share_a_key(a: RegionWithLeader, b: RegionWithLeader) -> bool {
    exists|key: Seq<u8>| #[trigger] a@.contains(key) && b@.contains(key)
}

/// A region that is added is cached from then on, with what it was told with. Of the others just
/// those stay that have no key in common with it and another id, and they stay as they are. The
/// cache is as consistent as before.
pub proof fn law_an_added_region_takes_the_place_of_the_old(
    loaded: RegionLoadResult,
    now: i64,
    other: RegionVerId,
)
    ensures
        forall|cache: &mut RegionCache|
            cache.region_cache@.consistent() && cache.region_cache@.accepts(loaded.region@)
                && #[trigger] call_ensures(
                RegionCache::add_region_load,
                (cache, loaded, now),
                (),
            ) ==> {
                let model = cache.region_cache@;
                let last = final(cache).region_cache@;
                let ver_id = loaded.region@.ver_id();
                &&& last.consistent()
                &&& last.regions.contains_key(ver_id)
                &&& last.regions[ver_id].region == loaded.region
                &&& is_due(cache.ttl, now, last.regions[ver_id].ttl_epoch_sec)
                &&& loaded.buckets is Some ==> last.regions[ver_id].buckets == loaded.buckets
                &&& loaded.buckets is None && model.regions.contains_key(ver_id) ==> buckets_view(
                    last.regions[ver_id].buckets,
                ) == buckets_view(model.regions[ver_id].buckets)
                &&& loaded.buckets is None && !model.regions.contains_key(ver_id)
                    ==> last.regions[ver_id].buckets is None
                &&& other != ver_id ==> (last.regions.contains_key(other)
                    <==> model.regions.contains_key(other) && !share_a_key(
                    model.regions[other].region,
                    loaded.region,
                ) && model.regions[other].region.region.id != loaded.region.region.id)
                &&& other != ver_id && last.regions.contains_key(other) ==> last.regions[other]
                    == model.regions[other]
                &&& final(cache).store_cache == cache.store_cache && final(cache).ttl == cache.ttl
            },
{
    assert forall|cache: &mut RegionCache|
        cache.region_cache@.consistent() && cache.region_cache@.accepts(loaded.region@)
            && #[trigger] call_ensures(
            RegionCache::add_region_load,
            (cache, loaded, now),
            (),
        ) implies {
        let model = cache.region_cache@;
        let last = final(cache).region_cache@;
        let ver_id = loaded.region@.ver_id();
        &&& last.consistent()
        &&& last.regions.contains_key(ver_id)
        &&& last.regions[ver_id].region == loaded.region
        &&& is_due(cache.ttl, now, last.regions[ver_id].ttl_epoch_sec)
        &&& loaded.buckets is Some ==> last.regions[ver_id].buckets == loaded.buckets
        &&& loaded.buckets is None && model.regions.contains_key(ver_id) ==> buckets_view(
            last.regions[ver_id].buckets,
        ) == buckets_view(model.regions[ver_id].buckets)
        &&& loaded.buckets is None && !model.regions.contains_key(ver_id)
            ==> last.regions[ver_id].buckets is None
        &&& other != ver_id ==> (last.regions.contains_key(other)
            <==> model.regions.contains_key(other) && !share_a_key(
            model.regions[other].region,
            loaded.region,
        ) && model.regions[other].region.region.id != loaded.region.region.id)
        &&& other != ver_id && last.regions.contains_key(other) ==> last.regions[other]
            == model.regions[other]
        &&& final(cache).store_cache == cache.store_cache && final(cache).ttl == cache.ttl
    } by {
        let model = cache.region_cache@;
        let last = final(cache).region_cache@;
        let ver_id = loaded.region@.ver_id();
        let cached = last.regions[ver_id];
        assert(cache.adds(loaded, now, last));
        assert(last == model.added(cached));
        law_adding_keeps_the_cache_consistent(model, cached);
        if other != ver_id && model.regions.contains_key(other) {
            assert(model.indexes(other));
            law_adding_drops_just_what_overlaps(model, cached, other);
            law_overlap_is_a_common_key(model.regions[other].region@, loaded.region@);
            assert(model.regions[other].region@.region.id == model.regions[other].region.region.id);
        }
    }
}

/// A region that is cached gets the leader, and nothing else of it changes but the moment at which
/// it expires. The other regions stay as they are, and one that is not cached is not added.
pub proof fn law_a_leader_is_noted_for_its_region_alone(
    ver_id: RegionVerId,
    leader: Peer,
    now: i64,
    other: RegionVerId,
)
    ensures
        forall|cache: &mut RegionCache, r: Result<()>| #[trigger]
            call_ensures(RegionCache::update_leader, (cache, ver_id, leader, now), r) ==> {
                let model = cache.region_cache@;
                let last = final(cache).region_cache@;
                &&& r is Ok
                &&& last.regions.contains_key(other) <==> model.regions.contains_key(other)
                &&& other != ver_id && model.regions.contains_key(other) ==> last.regions[other]
                    == model.regions[other]
                &&& model.regions.contains_key(ver_id) ==> {
                    &&& last.regions[ver_id].region.leader == Some(leader)
                    &&& last.regions[ver_id].region.region == model.regions[ver_id].region.region
                    &&& last.regions[ver_id].buckets == model.regions[ver_id].buckets
                    &&& is_due(cache.ttl, now, last.regions[ver_id].ttl_epoch_sec)
                }
                &&& model.consistent() ==> last.consistent()
            },
{
    assert forall|cache: &mut RegionCache, r: Result<()>| #[trigger]
        call_ensures(RegionCache::update_leader, (cache, ver_id, leader, now), r)
            && cache.region_cache@.consistent() implies final(cache).region_cache@.consistent() by {
        let model = cache.region_cache@;
        if model.regions.contains_key(ver_id) {
            let cached = final(cache).region_cache@.regions[ver_id];
            assert(cached.region@.region == model.regions[ver_id].region@.region);
            law_changing_an_entry_keeps_the_cache_consistent(model, ver_id, cached);
        }
    }
}

/// A region that is forgotten is not cached any more, and all the others are, as before.
pub proof fn law_a_forgotten_region_is_gone(ver_id: RegionVerId, other: RegionVerId)
    ensures
        forall|cache: &mut RegionCache|
            cache.region_cache@.consistent() && #[trigger] call_ensures(
                RegionCache::invalidate_region_cache,
                (cache, ver_id),
                (),
            ) ==> {
                let model = cache.region_cache@;
                let last = final(cache).region_cache@;
                &&& last.consistent()
                &&& last.regions.contains_key(other) <==> other != ver_id
                    && model.regions.contains_key(other)
                &&& last.regions.contains_key(other) ==> last.regions[other]
                    == model.regions[other]
                &&& final(cache).store_cache == cache.store_cache
            },
{
    assert forall|cache: &mut RegionCache|
        cache.region_cache@.consistent() && #[trigger] call_ensures(
            RegionCache::invalidate_region_cache,
            (cache, ver_id),
            (),
        ) implies {
        let model = cache.region_cache@;
        let last = final(cache).region_cache@;
        &&& last.consistent()
        &&& last.regions.contains_key(other) <==> other != ver_id && model.regions.contains_key(
            other,
        )
        &&& last.regions.contains_key(other) ==> last.regions[other] == model.regions[other]
        &&& final(cache).store_cache == cache.store_cache
    } by {
        law_a_dropped_region_is_gone(cache.region_cache@, ver_id, Seq::empty());
    }
}

/// Buckets that a store tells of are taken just if the region is cached and its own are older. They
/// replace those, and the rest of the region stays.
pub proof fn law_newer_buckets_are_taken(
    ver_id: RegionVerId,
    version: u64,
    keys: Vec<Vec<u8>>,
    now: i64,
    other: RegionVerId,
)
    ensures
        forall|cache: &mut RegionCache, r: bool| #[trigger]
            call_ensures(
                RegionCache::update_region_buckets_from_mismatch,
                (cache, ver_id, version, keys, now),
                r,
            ) ==> {
                let model = cache.region_cache@;
                let last = final(cache).region_cache@;
                let cached = model.regions[ver_id];
                &&& r <==> model.regions.contains_key(ver_id) && version > 0 && (cached.buckets
                    is Some ==> cached.buckets->0.version < version)
                &&& !r ==> last == model
                &&& r ==> {
                    let buckets = last.regions[ver_id].buckets;
                    &&& buckets is Some
                    &&& buckets->0.version == version
                    &&& buckets->0.keys == keys
                    &&& buckets->0.region_id == cached.region.region.id
                    &&& last.regions[ver_id].region == cached.region
                    &&& is_due(cache.ttl, now, last.regions[ver_id].ttl_epoch_sec)
                }
                &&& last.regions.contains_key(other) <==> model.regions.contains_key(other)
                &&& other != ver_id && model.regions.contains_key(other) ==> last.regions[other]
                    == model.regions[other]
            },
{
}

/// A region is loaded again just if it is cached and its buckets are older than they could be.
pub proof fn law_a_region_with_old_buckets_is_loaded_again(
    cache: RegionCache,
    ver_id: RegionVerId,
    version: u64,
    r: Option<RegionId>,
)
    requires
        call_ensures(RegionCache::region_to_refresh, (&cache, ver_id, version), r),
    ensures
        ({
            let cached = cache.region_cache@.regions[ver_id];
            &&& r is Some <==> cache.region_cache@.regions.contains_key(ver_id) && version > 0 && (
            cached.buckets is Some ==> cached.buckets->0.version < version)
            &&& r is Some ==> r->0 == cached.region.region.id
        }),
{
}

/// The store has the label of an engine that does not serve the key-value service.
pub open spec fn has_columnar_label(store: StoreView) -> bool {
    exists|i: int|
        0 <= i < store.labels.len() && (#[trigger] store.labels[i]).0 == "engine"@ && (
        store.labels[i].1 == "tiflash"@ || store.labels[i].1 == "tiflash_compute"@)
}

/// A store serves the key-value service just if it is up or going offline, and no label says that
/// it is another engine.
pub proof fn law_which_stores_serve(store: Store, r: bool)
    requires
        call_ensures(is_valid_tikv_store, (&store,), r),
    ensures
        r <==> (store.state == 0 || store.state == 1) && !has_columnar_label(store@),
{
}

/// The list tells of the store, and this is the last that it tells.
pub open spec fn is_told_last(list: Seq<Store>, id: StoreId, i: int) -> bool {
    &&& 0 <= i < list.len()
    &&& list[i].id == id
    &&& forall|k: int| i < k < list.len() ==> (#[trigger] list[k]).id != id
}

/// The list does not tell of the store.
pub open spec fn is_untold(list: Seq<Store>, id: StoreId) -> bool {
    forall|i: int| 0 <= i < list.len() ==> (#[trigger] list[i]).id != id
}

proof fn lemma_told_last(stores: Map<StoreId, StoreView>, list: Seq<Store>, id: StoreId, i: int)
    requires
        is_told_last(list, id, i),
    ensures
        with_stores(stores, list).contains_key(id),
        with_stores(stores, list)[id] == list[i]@,
    decreases list.len(),
{
    let init = list.drop_last();
    if i < list.len() - 1 {
        assert(list[list.len() - 1].id != id);
        assert(is_told_last(init, id, i)) by {
            assert forall|k: int| i < k < init.len() implies (#[trigger] init[k]).id != id by {
                assert(init[k] == list[k]);
            }
        }
        lemma_told_last(stores, init, id, i);
    }
}

proof fn lemma_untold(stores: Map<StoreId, StoreView>, list: Seq<Store>, id: StoreId)
    requires
        is_untold(list, id),
    ensures
        with_stores(stores, list).contains_key(id) <==> stores.contains_key(id),
        stores.contains_key(id) ==> with_stores(stores, list)[id] == stores[id],
    decreases list.len(),
{
    if list.len() > 0 {
        let init = list.drop_last();
        assert(list[list.len() - 1].id != id);
        assert forall|k: int| 0 <= k < init.len() implies (#[trigger] init[k]).id != id by {
            assert(init[k] == list[k]);
        }
        lemma_untold(stores, init, id);
    }
}

/// All the stores that serve the key-value service are given, in their order, and remembered. What
/// is told last of a store is what is remembered. The other stores stay as they were, and where
/// the stores could not be told nothing changes.
pub proof fn law_all_serving_stores_are_remembered(id: StoreId)
    ensures
        forall|cache: &mut RegionCache, fetched: Result<Vec<Store>>, r: Result<Vec<Store>>|
            #[trigger] call_ensures(RegionCache::read_through_all_stores, (cache, fetched), r) ==> {
                let stores = cache.store_cache@;
                let last = final(cache).store_cache@;
                &&& fetched is Err ==> r == fetched && last == stores
                &&& fetched is Ok ==> {
                    let given = r->Ok_0@;
                    &&& r is Ok
                    &&& given == fetched->Ok_0@.filter(
                        |store: Store|
                            (store.state == 0 || store.state == 1) && !has_columnar_label(store@),
                    )
                    &&& forall|i: int| #[trigger]
                        is_told_last(given, id, i) ==> last.contains_key(id) && last[id]
                            == given[i]@
                    &&& is_untold(given, id) ==> (last.contains_key(id) <==> stores.contains_key(
                        id,
                    )) && (stores.contains_key(id) ==> last[id] == stores[id])
                }
                &&& final(cache).region_cache == cache.region_cache
            },
{
    assert((|store: Store| is_tikv_store(store@)) =~= (|store: Store|
        (store.state == 0 || store.state == 1) && !has_columnar_label(store@)));
    assert forall|stores: Map<StoreId, StoreView>, list: Seq<Store>, i: int|
        is_told_last(list, id, i) implies #[trigger] with_stores(stores, list).contains_key(id)
        && with_stores(stores, list)[id] == (#[trigger] list[i])@ by {
        lemma_told_last(stores, list, id, i);
    }
    assert forall|stores: Map<StoreId, StoreView>, list: Seq<Store>|
        is_untold(list, id) implies (#[trigger] with_stores(stores, list).contains_key(id)
        <==> stores.contains_key(id)) && (stores.contains_key(id) ==> with_stores(stores, list)[id]
        == stores[id]) by {
        lemma_untold(stores, list, id);
    }
}

/// A store that was told is remembered under the id that it was asked for with, until it is
/// forgotten.
pub proof fn law_a_store_is_remembered_until_it_is_forgotten(id: StoreId, other: StoreId)
    ensures
        forall|cache: &mut RegionCache, fetched: Result<Store>, r: Result<Store>| #[trigger]
            call_ensures(RegionCache::read_through_store_by_id, (cache, id, fetched), r) ==> {
                let last = final(cache).store_cache@;
                &&& r is Ok <==> fetched is Ok
                &&& r is Ok ==> r->Ok_0@ == fetched->Ok_0@ && last.contains_key(id) && last[id]
                    == fetched->Ok_0@
                &&& r is Err ==> r->Err_0 == fetched->Err_0
                &&& other != id || r is Err ==> (last.contains_key(other)
                    <==> cache.store_cache@.contains_key(other)) && (last.contains_key(other)
                    ==> last[other] == cache.store_cache@[other])
            },
        forall|cache: &mut RegionCache| #[trigger]
            call_ensures(RegionCache::invalidate_store_cache, (cache, id), ()) ==> {
                let last = final(cache).store_cache@;
                &&& !last.contains_key(id)
                &&& other != id ==> (last.contains_key(other)
                    <==> cache.store_cache@.contains_key(other)) && (last.contains_key(other)
                    ==> last[other] == cache.store_cache@[other])
            },
        forall|cache: &RegionCache, r: Option<Store>| #[trigger]
            call_ensures(RegionCache::cached_store, (cache, id), r) ==> (r is Some
                <==> cache.store_cache@.contains_key(id)) && (r is Some ==> r->0@
                == cache.store_cache@[id]),
{
}

/// A region that the cache holds is never fetched, and one that it does not hold is fetched unless
/// someone else does so. Who has waited looks into the cache again.
pub proof fn law_a_region_is_fetched_only_if_it_is_missed(
    state: RegionLoad,
    event: LoadEvent,
    r: (RegionLoad, LoadAction),
)
    requires
        state.expects(event),
        call_ensures(RegionLoad::next, (state, event), r),
    ensures
        event == LoadEvent::Hit <==> r.1 == LoadAction::ReturnCached || r.1
            == LoadAction::FinishWithCached,
        r.1 == LoadAction::FinishWithCached ==> state == RegionLoad::LookingAgain,
        r.1 == LoadAction::Fetch <==> state == RegionLoad::LookingAgain && event
            == LoadEvent::Miss,
        r.1 == LoadAction::Register <==> state == RegionLoad::LookingUp && event
            == LoadEvent::Miss,
        r.1 == LoadAction::LookUp <==> event == LoadEvent::Woken || event
            == LoadEvent::BecameLoader,
        event == LoadEvent::Woken ==> r.0 == RegionLoad::LookingUp,
        event == LoadEvent::BecameLoader ==> r.0 == RegionLoad::LookingAgain,
        r.1 == LoadAction::Wait <==> event == LoadEvent::AlreadyLoading,
        r.1 == LoadAction::FinishWithFetched <==> event == LoadEvent::Fetched,
        r.0 == RegionLoad::Done <==> event == LoadEvent::Hit || event == LoadEvent::Fetched,
        r.0 == RegionLoad::Registering <==> r.1 == LoadAction::Register,
        r.0 == RegionLoad::Waiting <==> r.1 == LoadAction::Wait,
        r.0 == RegionLoad::Fetching <==> r.1 == LoadAction::Fetch,
{
}

/// Who is first to ask for a key or an id becomes its loader, and no one else does until the marker
/// is cleared. Markers of others stay.
pub proof fn law_a_marker_has_one_owner(
    key: &Key,
    other_key: Seq<u8>,
    id: RegionId,
    other_id: RegionId,
)
    ensures
        forall|keys: &mut LoadingKeys, r: bool| #[trigger]
            call_ensures(LoadingKeys::register, (keys, key), r) ==> {
                &&& r <==> !keys@.contains(key@)
                &&& (*final(keys))@.contains(key@)
                &&& other_key != key@ ==> ((*final(keys))@.contains(other_key)
                    <==> keys@.contains(other_key))
            },
        forall|keys: &mut LoadingKeys| #[trigger]
            call_ensures(LoadingKeys::clear, (keys, key), ()) ==> {
                &&& !(*final(keys))@.contains(key@)
                &&& other_key != key@ ==> ((*final(keys))@.contains(other_key)
                    <==> keys@.contains(other_key))
            },
        forall|ids: &mut LoadingIds, r: bool| #[trigger]
            call_ensures(LoadingIds::register, (ids, id), r) ==> {
                &&& r <==> !ids@.contains(id)
                &&& (*final(ids))@.contains(id)
                &&& other_id != id ==> ((*final(ids))@.contains(other_id) <==> ids@.contains(
                    other_id,
                ))
            },
        forall|ids: &mut LoadingIds| #[trigger]
            call_ensures(LoadingIds::clear, (ids, id), ()) ==> {
                &&& !(*final(ids))@.contains(id)
                &&& other_id != id ==> ((*final(ids))@.contains(other_id) <==> ids@.contains(
                    other_id,
                ))
            },
{
}

} // verus!
