//! When the client is asked for what the cache does not hold, and what becomes of its answers.

use vstd::prelude::*;

use crate::common::errors::{Error, Result};
use crate::kv::key::Key;
use crate::pd::retry::RetryClientTrait;
use crate::proto::metapb::{Buckets, Store};
use crate::region::{RegionId, RegionVerId, RegionWithLeader, StoreId};
use crate::region_cache::cache::RegionCache;
use crate::region_cache::laws::law_the_region_of_a_key_is_found;
use crate::region_cache::map::{bucket_version, buckets_view, RegionLoadResult};
use crate::region_cache::through::{answers_by_id, answers_by_key, region_of};
use crate::region_cache::uses::{differ_in_times, holds_key, is_cached, is_due, is_usable, lemma_used};

verus! {

/// The client may answer so if it is asked for the region of the key.
pub open spec fn may_tell_by_key<C: RetryClientTrait>(
    client: C,
    key: Seq<u8>,
    with_buckets: bool,
    told: Result<RegionLoadResult>,
) -> bool {
    exists|bytes: Vec<u8>|
        #![trigger bytes@]
        {
            &&& bytes@ == key
            &&& with_buckets ==> call_ensures(C::get_region_with_buckets, (&client, bytes), told)
            &&& !with_buckets ==> call_ensures(C::get_region, (&client, bytes), region_of(told))
            &&& !with_buckets && told is Ok ==> told->Ok_0.buckets is None
        }
}

/// The region is cached as it was told, until its time is over.
pub open spec fn is_noted(cache: RegionCache, told: RegionLoadResult, now: i64) -> bool {
    let ver_id = told.region@.ver_id();
    let noted = cache.region_cache@.regions[ver_id];
    &&& cache.region_cache@.regions.contains_key(ver_id)
    &&& noted.region@ == told.region@
    &&& told.buckets is Some ==> buckets_view(noted.buckets) == buckets_view(told.buckets)
    &&& is_due(cache.ttl, now, noted.ttl_epoch_sec)
}

/// What comes back is what was told, and it is cached if it is a region.
pub open spec fn is_passed_on(
    told: Result<RegionLoadResult>,
    now: i64,
    after: RegionCache,
    r: Result<RegionLoadResult>,
) -> bool {
    match told {
        Ok(loaded) => {
            &&& r is Ok
            &&& r->Ok_0.region@ == loaded.region@
            &&& buckets_view(r->Ok_0.buckets) == buckets_view(loaded.buckets)
            &&& is_noted(after, loaded, now)
        },
        Err(error) => r is Err && r->Err_0 == error,
    }
}

proof fn lemma_passed_on(
    looked: RegionCache,
    told: Result<RegionLoadResult>,
    now: i64,
    after: RegionCache,
    r: Result<RegionLoadResult>,
)
    requires
        looked.takes(told, now, after, r),
        after.differs_in_regions(looked),
    ensures
        is_passed_on(told, now, after, r),
{
    if told is Ok {
        let loaded = told->Ok_0;
        let ver_id = loaded.region@.ver_id();
        assert(looked.adds(loaded, now, after.region_cache@));
        assert(after.region_cache@.regions.contains_key(ver_id));
    }
}

pub(crate) proof fn lemma_tells_by_key<C: RetryClientTrait>(
    client: C,
    key: Seq<u8>,
    with_buckets: bool,
    told: Result<RegionLoadResult>,
)
    requires
        answers_by_key(client, key, with_buckets, told),
    ensures
        may_tell_by_key(client, key, with_buckets, told),
{
    let bytes = choose|bytes: Vec<u8>|
        #![trigger bytes@]
        {
            &&& bytes@ == key
            &&& if with_buckets {
                call_ensures(C::get_region_with_buckets, (&client, bytes), told)
            } else {
                match told {
                    Ok(loaded) => loaded.buckets is None && call_ensures(
                        C::get_region,
                        (&client, bytes),
                        Ok::<RegionWithLeader, Error>(loaded.region),
                    ),
                    Err(error) => call_ensures(
                        C::get_region,
                        (&client, bytes),
                        Err::<RegionWithLeader, Error>(error),
                    ),
                }
            }
        };
    assert(bytes@ == key);
    if told is Ok {
        assert(region_of(told) == Ok::<RegionWithLeader, Error>(told->Ok_0.region));
    } else {
        assert(region_of(told) == Err::<RegionWithLeader, Error>(told->Err_0));
    }
}

/// A cached region holds the key, has not expired, and has buckets if they are required.
pub open spec fn knows_region_of(
    cache: RegionCache,
    key: Seq<u8>,
    now: i64,
    require_buckets: bool,
) -> bool {
    exists|v: RegionVerId| #[trigger]
        holds_key(cache.region_cache@, v, key) && is_usable(cache, v, now, require_buckets)
}

/// The client is asked for the region of a key just if no cached one that has not expired holds
/// it. What it tells is passed on, and cached.
pub proof fn law_a_region_is_asked_for_only_if_it_is_missed<C: RetryClientTrait>(
    client: &C,
    key: &Key,
    now: i64,
    require_buckets: bool,
)
    ensures
        forall|cache: &mut RegionCache, r: Result<RegionLoadResult>|
            cache.region_cache@.consistent() && #[trigger] call_ensures(
                RegionCache::get_region_load_by_key::<C>,
                (cache, client, key, now, require_buckets),
                r,
            ) ==> {
                &&& knows_region_of(*cache, key@, now, require_buckets) ==> {
                    &&& r is Ok
                    &&& forall|v: RegionVerId| #[trigger]
                        holds_key(cache.region_cache@, v, key@) ==> is_cached(r->Ok_0, *cache, v)
                    &&& differ_in_times(*cache, *final(cache))
                }
                &&& !knows_region_of(*cache, key@, now, require_buckets) ==> exists|
                    told: Result<RegionLoadResult>,
                |
                    #[trigger] may_tell_by_key(*client, key@, require_buckets, told)
                        && is_passed_on(told, now, *final(cache), r)
            },
{
    assert forall|cache: &mut RegionCache, r: Result<RegionLoadResult>|
        cache.region_cache@.consistent() && #[trigger] call_ensures(
            RegionCache::get_region_load_by_key::<C>,
            (cache, client, key, now, require_buckets),
            r,
        ) implies {
        &&& knows_region_of(*cache, key@, now, require_buckets) ==> {
            &&& r is Ok
            &&& forall|v: RegionVerId| #[trigger]
                holds_key(cache.region_cache@, v, key@) ==> is_cached(r->Ok_0, *cache, v)
            &&& differ_in_times(*cache, *final(cache))
        }
        &&& !knows_region_of(*cache, key@, now, require_buckets) ==> exists|
            told: Result<RegionLoadResult>,
        |
            #[trigger] may_tell_by_key(*client, key@, require_buckets, told) && is_passed_on(
                told,
                now,
                *final(cache),
                r,
            )
    } by {
        lemma_given_by_key(*cache, *client, key@, now, require_buckets, *final(cache), r);
    }
}

/// The region of a key is the cached one if that has not expired, and else the one that the
/// client tells. Buckets play no part in it.
pub proof fn law_a_key_leads_to_its_region<C: RetryClientTrait>(client: &C, key: &Key, now: i64)
    ensures
        forall|cache: &mut RegionCache, r: Result<RegionWithLeader>|
            cache.region_cache@.consistent() && #[trigger] call_ensures(
                RegionCache::get_region_by_key::<C>,
                (cache, client, key, now),
                r,
            ) ==> {
                &&& knows_region_of(*cache, key@, now, false) ==> {
                    &&& r is Ok
                    &&& forall|v: RegionVerId| #[trigger]
                        holds_key(cache.region_cache@, v, key@) ==> r->Ok_0@
                            == cache.region_cache@.regions[v].region@
                    &&& differ_in_times(*cache, *final(cache))
                }
                &&& !knows_region_of(*cache, key@, now, false) ==> exists|
                    told: Result<RegionLoadResult>,
                |
                    {
                        &&& #[trigger] may_tell_by_key(*client, key@, false, told)
                        &&& told is Ok ==> {
                            &&& r is Ok
                            &&& r->Ok_0@ == told->Ok_0.region@
                            &&& is_noted(*final(cache), told->Ok_0, now)
                        }
                        &&& told is Err ==> r is Err && r->Err_0 == told->Err_0
                    }
            },
{
    assert forall|cache: &mut RegionCache, r: Result<RegionWithLeader>|
        cache.region_cache@.consistent() && #[trigger] call_ensures(
            RegionCache::get_region_by_key::<C>,
            (cache, client, key, now),
            r,
        ) implies {
        &&& knows_region_of(*cache, key@, now, false) ==> {
            &&& r is Ok
            &&& forall|v: RegionVerId| #[trigger]
                holds_key(cache.region_cache@, v, key@) ==> r->Ok_0@
                    == cache.region_cache@.regions[v].region@
            &&& differ_in_times(*cache, *final(cache))
        }
        &&& !knows_region_of(*cache, key@, now, false) ==> exists|told: Result<RegionLoadResult>|
            {
                &&& #[trigger] may_tell_by_key(*client, key@, false, told)
                &&& told is Ok ==> {
                    &&& r is Ok
                    &&& r->Ok_0@ == told->Ok_0.region@
                    &&& is_noted(*final(cache), told->Ok_0, now)
                }
                &&& told is Err ==> r is Err && r->Err_0 == told->Err_0
            }
    } by {
        let load = choose|load: Result<RegionLoadResult>| #[trigger]
            cache.gives_by_key(*client, key@, now, false, *final(cache), load) && r == region_of(
                load,
            );
        lemma_given_by_key(*cache, *client, key@, now, false, *final(cache), load);
    }
}

/// The version of the buckets of a key's region is that of the cached ones if they are there and
/// the region has not expired, and else that of the ones that the client tells. It is 0 if there
/// are none.
pub proof fn law_a_key_leads_to_the_version_of_its_buckets<C: RetryClientTrait>(
    client: &C,
    key: &Key,
    now: i64,
)
    ensures
        forall|cache: &mut RegionCache, r: Result<(RegionWithLeader, u64)>|
            cache.region_cache@.consistent() && #[trigger] call_ensures(
                RegionCache::get_region_with_bucket_version_by_key::<C>,
                (cache, client, key, now),
                r,
            ) ==> {
                &&& knows_region_of(*cache, key@, now, true) ==> {
                    &&& r is Ok
                    &&& forall|v: RegionVerId| #[trigger]
                        holds_key(cache.region_cache@, v, key@) ==> (r->Ok_0).0@
                            == cache.region_cache@.regions[v].region@ && (r->Ok_0).1
                            == cache.region_cache@.regions[v].buckets->0.version
                    &&& differ_in_times(*cache, *final(cache))
                }
                &&& !knows_region_of(*cache, key@, now, true) ==> exists|
                    told: Result<RegionLoadResult>,
                |
                    {
                        &&& #[trigger] may_tell_by_key(*client, key@, true, told)
                        &&& told is Ok ==> {
                            &&& r is Ok
                            &&& (r->Ok_0).0@ == told->Ok_0.region@
                            &&& told->Ok_0.buckets is Some ==> (r->Ok_0).1
                                == told->Ok_0.buckets->0.version
                            &&& told->Ok_0.buckets is None ==> (r->Ok_0).1 == 0
                            &&& is_noted(*final(cache), told->Ok_0, now)
                        }
                        &&& told is Err ==> r is Err && r->Err_0 == told->Err_0
                    }
            },
{
    assert forall|cache: &mut RegionCache, r: Result<(RegionWithLeader, u64)>|
        cache.region_cache@.consistent() && #[trigger] call_ensures(
            RegionCache::get_region_with_bucket_version_by_key::<C>,
            (cache, client, key, now),
            r,
        ) implies {
        &&& knows_region_of(*cache, key@, now, true) ==> {
            &&& r is Ok
            &&& forall|v: RegionVerId| #[trigger]
                holds_key(cache.region_cache@, v, key@) ==> (r->Ok_0).0@
                    == cache.region_cache@.regions[v].region@ && (r->Ok_0).1
                    == cache.region_cache@.regions[v].buckets->0.version
            &&& differ_in_times(*cache, *final(cache))
        }
        &&& !knows_region_of(*cache, key@, now, true) ==> exists|told: Result<RegionLoadResult>|
            {
                &&& #[trigger] may_tell_by_key(*client, key@, true, told)
                &&& told is Ok ==> {
                    &&& r is Ok
                    &&& (r->Ok_0).0@ == told->Ok_0.region@
                    &&& told->Ok_0.buckets is Some ==> (r->Ok_0).1
                        == told->Ok_0.buckets->0.version
                    &&& told->Ok_0.buckets is None ==> (r->Ok_0).1 == 0
                    &&& is_noted(*final(cache), told->Ok_0, now)
                }
                &&& told is Err ==> r is Err && r->Err_0 == told->Err_0
            }
    } by {
        let load = choose|load: Result<RegionLoadResult>|
            {
                &&& #[trigger] cache.gives_by_key(*client, key@, now, true, *final(cache), load)
                &&& r == match load {
                    Ok(loaded) => Ok::<(RegionWithLeader, u64), Error>(
                        (loaded.region, bucket_version(loaded.buckets)),
                    ),
                    Err(error) => Err(error),
                }
            };
        let model = cache.region_cache@;
        lemma_given_by_key(*cache, *client, key@, now, true, *final(cache), load);
        if knows_region_of(*cache, key@, now, true) {
            let at = choose|v: RegionVerId| #[trigger]
                holds_key(model, v, key@) && is_usable(*cache, v, now, true);
            assert forall|v: RegionVerId| #[trigger] holds_key(model, v, key@) implies v == at by {
                law_the_region_of_a_key_is_found(model, v, key@);
                law_the_region_of_a_key_is_found(model, at, key@);
            }
            assert(buckets_view(load->Ok_0.buckets) == buckets_view(model.regions[at].buckets));
        }
    }
}

pub(crate) proof fn lemma_given_by_key<C: RetryClientTrait>(
    cache: RegionCache,
    client: C,
    key: Seq<u8>,
    now: i64,
    require_buckets: bool,
    after: RegionCache,
    r: Result<RegionLoadResult>,
)
    requires
        cache.region_cache@.consistent(),
        cache.gives_by_key(client, key, now, require_buckets, after, r),
    ensures
        knows_region_of(cache, key, now, require_buckets) ==> {
            &&& r is Ok
            &&& forall|v: RegionVerId| #[trigger]
                holds_key(cache.region_cache@, v, key) ==> is_cached(r->Ok_0, cache, v)
            &&& differ_in_times(cache, after)
        },
        !knows_region_of(cache, key, now, require_buckets) ==> exists|
            told: Result<RegionLoadResult>,
        |
            #[trigger] may_tell_by_key(client, key, require_buckets, told) && is_passed_on(
                told,
                now,
                after,
                r,
            ),
{
    let model = cache.region_cache@;
    let candidate = model.candidate_by_key(key);
    assert forall|v: RegionVerId| #[trigger] holds_key(model, v, key) implies candidate == Some(
        v,
    ) by {
        law_the_region_of_a_key_is_found(model, v, key);
    }
    let hit = model.finds(candidate, cache.ttl, now, require_buckets)
        && model.regions[candidate->0].region@.contains(key);
    if hit {
        assert(holds_key(model, candidate->0, key));
        lemma_used(model, candidate, cache.ttl, now, require_buckets, after.region_cache@);
    } else {
        let (looked, told) = choose|looked: RegionCache, told: Result<RegionLoadResult>|
            {
                &&& looked.differs_in_regions(cache)
                &&& model.used(candidate, cache.ttl, now, require_buckets, looked.region_cache@)
                &&& #[trigger] answers_by_key(client, key, require_buckets, told)
                &&& #[trigger] looked.takes(told, now, after, r)
            };
        lemma_tells_by_key(client, key, require_buckets, told);
        lemma_passed_on(looked, told, now, after, r);
    }
}

/// The client is asked for a region by its id just if no cached one that has not expired has it.
/// What it tells is passed on, and cached.
pub proof fn law_a_region_is_asked_for_by_id_only_if_it_is_missed<C: RetryClientTrait>(
    client: &C,
    id: RegionId,
    now: i64,
)
    ensures
        forall|cache: &mut RegionCache, r: Result<RegionWithLeader>|
            cache.region_cache@.consistent() && #[trigger] call_ensures(
                RegionCache::get_region_by_id::<C>,
                (cache, client, id, now),
                r,
            ) ==> {
                &&& forall|v: RegionVerId|
                    cache.region_cache@.regions.contains_key(v)
                        && cache.region_cache@.regions[v].region.region.id == id
                        && #[trigger] is_usable(*cache, v, now, false) ==> r is Ok && r->Ok_0@
                        == cache.region_cache@.regions[v].region@ && differ_in_times(
                        *cache,
                        *final(cache),
                    )
                &&& (forall|v: RegionVerId|
                    cache.region_cache@.regions.contains_key(v)
                        && cache.region_cache@.regions[v].region.region.id == id
                        ==> !#[trigger] is_usable(*cache, v, now, false)) ==> exists|
                    told: Result<RegionLoadResult>,
                |
                    #[trigger] call_ensures(C::get_region_by_id, (client, id), region_of(told))
                        && (r is Ok <==> told is Ok) && (r is Ok ==> r->Ok_0@
                        == told->Ok_0.region@ && is_noted(*final(cache), told->Ok_0, now)) && (
                    r is Err ==> r->Err_0 == told->Err_0)
            },
{
    assert forall|cache: &mut RegionCache, r: Result<RegionWithLeader>|
        cache.region_cache@.consistent() && #[trigger] call_ensures(
            RegionCache::get_region_by_id::<C>,
            (cache, client, id, now),
            r,
        ) implies {
        &&& forall|v: RegionVerId|
            cache.region_cache@.regions.contains_key(v)
                && cache.region_cache@.regions[v].region.region.id == id && #[trigger] is_usable(
                *cache,
                v,
                now,
                false,
            ) ==> r is Ok && r->Ok_0@ == cache.region_cache@.regions[v].region@
                && differ_in_times(*cache, *final(cache))
        &&& (forall|v: RegionVerId|
            cache.region_cache@.regions.contains_key(v)
                && cache.region_cache@.regions[v].region.region.id == id
                ==> !#[trigger] is_usable(*cache, v, now, false)) ==> exists|
            told: Result<RegionLoadResult>,
        |
            #[trigger] call_ensures(C::get_region_by_id, (client, id), region_of(told)) && (r is Ok
                <==> told is Ok) && (r is Ok ==> r->Ok_0@ == told->Ok_0.region@ && is_noted(
                *final(cache),
                told->Ok_0,
                now,
            )) && (r is Err ==> r->Err_0 == told->Err_0)
    } by {
        let load = choose|load: Result<RegionLoadResult>| #[trigger]
            cache.gives_by_id(*client, id, now, *final(cache), load) && r == region_of(load);
        let model = cache.region_cache@;
        let candidate = model.candidate_by_id(id);
        let hit = model.finds(candidate, cache.ttl, now, false);
        assert forall|v: RegionVerId| #[trigger]
            model.regions.contains_key(v) && model.regions[v].region.region.id
                == id implies candidate == Some(v) by {
            assert(model.indexes(v));
            assert(model.regions[v].region@.region.id == id);
        }
        if candidate is Some {
            assert(model.ids.contains_key(id));
            assert(model.regions[candidate->0].region@.region.id == id);
            assert(model.regions[candidate->0].region.region.id == id);
        }
        if hit {
            lemma_used(model, candidate, cache.ttl, now, false, final(cache).region_cache@);
            assert(is_usable(*cache, candidate->0, now, false));
        } else {
            let (looked, told) = choose|looked: RegionCache, told: Result<RegionLoadResult>|
                {
                    &&& looked.differs_in_regions(*cache)
                    &&& model.used(candidate, cache.ttl, now, false, looked.region_cache@)
                    &&& #[trigger] answers_by_id(*client, id, false, told)
                    &&& #[trigger] looked.takes(told, now, *final(cache), load)
                };
            lemma_passed_on(looked, told, now, *final(cache), load);
            assert(call_ensures(C::get_region_by_id, (client, id), region_of(told))) by {
                if told is Ok {
                    assert(region_of(told) == Ok::<RegionWithLeader, Error>(told->Ok_0.region));
                } else {
                    assert(region_of(told) == Err::<RegionWithLeader, Error>(told->Err_0));
                }
            }
        }
    }
}

/// The client is asked for a store just if it is not cached. What it tells is passed on, and
/// cached under the id that was asked for.
pub proof fn law_a_store_is_asked_for_only_if_it_is_missed<C: RetryClientTrait>(
    client: &C,
    id: StoreId,
    other: StoreId,
)
    ensures
        forall|cache: &mut RegionCache, r: Result<Store>| #[trigger]
            call_ensures(RegionCache::get_store_by_id::<C>, (cache, client, id), r) ==> {
                let before = cache.store_cache@;
                let after = final(cache).store_cache@;
                &&& before.contains_key(id) ==> r is Ok && r->Ok_0@ == before[id] && after
                    == before
                &&& !before.contains_key(id) ==> exists|told: Result<Store>| #[trigger]
                    call_ensures(C::get_store, (client, id), told) && (told is Ok <==> r is Ok) && (
                    told is Ok ==> r->Ok_0@ == told->Ok_0@ && after.contains_key(id) && after[id]
                        == told->Ok_0@) && (told is Err ==> r->Err_0 == told->Err_0 && after
                        == before)
                &&& other != id ==> (after.contains_key(other) <==> before.contains_key(other))
                &&& other != id && before.contains_key(other) ==> after[other] == before[other]
            },
{
}

/// A region is loaded again just if it is cached with buckets of an earlier version, where no
/// buckets count as version zero.
pub proof fn law_stale_buckets_are_loaded_again<C: RetryClientTrait>(
    client: &C,
    ver_id: RegionVerId,
    latest: u64,
    now: i64,
)
    ensures
        forall|cache: &mut RegionCache, r: Result<bool>| #[trigger]
            call_ensures(
                RegionCache::refresh_region_buckets_if_stale::<C>,
                (cache, client, ver_id, latest, now),
                r,
            ) ==> {
                let cached = cache.region_cache@.regions[ver_id];
                let is_stale = cache.region_cache@.regions.contains_key(ver_id) && (
                cached.buckets is None && latest > 0 || cached.buckets is Some
                    && cached.buckets->0.version < latest);
                &&& !is_stale ==> r is Ok && !r->Ok_0 && *final(cache) == *cache
                &&& is_stale ==> exists|told: Result<RegionLoadResult>| #[trigger]
                    call_ensures(
                        C::get_region_by_id_with_buckets,
                        (client, cached.region.region.id),
                        told,
                    ) && (told is Ok <==> r is Ok) && (r is Ok ==> r->Ok_0 && is_noted(
                        *final(cache),
                        told->Ok_0,
                        now,
                    )) && (r is Err ==> r->Err_0 == told->Err_0 && *final(cache) == *cache)
            },
{
    assert forall|cache: &mut RegionCache, r: Result<bool>| #[trigger]
        call_ensures(
            RegionCache::refresh_region_buckets_if_stale::<C>,
            (cache, client, ver_id, latest, now),
            r,
        ) implies {
        let cached = cache.region_cache@.regions[ver_id];
        let is_stale = cache.region_cache@.regions.contains_key(ver_id) && (cached.buckets is None
            && latest > 0 || cached.buckets is Some && cached.buckets->0.version < latest);
        &&& !is_stale ==> r is Ok && !r->Ok_0 && *final(cache) == *cache
        &&& is_stale ==> exists|told: Result<RegionLoadResult>| #[trigger]
            call_ensures(
                C::get_region_by_id_with_buckets,
                (client, cached.region.region.id),
                told,
            ) && (told is Ok <==> r is Ok) && (r is Ok ==> r->Ok_0 && is_noted(
                *final(cache),
                told->Ok_0,
                now,
            )) && (r is Err ==> r->Err_0 == told->Err_0 && *final(cache) == *cache)
    } by {
        let cached = cache.region_cache@.regions[ver_id];
        let is_stale = cache.region_cache@.regions.contains_key(ver_id) && (cached.buckets is None
            && latest > 0 || cached.buckets is Some && cached.buckets->0.version < latest);
        if is_stale {
            let told = choose|told: Result<RegionLoadResult>|
                {
                    &&& #[trigger] answers_by_id(*client, cached.region@.region.id, true, told)
                    &&& match told {
                        Ok(loaded) => r == Ok::<bool, Error>(true) && cache.adds(
                            loaded,
                            now,
                            final(cache).region_cache@,
                        ),
                        Err(error) => r == Err::<bool, Error>(error) && *final(cache) == *cache,
                    }
                };
            assert(cached.region@.region.id == cached.region.region.id);
            assert(call_ensures(
                C::get_region_by_id_with_buckets,
                (client, cached.region.region.id),
                told,
            ));
            if told is Ok {
                assert(final(cache).region_cache@.regions.contains_key(
                    told->Ok_0.region@.ver_id(),
                ));
            }
        }
    }
}

/// A new cache knows nothing, and its regions stay for the given times, as far as these can be.
pub proof fn law_a_new_cache_knows_nothing(base_secs: u64, jitter_secs: u64, r: RegionCache)
    requires
        call_ensures(RegionCache::new_with_ttl, (base_secs, jitter_secs), r),
    ensures
        forall|v: RegionVerId| !(#[trigger] r.region_cache@.regions.contains_key(v)),
        forall|id: StoreId| !(#[trigger] r.store_cache@.contains_key(id)),
        r.region_cache@.consistent(),
        base_secs <= i64::MAX ==> r.ttl.base_sec == base_secs,
        base_secs > i64::MAX ==> r.ttl.base_sec == i64::MAX,
        jitter_secs <= i64::MAX ==> r.ttl.jitter_sec == jitter_secs,
        jitter_secs > i64::MAX ==> r.ttl.jitter_sec == i64::MAX,
{
}

/// A region that was fetched is passed on and noted; what was not fetched changes nothing.
pub proof fn law_a_fetched_region_is_noted(
    fetched: Result<RegionLoadResult>,
    region: RegionWithLeader,
    now: i64,
)
    ensures
        forall|cache: &mut RegionCache, r: Result<RegionLoadResult>| #[trigger]
            call_ensures(RegionCache::read_through_region, (cache, fetched, now), r)
                ==> is_passed_on(fetched, now, *final(cache), r) && (fetched is Err
                ==> *final(cache) == *cache),
        forall|cache: &mut RegionCache| #[trigger]
            call_ensures(RegionCache::add_region, (cache, region, now), ()) ==> is_noted(
                *final(cache),
                RegionLoadResult { region, buckets: None },
                now,
            ),
{
    assert forall|cache: &mut RegionCache, r: Result<RegionLoadResult>| #[trigger]
        call_ensures(RegionCache::read_through_region, (cache, fetched, now), r) implies is_passed_on(
        fetched,
        now,
        *final(cache),
        r,
    ) && (fetched is Err ==> *final(cache) == *cache) by {
        lemma_passed_on(*cache, fetched, now, *final(cache), r);
    }
    assert forall|cache: &mut RegionCache| #[trigger]
        call_ensures(RegionCache::add_region, (cache, region, now), ()) implies is_noted(
        *final(cache),
        RegionLoadResult { region, buckets: None },
        now,
    ) by {
        let loaded = RegionLoadResult { region, buckets: None };
        assert(cache.adds(loaded, now, final(cache).region_cache@));
        assert(final(cache).region_cache@.regions.contains_key(loaded.region@.ver_id()));
    }
}

/// The buckets of a region are found just if it is cached with some and has not expired.
pub proof fn law_the_buckets_of_a_region_are_found(ver_id: RegionVerId, now: i64)
    ensures
        forall|cache: &mut RegionCache, r: Option<Buckets>| #[trigger]
            call_ensures(
                RegionCache::get_cached_region_buckets_by_ver_id,
                (cache, ver_id, now),
                r,
            ) ==> {
                &&& r is Some <==> is_usable(*cache, ver_id, now, true)
                &&& r is Some ==> buckets_view(r) == buckets_view(
                    cache.region_cache@.regions[ver_id].buckets,
                )
            },
        forall|cache: &mut RegionCache, r: Option<Buckets>|
            cache.region_cache@.consistent() && cache.region_cache@.regions.contains_key(ver_id)
                && #[trigger] call_ensures(
                RegionCache::get_cached_region_buckets_by_id,
                (cache, cache.region_cache@.regions[ver_id].region.region.id, now),
                r,
            ) ==> {
                &&& r is Some <==> is_usable(*cache, ver_id, now, true)
                &&& r is Some ==> buckets_view(r) == buckets_view(
                    cache.region_cache@.regions[ver_id].buckets,
                )
            },
{
    assert forall|cache: &mut RegionCache, r: Option<Buckets>| #[trigger]
        call_ensures(
            RegionCache::get_cached_region_buckets_by_ver_id,
            (cache, ver_id, now),
            r,
        ) implies {
        &&& r is Some <==> is_usable(*cache, ver_id, now, true)
        &&& r is Some ==> buckets_view(r) == buckets_view(
            cache.region_cache@.regions[ver_id].buckets,
        )
    } by {
        assert(buckets_view(r) is Some <==> r is Some);
    }
    assert forall|cache: &mut RegionCache, r: Option<Buckets>|
        cache.region_cache@.consistent() && cache.region_cache@.regions.contains_key(ver_id)
            && #[trigger] call_ensures(
            RegionCache::get_cached_region_buckets_by_id,
            (cache, cache.region_cache@.regions[ver_id].region.region.id, now),
            r,
        ) implies {
        &&& r is Some <==> is_usable(*cache, ver_id, now, true)
        &&& r is Some ==> buckets_view(r) == buckets_view(
            cache.region_cache@.regions[ver_id].buckets,
        )
    } by {
        let model = cache.region_cache@;
        assert(model.indexes(ver_id));
        assert(model.regions[ver_id].region@.region.id == model.regions[ver_id].region.region.id);
        assert(buckets_view(r) is Some <==> r is Some);
    }
}

} // verus!
