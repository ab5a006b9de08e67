use std::cell::{Cell, RefCell};
use std::collections::{BTreeMap, HashMap};

use tikv_client::common::errors::{Error, Result};
use tikv_client::kv::key::Key;
use tikv_client::pd::retry::RetryClientTrait;
use tikv_client::proto::keyspacepb::KeyspaceMeta;
use tikv_client::proto::metapb::{self, RegionEpoch};
use tikv_client::proto::pdpb::Timestamp;
use tikv_client::region::{RegionId, RegionWithLeader, StoreId};
use tikv_client::region_cache::cache::RegionCache;
use tikv_client::region_cache::loading::{
    LoadAction, LoadEvent, LoadingIds, LoadingKeys, RegionLoad,
};
use tikv_client::region_cache::map::RegionLoadResult;
use tikv_client::region_cache::stores::is_valid_tikv_store;
use tikv_client::region_cache::ttl::RegionCacheTtl;

#[test]
fn test_region_cache_ttl_check_and_refresh() {
    let ttl = RegionCacheTtl::new(10, 0);
    let now: i64 = 100;

    // Far in the future: keep TTL, do not refresh.
    let mut value = now + 100;
    assert!(ttl.check_and_refresh(&mut value, now));
    assert_eq!(value, now + 100);

    // Close enough to expire: refresh to now + base.
    let mut value = now + 5;
    assert!(ttl.check_and_refresh(&mut value, now));
    assert_eq!(value, now + 10);

    // Already expired.
    let mut value = now - 1;
    assert!(!ttl.check_and_refresh(&mut value, now));
    assert_eq!(value, now - 1);
}

#[test]
fn test_is_valid_tikv_store() {
    let mut store = metapb::Store::default();
    assert!(is_valid_tikv_store(&store));

    store.state = 2;
    assert!(!is_valid_tikv_store(&store));

    store.state = 0;
    assert!(is_valid_tikv_store(&store));

    store.labels.push(metapb::StoreLabel {
        key: "some_key".to_owned(),
        value: "some_value".to_owned(),
    });
    assert!(is_valid_tikv_store(&store));

    store.labels.push(metapb::StoreLabel {
        key: "engine".to_owned(),
        value: "tiflash".to_owned(),
    });
    assert!(!is_valid_tikv_store(&store));

    store.labels[1].value = "tiflash_compute".to_string();
    assert!(!is_valid_tikv_store(&store));

    store.labels[1].value = "other".to_string();
    assert!(is_valid_tikv_store(&store));
}

const NOW: i64 = 1_000_000;

fn region_buckets(region: &RegionWithLeader) -> metapb::Buckets {
    metapb::Buckets {
        region_id: region.id(),
        version: 100 + region.id(),
        keys: vec![region.region.start_key.clone(), region.region.end_key.clone()],
        ..Default::default()
    }
}

/// A client that knows some regions, and counts how often it is asked.
#[derive(Default)]
struct MockRetryClient {
    regions: RefCell<HashMap<RegionId, RegionWithLeader>>,
    stores: RefCell<HashMap<StoreId, metapb::Store>>,
    get_region_count: Cell<usize>,
    get_region_with_buckets_count: Cell<usize>,
    get_store_count: Cell<usize>,
}

impl MockRetryClient {
    fn insert(&self, region: RegionWithLeader) {
        self.regions.borrow_mut().insert(region.id(), region);
    }

    fn by_key(&self, key: Vec<u8>) -> Result<RegionWithLeader> {
        let key = Key::from(key);
        match self.regions.borrow().values().find(|region| region.contains(&key)) {
            Some(region) => Ok(region.clone()),
            None => Err(Error::StringError("MockRetryClient: region not found".to_owned())),
        }
    }

    fn by_id(&self, id: RegionId) -> Result<RegionWithLeader> {
        match self.regions.borrow().get(&id) {
            Some(region) => Ok(region.clone()),
            None => Err(Error::StringError("MockRetryClient: region not found".to_owned())),
        }
    }
}

fn count(counter: &Cell<usize>) {
    counter.set(counter.get() + 1);
}

impl RetryClientTrait for MockRetryClient {
    fn get_region(&self, key: Vec<u8>) -> Result<RegionWithLeader> {
        count(&self.get_region_count);
        self.by_key(key)
    }

    fn get_region_by_id(&self, region_id: RegionId) -> Result<RegionWithLeader> {
        count(&self.get_region_count);
        self.by_id(region_id)
    }

    fn get_store(&self, id: StoreId) -> Result<metapb::Store> {
        count(&self.get_store_count);
        match self.stores.borrow().get(&id) {
            Some(store) => Ok(store.clone()),
            None => Err(Error::Unimplemented),
        }
    }

    fn get_all_stores(&self) -> Result<Vec<metapb::Store>> {
        Err(Error::Unimplemented)
    }

    fn get_timestamp(&self) -> Result<Timestamp> {
        Err(Error::Unimplemented)
    }

    fn get_min_ts(&self) -> Result<Timestamp> {
        Err(Error::Unimplemented)
    }

    fn update_safepoint(&self, _safepoint: u64) -> Result<bool> {
        Err(Error::Unimplemented)
    }

    fn load_keyspace(&self, _keyspace: &str) -> Result<KeyspaceMeta> {
        Err(Error::Unimplemented)
    }

    fn get_region_with_buckets(&self, key: Vec<u8>) -> Result<RegionLoadResult> {
        count(&self.get_region_with_buckets_count);
        let region = self.by_key(key)?;
        let buckets = region_buckets(&region);
        Ok(RegionLoadResult::new(region, Some(buckets)))
    }

    fn get_region_by_id_with_buckets(&self, region_id: RegionId) -> Result<RegionLoadResult> {
        count(&self.get_region_with_buckets_count);
        let region = self.by_id(region_id)?;
        let buckets = region_buckets(&region);
        Ok(RegionLoadResult::new(region, Some(buckets)))
    }
}

fn region(id: RegionId, start_key: Vec<u8>, end_key: Vec<u8>) -> RegionWithLeader {
    let mut region = RegionWithLeader::default();
    region.region.id = id;
    region.region.start_key = start_key;
    region.region.end_key = end_key;
    region.region.region_epoch = Some(RegionEpoch { conf_ver: 0, version: 0 });
    region
}

fn led_by(mut region: RegionWithLeader, store_id: StoreId) -> RegionWithLeader {
    region.leader = Some(metapb::Peer { store_id, ..Default::default() });
    region
}

#[test]
fn cache_is_used() {
    let client = MockRetryClient::default();
    let mut cache = RegionCache::new_with_ttl(600, 60);
    client.insert(led_by(region(1, vec![], vec![100]), 1));
    client.insert(led_by(region(2, vec![101], vec![]), 2));

    assert_eq!(client.get_region_count.get(), 0);

    // first query, read through
    let found = cache.get_region_by_id(&client, 1, NOW).unwrap();
    assert_eq!(found.end_key(), Key::from(vec![100]));
    assert_eq!(client.get_region_count.get(), 1);

    // should read from cache
    let found = cache.get_region_by_id(&client, 1, NOW).unwrap();
    assert_eq!(found.end_key(), Key::from(vec![100]));
    assert_eq!(client.get_region_count.get(), 1);

    // invalidate, should read through
    let ver_id = cache.get_region_by_id(&client, 1, NOW).unwrap().ver_id();
    cache.invalidate_region_cache(ver_id);
    let found = cache.get_region_by_id(&client, 1, NOW).unwrap();
    assert_eq!(found.end_key(), Key::from(vec![100]));
    assert_eq!(client.get_region_count.get(), 2);

    // update leader should work
    let ver_id = cache.get_region_by_id(&client, 2, NOW).unwrap().ver_id();
    let leader = metapb::Peer { store_id: 102, ..Default::default() };
    cache.update_leader(ver_id, leader, NOW).unwrap();
    let found = cache.get_region_by_id(&client, 2, NOW).unwrap();
    assert_eq!(found.leader.unwrap().store_id, 102);
}

#[test]
fn cache_entry_expires_by_ttl() {
    let client = MockRetryClient::default();
    let mut cache = RegionCache::new_with_ttl(600, 0);
    client.insert(region(1, vec![], vec![10]));

    assert_eq!(client.get_region_count.get(), 0);
    cache.get_region_by_id(&client, 1, NOW).unwrap();
    assert_eq!(client.get_region_count.get(), 1);

    // At its last moment the region is still there, and stays for another while.
    cache.get_region_by_id(&client, 1, NOW + 600).unwrap();
    assert_eq!(client.get_region_count.get(), 1);

    // Once it has expired it is reloaded.
    cache.get_region_by_id(&client, 1, NOW + 1201).unwrap();
    assert_eq!(client.get_region_count.get(), 2);
}

#[test]
fn test_get_region_by_id_expired_ttl_refetches() {
    let client = MockRetryClient::default();
    let mut cache = RegionCache::new_with_ttl(10, 0);
    client.insert(led_by(region(1, vec![], vec![100]), 1));

    assert_eq!(client.get_region_count.get(), 0);
    cache.get_region_by_id(&client, 1, NOW).unwrap();
    assert_eq!(client.get_region_count.get(), 1);

    cache.get_region_by_id(&client, 1, NOW + 11).unwrap();
    assert_eq!(client.get_region_count.get(), 2);
}

/// Two tasks ask for a region. The second one comes while the first one fetches.
fn fetch_twice(first_fails: bool, registers: &mut dyn FnMut() -> bool, clears: &mut dyn FnMut()) -> usize {
    let mut cached = false;
    let mut fetches = 0;

    let (first, action) = RegionLoad::start();
    assert_eq!(action, LoadAction::LookUp);
    let (first, action) = first.next(LoadEvent::Miss);
    assert_eq!(action, LoadAction::Register);
    assert!(registers());
    let (first, action) = first.next(LoadEvent::BecameLoader);
    assert_eq!(action, LoadAction::LookUp);
    let (first, action) = first.next(LoadEvent::Miss);
    assert_eq!(action, LoadAction::Fetch);
    fetches += 1;

    let (second, _) = RegionLoad::start();
    let (second, _) = second.next(LoadEvent::Miss);
    assert!(!registers());
    let (second, action) = second.next(LoadEvent::AlreadyLoading);
    assert_eq!(action, LoadAction::Wait);

    if !first_fails {
        cached = true;
    }
    let (first, action) = first.next(LoadEvent::Fetched);
    assert_eq!(action, LoadAction::FinishWithFetched);
    assert_eq!(first, RegionLoad::Done);
    clears();

    let (second, action) = second.next(LoadEvent::Woken);
    assert_eq!(action, LoadAction::LookUp);
    if cached {
        let (second, action) = second.next(LoadEvent::Hit);
        assert_eq!(action, LoadAction::ReturnCached);
        assert_eq!(second, RegionLoad::Done);
    } else {
        let (second, _) = second.next(LoadEvent::Miss);
        assert!(registers());
        let (second, _) = second.next(LoadEvent::BecameLoader);
        let (second, action) = second.next(LoadEvent::Miss);
        assert_eq!(action, LoadAction::Fetch);
        fetches += 1;
        let (second, _) = second.next(LoadEvent::Fetched);
        assert_eq!(second, RegionLoad::Done);
        clears();
    }
    fetches
}

fn fetch_by_id_twice(first_fails: bool) -> usize {
    let ids = RefCell::new(LoadingIds::new());
    fetch_twice(
        first_fails,
        &mut || ids.borrow_mut().register(1),
        &mut || ids.borrow_mut().clear(1),
    )
}

fn fetch_by_key_twice(first_fails: bool) -> usize {
    let keys = RefCell::new(LoadingKeys::new());
    let key = Key::from(vec![5]);
    fetch_twice(
        first_fails,
        &mut || keys.borrow_mut().register(&key),
        &mut || keys.borrow_mut().clear(&key),
    )
}

#[test]
fn test_get_region_by_id_deduplicates_in_flight_fetch() {
    assert_eq!(fetch_by_id_twice(false), 1);
}

#[test]
fn test_get_region_by_id_clears_in_flight_on_error() {
    assert_eq!(fetch_by_id_twice(true), 2);
}

#[test]
fn test_get_region_by_key_deduplicates_in_flight_fetch() {
    assert_eq!(fetch_by_key_twice(false), 1);
}

#[test]
fn test_get_region_by_key_clears_in_flight_on_error() {
    assert_eq!(fetch_by_key_twice(true), 2);
}

#[test]
fn a_load_that_another_one_has_just_made_is_not_made_again() {
    let (load, _) = RegionLoad::start();
    let (load, _) = load.next(LoadEvent::Miss);
    let (load, _) = load.next(LoadEvent::BecameLoader);
    let (load, action) = load.next(LoadEvent::Hit);
    assert_eq!(action, LoadAction::FinishWithCached);
    assert_eq!(load, RegionLoad::Done);
}

#[test]
fn keys_are_loaded_one_by_one() {
    let mut keys = LoadingKeys::new();
    let (a, b) = (Key::from(vec![1]), Key::from(vec![1, 0]));
    assert!(keys.register(&a));
    assert!(keys.register(&b));
    assert!(!keys.register(&a));
    keys.clear(&a);
    assert!(keys.register(&a));
    assert!(!keys.register(&b));
}

// a helper function to assert the cache is in expected state
fn assert_cached(cache: &mut RegionCache, expected: &BTreeMap<Vec<u8>, RegionWithLeader>) {
    for id in 1..10 {
        let found = cache.cached_region_load_by_id(id, NOW, false);
        let wanted = expected.values().find(|region| region.id() == id);
        assert_eq!(found.map(|loaded| loaded.region), wanted.map(|region| region.clone()));
    }
    for key in [0u8, 5, 10, 12, 15, 20, 25, 30, 35, 40, 50, 55, 60, 70, 255] {
        let key = Key::from(vec![key]);
        let found = cache.cached_region_load_by_key(&key, NOW, false);
        let wanted = expected.values().find(|region| region.contains(&key));
        assert_eq!(found.map(|loaded| loaded.region), wanted.map(|region| region.clone()));
    }
}

fn by_start(regions: Vec<RegionWithLeader>) -> BTreeMap<Vec<u8>, RegionWithLeader> {
    regions.into_iter().map(|region| (region.region.start_key.clone(), region)).collect()
}

#[test]
fn test_add_disjoint_regions() {
    let mut cache = RegionCache::new_with_ttl(600, 60);
    let region1 = region(1, vec![], vec![10]);
    let region2 = region(2, vec![10], vec![20]);
    let region3 = region(3, vec![30], vec![]);
    cache.add_region(region1.clone(), NOW);
    cache.add_region(region2.clone(), NOW);
    cache.add_region(region3.clone(), NOW);
    assert_cached(&mut cache, &by_start(vec![region1, region2, region3]));
}

#[test]
fn test_add_intersecting_regions() {
    let mut cache = RegionCache::new_with_ttl(600, 60);
    cache.add_region(region(1, vec![], vec![10]), NOW);
    cache.add_region(region(2, vec![10], vec![20]), NOW);
    cache.add_region(region(3, vec![30], vec![40]), NOW);
    cache.add_region(region(4, vec![50], vec![60]), NOW);
    cache.add_region(region(5, vec![20], vec![35]), NOW);
    assert_cached(
        &mut cache,
        &by_start(vec![
            region(1, vec![], vec![10]),
            region(2, vec![10], vec![20]),
            region(5, vec![20], vec![35]),
            region(4, vec![50], vec![60]),
        ]),
    );

    cache.add_region(region(6, vec![15], vec![25]), NOW);
    assert_cached(
        &mut cache,
        &by_start(vec![
            region(1, vec![], vec![10]),
            region(6, vec![15], vec![25]),
            region(4, vec![50], vec![60]),
        ]),
    );

    cache.add_region(region(7, vec![20], vec![]), NOW);
    assert_cached(
        &mut cache,
        &by_start(vec![region(1, vec![], vec![10]), region(7, vec![20], vec![])]),
    );

    cache.add_region(region(8, vec![], vec![15]), NOW);
    assert_cached(
        &mut cache,
        &by_start(vec![region(8, vec![], vec![15]), region(7, vec![20], vec![])]),
    );
}

#[test]
fn test_add_region_removes_overlapping_tail_region() {
    let mut cache = RegionCache::new_with_ttl(600, 60);
    let head = region(1, vec![], vec![30]);
    cache.add_region(head.clone(), NOW);
    cache.add_region(region(2, vec![30], vec![]), NOW);

    // A split of the old tail region: the old `[30, +inf)` must be removed.
    let mid = region(3, vec![50], vec![60]);
    cache.add_region(mid.clone(), NOW);
    assert_cached(&mut cache, &by_start(vec![head, mid]));
}

#[test]
fn a_newer_version_of_a_region_takes_its_place() {
    let mut cache = RegionCache::new_with_ttl(600, 0);
    let first = region(1, vec![], vec![10]);
    let mut second = region(1, vec![], vec![20]);
    second.region.region_epoch = Some(RegionEpoch { conf_ver: 0, version: 1 });
    cache.add_region(first.clone(), NOW);
    cache.add_region(second.clone(), NOW);
    assert_cached(&mut cache, &by_start(vec![second]));
    assert!(cache.cached_region_load_by_ver_id(first.ver_id(), NOW, false).is_none());
}

#[test]
fn test_get_region_by_key() {
    let client = MockRetryClient::default();
    let mut cache = RegionCache::new_with_ttl(600, 60);
    let region1 = region(1, vec![], vec![10]);
    let region2 = region(2, vec![10], vec![20]);
    let region3 = region(3, vec![30], vec![40]);
    let region4 = region(4, vec![50], vec![]);
    cache.add_region(region1.clone(), NOW);
    cache.add_region(region2.clone(), NOW);
    cache.add_region(region3.clone(), NOW);
    cache.add_region(region4.clone(), NOW);

    let mut get = |key: Vec<u8>| cache.get_region_by_key(&client, &Key::from(key), NOW);
    assert_eq!(get(vec![]).unwrap(), region1);
    assert_eq!(get(vec![5]).unwrap(), region1);
    assert_eq!(get(vec![10]).unwrap(), region2);
    assert!(get(vec![20]).is_err());
    assert!(get(vec![25]).is_err());
    assert_eq!(get(vec![60]).unwrap(), region4);
}

#[test]
fn test_get_region_with_bucket_version_by_key_uses_cache_and_reloads_after_invalidate() {
    let client = MockRetryClient::default();
    let mut cache = RegionCache::new_with_ttl(600, 60);
    let region = region(1, vec![], vec![10]);
    let buckets = region_buckets(&region);
    let key = Key::from(vec![5]);
    client.insert(region.clone());

    let (resolved, version) =
        cache.get_region_with_bucket_version_by_key(&client, &key, NOW).unwrap();
    assert_eq!(resolved, region);
    assert_eq!(version, buckets.version);
    assert_eq!(client.get_region_with_buckets_count.get(), 1);

    let (_, version) = cache.get_region_with_bucket_version_by_key(&client, &key, NOW).unwrap();
    assert_eq!(version, buckets.version);
    assert_eq!(client.get_region_with_buckets_count.get(), 1);
    assert_eq!(cache.get_cached_region_buckets_by_id(1, NOW), Some(region_buckets(&region)));

    cache.invalidate_region_cache(resolved.ver_id());
    assert_eq!(cache.get_cached_region_buckets_by_id(1, NOW), None);

    let (_, version) = cache.get_region_with_bucket_version_by_key(&client, &key, NOW).unwrap();
    assert_eq!(version, buckets.version);
    assert_eq!(client.get_region_with_buckets_count.get(), 2);
}

#[test]
fn test_read_through_region_by_id_with_buckets_populates_bucket_cache() {
    let client = MockRetryClient::default();
    let mut cache = RegionCache::new_with_ttl(600, 60);
    let region = region(1, vec![], vec![10]);
    client.insert(region.clone());

    let loaded =
        cache.read_through_region_by_id_with_buckets(&client, region.id(), NOW).unwrap();
    assert_eq!(loaded.region, region);
    assert_eq!(loaded.buckets, Some(region_buckets(&region)));
    assert_eq!(
        cache.get_cached_region_buckets_by_id(region.id(), NOW),
        Some(region_buckets(&region))
    );
    assert_eq!(
        cache.get_cached_region_buckets_by_ver_id(region.ver_id(), NOW),
        Some(region_buckets(&region))
    );
}

#[test]
fn test_add_region_preserves_cached_buckets_for_same_ver_id() {
    let client = MockRetryClient::default();
    let mut cache = RegionCache::new_with_ttl(600, 60);
    let region = region(1, vec![], vec![10]);
    client.insert(region.clone());

    cache.read_through_region_by_key_with_buckets(&client, &Key::from(vec![5]), NOW).unwrap();
    cache.add_region(region.clone(), NOW);
    assert_eq!(
        cache.get_cached_region_buckets_by_ver_id(region.ver_id(), NOW),
        Some(region_buckets(&region))
    );
}

#[test]
fn test_update_region_buckets_from_mismatch_updates_cache_without_pd_reload() {
    let client = MockRetryClient::default();
    let mut cache = RegionCache::new_with_ttl(600, 60);
    let region = region(1, vec![], vec![10]);
    client.insert(region.clone());

    cache.read_through_region_by_key_with_buckets(&client, &Key::from(vec![5]), NOW).unwrap();
    assert_eq!(client.get_region_with_buckets_count.get(), 1);

    let updated_keys = vec![vec![], vec![3], vec![10]];
    assert!(cache.update_region_buckets_from_mismatch(
        region.ver_id(),
        999,
        updated_keys.clone(),
        NOW
    ));
    assert_eq!(client.get_region_with_buckets_count.get(), 1);
    assert_eq!(
        cache.get_cached_region_buckets_by_ver_id(region.ver_id(), NOW),
        Some(metapb::Buckets {
            region_id: region.id(),
            version: 999,
            keys: updated_keys,
            ..Default::default()
        })
    );
    assert!(!cache.update_region_buckets_from_mismatch(
        region.ver_id(),
        11,
        vec![vec![], vec![4], vec![10]],
        NOW
    ));
}

#[test]
fn test_refresh_region_buckets_if_stale_reloads_by_region_id() {
    let client = MockRetryClient::default();
    let mut cache = RegionCache::new_with_ttl(600, 60);
    let region = region(1, vec![], vec![10]);
    let stale_buckets = metapb::Buckets {
        region_id: region.id(),
        version: 1,
        keys: vec![vec![], vec![10]],
        ..Default::default()
    };
    let fresh_buckets = region_buckets(&region);
    client.insert(region.clone());
    cache.add_region_load(RegionLoadResult::new(region.clone(), Some(stale_buckets)), NOW);

    assert!(cache
        .refresh_region_buckets_if_stale(&client, region.ver_id(), fresh_buckets.version, NOW)
        .unwrap());
    assert_eq!(client.get_region_with_buckets_count.get(), 1);
    assert_eq!(
        cache.get_cached_region_buckets_by_ver_id(region.ver_id(), NOW),
        Some(region_buckets(&region))
    );
    assert!(!cache
        .refresh_region_buckets_if_stale(&client, region.ver_id(), fresh_buckets.version, NOW)
        .unwrap());
    assert_eq!(client.get_region_with_buckets_count.get(), 1);
}

#[test]
fn the_time_to_live_is_random_within_its_range() {
    let ttl = RegionCacheTtl::new(600, 60);
    let mut seen = Vec::new();
    for _ in 0..200 {
        let until = ttl.next_ttl(NOW);
        assert!(NOW + 600 <= until && until < NOW + 660, "{until}");
        if !seen.contains(&until) {
            seen.push(until);
        }
    }
    assert!(seen.len() > 1);
    assert_eq!(ttl.next_ttl_with(NOW, 7), NOW + 607);
    assert_eq!(RegionCacheTtl::new(600, 0).next_ttl(NOW), NOW + 600);
}

#[test]
fn without_a_time_to_live_nothing_expires() {
    let client = MockRetryClient::default();
    let mut cache = RegionCache::new_with_ttl(0, 60);
    client.insert(region(1, vec![], vec![10]));
    cache.get_region_by_id(&client, 1, NOW).unwrap();
    cache.get_region_by_id(&client, 1, i64::MAX).unwrap();
    assert_eq!(client.get_region_count.get(), 1);
}

#[test]
fn stores_are_asked_for_once() {
    let client = MockRetryClient::default();
    let mut cache = RegionCache::new_with_ttl(600, 60);
    let store = metapb::Store { id: 7, address: "a".to_owned(), ..Default::default() };
    client.stores.borrow_mut().insert(7, store.clone());
    assert_eq!(cache.get_store_by_id(&client, 7).unwrap(), store);
    assert_eq!(cache.get_store_by_id(&client, 7).unwrap(), store);
    assert_eq!(client.get_store_count.get(), 1);
    cache.invalidate_store_cache(7);
    assert_eq!(cache.get_store_by_id(&client, 7).unwrap(), store);
    assert_eq!(client.get_store_count.get(), 2);
    assert!(cache.get_store_by_id(&client, 8).is_err());
}

#[test]
fn only_stores_of_the_service_are_remembered() {
    let mut cache = RegionCache::new_with_ttl(600, 60);
    let good = metapb::Store { id: 1, ..Default::default() };
    let gone = metapb::Store { id: 2, state: 2, ..Default::default() };
    let found = cache.read_through_all_stores(Ok(vec![good.clone(), gone])).unwrap();
    assert_eq!(found, vec![good.clone()]);
    assert_eq!(cache.cached_store(1), Some(good));
    assert_eq!(cache.cached_store(2), None);
    assert!(cache.read_through_all_stores(Err(Error::Unimplemented)).is_err());
}
