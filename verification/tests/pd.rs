use std::cell::RefCell;

use tikv_client::common::errors::{internal_err, Error, Result};
use tikv_client::kv::bound_range::BoundRange;
use tikv_client::kv::key::Key;
use tikv_client::pd::client::PdRegions;
use tikv_client::pd::decode::{decode_region_load, infer_bucket_keyspace};
use tikv_client::pd::groups::{make_key_range, KeyGroups, RangeGroups, RangeWalk};
use tikv_client::pd::retry::{
    min_ts_from_response, region_from_response, region_load_from_response, safepoint_is_taken,
    should_connect, store_from_response, PdRetry, PdRetryAction, PdRetryConfig, RetryClientTrait,
};
use tikv_client::proto::keyspacepb::KeyspaceMeta;
use tikv_client::proto::kvrpcpb::KeyRange;
use tikv_client::proto::metapb::{self, RegionEpoch};
use tikv_client::proto::pdpb::{GetRegionResponse, Timestamp, UpdateGcSafePointResponse};
use tikv_client::region::{RegionId, RegionWithLeader, StoreId};
use tikv_client::region_cache::cache::RegionCache;
use tikv_client::region_cache::map::RegionLoadResult;
use tikv_client::request::keyspace::{EncodeKeyspace, KeyMode, Keyspace};
use tikv_client::store::{range_intersection, range_to_cover, shard_of_range};

const NOW: i64 = 1_000_000;

fn region(id: RegionId, start_key: Vec<u8>, end_key: Vec<u8>, store_id: StoreId) -> RegionWithLeader {
    RegionWithLeader {
        region: metapb::Region {
            id,
            start_key,
            end_key,
            region_epoch: Some(RegionEpoch { conf_ver: 0, version: 0 }),
            ..Default::default()
        },
        leader: Some(metapb::Peer { store_id, ..Default::default() }),
    }
}

fn region1() -> RegionWithLeader {
    region(1, vec![], vec![10], 41)
}

fn region2() -> RegionWithLeader {
    region(2, vec![10], vec![250, 250], 42)
}

fn region3() -> RegionWithLeader {
    region(3, vec![250, 250], vec![], 43)
}

fn region_for_key(key: &Key) -> RegionWithLeader {
    if region1().contains(key) {
        region1()
    } else if region2().contains(key) {
        region2()
    } else {
        region3()
    }
}

fn region_buckets(region: &RegionWithLeader) -> metapb::Buckets {
    metapb::Buckets {
        region_id: region.id(),
        version: 100 + region.id(),
        keys: vec![region.region.start_key.clone(), region.region.end_key.clone()],
        ..Default::default()
    }
}

/// A placement driver with three regions, which it knows under encoded keys if told so.
struct MockCluster {
    encodes: bool,
    asked: RefCell<Vec<Vec<u8>>>,
}

impl MockCluster {
    fn told(&self, region: RegionWithLeader) -> RegionWithLeader {
        let mut told = region;
        if self.encodes {
            if !told.region.start_key.is_empty() {
                told.region.start_key = Key::from(told.region.start_key).to_encoded().0;
            }
            if !told.region.end_key.is_empty() {
                told.region.end_key = Key::from(told.region.end_key).to_encoded().0;
            }
        }
        told
    }

    fn regions(&self) -> Vec<RegionWithLeader> {
        vec![self.told(region1()), self.told(region2()), self.told(region3())]
    }
}

impl RetryClientTrait for MockCluster {
    fn get_region(&self, key: Vec<u8>) -> Result<RegionWithLeader> {
        self.asked.borrow_mut().push(key.clone());
        let key = Key::from(key);
        Ok(self.regions().into_iter().find(|region| region.contains(&key)).unwrap())
    }

    fn get_region_by_id(&self, region_id: RegionId) -> Result<RegionWithLeader> {
        match self.regions().into_iter().find(|region| region.id() == region_id) {
            Some(region) => Ok(region),
            None => Err(Error::RegionNotFoundInResponse { region_id }),
        }
    }

    fn get_store(&self, id: StoreId) -> Result<metapb::Store> {
        Ok(metapb::Store { id, ..Default::default() })
    }

    fn get_all_stores(&self) -> Result<Vec<metapb::Store>> {
        Err(Error::Unimplemented)
    }

    fn get_timestamp(&self) -> Result<Timestamp> {
        Err(Error::Unimplemented)
    }

    fn get_min_ts(&self) -> Result<Timestamp> {
        Err(Error::Unimplemented)
    }

    fn update_safepoint(&self, _safepoint: u64) -> Result<bool> {
        Err(Error::Unimplemented)
    }

    fn load_keyspace(&self, _keyspace: &str) -> Result<KeyspaceMeta> {
        Err(Error::Unimplemented)
    }

    fn get_region_with_buckets(&self, key: Vec<u8>) -> Result<RegionLoadResult> {
        let region = self.get_region(key)?;
        let buckets = region_buckets(&region);
        Ok(RegionLoadResult::new(region, Some(buckets)))
    }

    fn get_region_by_id_with_buckets(&self, region_id: RegionId) -> Result<RegionLoadResult> {
        let region = self.get_region_by_id(region_id)?;
        let buckets = region_buckets(&region);
        Ok(RegionLoadResult::new(region, Some(buckets)))
    }
}

fn pd_client(enable_codec: bool) -> PdRegions<MockCluster> {
    PdRegions {
        pd: MockCluster { encodes: enable_codec, asked: RefCell::new(vec![]) },
        enable_codec,
        region_cache: RegionCache::new_with_ttl(600, 60),
    }
}

#[test]
fn test_group_keys_by_region() {
    let tasks: Vec<Key> = vec![
        vec![1].into(),
        vec![2].into(),
        vec![3].into(),
        vec![5, 2].into(),
        vec![12].into(),
        vec![11, 4].into(),
    ];
    let mut groups = KeyGroups::new(tasks);

    let region = region_for_key(groups.next_key().unwrap());
    assert_eq!(
        groups.take_group(&region),
        vec![
            Key::from(vec![1]),
            Key::from(vec![2]),
            Key::from(vec![3]),
            Key::from(vec![5, 2]),
        ]
    );
    let region = region_for_key(groups.next_key().unwrap());
    assert_eq!(
        groups.take_group(&region),
        vec![Key::from(vec![12]), Key::from(vec![11, 4])]
    );
    assert!(groups.next_key().is_none());
}

#[test]
fn only_neighbours_share_a_group() {
    let mut groups =
        KeyGroups::new(vec![vec![1].into(), vec![12].into(), vec![2].into(), vec![3].into()]);
    let mut sizes = vec![];
    loop {
        let region = match groups.next_key() {
            Some(key) => region_for_key(key),
            None => break,
        };
        sizes.push((region.id(), groups.take_group(&region).len()));
    }
    assert_eq!(sizes, vec![(1, 1), (2, 1), (1, 2)]);
}

#[test]
fn all_keys_come_in_their_order() {
    let keys: Vec<Key> = vec![
        vec![12].into(),
        vec![1].into(),
        vec![1].into(),
        vec![255].into(),
        vec![].into(),
        vec![9, 9].into(),
        vec![250, 250].into(),
    ];
    let mut groups = KeyGroups::new(keys.clone());
    let mut taken = vec![];
    loop {
        let region = match groups.next_key() {
            Some(key) => region_for_key(key),
            None => break,
        };
        let group = groups.take_group(&region);
        assert!(group.iter().all(|key| region.contains(key)));
        taken.push(group);
    }
    assert_eq!(taken.len(), 5);
    assert_eq!(taken.concat(), keys);
}

fn walked(range: BoundRange) -> Vec<RegionId> {
    let mut walk = RangeWalk::new(range);
    let mut ids = vec![];
    loop {
        let region = match &walk.start {
            Some(key) => region_for_key(key),
            None => return ids,
        };
        ids.push(region.id());
        walk.advance(&region);
    }
}

#[test]
fn test_regions_for_range() {
    let k1: Key = vec![1].into();
    let k2: Key = vec![5, 2].into();
    let k3: Key = vec![11, 4].into();
    assert_eq!(walked(BoundRange::from_keys(k1, k2.clone())), vec![1]);
    assert_eq!(walked(BoundRange::from_keys(k2, k3)), vec![1, 2]);
}

#[test]
fn a_walk_ends_with_the_key_space_or_the_range() {
    assert_eq!(walked(range_to_cover(&(vec![], vec![]))), vec![1, 2, 3]);
    assert_eq!(walked(range_to_cover(&(vec![10], vec![]))), vec![2, 3]);
    assert_eq!(walked(range_to_cover(&(vec![], vec![10]))), vec![1]);
    assert_eq!(walked(range_to_cover(&(vec![9], vec![10, 0]))), vec![1, 2]);
    assert_eq!(walked(range_to_cover(&(vec![255], vec![255, 1]))), vec![3]);
}

fn grouped(ranges: Vec<KeyRange>) -> Vec<(Vec<KeyRange>, RegionId)> {
    let mut groups = RangeGroups::new(ranges);
    let mut found = vec![];
    while let Some(key) = groups.next_key() {
        let region = region_for_key(&key);
        found.push((groups.take_group(&region), region.id()));
    }
    found
}

#[test]
fn test_group_ranges_by_region() {
    let k1 = vec![1];
    let k2 = vec![5, 2];
    let k3 = vec![11, 4];
    let k4 = vec![16, 4];
    let k5 = vec![250, 251];
    let k6 = vec![255, 251];
    let k_split = vec![10];
    let range1 = make_key_range(k1.clone(), k2.clone());
    let range2 = make_key_range(k1.clone(), k3.clone());
    let range3 = make_key_range(k2.clone(), k4.clone());
    let found = grouped(vec![range1, range2, range3]);
    assert_eq!(found.len(), 4);
    assert_eq!(found[0].1, 1);
    assert_eq!(
        found[0].0,
        vec![
            make_key_range(k1.clone(), k2.clone()),
            make_key_range(k1.clone(), k_split.clone()),
        ]
    );
    assert_eq!(found[1].1, 2);
    assert_eq!(found[1].0, vec![make_key_range(k_split.clone(), k3.clone())]);
    assert_eq!(found[2].1, 1);
    assert_eq!(found[2].0, vec![make_key_range(k2.clone(), k_split.clone())]);
    assert_eq!(found[3].1, 2);
    assert_eq!(found[3].0, vec![make_key_range(k_split, k4.clone())]);

    let range1 = make_key_range(k1.clone(), k2.clone());
    let range2 = make_key_range(k3.clone(), k4.clone());
    let range3 = make_key_range(k5.clone(), k6.clone());
    let found = grouped(vec![range1, range2, range3]);
    assert_eq!(found[0].1, 1);
    assert_eq!(found[0].0, vec![make_key_range(k1, k2)]);
    assert_eq!(found[1].1, 2);
    assert_eq!(found[1].0, vec![make_key_range(k3, k4)]);
    assert_eq!(found[2].1, 3);
    assert_eq!(found[2].0, vec![make_key_range(k5, k6)]);
}

#[test]
fn the_parts_of_ranges_come_in_their_order() {
    let found = grouped(vec![
        make_key_range(vec![20], vec![]),
        make_key_range(vec![1], vec![255]),
        make_key_range(vec![2], vec![3]),
    ]);
    let parts: Vec<KeyRange> = found.into_iter().flat_map(|(parts, _)| parts).collect();
    assert_eq!(
        parts,
        vec![
            make_key_range(vec![20], vec![250, 250]),
            make_key_range(vec![250, 250], vec![]),
            make_key_range(vec![1], vec![10]),
            make_key_range(vec![10], vec![250, 250]),
            make_key_range(vec![250, 250], vec![255]),
            make_key_range(vec![2], vec![3]),
        ]
    );
}

#[test]
fn test_coprocessor_request_is_sharded_by_region() {
    let found = grouped(vec![
        make_key_range(vec![], vec![5]),
        make_key_range(vec![10], vec![20]),
        make_key_range(vec![250, 250], vec![]),
    ]);
    let seen_region_ids: Vec<RegionId> = found.iter().map(|(_, id)| *id).collect();
    assert_eq!(seen_region_ids, vec![1, 2, 3]);
}

#[test]
fn a_request_goes_only_to_its_part_of_a_region() {
    assert_eq!(shard_of_range(&(vec![5], vec![20]), &region1()), (vec![5], vec![10]));
    assert_eq!(shard_of_range(&(vec![5], vec![20]), &region2()), (vec![10], vec![20]));
    assert_eq!(shard_of_range(&(vec![5], vec![]), &region3()), (vec![250, 250], vec![]));
    let (start, end) = range_intersection(
        (Key::from(vec![3]), Key::from(vec![9])),
        (Key::from(vec![1]), Key::from(vec![])),
    );
    assert_eq!((start, end), (Key::from(vec![3]), Key::from(vec![9])));
}

#[test]
fn test_load_region_by_key_with_buckets_uses_mock_cluster() {
    let mut client = pd_client(false);
    let loaded = client.load_region_by_key_with_buckets(&Key::from(vec![5]), NOW).unwrap();
    assert_eq!(loaded.region, region1());
    assert_eq!(loaded.buckets, Some(region_buckets(&region1())));
}

#[test]
fn test_load_region_by_id_with_buckets_uses_mock_cluster() {
    let mut client = pd_client(false);
    let loaded = client.load_region_by_id_with_buckets(2, NOW).unwrap();
    assert_eq!(loaded.region, region2());
    assert_eq!(loaded.buckets, Some(region_buckets(&region2())));
}

#[test]
fn keys_are_encoded_for_the_placement_driver() {
    let mut client = pd_client(true);
    assert_eq!(client.region_for_key(&Key::from(vec![12]), NOW).unwrap(), region2());
    assert_eq!(client.region_for_key(&Key::from(vec![13]), NOW).unwrap(), region2());
    assert_eq!(client.region_for_id(3, NOW).unwrap(), region3());
    assert_eq!(
        *client.pd.asked.borrow(),
        vec![Key::from(vec![12]).to_encoded().0]
    );
    assert!(client.region_for_id(9, NOW).is_err());

    let mut client = pd_client(false);
    assert_eq!(client.region_for_key(&Key::from(vec![12]), NOW).unwrap(), region2());
    assert_eq!(*client.pd.asked.borrow(), vec![vec![12]]);
}

#[test]
fn the_store_of_a_region_is_that_of_its_leader() {
    let mut client = pd_client(false);
    assert_eq!(client.store_of_region(&region2()).unwrap().id, 42);
    let mut leaderless = region2();
    leaderless.leader = None;
    assert_eq!(
        client.store_of_region(&leaderless),
        Err(Error::LeaderNotFound { region: region2().ver_id() })
    );
}

#[test]
fn test_decode_region_load_decodes_bucket_keys_when_codec_enabled() {
    let expected_region = region2();
    let mut encoded_region = expected_region.clone();
    encoded_region.region.start_key =
        Key::from(expected_region.region.start_key.clone()).to_encoded().0;
    encoded_region.region.end_key =
        Key::from(expected_region.region.end_key.clone()).to_encoded().0;

    let mut encoded_buckets = region_buckets(&expected_region);
    encoded_buckets.keys =
        encoded_buckets.keys.into_iter().map(|key| Key::from(key).to_encoded().0).collect();

    let decoded = decode_region_load(
        RegionLoadResult::new(encoded_region, Some(encoded_buckets)),
        true,
    )
    .unwrap();

    assert_eq!(decoded.region, expected_region);
    assert_eq!(decoded.buckets, Some(region_buckets(&region2())));
}

#[test]
fn test_decode_region_load_decodes_keyspace_bucket_keys_when_codec_enabled() {
    let keyspace = Keyspace::Enable { keyspace_id: 42 };
    let region_start: Vec<u8> =
        Key::from(Vec::<u8>::new()).encode_keyspace(keyspace, KeyMode::Raw).0;
    let region_end = vec![b'r', 0, 0, 43];

    let mut expected_region = region1();
    expected_region.region.start_key = region_start.clone();
    expected_region.region.end_key = region_end.clone();

    let mut encoded_region = expected_region.clone();
    encoded_region.region.start_key = Key::from(region_start.clone()).to_encoded().0;
    encoded_region.region.end_key = Key::from(region_end.clone()).to_encoded().0;

    let bucket_inside: Vec<u8> =
        Key::from(b"a".to_vec()).encode_keyspace(keyspace, KeyMode::Raw).0;
    let encoded_buckets = metapb::Buckets {
        region_id: expected_region.id(),
        version: 101,
        keys: vec![
            Key::from(region_start).to_encoded().0,
            Key::from(bucket_inside).to_encoded().0,
            Key::from(region_end).to_encoded().0,
        ],
        ..Default::default()
    };
    assert_eq!(
        infer_bucket_keyspace(&encoded_buckets.keys),
        Some((keyspace, KeyMode::Raw))
    );

    let decoded = decode_region_load(
        RegionLoadResult::new(encoded_region, Some(encoded_buckets)),
        true,
    )
    .unwrap();

    assert_eq!(decoded.region, expected_region);
    assert_eq!(
        decoded.buckets.unwrap().keys,
        vec![Vec::new(), b"a".to_vec(), Vec::new()]
    );
}

#[test]
fn keys_that_are_not_encoded_cannot_be_decoded() {
    let mut region = region2();
    region.region.start_key = vec![1, 2, 3];
    let result = decode_region_load(RegionLoadResult::new(region, None), true);
    assert!(matches!(result, Err(Error::InternalError { .. })));
}

/// Try a request. `call` and `reconnect` give the results of the attempts.
fn retried<F: FnMut() -> Result<()>, G: FnMut() -> Result<()>>(
    config: PdRetryConfig,
    mut call: F,
    mut reconnect: G,
) -> (Result<()>, Vec<u128>) {
    let mut delays = vec![];
    let (mut retry, mut action) = PdRetry::start(config);
    loop {
        action = match action {
            PdRetryAction::Call => match call() {
                Ok(()) => return (Ok(()), delays),
                Err(error) => retry.call_failed(error),
            },
            PdRetryAction::Reconnect => retry.reconnected(reconnect()),
            PdRetryAction::SleepThenReconnect { delay_ns } => {
                delays.push(delay_ns);
                retry.reconnected(reconnect())
            }
            PdRetryAction::Fail(error) => return (Err(error), delays),
        };
    }
}

#[test]
fn test_reconnect() {
    let config = PdRetryConfig {
        reconnect_interval_ns: 0,
        max_reconnect_attempts: 2,
        leader_change_retry: 1,
    };
    let mut reconnect_count = 0;
    let (result, _) = retried(
        config,
        || Err(internal_err("whoops")),
        || {
            reconnect_count += 1;
            Err(Error::Unimplemented)
        },
    );
    assert!(result.is_err());
    assert_eq!(reconnect_count, 2);

    let mut reconnect_count = 0;
    let (result, _) = retried(
        config,
        || Ok(()),
        || {
            reconnect_count += 1;
            Err(Error::Unimplemented)
        },
    );
    assert!(result.is_ok());
    assert_eq!(reconnect_count, 0);
}

#[test]
fn test_retry() {
    let config = PdRetryConfig {
        reconnect_interval_ns: 0,
        max_reconnect_attempts: 1,
        leader_change_retry: 3,
    };
    let mut calls = 0;
    let (result, _) = retried(
        config,
        || {
            calls += 1;
            Err(internal_err("whoops"))
        },
        || Ok(()),
    );
    assert!(matches!(result, Err(Error::InternalError { .. })));
    assert_eq!(calls, config.leader_change_retry);

    let mut calls = 0;
    let (result, _) = retried(
        config,
        || {
            calls += 1;
            if calls == 2 {
                Ok(())
            } else {
                Err(internal_err("whoops"))
            }
        },
        || Ok(()),
    );
    assert!(result.is_ok());
    assert_eq!(calls, 2);
}

#[test]
fn test_retry_rejects_zero_leader_change_retry() {
    let config = PdRetryConfig {
        reconnect_interval_ns: 0,
        max_reconnect_attempts: 1,
        leader_change_retry: 0,
    };
    let (result, _) = retried(config, || Ok(()), || Ok(()));
    assert!(matches!(result, Err(Error::InternalError { .. })));
}

#[test]
fn there_is_time_between_two_attempts_to_reconnect() {
    let config = PdRetryConfig {
        reconnect_interval_ns: 700_001,
        max_reconnect_attempts: 3,
        leader_change_retry: 1,
    };
    let (result, delays) =
        retried(config, || Err(internal_err("whoops")), || Err(Error::Unimplemented));
    assert_eq!(result, Err(Error::Unimplemented));
    assert_eq!(delays, vec![700_001, 700_001]);
}

#[test]
fn a_fresh_connection_is_not_replaced() {
    assert!(!should_connect(15, 10, 5));
    assert!(should_connect(16, 10, 5));
    assert!(!should_connect(9, 10, 0));
    assert!(!should_connect(10, 10, 0));
    assert!(!should_connect(u128::MAX, u128::MAX, 1));
    assert!(!should_connect(u128::MAX, 1, u128::MAX));
}

#[test]
fn responses_without_their_content_are_errors() {
    let full = GetRegionResponse {
        region: Some(region1().region),
        leader: region1().leader,
        buckets: Some(region_buckets(&region1())),
    };
    let loaded = region_load_from_response(full, Error::Unimplemented).unwrap();
    assert_eq!(loaded.region, region1());
    assert_eq!(loaded.buckets, Some(region_buckets(&region1())));
    assert_eq!(
        region_from_response(GetRegionResponse::default(), Error::Unimplemented),
        Err(Error::Unimplemented)
    );
    assert_eq!(
        store_from_response(None, 17).unwrap_err().to_string(),
        "missing store in PD GetStoreResponse (store_id=17)"
    );
    assert_eq!(
        min_ts_from_response(None).unwrap_err().to_string(),
        "missing timestamp in PD GetMinTsResponse"
    );
    let ts = Timestamp { physical: 3, logical: 4 };
    assert_eq!(min_ts_from_response(Some(ts)), Ok(ts));
    assert!(safepoint_is_taken(&UpdateGcSafePointResponse { new_safe_point: 5 }, 5));
    assert!(!safepoint_is_taken(&UpdateGcSafePointResponse { new_safe_point: 6 }, 5));
}
