use tikv_client::common::errors::Error;
use tikv_client::kv::bound::Bound;
use tikv_client::kv::bound_range::BoundRange;
use tikv_client::kv::codec::encode_bytes;
use tikv_client::kv::key::Key;
use tikv_client::kv::kvpair::KvPair;
use tikv_client::proto::errorpb;
use tikv_client::proto::kvrpcpb::{self, ApiVersion};
use tikv_client::proto::metapb;
use tikv_client::request::bucket_keys::decode_bucket_keys;
use tikv_client::request::keyspace::{
    decode_key, keyspace_end_prefix, keyspace_prefix, parse_keyspace_id, prepend_bytes,
    pretruncate_bytes, EncodeKeyspace, KeyMode, Keyspace, KeyspaceDecodeError,
    CODEC_V1_EXCLUDE_PREFIXES, CODEC_V2_PREFIXES, KEYSPACE_PREFIX_LEN, RAW_KEY_PREFIX,
};
use tikv_client::request::truncate::TruncateKeyspace;
use tikv_client::request::truncate_epoch::can_truncate_epoch;
use tikv_client::request::truncate_error::can_truncate_error;
use tikv_client::transaction::mutation::Mutation;

fn encode_memcomparable(key: &[u8]) -> Vec<u8> {
    let mut encoded = Vec::new();
    encode_bytes(&mut encoded, key);
    encoded
}

#[test]
fn test_keyspace_prefix() {
    let key_mode = KeyMode::Raw;
    assert_eq!(keyspace_prefix(0, key_mode), [b'r', 0, 0, 0]);
    assert_eq!(keyspace_prefix(1, key_mode), [b'r', 0, 0, 1]);
    assert_eq!(keyspace_prefix(0xFFFF, key_mode), [b'r', 0, 0xFF, 0xFF]);

    let key_mode = KeyMode::Txn;
    assert_eq!(keyspace_prefix(0, key_mode), [b'x', 0, 0, 0]);
    assert_eq!(keyspace_prefix(1, key_mode), [b'x', 0, 0, 1]);
    assert_eq!(keyspace_prefix(0xFFFF, key_mode), [b'x', 0, 0xFF, 0xFF]);
}

#[test]
fn try_enable_rejects_out_of_range_keyspace_id() {
    assert!(Keyspace::try_enable(u32::MAX).is_err());
    assert_eq!(
        Keyspace::try_enable((1 << 24) - 1).unwrap(),
        Keyspace::Enable {
            keyspace_id: (1 << 24) - 1
        }
    );
}

#[test]
fn test_keyspace_end_prefix_carries_over_mode_byte() {
    assert_eq!(
        keyspace_end_prefix((1 << 8) - 1, KeyMode::Txn),
        [b'x', 0, 1, 0]
    );
    assert_eq!(
        keyspace_end_prefix((1 << 16) - 1, KeyMode::Txn),
        [b'x', 1, 0, 0]
    );
    assert_eq!(
        keyspace_end_prefix((1 << 24) - 2, KeyMode::Raw),
        [b'r', 255, 255, 255]
    );
    assert_eq!(
        keyspace_end_prefix((1 << 24) - 1, KeyMode::Raw),
        [b's', 0, 0, 0]
    );
}

#[test]
fn test_encode_version() {
    let keyspace = Keyspace::Enable {
        keyspace_id: 0xDEAD,
    };
    let key_mode = KeyMode::Raw;

    let key = Key::from(vec![0xBE, 0xEF]);
    let expected_key = Key::from(vec![b'r', 0, 0xDE, 0xAD, 0xBE, 0xEF]);
    assert_eq!(key.encode_keyspace(keyspace, key_mode), expected_key);

    let bound: BoundRange = (Key::from(vec![0xDE, 0xAD])..Key::from(vec![0xBE, 0xEF])).into();
    let expected_bound: BoundRange = (Key::from(vec![b'r', 0, 0xDE, 0xAD, 0xDE, 0xAD])
        ..Key::from(vec![b'r', 0, 0xDE, 0xAD, 0xBE, 0xEF]))
        .into();
    assert_eq!(bound.encode_keyspace(keyspace, key_mode), expected_bound);

    let bound = BoundRange::new(Bound::Unbounded, Bound::Unbounded);
    let expected_bound: BoundRange =
        (Key::from(vec![b'r', 0, 0xDE, 0xAD])..Key::from(vec![b'r', 0, 0xDE, 0xAE])).into();
    assert_eq!(bound.encode_keyspace(keyspace, key_mode), expected_bound);

    let bound: BoundRange = (Key::from(vec![])..Key::from(vec![])).into();
    let expected_bound: BoundRange =
        (Key::from(vec![b'r', 0, 0xDE, 0xAD])..Key::from(vec![b'r', 0, 0xDE, 0xAE])).into();
    assert_eq!(bound.encode_keyspace(keyspace, key_mode), expected_bound);

    let bound = BoundRange::new(
        Bound::Included(Key::from(vec![])),
        Bound::Included(Key::from(vec![])),
    );
    let expected_bound: BoundRange =
        (Key::from(vec![b'r', 0, 0xDE, 0xAD])..Key::from(vec![b'r', 0, 0xDE, 0xAE])).into();
    assert_eq!(bound.encode_keyspace(keyspace, key_mode), expected_bound);

    let mutation = Mutation::Put(Key::from(vec![0xBE, 0xEF]), vec![4, 5, 6]);
    let expected_mutation = Mutation::Put(
        Key::from(vec![b'r', 0, 0xDE, 0xAD, 0xBE, 0xEF]),
        vec![4, 5, 6],
    );
    assert_eq!(
        mutation.encode_keyspace(keyspace, key_mode),
        expected_mutation
    );

    let mutation = Mutation::Delete(Key::from(vec![0xBE, 0xEF]));
    let expected_mutation = Mutation::Delete(Key::from(vec![b'r', 0, 0xDE, 0xAD, 0xBE, 0xEF]));
    assert_eq!(
        mutation.encode_keyspace(keyspace, key_mode),
        expected_mutation
    );

    let keyspace = Keyspace::Enable {
        keyspace_id: (1 << 24) - 1,
    };
    let expected_bound: BoundRange =
        (Key::from(vec![b'r', 255, 255, 255])..Key::from(vec![b's', 0, 0, 0])).into();
    let bound = BoundRange::new(Bound::Unbounded, Bound::Unbounded);
    assert_eq!(
        bound.encode_keyspace(keyspace, KeyMode::Raw),
        expected_bound
    );
}

#[test]
fn test_encode_v2_key_ranges_matches_apicodec() {
    let keyspace = Keyspace::Enable { keyspace_id: 4242 };
    let key_mode = KeyMode::Raw;

    let key_ranges: [BoundRange; 4] = [
        (Key::from(vec![])..Key::from(vec![])).into(),
        (Key::from(vec![])..Key::from(vec![b'z'])).into(),
        (Key::from(vec![b'a'])..Key::from(vec![])).into(),
        (Key::from(vec![b'a'])..Key::from(vec![b'z'])).into(),
    ];

    let keyspace_prefix = vec![b'r', 0, 16, 146];
    let keyspace_end = vec![b'r', 0, 16, 147];

    let mut keyspace_prefix_z = keyspace_prefix.clone();
    keyspace_prefix_z.push(b'z');
    let mut keyspace_prefix_a = keyspace_prefix.clone();
    keyspace_prefix_a.push(b'a');

    let expected: [BoundRange; 4] = [
        (Key::from(keyspace_prefix.clone())..Key::from(keyspace_end.clone())).into(),
        (Key::from(keyspace_prefix.clone())..Key::from(keyspace_prefix_z.clone())).into(),
        (Key::from(keyspace_prefix_a.clone())..Key::from(keyspace_end.clone())).into(),
        (Key::from(keyspace_prefix_a)..Key::from(keyspace_prefix_z)).into(),
    ];

    for (range, expected) in key_ranges.into_iter().zip(expected) {
        assert_eq!(range.encode_keyspace(keyspace, key_mode), expected);
    }
}

#[test]
fn test_truncate_version() {
    let key = Key::from(vec![b'r', 0, 0xDE, 0xAD, 0xBE, 0xEF]);
    let keyspace = Keyspace::Enable {
        keyspace_id: 0xDEAD,
    };
    let expected_key = Key::from(vec![0xBE, 0xEF]);
    assert_eq!(key.truncate_keyspace(keyspace), expected_key);

    let key = Key::from(vec![b'x', 0, 0xDE, 0xAD, 0xBE, 0xEF]);
    let keyspace = Keyspace::Enable {
        keyspace_id: 0xDEAD,
    };
    let expected_key = Key::from(vec![0xBE, 0xEF]);
    assert_eq!(key.truncate_keyspace(keyspace), expected_key);
}

#[test]
fn truncate_keyspace_is_noop_on_short_keys() {
    let keyspace = Keyspace::Enable { keyspace_id: 1 };
    let key = Key::from(vec![0xAB, 0xCD, 0xEF]);
    assert_eq!(key.clone().truncate_keyspace(keyspace), key);
}

#[test]
fn test_prepend_and_pretruncate_bytes_round_trip() {
    const N: usize = KEYSPACE_PREFIX_LEN;
    let prefix = [0xAA, 0xBB, 0xCC, 0xDD];
    assert_eq!(prefix.len(), N);

    // Keep the test deterministic and fast; cover a range of sizes and contents.
    for len in 0..64usize {
        let original = (0..len as u8).collect::<Vec<_>>();

        let mut buf = original.clone();
        prepend_bytes(&mut buf, &prefix);
        assert_eq!(&buf[..N], &prefix);
        assert_eq!(&buf[N..], original.as_slice());

        pretruncate_bytes::<N>(&mut buf);
        assert_eq!(buf, original);
    }

    // Shorter-than-prefix input is a no-op.
    let mut short = vec![1, 2, 3];
    pretruncate_bytes::<N>(&mut short);
    assert_eq!(short, vec![1, 2, 3]);
}

#[test]
fn test_parse_keyspace_id_matches_apicodec() {
    assert_eq!(
        parse_keyspace_id(&[b'x', 1, 2, 3, 1, 2, 3]).unwrap(),
        0x010203
    );
    assert_eq!(
        parse_keyspace_id(&[b'r', 1, 2, 3, 1, 2, 3, 4]).unwrap(),
        0x010203
    );

    assert_eq!(
        parse_keyspace_id(&[b't', 0, 0]).unwrap_err(),
        KeyspaceDecodeError::TooShort
    );
    assert_eq!(
        parse_keyspace_id(&[b't', 0, 0, 1, 1, 2, 3]).unwrap_err(),
        KeyspaceDecodeError::UnknownModePrefix { prefix: b't' }
    );
}

#[test]
fn test_decode_key_matches_apicodec() {
    let (prefix, key) = decode_key(
        &[b'r', 1, 2, 3, 1, 2, 3, 4],
        ApiVersion::V2,
    )
    .unwrap();
    assert_eq!(prefix, &[b'r', 1, 2, 3]);
    assert_eq!(key, &[1, 2, 3, 4]);

    let (prefix, key) = decode_key(
        &[b'x', 1, 2, 3, 1, 2, 3, 4],
        ApiVersion::V2,
    )
    .unwrap();
    assert_eq!(prefix, &[b'x', 1, 2, 3]);
    assert_eq!(key, &[1, 2, 3, 4]);

    let (prefix, key) = decode_key(
        &[b't', 1, 2, 3, 1, 2, 3, 4],
        ApiVersion::V1,
    )
    .unwrap();
    assert!(prefix.is_empty());
    assert_eq!(key, &[b't', 1, 2, 3, 1, 2, 3, 4]);

    assert_eq!(
        decode_key(
            &[b't', 1, 2, 3, 1, 2, 3, 4],
            ApiVersion::V2,
        )
        .unwrap_err(),
        KeyspaceDecodeError::UnknownModePrefix { prefix: b't' }
    );
}

#[test]
fn truncate_key_error_strips_keyspace_prefixes() {
    let keyspace = Keyspace::Enable { keyspace_id: 4242 };

    let prefix = keyspace_prefix(4242, KeyMode::Raw).to_vec();
    let mut encoded_key = prefix.clone();
    encoded_key.extend_from_slice(b"key1");

    let mut err = kvrpcpb::KeyError::default();
    err.txn_lock_not_found = Some(kvrpcpb::TxnLockNotFound {
        key: encoded_key.clone(),
    });
    err.debug_info = Some(kvrpcpb::DebugInfo {
        mvcc_info: vec![kvrpcpb::MvccDebugInfo {
            key: encoded_key.clone(),
            mvcc: Some(kvrpcpb::MvccInfo::default()),
        }],
    });

    let decoded = err.truncate_keyspace(keyspace);
    assert_eq!(
        decoded.txn_lock_not_found.as_ref().unwrap().key.as_slice(),
        b"key1"
    );
    assert_eq!(
        decoded
            .debug_info
            .as_ref()
            .unwrap()
            .mvcc_info
            .first()
            .unwrap()
            .key
            .as_slice(),
        b"key1"
    );
}

#[test]
fn truncate_error_propagates_to_key_error_payload() {
    let keyspace = Keyspace::Enable { keyspace_id: 4242 };

    let prefix = keyspace_prefix(4242, KeyMode::Raw).to_vec();
    let mut encoded_key = prefix.clone();
    encoded_key.extend_from_slice(b"key1");

    let mut err = kvrpcpb::KeyError::default();
    err.txn_lock_not_found = Some(kvrpcpb::TxnLockNotFound {
        key: encoded_key.clone(),
    });
    err.debug_info = Some(kvrpcpb::DebugInfo {
        mvcc_info: vec![kvrpcpb::MvccDebugInfo {
            key: encoded_key.clone(),
            mvcc: Some(kvrpcpb::MvccInfo::default()),
        }],
    });

    let err = Error::from(err).truncate_keyspace(keyspace);
    let Error::KeyError(decoded) = err else {
        panic!("expected Error::KeyError");
    };
    assert_eq!(
        decoded.txn_lock_not_found.as_ref().unwrap().key.as_slice(),
        b"key1"
    );
    assert_eq!(
        decoded
            .debug_info
            .as_ref()
            .unwrap()
            .mvcc_info
            .first()
            .unwrap()
            .key
            .as_slice(),
        b"key1"
    );
}

#[test]
fn test_keyspace_mode_prefixes_are_sorted() {
    // Mirrors client-go `CodecV2Prefixes()` / `CodecV1ExcludePrefixes()` ordering.
    assert!(CODEC_V2_PREFIXES.is_sorted());
    assert!(CODEC_V1_EXCLUDE_PREFIXES.is_sorted());
    assert_eq!(CODEC_V2_PREFIXES, [[b'r'], [b'x']]);
    assert_eq!(CODEC_V1_EXCLUDE_PREFIXES, [[b'r'], [b'x']]);
}

#[test]
fn decode_epoch_not_match_intersects_keyspace_range_and_strips_prefix() {
    let keyspace_id = 4242;
    let keyspace = Keyspace::Enable { keyspace_id };

    // Keys below are ordered as following:
    // before_prefix, keyspace_prefix, inside_left, inside_right, keyspace_end_key, after_end_key
    // where valid keyspace range is [keyspace_prefix, keyspace_end_key).
    let keyspace_prefix = keyspace_prefix(keyspace_id, KeyMode::Raw).to_vec();
    let keyspace_end = keyspace_end_prefix(keyspace_id, KeyMode::Raw).to_vec();

    let before_prefix = vec![RAW_KEY_PREFIX, 0, 0, 1];
    let after_end_key = vec![RAW_KEY_PREFIX, 1, 0, 0];

    let mut inside_left = keyspace_prefix.clone();
    inside_left.push(100);
    let mut inside_right = keyspace_prefix.clone();
    inside_right.push(200);

    let err = errorpb::Error {
        epoch_not_match: Some(errorpb::EpochNotMatch {
            current_regions: vec![
                metapb::Region {
                    id: 1,
                    start_key: encode_memcomparable(&keyspace_prefix),
                    end_key: encode_memcomparable(&keyspace_end),
                    ..Default::default()
                },
                metapb::Region {
                    id: 2,
                    start_key: encode_memcomparable(&before_prefix),
                    end_key: encode_memcomparable(&after_end_key),
                    ..Default::default()
                },
                metapb::Region {
                    id: 3,
                    start_key: encode_memcomparable(&before_prefix),
                    end_key: encode_memcomparable(&inside_left),
                    ..Default::default()
                },
                metapb::Region {
                    id: 4,
                    start_key: encode_memcomparable(&inside_left),
                    end_key: encode_memcomparable(&inside_right),
                    ..Default::default()
                },
                // Region 5 (empty intersection, should be removed).
                metapb::Region {
                    id: 5,
                    start_key: encode_memcomparable(&before_prefix),
                    end_key: encode_memcomparable(&keyspace_prefix),
                    ..Default::default()
                },
                // Region 6 (empty intersection, should be removed).
                metapb::Region {
                    id: 6,
                    start_key: encode_memcomparable(&keyspace_end),
                    end_key: encode_memcomparable(&after_end_key),
                    ..Default::default()
                },
            ],
        }),
        ..Default::default()
    };

    let decoded = err.truncate_keyspace(keyspace);
    let regions = decoded
        .epoch_not_match
        .expect("epoch_not_match must be present after truncation")
        .current_regions;

    assert_eq!(regions.len(), 4);
    assert_eq!(regions[0].id, 1);
    assert!(regions[0].start_key.is_empty());
    assert!(regions[0].end_key.is_empty());

    assert_eq!(regions[1].id, 2);
    assert!(regions[1].start_key.is_empty());
    assert!(regions[1].end_key.is_empty());

    assert_eq!(regions[2].id, 3);
    assert!(regions[2].start_key.is_empty());
    assert_eq!(regions[2].end_key.as_slice(), &[100]);

    assert_eq!(regions[3].id, 4);
    assert_eq!(regions[3].start_key.as_slice(), &[100]);
    assert_eq!(regions[3].end_key.as_slice(), &[200]);
}

#[test]
fn decode_bucket_keys_intersects_keyspace_range_and_strips_prefix() {
    let keyspace_id = 4242;
    let keyspace = Keyspace::Enable { keyspace_id };

    let prev_prefix = keyspace_prefix(keyspace_id - 1, KeyMode::Raw).to_vec();
    let keyspace_prefix = keyspace_prefix(keyspace_id, KeyMode::Raw).to_vec();
    let keyspace_end = keyspace_end_prefix(keyspace_id, KeyMode::Raw).to_vec();

    let encode_with_prefix = |prefix: &[u8], key: &[u8]| {
        let mut raw = Vec::with_capacity(prefix.len() + key.len());
        raw.extend_from_slice(prefix);
        raw.extend_from_slice(key);
        encode_memcomparable(&raw)
    };

    let expected = vec![
        Vec::new(),
        b"a".to_vec(),
        b"b".to_vec(),
        b"c".to_vec(),
        Vec::new(),
    ];

    let bucket_keys = vec![
        encode_with_prefix(&prev_prefix, b"a"),
        encode_with_prefix(&prev_prefix, b"b"),
        encode_with_prefix(&prev_prefix, b"c"),
        encode_with_prefix(&keyspace_prefix, b"a"),
        encode_with_prefix(&keyspace_prefix, b"b"),
        encode_with_prefix(&keyspace_prefix, b"c"),
        encode_with_prefix(&keyspace_end, b""),
        encode_with_prefix(&keyspace_end, b"a"),
        encode_with_prefix(&keyspace_end, b"b"),
        encode_with_prefix(&keyspace_end, b"c"),
    ];
    assert_eq!(
        decode_bucket_keys(bucket_keys, keyspace, KeyMode::Raw).unwrap(),
        expected
    );

    let bucket_keys = vec![
        encode_with_prefix(&prev_prefix, b"a"),
        encode_with_prefix(&prev_prefix, b"b"),
        encode_with_prefix(&prev_prefix, b"c"),
        encode_with_prefix(&keyspace_prefix, b""),
        encode_with_prefix(&keyspace_prefix, b"a"),
        encode_with_prefix(&keyspace_prefix, b"b"),
        encode_with_prefix(&keyspace_prefix, b"c"),
        Vec::new(),
    ];
    assert_eq!(
        decode_bucket_keys(bucket_keys, keyspace, KeyMode::Raw).unwrap(),
        expected
    );

    let bucket_keys = vec![
        Vec::new(),
        encode_with_prefix(&prev_prefix, b"a"),
        encode_with_prefix(&prev_prefix, b"b"),
        encode_with_prefix(&prev_prefix, b"c"),
        encode_with_prefix(&keyspace_prefix, b""),
        encode_with_prefix(&keyspace_prefix, b"a"),
        encode_with_prefix(&keyspace_prefix, b"b"),
        encode_with_prefix(&keyspace_prefix, b"c"),
        Vec::new(),
    ];
    assert_eq!(
        decode_bucket_keys(bucket_keys, keyspace, KeyMode::Raw).unwrap(),
        expected
    );
}

#[test]
fn truncating_inverts_encoding() {
    let keyspace = Keyspace::Enable { keyspace_id: 7 };
    for key in [vec![], vec![1], vec![b'x', 0, 0, 7, 9]] {
        let key = Key::from(key);
        let encoded = key.clone().encode_keyspace(keyspace, KeyMode::Txn);
        assert_eq!(encoded.truncate_keyspace(keyspace), key);
    }
    let pair = KvPair { key: Key::from(vec![1, 2]), value: vec![3] };
    let encoded = pair.encode_keyspace(keyspace, KeyMode::Txn);
    assert_eq!(encoded.key, Key::from(vec![b'x', 0, 0, 7, 1, 2]));
    let decoded = encoded.truncate_keyspace(keyspace);
    assert_eq!(decoded.key, Key::from(vec![1, 2]));
    assert_eq!(decoded.value, vec![3]);
}

#[test]
fn without_a_keyspace_nothing_is_cut() {
    let key = Key::from(vec![b'x', 0, 0, 7, 1]);
    assert_eq!(key.clone().truncate_keyspace(Keyspace::Disable), key);
    assert_eq!(key.clone().encode_keyspace(Keyspace::Disable, KeyMode::Txn), key);
    assert_eq!(Keyspace::Disable.api_version(), ApiVersion::V1);
    assert_eq!(Keyspace::Enable { keyspace_id: 1 }.api_version(), ApiVersion::V2);
}

#[test]
fn lists_are_cut_item_by_item() {
    let keyspace = Keyspace::Enable { keyspace_id: 1 };
    let lock = kvrpcpb::LockInfo {
        key: vec![b'x', 0, 0, 1, 5],
        primary_lock: vec![b'x', 0, 0, 1, 6],
        secondaries: vec![vec![b'x', 0, 0, 1, 7], vec![b'x', 0, 0, 1, 8]],
        ..Default::default()
    };
    let locks = vec![lock].truncate_keyspace(keyspace);
    assert_eq!(locks[0].key, vec![5]);
    assert_eq!(locks[0].primary_lock, vec![6]);
    assert_eq!(locks[0].secondaries, vec![vec![7], vec![8]]);

    let failed: Result<(), Error> =
        Err(Error::ResolveLockError(vec![kvrpcpb::LockInfo {
            key: vec![b'x', 0, 0, 1, 5],
            ..Default::default()
        }]));
    let Err(Error::ResolveLockError(locks)) = failed.truncate_keyspace(keyspace) else {
        panic!("expected Error::ResolveLockError");
    };
    assert_eq!(locks[0].key, vec![5]);
}

#[test]
fn keys_too_short_for_a_prefix_are_told_before_they_are_cut() {
    let keyspace = Keyspace::try_enable(0xFFFF).unwrap();
    let region_error = |start: &[u8], end: &[u8]| errorpb::Error {
        epoch_not_match: Some(errorpb::EpochNotMatch {
            current_regions: vec![metapb::Region {
                start_key: encode_memcomparable(start),
                end_key: encode_memcomparable(end),
                ..Default::default()
            }],
        }),
        ..Default::default()
    };
    let fits = region_error(&[b'r', 0, 0xFF, 0xFF, 1], &[b'r', 0, 0xFF, 0xFF, 2]);
    // Between the two edges of the keyspace, but shorter than a prefix.
    let too_short = region_error(&[b'r', 0, 0xFF, 0xFF, 1], &[b'r', 1]);
    assert!(can_truncate_epoch(fits.epoch_not_match.as_ref().unwrap(), 0xFFFF));
    assert!(!can_truncate_epoch(too_short.epoch_not_match.as_ref().unwrap(), 0xFFFF));
    assert!(can_truncate_epoch(too_short.epoch_not_match.as_ref().unwrap(), 1));

    let wrap = |e: errorpb::Error| Error::ExtractedErrors(vec![
        Error::Unimplemented,
        Error::UndeterminedError(Box::new(Error::RegionError(Box::new(e)))),
    ]);
    assert!(can_truncate_error(&wrap(fits), keyspace));
    assert!(!can_truncate_error(&wrap(too_short.clone()), keyspace));
    assert!(can_truncate_error(&wrap(too_short), Keyspace::Disable));
}
