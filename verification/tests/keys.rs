use std::ops::Range;

use tikv_client::kv::bound::Bound;
use tikv_client::kv::bound_range::BoundRange;
use tikv_client::kv::codec::{decode_bytes_in_place, encode_bytes, max_encoded_bytes_size};
use tikv_client::kv::key::Key;

#[test]
fn vec_key_ref_cast_round_trips_bytes() {
    let v = vec![0xAA, 0xBB, 0xCC];
    let k: Key = (&v).into();
    let bytes: &[u8] = (&k).into();
    assert_eq!(bytes, v.as_slice());

    let k2: &Key = k.as_ref();
    let bytes2: &[u8] = k2.into();
    assert_eq!(bytes2, v.as_slice());
}

#[test]
fn next_prefix_key_matches_client_go_key_test() {
    let k1 = Key::from(vec![0xff]);
    let k2 = Key::from(vec![0xff, 0xff]);
    let k3 = Key::from(vec![0xff, 0xff, 0xff, 0xff]);

    assert_eq!(k1.next_prefix_key(), Key::empty());
    assert_eq!(k2.next_prefix_key(), Key::empty());
    assert_eq!(k3.next_prefix_key(), Key::empty());

    let k = Key::from(vec![0x01, 0x02]);
    assert_eq!(k.next_prefix_key(), Key::from(vec![0x01, 0x03]));

    let k = Key::from(vec![0x01, 0xff]);
    assert_eq!(k.next_prefix_key(), Key::from(vec![0x02, 0x00]));
}

#[test]
fn a_text_becomes_its_bytes() {
    assert_eq!(Key::from("k\u{e9}y".to_owned()), Key::from(vec![b'k', 0xc3, 0xa9, b'y']));
}

#[test]
fn next_key_is_the_successor() {
    let key = Key::from(vec![1, 2]);
    let next = key.clone().next_key();
    assert_eq!(next, Key::from(vec![1, 2, 0]));
    assert!(key.0 < next.0);
    assert!(next.zero_terminated());
}

#[test]
fn bounds_give_back_their_keys() {
    let range = BoundRange::from_keys(Key::from(vec![1, 0]), Key::from(vec![2, 0]));
    assert_eq!(range.from, Bound::Excluded(Key::from(vec![1])));
    assert_eq!(range.to, Bound::Included(Key::from(vec![2])));
    let (start, end) = range.into_keys();
    assert_eq!(start, Key::from(vec![1, 0]));
    assert_eq!(end, Some(Key::from(vec![2, 0])));

    let range: BoundRange = Range { start: Key::from(vec![3]), end: Key::from(vec![4]) }.into();
    assert_eq!(range.into_keys(), (Key::from(vec![3]), Some(Key::from(vec![4]))));
    assert_eq!(
        BoundRange::range_from(Key::from(vec![3])).into_keys(),
        (Key::from(vec![3]), None)
    );
}

fn encode(key: &[u8]) -> Vec<u8> {
    let mut out = Vec::new();
    encode_bytes(&mut out, key);
    out
}

#[test]
fn encodings_of_keys() {
    assert_eq!(encode(b""), vec![0, 0, 0, 0, 0, 0, 0, 0, 247]);
    assert_eq!(encode(&[1, 2, 3]), vec![1, 2, 3, 0, 0, 0, 0, 0, 250]);
    assert_eq!(
        encode(&[1, 2, 3, 4, 5, 6, 7, 8]),
        vec![1, 2, 3, 4, 5, 6, 7, 8, 255, 0, 0, 0, 0, 0, 0, 0, 0, 247]
    );
    assert_eq!(max_encoded_bytes_size(8), Some(18));
    assert_eq!(Key::from(vec![1]).to_encoded(), Key::from(vec![1, 0, 0, 0, 0, 0, 0, 0, 248]));
}

#[test]
fn decoding_inverts_encoding_and_keeps_the_order() {
    let keys: Vec<Vec<u8>> = vec![
        vec![],
        vec![0],
        vec![0, 0],
        vec![1, 2, 3, 4, 5, 6, 7],
        vec![1, 2, 3, 4, 5, 6, 7, 0],
        vec![1, 2, 3, 4, 5, 6, 7, 8],
        vec![1, 2, 3, 4, 5, 6, 7, 8, 0],
        vec![255, 255],
    ];
    for pair in keys.windows(2) {
        assert!(encode(&pair[0]) < encode(&pair[1]));
    }
    for key in keys {
        let mut data = encode(&key);
        decode_bytes_in_place(&mut data).unwrap();
        assert_eq!(data, key);
    }
}

#[test]
fn decoding_refuses_what_is_no_encoding() {
    let mut short = vec![1, 2, 3];
    assert!(decode_bytes_in_place(&mut short).is_err());
    assert_eq!(short, vec![1, 2, 3]);
    let mut bad_filling = vec![1, 2, 3, 9, 0, 0, 0, 0, 250];
    assert!(decode_bytes_in_place(&mut bad_filling).is_err());
    let mut bad_marker = vec![1, 2, 3, 0, 0, 0, 0, 0, 1];
    assert!(decode_bytes_in_place(&mut bad_marker).is_err());
    let mut empty = vec![];
    decode_bytes_in_place(&mut empty).unwrap();
    assert!(empty.is_empty());
}
