//! Regions as the placement driver sends them, with encoded keys.

use vstd::prelude::*;

use crate::common::errors::{Error, Result};
use crate::kv::codec::{decode_bytes_in_place, decoded_or_empty, DecodeFailure};
use crate::kv::order::bytes_to_vec;
use crate::proto::metapb::{byte_strings, Buckets, BucketsView, RegionView};
use crate::region::{RegionWithLeader, RegionWithLeaderView};
use crate::region_cache::map::{buckets_view, RegionLoadResult};
use crate::request::bucket_keys::{decode_bucket_keys, keyspace_buckets};
use crate::request::keyspace::{
    keyspace_id_of, parse_keyspace_id, v2_key_error, KeyMode, Keyspace, KEYSPACE_PREFIX_LEN,
    RAW_KEY_PREFIX, TXN_KEY_PREFIX,
};

verus! {

/// A region with its keys decoded.
pub open spec fn decoded_region(
    region: RegionWithLeaderView,
) -> core::result::Result<RegionWithLeaderView, DecodeFailure> {
    match decoded_or_empty(region.region.start_key) {
        Err(failure) => Err(failure),
        Ok(start_key) => match decoded_or_empty(region.region.end_key) {
            Err(failure) => Err(failure),
            Ok(end_key) => Ok(
                RegionWithLeaderView {
                    region: RegionView { start_key, end_key, ..region.region },
                    ..region
                },
            ),
        },
    }
}

/// A region as the client sees it, whose keys the placement driver encodes if the codec is
/// enabled.
pub fn decode_region(region: RegionWithLeader, enable_codec: bool) -> (r: Result<RegionWithLeader>)
    ensures
        !enable_codec ==> r == Ok::<RegionWithLeader, Error>(region),
        enable_codec ==> match decoded_region(region@) {
            Ok(decoded) => r is Ok && r->Ok_0@ == decoded,
            Err(failure) => r is Err && r->Err_0.is_internal(failure.text()),
        },
{
    let mut region = region;
    if enable_codec {
        decode_bytes_in_place(&mut region.region.start_key)?;
        decode_bytes_in_place(&mut region.region.end_key)?;
    }
    Ok(region)
}

/// The mode that a key of a keyspace starts with.
pub open spec fn mode_of(key: Seq<u8>) -> Option<KeyMode> {
    if key.len() == 0 {
        None
    } else if key[0] == RAW_KEY_PREFIX {
        Some(KeyMode::Raw)
    } else if key[0] == TXN_KEY_PREFIX {
        Some(KeyMode::Txn)
    } else {
        None
    }
}

/// The keyspace and the mode that a key belongs to.
pub open spec fn owner_of(key: Seq<u8>) -> Option<(u32, KeyMode)> {
    match mode_of(key) {
        None => None,
        Some(mode) => if v2_key_error(key) is Some {
            None
        } else {
            Some((keyspace_id_of(key), mode))
        },
    }
}

/// A key fits among those of a keyspace: it belongs to the keyspace, or it is the bare prefix of
/// the next one.
pub open spec fn fits(owner: (u32, KeyMode), expected: (u32, KeyMode), key: Seq<u8>) -> bool {
    owner.1 == expected.1 && (owner.0 == expected.0 || (key.len() == KEYSPACE_PREFIX_LEN
        && owner.0 == (if expected.0 == u32::MAX {
        u32::MAX
    } else {
        (expected.0 + 1) as u32
    })))
}

/// The one keyspace that all of the encoded keys belong to, given the one that those before
/// belong to. `None` if there is no such keyspace.
pub open spec fn common_keyspace(
    keys: Seq<Seq<u8>>,
    expected: Option<(u32, KeyMode)>,
) -> Option<(u32, KeyMode)>
    decreases keys.len(),
{
    if keys.len() == 0 {
        expected
    } else {
        match decoded_or_empty(keys[0]) {
            Err(failure) => None,
            Ok(key) => if key.len() == 0 {
                common_keyspace(keys.skip(1), expected)
            } else {
                match owner_of(key) {
                    None => None,
                    Some(owner) => match expected {
                        None => common_keyspace(keys.skip(1), Some(owner)),
                        Some(known) => if fits(owner, known, key) {
                            common_keyspace(keys.skip(1), expected)
                        } else {
                            None
                        },
                    },
                }
            },
        }
    }
}

/// The one keyspace that all of the encoded bucket keys belong to, if there is one.
#[verifier::loop_isolation(false)]
pub fn infer_bucket_keyspace(encoded_bucket_keys: &Vec<Vec<u8>>) -> (r: Option<(Keyspace, KeyMode)>)
    ensures
        r == match common_keyspace(byte_strings(encoded_bucket_keys@), None) {
            Some((keyspace_id, mode)) => Some((Keyspace::Enable { keyspace_id }, mode)),
            None => None,
        },
{
    let ghost keys = byte_strings(encoded_bucket_keys@);
    let mut inferred: Option<(u32, KeyMode)> = None;
    let mut i: usize = 0;
    assert(keys.skip(0) =~= keys);
    while i < encoded_bucket_keys.len()
        invariant
            i <= encoded_bucket_keys.len(),
            common_keyspace(keys.skip(i as int), inferred) == common_keyspace(keys, None),
        decreases encoded_bucket_keys.len() - i,
    {
        assert(keys.skip(i as int)[0] == encoded_bucket_keys@[i as int]@);
        assert(keys.skip(i as int).skip(1) =~= keys.skip(i + 1));
        let mut decoded_key = bytes_to_vec(&encoded_bucket_keys[i]);
        if decode_bytes_in_place(&mut decoded_key).is_err() {
            return None;
        }
        i = i + 1;
        if decoded_key.len() > 0 {
            let first: u8 = decoded_key[0];
            let key_mode = if first == RAW_KEY_PREFIX {
                KeyMode::Raw
            } else if first == TXN_KEY_PREFIX {
                KeyMode::Txn
            } else {
                return None;
            };
            let keyspace_id: u32 = match parse_keyspace_id(&decoded_key) {
                Ok(keyspace_id) => keyspace_id,
                Err(_) => return None,
            };
            match inferred {
                None => {
                    inferred = Some((keyspace_id, key_mode));
                },
                Some((expected_id, expected_mode)) => {
                    if !(expected_mode == key_mode && (keyspace_id == expected_id || (
                    decoded_key.len() == KEYSPACE_PREFIX_LEN && keyspace_id
                        == expected_id.saturating_add(1)))) {
                        return None;
                    }
                },
            }
        }
    }
    assert(keys.skip(i as int) =~= Seq::<Seq<u8>>::empty());
    match inferred {
        Some((keyspace_id, mode)) => Some((Keyspace::Enable { keyspace_id }, mode)),
        None => None,
    }
}

/// The keys, each of them decoded.
pub open spec fn all_decoded(keys: Seq<Seq<u8>>) -> core::result::Result<
    Seq<Seq<u8>>,
    DecodeFailure,
>
    decreases keys.len(),
{
    if keys.len() == 0 {
        Ok(Seq::empty())
    } else {
        match decoded_or_empty(keys[0]) {
            Err(failure) => Err(failure),
            Ok(key) => match all_decoded(keys.skip(1)) {
                Err(failure) => Err(failure),
                Ok(rest) => Ok(seq![key] + rest),
            },
        }
    }
}

#[verifier::loop_isolation(false)]
fn decode_all(keys: Vec<Vec<u8>>) -> (r: Result<Vec<Vec<u8>>>)
    ensures
        match all_decoded(byte_strings(keys@)) {
            Ok(decoded) => r is Ok && byte_strings(r->Ok_0@) == decoded,
            Err(failure) => r is Err && r->Err_0.is_internal(failure.text()),
        },
{
    let ghost input = byte_strings(keys@);
    let mut keys = keys;
    let mut i: usize = 0;
    assert(input.skip(0) =~= input);
    assert(byte_strings(keys@).take(0) =~= Seq::<Seq<u8>>::empty());
    while i < keys.len()
        invariant
            i <= keys.len(),
            keys.len() == input.len(),
            byte_strings(keys@).skip(i as int) == input.skip(i as int),
            match all_decoded(input.skip(i as int)) {
                Ok(rest) => all_decoded(input) == Ok::<Seq<Seq<u8>>, DecodeFailure>(
                    byte_strings(keys@).take(i as int) + rest,
                ),
                Err(failure) => all_decoded(input) == Err::<Seq<Seq<u8>>, DecodeFailure>(failure),
            },
        decreases keys.len() - i,
    {
        let ghost before = byte_strings(keys@);
        let ghost rest = input.skip(i as int);
        proof {
            assert(rest[0] == before.skip(i as int)[0]);
            assert(before[i as int] == keys@[i as int]@);
            assert(rest.skip(1) =~= input.skip(i + 1));
        }
        decode_bytes_in_place(&mut keys[i])?;
        proof {
            let after = byte_strings(keys@);
            assert(after =~= before.update(i as int, keys@[i as int]@));
            assert(after.take(i + 1) =~= before.take(i as int).push(after[i as int]));
            assert(after.skip(i + 1) =~= before.skip(i as int).skip(1));
            match all_decoded(rest.skip(1)) {
                Ok(tail) => {
                    assert(before.take(i as int) + (seq![after[i as int]] + tail) =~= after.take(
                        i + 1,
                    ) + tail);
                },
                Err(_) => {},
            }
        }
        i = i + 1;
    }
    proof {
        assert(input.skip(i as int) =~= Seq::<Seq<u8>>::empty());
        assert(byte_strings(keys@).take(i as int) + Seq::<Seq<u8>>::empty() =~= byte_strings(
            keys@,
        ));
    }
    Ok(keys)
}

/// The bucket keys of a region, decoded, and cut to the keyspace that all of them belong to if
/// there is one.
pub open spec fn decoded_bucket_keys(keys: Seq<Seq<u8>>) -> core::result::Result<
    Seq<Seq<u8>>,
    DecodeFailure,
> {
    match common_keyspace(keys, None) {
        Some((keyspace_id, mode)) => keyspace_buckets(keys, Keyspace::Enable { keyspace_id }, mode),
        None => all_decoded(keys),
    }
}

/// The buckets of a region, decoded.
pub open spec fn decoded_buckets(buckets: Option<BucketsView>) -> core::result::Result<
    Option<BucketsView>,
    DecodeFailure,
> {
    match buckets {
        None => Ok(None),
        Some(buckets) => match decoded_bucket_keys(buckets.keys) {
            Ok(keys) => Ok(Some(BucketsView { keys, ..buckets })),
            Err(failure) => Err(failure),
        },
    }
}

/// A region with its buckets as the client sees them, whose keys the placement driver encodes if
/// the codec is enabled.
pub fn decode_region_load(loaded: RegionLoadResult, enable_codec: bool) -> (r: Result<
    RegionLoadResult,
>)
    ensures
        !enable_codec ==> r == Ok::<RegionLoadResult, Error>(loaded),
        enable_codec ==> match decoded_region(loaded.region@) {
            Err(failure) => r is Err && r->Err_0.is_internal(failure.text()),
            Ok(region) => match decoded_buckets(buckets_view(loaded.buckets)) {
                Err(failure) => r is Err && r->Err_0.is_internal(failure.text()),
                Ok(buckets) => r is Ok && r->Ok_0.region@ == region && buckets_view(
                    r->Ok_0.buckets,
                ) == buckets,
            },
        },
{
    if !enable_codec {
        return Ok(loaded);
    }
    let region = decode_region(loaded.region, true)?;
    let buckets = match loaded.buckets {
        None => None,
        Some(buckets) => {
            let keys = match infer_bucket_keyspace(&buckets.keys) {
                Some((keyspace, key_mode)) => decode_bucket_keys(buckets.keys, keyspace, key_mode)?,
                None => decode_all(buckets.keys)?,
            };
            Some(Buckets { keys, ..buckets })
        },
    };
    Ok(RegionLoadResult { region, buckets })
}

} // verus!
