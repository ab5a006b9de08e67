//! How keys travel to the placement driver and back.

use vstd::prelude::*;

use crate::common::errors::{Error, Result};
use crate::kv::codec::{decoded_or_empty, DecodeFailure};
use crate::kv::format::{is_cut_into_groups, lemma_cut_into_groups, says};
use crate::kv::key::Key;
use crate::pd::client::{is_decoded, is_decoded_load, pd_key, to_pd_key, PdRegions};
use crate::pd::decode::{
    all_decoded, common_keyspace, decode_region, decode_region_load, fits, infer_bucket_keyspace,
    owner_of,
};
use crate::pd::retry::RetryClientTrait;
use crate::proto::metapb::{byte_strings, Buckets, Store};
use crate::region::{RegionId, RegionVerId, RegionWithLeader};
use crate::region_cache::asking::{
    is_noted, is_passed_on, knows_region_of, lemma_given_by_key, lemma_tells_by_key,
    may_tell_by_key,
};
use crate::region_cache::cache::RegionCache;
use crate::region_cache::map::{buckets_view, RegionLoadResult};
use crate::region_cache::through::{answers_by_id, answers_by_key, region_of};
use crate::region_cache::uses::{holds_key, is_cached};
use crate::request::bucket_keys::keyspace_buckets;
use crate::request::bucket_laws::reads_as;
use crate::request::keyspace::{KeyMode, Keyspace};
use crate::request::keyspace_laws::starts_as_in;

verus! {

/// The driver is asked for encoded keys if the codec is on, and else for the keys themselves.
pub proof fn law_the_driver_is_asked_for_encoded_keys(key: &Key, enable_codec: bool, r: Key)
    requires
        call_ensures(to_pd_key, (key, enable_codec), r),
    ensures
        enable_codec ==> is_cut_into_groups(key@, r@),
        !enable_codec ==> r@ == key@,
{
    lemma_cut_into_groups(key@);
}

/// The region is the same one, with both its keys decoded.
pub open spec fn is_read_region(sent: RegionWithLeader, seen: RegionWithLeader) -> bool {
    &&& reads_as(sent.region.start_key@, seen.region.start_key@)
    &&& reads_as(sent.region.end_key@, seen.region.end_key@)
    &&& seen.region.id == sent.region.id
    &&& seen.region.region_epoch == sent.region.region_epoch
    &&& seen.region.peers@ == sent.region.peers@
    &&& seen.region.is_in_flashback == sent.region.is_in_flashback
    &&& seen.region.flashback_start_ts == sent.region.flashback_start_ts
    &&& seen.leader == sent.leader
}

/// One of the keys of the region cannot be decoded, and the error tells why: the start key if it
/// is that one.
pub open spec fn tells_bad_key(sent: RegionWithLeader, error: Error) -> bool {
    let start = decoded_or_empty(sent.region.start_key@);
    let end = decoded_or_empty(sent.region.end_key@);
    ||| start is Err && says(error, start->Err_0.text())
    ||| start is Ok && end is Err && says(error, end->Err_0.text())
}

/// A region of the driver is taken as it is without the codec, and with it its keys are decoded, or
/// else it is of no use.
pub proof fn law_a_region_is_decoded_at_both_ends(
    region: RegionWithLeader,
    enable_codec: bool,
    r: Result<RegionWithLeader>,
)
    requires
        call_ensures(decode_region, (region, enable_codec), r),
    ensures
        !enable_codec ==> r is Ok && r->Ok_0 == region,
        enable_codec && r is Ok ==> is_read_region(region, r->Ok_0),
        enable_codec && r is Err ==> tells_bad_key(region, r->Err_0),
{
    lemma_read_region(region, enable_codec, r);
}

proof fn lemma_read_region(
    region: RegionWithLeader,
    enable_codec: bool,
    r: Result<RegionWithLeader>,
)
    requires
        is_decoded(Ok(region), enable_codec, r),
    ensures
        !enable_codec ==> r is Ok && r->Ok_0 == region,
        enable_codec && r is Ok ==> is_read_region(region, r->Ok_0),
        enable_codec && r is Err ==> tells_bad_key(region, r->Err_0),
{
    if enable_codec && r is Ok {
        let (sent, seen) = (region@, r->Ok_0@);
        assert(seen.region.id == sent.region.id);
        assert(seen.region.peers == sent.region.peers);
    }
}

/// The decoded key lies in the keyspace, or it is the bare prefix at which the keyspace is over.
pub open spec fn belongs_to(key: Seq<u8>, keyspace_id: u32, key_mode: KeyMode) -> bool {
    ||| starts_as_in(key, keyspace_id, key_mode)
    ||| keyspace_id + 1 < 16777216 && key.len() == 4 && starts_as_in(
        key,
        (keyspace_id + 1) as u32,
        key_mode,
    )
}

/// The bucket key can be decoded, and is empty or belongs to the keyspace.
pub open spec fn may_belong_to(encoded: Seq<u8>, keyspace_id: u32, key_mode: KeyMode) -> bool {
    match decoded_or_empty(encoded) {
        Ok(key) => key.len() == 0 || belongs_to(key, keyspace_id, key_mode),
        Err(_) => false,
    }
}

/// The bucket key is the first that is not empty, and lies in the keyspace.
pub open spec fn names_keyspace(
    keys: Seq<Seq<u8>>,
    at: int,
    keyspace_id: u32,
    key_mode: KeyMode,
) -> bool {
    &&& 0 <= at < keys.len()
    &&& decoded_or_empty(keys[at]) is Ok
    &&& starts_as_in(decoded_or_empty(keys[at])->Ok_0, keyspace_id, key_mode)
    &&& forall|j: int| 0 <= j < at ==> reads_as(#[trigger] keys[j], Seq::empty())
}

proof fn lemma_owner(key: Seq<u8>, keyspace_id: u32, key_mode: KeyMode)
    requires
        keyspace_id < 16777216,
    ensures
        owner_of(key) == Some((keyspace_id, key_mode)) <==> starts_as_in(
            key,
            keyspace_id,
            key_mode,
        ),
{
}

proof fn lemma_owner_is_small(key: Seq<u8>)
    ensures
        owner_of(key) is Some ==> (owner_of(key)->0).0 < 16777216,
{
}

proof fn lemma_fits(key: Seq<u8>, keyspace_id: u32, key_mode: KeyMode)
    requires
        keyspace_id < 16777216,
    ensures
        owner_of(key) is Some && fits(owner_of(key)->0, (keyspace_id, key_mode), key)
            <==> belongs_to(key, keyspace_id, key_mode),
{
    lemma_owner(key, keyspace_id, key_mode);
    if keyspace_id + 1 < 16777216 {
        lemma_owner(key, (keyspace_id + 1) as u32, key_mode);
    }
    lemma_owner_is_small(key);
}

proof fn lemma_all_belong(keys: Seq<Seq<u8>>, keyspace_id: u32, key_mode: KeyMode)
    requires
        keyspace_id < 16777216,
    ensures
        common_keyspace(keys, Some((keyspace_id, key_mode))) == (if forall|j: int|
            0 <= j < keys.len() ==> may_belong_to(#[trigger] keys[j], keyspace_id, key_mode) {
            Some((keyspace_id, key_mode))
        } else {
            None
        }),
    decreases keys.len(),
{
    if keys.len() > 0 {
        let rest = keys.skip(1);
        lemma_all_belong(rest, keyspace_id, key_mode);
        if decoded_or_empty(keys[0]) is Ok {
            lemma_fits(decoded_or_empty(keys[0])->Ok_0, keyspace_id, key_mode);
        }
        assert forall|j: int| 0 <= j < rest.len() implies #[trigger] rest[j] == keys[j + 1] by {}
        if forall|j: int|
            0 <= j < rest.len() ==> may_belong_to(#[trigger] rest[j], keyspace_id, key_mode) {
            assert forall|j: int| 0 < j < keys.len() implies may_belong_to(
                #[trigger] keys[j],
                keyspace_id,
                key_mode,
            ) by {
                assert(rest[j - 1] == keys[j]);
            }
        } else {
            let j = choose|j: int|
                0 <= j < rest.len() && !may_belong_to(#[trigger] rest[j], keyspace_id, key_mode);
            assert(!may_belong_to(keys[j + 1], keyspace_id, key_mode));
        }
        assert(may_belong_to(keys[0], keyspace_id, key_mode) || !may_belong_to(
            keys[0],
            keyspace_id,
            key_mode,
        ));
    }
}

proof fn lemma_common(keys: Seq<Seq<u8>>, keyspace_id: u32, key_mode: KeyMode)
    requires
        keyspace_id < 16777216,
    ensures
        common_keyspace(keys, None) == Some((keyspace_id, key_mode)) <==> {
            &&& exists|at: int| names_keyspace(keys, at, keyspace_id, key_mode)
            &&& forall|j: int|
                0 <= j < keys.len() ==> may_belong_to(#[trigger] keys[j], keyspace_id, key_mode)
        },
    decreases keys.len(),
{
    if keys.len() > 0 {
        let rest = keys.skip(1);
        let read = decoded_or_empty(keys[0]);
        assert forall|j: int| 0 <= j < rest.len() implies #[trigger] rest[j] == keys[j + 1] by {}
        let rest_belong = forall|j: int|
            0 <= j < rest.len() ==> may_belong_to(#[trigger] rest[j], keyspace_id, key_mode);
        let belong = forall|j: int|
            0 <= j < keys.len() ==> may_belong_to(#[trigger] keys[j], keyspace_id, key_mode);
        assert(belong <==> rest_belong && may_belong_to(keys[0], keyspace_id, key_mode)) by {
            if belong {
                assert forall|j: int| 0 <= j < rest.len() implies may_belong_to(
                    #[trigger] rest[j],
                    keyspace_id,
                    key_mode,
                ) by {
                    assert(may_belong_to(keys[j + 1], keyspace_id, key_mode));
                }
            }
            if rest_belong && may_belong_to(keys[0], keyspace_id, key_mode) {
                assert forall|j: int| 0 <= j < keys.len() implies may_belong_to(
                    #[trigger] keys[j],
                    keyspace_id,
                    key_mode,
                ) by {
                    if j > 0 {
                        assert(may_belong_to(rest[j - 1], keyspace_id, key_mode));
                    }
                }
            }
        }
        if read is Ok && read->Ok_0.len() == 0 {
            lemma_common(rest, keyspace_id, key_mode);
            assert(read->Ok_0 =~= Seq::<u8>::empty());
            if exists|at: int| names_keyspace(rest, at, keyspace_id, key_mode) {
                let at = choose|at: int| names_keyspace(rest, at, keyspace_id, key_mode);
                assert forall|j: int| 0 <= j < at + 1 implies reads_as(
                    #[trigger] keys[j],
                    Seq::empty(),
                ) by {
                    if j > 0 {
                        assert(reads_as(rest[j - 1], Seq::empty()));
                    }
                }
                assert(names_keyspace(keys, at + 1, keyspace_id, key_mode));
            }
            if exists|at: int| names_keyspace(keys, at, keyspace_id, key_mode) {
                let at = choose|at: int| names_keyspace(keys, at, keyspace_id, key_mode);
                assert(at > 0);
                assert forall|j: int| 0 <= j < at - 1 implies reads_as(
                    #[trigger] rest[j],
                    Seq::empty(),
                ) by {
                    assert(reads_as(keys[j + 1], Seq::empty()));
                }
                assert(names_keyspace(rest, at - 1, keyspace_id, key_mode));
            }
        } else if read is Ok {
            let key = read->Ok_0;
            lemma_owner(key, keyspace_id, key_mode);
            lemma_owner_is_small(key);
            if owner_of(key) is Some {
                lemma_all_belong(rest, (owner_of(key)->0).0, (owner_of(key)->0).1);
            }
            if starts_as_in(key, keyspace_id, key_mode) {
                assert(names_keyspace(keys, 0, keyspace_id, key_mode));
            }
            assert forall|at: int| names_keyspace(keys, at, keyspace_id, key_mode) implies at
                == 0 by {
                if at > 0 {
                    assert(reads_as(keys[0], Seq::empty()));
                }
            }
        } else {
            assert(!may_belong_to(keys[0], keyspace_id, key_mode));
        }
    }
}

/// Bucket keys belong to a keyspace just if the first of them that is not empty lies in it and all
/// the others do so too, are empty, or are the bare prefix at which it is over.
pub proof fn law_which_keyspace_bucket_keys_belong_to(
    keys: &Vec<Vec<u8>>,
    r: Option<(Keyspace, KeyMode)>,
    keyspace_id: u32,
    key_mode: KeyMode,
)
    requires
        call_ensures(infer_bucket_keyspace, (keys,), r),
    ensures
        keyspace_id < 16777216 ==> (r == Some((Keyspace::Enable { keyspace_id }, key_mode)) <==> {
            &&& exists|at: int|
                names_keyspace(byte_strings(keys@), at, keyspace_id, key_mode)
            &&& forall|j: int|
                0 <= j < keys@.len() ==> may_belong_to(
                    (#[trigger] keys@[j])@,
                    keyspace_id,
                    key_mode,
                )
        }),
        r is Some ==> ((r->0).0 matches Keyspace::Enable { keyspace_id: id } && id < 16777216),
{
    let strings = byte_strings(keys@);
    assert forall|j: int| 0 <= j < keys@.len() implies strings[j] == (#[trigger] keys@[j])@ by {}
    if keyspace_id < 16777216 {
        lemma_common(strings, keyspace_id, key_mode);
        if forall|j: int|
            0 <= j < keys@.len() ==> may_belong_to(
                (#[trigger] keys@[j])@,
                keyspace_id,
                key_mode,
            ) {
            assert forall|j: int| 0 <= j < strings.len() implies may_belong_to(
                #[trigger] strings[j],
                keyspace_id,
                key_mode,
            ) by {
                assert(may_belong_to(keys@[j]@, keyspace_id, key_mode));
            }
        } else {
            let j = choose|j: int|
                0 <= j < keys@.len() && !may_belong_to(
                    (#[trigger] keys@[j])@,
                    keyspace_id,
                    key_mode,
                );
            assert(!may_belong_to(strings[j], keyspace_id, key_mode));
        }
    }
    lemma_common_is_small(strings, None);
}

proof fn lemma_common_is_small(keys: Seq<Seq<u8>>, expected: Option<(u32, KeyMode)>)
    requires
        expected is Some ==> (expected->0).0 < 16777216,
    ensures
        common_keyspace(keys, expected) is Some ==> (common_keyspace(keys, expected)->0).0 < 16777216,
    decreases keys.len(),
{
    if keys.len() > 0 {
        lemma_common_is_small(keys.skip(1), expected);
        match decoded_or_empty(keys[0]) {
            Ok(key) => {
                lemma_owner_is_small(key);
                if owner_of(key) is Some {
                    lemma_common_is_small(keys.skip(1), owner_of(key));
                }
            },
            Err(_) => {},
        }
    }
}

/// Each of the keys is decoded.
pub open spec fn are_read(sent: Seq<Seq<u8>>, seen: Seq<Seq<u8>>) -> bool {
    seen.len() == sent.len() && forall|i: int|
        0 <= i < sent.len() ==> reads_as(#[trigger] sent[i], seen[i])
}

proof fn lemma_all_read(keys: Seq<Seq<u8>>)
    ensures
        match all_decoded(keys) {
            Ok(seen) => are_read(keys, seen),
            Err(failure) => exists|i: int|
                0 <= i < keys.len() && decoded_or_empty(#[trigger] keys[i]) == Err::<
                    Seq<u8>,
                    DecodeFailure,
                >(failure),
        },
    decreases keys.len(),
{
    if keys.len() > 0 {
        let rest = keys.skip(1);
        lemma_all_read(rest);
        match decoded_or_empty(keys[0]) {
            Err(failure) => {},
            Ok(key) => match all_decoded(rest) {
                Ok(tail) => {
                    let seen = seq![key] + tail;
                    assert forall|i: int| 0 <= i < keys.len() implies reads_as(
                        #[trigger] keys[i],
                        seen[i],
                    ) by {
                        if i > 0 {
                            assert(reads_as(rest[i - 1], tail[i - 1]));
                        }
                    }
                },
                Err(failure) => {
                    let i = choose|i: int|
                        0 <= i < rest.len() && decoded_or_empty(#[trigger] rest[i]) == Err::<
                            Seq<u8>,
                            DecodeFailure,
                        >(failure);
                    assert(decoded_or_empty(keys[i + 1]) == Err::<Seq<u8>, DecodeFailure>(failure));
                },
            },
        }
    }
}

/// The buckets are the same ones, with their keys as the client sees them: cut down to the keyspace
/// that they belong to if there is one, and else decoded.
pub open spec fn are_read_buckets(
    sent: Buckets,
    seen: Buckets,
    inferred: Option<(Keyspace, KeyMode)>,
) -> bool {
    &&& seen.region_id == sent.region_id
    &&& seen.version == sent.version
    &&& seen.period_in_ms == sent.period_in_ms
    &&& match inferred {
        Some((keyspace, key_mode)) => keyspace_buckets(
            byte_strings(sent.keys@),
            keyspace,
            key_mode,
        ) == Ok::<Seq<Seq<u8>>, DecodeFailure>(byte_strings(seen.keys@)),
        None => are_read(byte_strings(sent.keys@), byte_strings(seen.keys@)),
    }
}

/// A region comes with its buckets, both of them decoded with the codec and both of them as they
/// are without it.
pub proof fn law_a_region_is_decoded_with_its_buckets(
    loaded: RegionLoadResult,
    enable_codec: bool,
    r: Result<RegionLoadResult>,
    inferred: Option<(Keyspace, KeyMode)>,
)
    requires
        call_ensures(decode_region_load, (loaded, enable_codec), r),
        loaded.buckets is Some ==> call_ensures(
            infer_bucket_keyspace,
            (&loaded.buckets->0.keys,),
            inferred,
        ),
    ensures
        !enable_codec ==> r is Ok && r->Ok_0 == loaded,
        enable_codec && r is Ok ==> {
            &&& is_read_region(loaded.region, r->Ok_0.region)
            &&& r->Ok_0.buckets is Some <==> loaded.buckets is Some
            &&& loaded.buckets is Some ==> are_read_buckets(
                loaded.buckets->0,
                r->Ok_0.buckets->0,
                inferred,
            )
        },
        enable_codec && r is Err && !tells_bad_key(loaded.region, r->Err_0) ==> {
            &&& loaded.buckets is Some
            &&& match inferred {
                Some((keyspace, key_mode)) => keyspace_buckets(
                    byte_strings(loaded.buckets->0.keys@),
                    keyspace,
                    key_mode,
                ) is Err,
                None => exists|i: int|
                    0 <= i < loaded.buckets->0.keys@.len() && decoded_or_empty(
                        (#[trigger] loaded.buckets->0.keys@[i])@,
                    ) is Err,
            }
        },
{
    if enable_codec {
        if r is Ok {
            let (sent, seen) = (loaded.region@, r->Ok_0.region@);
            assert(seen.region.id == sent.region.id);
            assert(seen.region.peers == sent.region.peers);
        }
        if loaded.buckets is Some {
            let keys = byte_strings(loaded.buckets->0.keys@);
            lemma_all_read(keys);
            assert(buckets_view(loaded.buckets)->0.keys == keys);
            if r is Ok {
                let seen = r->Ok_0.buckets;
                assert(buckets_view(seen)->0.keys == byte_strings(seen->0.keys@));
                assert(buckets_view(seen)->0.version == seen->0.version);
                assert(buckets_view(loaded.buckets)->0.version == loaded.buckets->0.version);
            } else if inferred is None && all_decoded(keys) is Err {
                let i = choose|i: int|
                    0 <= i < keys.len() && decoded_or_empty(#[trigger] keys[i]) == Err::<
                        Seq<u8>,
                        DecodeFailure,
                    >(all_decoded(keys)->Err_0);
                assert(loaded.buckets->0.keys@[i]@ == keys[i]);
            }
        }
    }
}

/// The region that the client gets for a key is a cached one that holds the key as the driver knows
/// it, or else what the driver tells of that key; and it is decoded on the way.
pub proof fn law_a_key_leads_to_its_region<C: RetryClientTrait>(key: &Key, now: i64)
    ensures
        forall|client: &mut PdRegions<C>, r: Result<RegionWithLeader>|
            client.region_cache.region_cache@.consistent() && #[trigger] call_ensures(
                PdRegions::<C>::region_for_key,
                (client, key, now),
                r,
            ) ==> exists|asked: Seq<u8>, load: Result<RegionLoadResult>|
                {
                    &&& client.enable_codec ==> is_cut_into_groups(key@, asked)
                    &&& !client.enable_codec ==> asked == key@
                    &&& #[trigger] comes_for_key(
                        client.region_cache,
                        client.pd,
                        asked,
                        now,
                        final(client).region_cache,
                        load,
                    )
                    &&& load is Err ==> r is Err && r->Err_0 == load->Err_0
                    &&& load is Ok && !client.enable_codec ==> r is Ok && r->Ok_0
                        == load->Ok_0.region
                    &&& load is Ok && client.enable_codec && r is Ok ==> is_read_region(
                        load->Ok_0.region,
                        r->Ok_0,
                    )
                    &&& load is Ok && client.enable_codec && r is Err ==> tells_bad_key(
                        load->Ok_0.region,
                        r->Err_0,
                    )
                },
{
    assert forall|client: &mut PdRegions<C>, r: Result<RegionWithLeader>|
        client.region_cache.region_cache@.consistent() && #[trigger] call_ensures(
            PdRegions::<C>::region_for_key,
            (client, key, now),
            r,
        ) implies exists|asked: Seq<u8>, load: Result<RegionLoadResult>|
        {
            &&& client.enable_codec ==> is_cut_into_groups(key@, asked)
            &&& !client.enable_codec ==> asked == key@
            &&& #[trigger] comes_for_key(
                client.region_cache,
                client.pd,
                asked,
                now,
                final(client).region_cache,
                load,
            )
            &&& load is Err ==> r is Err && r->Err_0 == load->Err_0
            &&& load is Ok && !client.enable_codec ==> r is Ok && r->Ok_0 == load->Ok_0.region
            &&& load is Ok && client.enable_codec && r is Ok ==> is_read_region(
                load->Ok_0.region,
                r->Ok_0,
            )
            &&& load is Ok && client.enable_codec && r is Err ==> tells_bad_key(
                load->Ok_0.region,
                r->Err_0,
            )
        } by {
        let asked = pd_key(key@, client.enable_codec);
        lemma_cut_into_groups(key@);
        let load = choose|load: Result<RegionLoadResult>| #[trigger]
            client.region_cache.gives_by_key(
                client.pd,
                asked,
                now,
                false,
                final(client).region_cache,
                load,
            ) && is_decoded(region_of(load), client.enable_codec, r);
        lemma_given_by_key(
            client.region_cache,
            client.pd,
            asked,
            now,
            false,
            final(client).region_cache,
            load,
        );
        if load is Ok {
            assert(region_of(load) == Ok::<RegionWithLeader, Error>(load->Ok_0.region));
            lemma_read_region(load->Ok_0.region, client.enable_codec, r);
        }
        assert(comes_for_key(
            client.region_cache,
            client.pd,
            asked,
            now,
            final(client).region_cache,
            load,
        ));
    }
}

/// The load is that of a cached region that holds the key, or else what the driver tells of it.
pub open spec fn comes_for_key<C: RetryClientTrait>(
    cache: RegionCache,
    client: C,
    key: Seq<u8>,
    now: i64,
    after: RegionCache,
    load: Result<RegionLoadResult>,
) -> bool {
    if knows_region_of(cache, key, now, false) {
        load is Ok && forall|v: RegionVerId| #[trigger]
            holds_key(cache.region_cache@, v, key) ==> is_cached(load->Ok_0, cache, v)
    } else {
        exists|told: Result<RegionLoadResult>| #[trigger]
            may_tell_by_key(client, key, false, told) && is_passed_on(told, now, after, load)
    }
}

/// A region is served by the store of its leader: without a leader there is no store to ask.
pub proof fn law_a_region_is_served_by_the_store_of_its_leader<C: RetryClientTrait>(
    region: &RegionWithLeader,
)
    ensures
        forall|client: &mut PdRegions<C>, r: Result<Store>| #[trigger]
            call_ensures(PdRegions::<C>::store_of_region, (client, region), r) ==> {
                let stores = client.region_cache.store_cache@;
                &&& region.leader is None ==> r is Err && r->Err_0 is LeaderNotFound
                &&& region.leader is Some && stores.contains_key(region.leader->0.store_id)
                    ==> r is Ok && r->Ok_0@ == stores[region.leader->0.store_id]
                &&& region.leader is Some && !stores.contains_key(region.leader->0.store_id)
                    ==> exists|told: Result<Store>| #[trigger]
                    call_ensures(C::get_store, (&client.pd, region.leader->0.store_id), told) && (
                    told is Ok <==> r is Ok) && (r is Ok ==> r->Ok_0@ == told->Ok_0@) && (r is Err
                        ==> r->Err_0 == told->Err_0)
            },
{
}

/// The region that the client gets for an id is the one that the cache gives for it, decoded.
pub proof fn law_an_id_leads_to_its_region<C: RetryClientTrait>(id: RegionId, now: i64)
    ensures
        forall|client: &mut PdRegions<C>, r: Result<RegionWithLeader>| #[trigger]
            call_ensures(PdRegions::<C>::region_for_id, (client, id, now), r) ==> exists|
                load: Result<RegionLoadResult>,
            |
                {
                    &&& #[trigger] client.region_cache.gives_by_id(
                        client.pd,
                        id,
                        now,
                        final(client).region_cache,
                        load,
                    )
                    &&& is_seen_as(region_of(load), client.enable_codec, r)
                },
{
    assert forall|client: &mut PdRegions<C>, r: Result<RegionWithLeader>| #[trigger]
        call_ensures(PdRegions::<C>::region_for_id, (client, id, now), r) implies exists|
        load: Result<RegionLoadResult>,
    |
        {
            &&& #[trigger] client.region_cache.gives_by_id(
                client.pd,
                id,
                now,
                final(client).region_cache,
                load,
            )
            &&& is_seen_as(region_of(load), client.enable_codec, r)
        } by {
        let load = choose|load: Result<RegionLoadResult>| #[trigger]
            client.region_cache.gives_by_id(
                client.pd,
                id,
                now,
                final(client).region_cache,
                load,
            ) && is_decoded(region_of(load), client.enable_codec, r);
        if load is Ok {
            lemma_read_region(load->Ok_0.region, client.enable_codec, r);
        }
    }
}

/// What comes back is the region that is known, decoded if the codec is on; or the error.
pub open spec fn is_seen_as(
    known: Result<RegionWithLeader>,
    enable_codec: bool,
    r: Result<RegionWithLeader>,
) -> bool {
    match known {
        Err(error) => r is Err && r->Err_0 == error,
        Ok(region) => {
            &&& !enable_codec ==> r is Ok && r->Ok_0 == region
            &&& enable_codec && r is Ok ==> is_read_region(region, r->Ok_0)
            &&& enable_codec && r is Err ==> tells_bad_key(region, r->Err_0)
        },
    }
}

/// What the driver tells of a region with its buckets, when it is asked for a key or for an id, is
/// cached and decoded.
pub proof fn law_regions_are_loaded_with_their_buckets<C: RetryClientTrait>(
    key: &Key,
    id: RegionId,
    now: i64,
)
    ensures
        forall|client: &mut PdRegions<C>, r: Result<RegionLoadResult>| #[trigger]
            call_ensures(
                PdRegions::<C>::load_region_by_key_with_buckets,
                (client, key, now),
                r,
            ) ==> exists|asked: Seq<u8>, told: Result<RegionLoadResult>|
                {
                    &&& client.enable_codec ==> is_cut_into_groups(key@, asked)
                    &&& !client.enable_codec ==> asked == key@
                    &&& #[trigger] may_tell_by_key(client.pd, asked, true, told)
                    &&& is_loaded_as(told, client.enable_codec, r)
                    &&& told is Ok ==> is_noted(final(client).region_cache, told->Ok_0, now)
                },
        forall|client: &mut PdRegions<C>, r: Result<RegionLoadResult>| #[trigger]
            call_ensures(
                PdRegions::<C>::load_region_by_id_with_buckets,
                (client, id, now),
                r,
            ) ==> exists|told: Result<RegionLoadResult>|
                {
                    &&& #[trigger] call_ensures(
                        C::get_region_by_id_with_buckets,
                        (&client.pd, id),
                        told,
                    )
                    &&& is_loaded_as(told, client.enable_codec, r)
                },
{
    assert forall|client: &mut PdRegions<C>, r: Result<RegionLoadResult>| #[trigger]
        call_ensures(
            PdRegions::<C>::load_region_by_key_with_buckets,
            (client, key, now),
            r,
        ) implies exists|asked: Seq<u8>, told: Result<RegionLoadResult>|
        {
            &&& client.enable_codec ==> is_cut_into_groups(key@, asked)
            &&& !client.enable_codec ==> asked == key@
            &&& #[trigger] may_tell_by_key(client.pd, asked, true, told)
            &&& is_loaded_as(told, client.enable_codec, r)
            &&& told is Ok ==> is_noted(final(client).region_cache, told->Ok_0, now)
        } by {
        let asked = pd_key(key@, client.enable_codec);
        lemma_cut_into_groups(key@);
        let (told, taken) = choose|told: Result<RegionLoadResult>, taken: Result<RegionLoadResult>|
            {
                &&& #[trigger] answers_by_key(client.pd, asked, true, told)
                &&& #[trigger] client.region_cache.takes(
                    told,
                    now,
                    final(client).region_cache,
                    taken,
                )
                &&& is_decoded_load(taken, client.enable_codec, r)
            };
        lemma_tells_by_key(client.pd, asked, true, told);
        if told is Ok {
            let loaded = told->Ok_0;
            assert(client.region_cache.adds(
                loaded,
                now,
                final(client).region_cache.region_cache@,
            ));
            assert(final(client).region_cache.region_cache@.regions.contains_key(
                loaded.region@.ver_id(),
            ));
            lemma_loaded(taken->Ok_0, loaded, client.enable_codec, r);
        }
    }
    assert forall|client: &mut PdRegions<C>, r: Result<RegionLoadResult>| #[trigger]
        call_ensures(
            PdRegions::<C>::load_region_by_id_with_buckets,
            (client, id, now),
            r,
        ) implies exists|told: Result<RegionLoadResult>|
        {
            &&& #[trigger] call_ensures(C::get_region_by_id_with_buckets, (&client.pd, id), told)
            &&& is_loaded_as(told, client.enable_codec, r)
        } by {
        let (told, taken) = choose|told: Result<RegionLoadResult>, taken: Result<RegionLoadResult>|
            {
                &&& #[trigger] answers_by_id(client.pd, id, true, told)
                &&& #[trigger] client.region_cache.takes(
                    told,
                    now,
                    final(client).region_cache,
                    taken,
                )
                &&& is_decoded_load(taken, client.enable_codec, r)
            };
        assert(call_ensures(C::get_region_by_id_with_buckets, (&client.pd, id), told));
        if told is Ok {
            lemma_loaded(taken->Ok_0, told->Ok_0, client.enable_codec, r);
        }
    }
}

/// What comes back is what was told, with the region decoded if the codec is on; or the error.
pub open spec fn is_loaded_as(
    told: Result<RegionLoadResult>,
    enable_codec: bool,
    r: Result<RegionLoadResult>,
) -> bool {
    match told {
        Err(error) => r is Err && r->Err_0 == error,
        Ok(loaded) => {
            &&& !enable_codec ==> r is Ok && r->Ok_0.region@ == loaded.region@ && buckets_view(
                r->Ok_0.buckets,
            ) == buckets_view(loaded.buckets)
            &&& enable_codec && r is Ok ==> is_read_region(loaded.region, r->Ok_0.region) && (
            r->Ok_0.buckets is Some <==> loaded.buckets is Some)
        },
    }
}

proof fn lemma_loaded(
    taken: RegionLoadResult,
    loaded: RegionLoadResult,
    enable_codec: bool,
    r: Result<RegionLoadResult>,
)
    requires
        taken.region@ == loaded.region@,
        buckets_view(taken.buckets) == buckets_view(loaded.buckets),
        is_decoded_load(Ok(taken), enable_codec, r),
    ensures
        is_loaded_as(Ok(loaded), enable_codec, r),
{
    if enable_codec && r is Ok {
        let (sent, seen) = (loaded.region@, r->Ok_0.region@);
        assert(seen.region.id == sent.region.id);
        assert(seen.region.peers == sent.region.peers);
        assert(buckets_view(loaded.buckets) is Some <==> loaded.buckets is Some);
        assert(buckets_view(r->Ok_0.buckets) is Some <==> r->Ok_0.buckets is Some);
    }
}

} // verus!
