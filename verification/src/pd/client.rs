//! Regions and stores as the client sees them.
//!
//! In transactional mode the placement driver knows keys only in their encoded form. Keys are
//! encoded before they are sent to it, and the keys in its answers are decoded.

use vstd::prelude::*;

use crate::common::errors::{Error, Result};
use crate::kv::codec::{
    encoded, law_decode_inverts_encode, law_encode_preserves_order, DecodeFailure,
};
use crate::kv::key::Key;
use crate::kv::order::in_key_range;
use crate::pd::decode::{
    decode_region, decode_region_load, decoded_buckets, decoded_region,
};
use crate::pd::retry::RetryClientTrait;
use crate::proto::metapb::{RegionView, Store};
use crate::region::{RegionId, RegionWithLeader, RegionWithLeaderView, StoreId};
use crate::region_cache::cache::RegionCache;
use crate::region_cache::map::{buckets_view, RegionLoadResult};
use crate::region_cache::through::{answers_by_id, answers_by_key, region_of};

verus! {

/// What the client knows of regions and stores, and whom it asks for more.
#[derive(Debug)]
pub struct PdRegions<C> {
    pub pd: C,
    /// Keys are encoded for the placement driver.
    pub enable_codec: bool,
    pub region_cache: RegionCache,
}

/// A key as the placement driver knows it.
pub open spec fn pd_key(key: Seq<u8>, enable_codec: bool) -> Seq<u8> {
    if enable_codec {
        encoded(key)
    } else {
        key
    }
}

/// A key as the placement driver knows it.
pub fn to_pd_key(key: &Key, enable_codec: bool) -> (r: Key)
    ensures
        r@ == pd_key(key@, enable_codec),
{
    if enable_codec {
        key.to_encoded()
    } else {
        key.clone()
    }
}

/// `r` is the region that the placement driver knows, with its keys decoded.
pub open spec fn is_decoded(
    known: Result<RegionWithLeader>,
    enable_codec: bool,
    r: Result<RegionWithLeader>,
) -> bool {
    match known {
        Err(error) => r == Err::<RegionWithLeader, Error>(error),
        Ok(region) => if !enable_codec {
            r == Ok::<RegionWithLeader, Error>(region)
        } else {
            match decoded_region(region@) {
                Ok(decoded) => r is Ok && r->Ok_0@ == decoded,
                Err(failure) => r is Err && r->Err_0.is_internal(failure.text()),
            }
        },
    }
}

/// `r` is the region that the placement driver knows with its buckets, with all keys decoded.
pub open spec fn is_decoded_load(
    known: Result<RegionLoadResult>,
    enable_codec: bool,
    r: Result<RegionLoadResult>,
) -> bool {
    match known {
        Err(error) => r == Err::<RegionLoadResult, Error>(error),
        Ok(loaded) => if !enable_codec {
            r == Ok::<RegionLoadResult, Error>(loaded)
        } else {
            match decoded_region(loaded.region@) {
                Err(failure) => r is Err && r->Err_0.is_internal(failure.text()),
                Ok(region) => match decoded_buckets(buckets_view(loaded.buckets)) {
                    Err(failure) => r is Err && r->Err_0.is_internal(failure.text()),
                    Ok(buckets) => r is Ok && r->Ok_0.region@ == region && buckets_view(
                        r->Ok_0.buckets,
                    ) == buckets,
                },
            }
        },
    }
}

fn decode_found(known: Result<RegionWithLeader>, enable_codec: bool) -> (r: Result<
    RegionWithLeader,
>)
    ensures
        is_decoded(known, enable_codec, r),
{
    match known {
        Ok(region) => decode_region(region, enable_codec),
        Err(error) => Err(error),
    }
}

fn decode_found_load(known: Result<RegionLoadResult>, enable_codec: bool) -> (r: Result<
    RegionLoadResult,
>)
    ensures
        is_decoded_load(known, enable_codec, r),
{
    match known {
        Ok(loaded) => decode_region_load(loaded, enable_codec),
        Err(error) => Err(error),
    }
}

impl<C: RetryClientTrait> PdRegions<C> {
    /// The region that holds a key.
    pub fn region_for_key(&mut self, key: &Key, now_epoch_sec: i64) -> (r: Result<RegionWithLeader>)
        requires
            old(self).region_cache.wf(),
        ensures
            final(self).pd == old(self).pd,
            final(self).enable_codec == old(self).enable_codec,
            final(self).region_cache.wf(),
            exists|load: Result<RegionLoadResult>| #[trigger]
                old(self).region_cache.gives_by_key(
                    old(self).pd,
                    pd_key(key@, old(self).enable_codec),
                    now_epoch_sec,
                    false,
                    final(self).region_cache,
                    load,
                ) && is_decoded(region_of(load), old(self).enable_codec, r),
    {
        let asked = to_pd_key(key, self.enable_codec);
        let known = self.region_cache.get_region_by_key(&self.pd, &asked, now_epoch_sec);
        proof {
            let load = choose|load: Result<RegionLoadResult>| #[trigger]
                old(self).region_cache.gives_by_key(
                    self.pd,
                    asked@,
                    now_epoch_sec,
                    false,
                    self.region_cache,
                    load,
                ) && known == region_of(load);
            assert(old(self).region_cache.gives_by_key(
                old(self).pd,
                pd_key(key@, old(self).enable_codec),
                now_epoch_sec,
                false,
                self.region_cache,
                load,
            ));
        }
        decode_found(known, self.enable_codec)
    }

    /// The region with the given id.
    pub fn region_for_id(&mut self, id: RegionId, now_epoch_sec: i64) -> (r: Result<
        RegionWithLeader,
    >)
        requires
            old(self).region_cache.wf(),
        ensures
            final(self).pd == old(self).pd,
            final(self).enable_codec == old(self).enable_codec,
            final(self).region_cache.wf(),
            exists|load: Result<RegionLoadResult>| #[trigger]
                old(self).region_cache.gives_by_id(
                    old(self).pd,
                    id,
                    now_epoch_sec,
                    final(self).region_cache,
                    load,
                ) && is_decoded(region_of(load), old(self).enable_codec, r),
    {
        let known = self.region_cache.get_region_by_id(&self.pd, id, now_epoch_sec);
        proof {
            let load = choose|load: Result<RegionLoadResult>| #[trigger]
                old(self).region_cache.gives_by_id(
                    self.pd,
                    id,
                    now_epoch_sec,
                    self.region_cache,
                    load,
                ) && known == region_of(load);
            assert(old(self).region_cache.gives_by_id(
                old(self).pd,
                id,
                now_epoch_sec,
                self.region_cache,
                load,
            ));
        }
        decode_found(known, self.enable_codec)
    }

    /// Ask the placement driver for the region that holds a key, with its buckets.
    pub fn load_region_by_key_with_buckets(&mut self, key: &Key, now_epoch_sec: i64) -> (r: Result<
        RegionLoadResult,
    >)
        requires
            old(self).region_cache.wf(),
        ensures
            final(self).pd == old(self).pd,
            final(self).enable_codec == old(self).enable_codec,
            final(self).region_cache.wf(),
            final(self).region_cache.differs_in_regions(old(self).region_cache),
            exists|answer: Result<RegionLoadResult>, taken: Result<RegionLoadResult>|
                {
                    &&& #[trigger] answers_by_key(
                        old(self).pd,
                        pd_key(key@, old(self).enable_codec),
                        true,
                        answer,
                    )
                    &&& #[trigger] old(self).region_cache.takes(
                        answer,
                        now_epoch_sec,
                        final(self).region_cache,
                        taken,
                    )
                    &&& is_decoded_load(taken, old(self).enable_codec, r)
                },
    {
        let asked = to_pd_key(key, self.enable_codec);
        let taken = self.region_cache.read_through_region_by_key_with_buckets(
            &self.pd,
            &asked,
            now_epoch_sec,
        );
        proof {
            let answer = choose|answer: Result<RegionLoadResult>| #[trigger]
                answers_by_key(self.pd, asked@, true, answer) && old(self).region_cache.takes(
                    answer,
                    now_epoch_sec,
                    self.region_cache,
                    taken,
                );
            assert(answers_by_key(
                old(self).pd,
                pd_key(key@, old(self).enable_codec),
                true,
                answer,
            ));
            assert(old(self).region_cache.takes(
                answer,
                now_epoch_sec,
                self.region_cache,
                taken,
            ));
        }
        decode_found_load(taken, self.enable_codec)
    }

    /// Ask the placement driver for the region with the given id, with its buckets.
    pub fn load_region_by_id_with_buckets(&mut self, id: RegionId, now_epoch_sec: i64) -> (r:
        Result<RegionLoadResult>)
        requires
            old(self).region_cache.wf(),
        ensures
            final(self).pd == old(self).pd,
            final(self).enable_codec == old(self).enable_codec,
            final(self).region_cache.wf(),
            final(self).region_cache.differs_in_regions(old(self).region_cache),
            exists|answer: Result<RegionLoadResult>, taken: Result<RegionLoadResult>|
                {
                    &&& #[trigger] answers_by_id(old(self).pd, id, true, answer)
                    &&& #[trigger] old(self).region_cache.takes(
                        answer,
                        now_epoch_sec,
                        final(self).region_cache,
                        taken,
                    )
                    &&& is_decoded_load(taken, old(self).enable_codec, r)
                },
    {
        let taken = self.region_cache.read_through_region_by_id_with_buckets(
            &self.pd,
            id,
            now_epoch_sec,
        );
        proof {
            let answer = choose|answer: Result<RegionLoadResult>| #[trigger]
                answers_by_id(self.pd, id, true, answer) && old(self).region_cache.takes(
                    answer,
                    now_epoch_sec,
                    self.region_cache,
                    taken,
                );
            assert(answers_by_id(old(self).pd, id, true, answer));
            assert(old(self).region_cache.takes(
                answer,
                now_epoch_sec,
                self.region_cache,
                taken,
            ));
        }
        decode_found_load(taken, self.enable_codec)
    }

    /// The store that serves a region.
    pub fn store_of_region(&mut self, region: &RegionWithLeader) -> (r: Result<Store>)
        ensures
            final(self).pd == old(self).pd,
            final(self).enable_codec == old(self).enable_codec,
            final(self).region_cache.region_cache == old(self).region_cache.region_cache,
            final(self).region_cache.ttl == old(self).region_cache.ttl,
            region.leader is None ==> *final(self) == *old(self) && r == Err::<Store, Error>(
                Error::LeaderNotFound { region: region@.ver_id() },
            ),
            region.leader is Some ==> ({
                let id = region.leader->0.store_id;
                let stores = old(self).region_cache.store_cache@;
                &&& stores.contains_key(id) ==> r is Ok && r->Ok_0@ == stores[id]
                    && final(self).region_cache.store_cache == old(self).region_cache.store_cache
                &&& !stores.contains_key(id) ==> exists|answer: Result<Store>|
                    {
                        &&& #[trigger] call_ensures(C::get_store, (&old(self).pd, id), answer)
                        &&& match answer {
                            Ok(store) => r is Ok && r->Ok_0@ == store@
                                && final(self).region_cache.store_cache@ == stores.insert(
                                id,
                                store@,
                            ),
                            Err(error) => r == answer && final(self).region_cache.store_cache
                                == old(self).region_cache.store_cache,
                        }
                    }
            }),
    {
        let store_id: StoreId = region.get_store_id()?;
        self.region_cache.get_store_by_id(&self.pd, store_id)
    }
}

/// The key at the end of a region is empty or encoded.
pub open spec fn is_bound(bytes: Seq<u8>, key: Seq<u8>) -> bool {
    bytes == encoded(key) || (bytes.len() == 0 && key.len() == 0)
}

/// A region that the placement driver knows under encoded keys holds an encoded key exactly if the
/// decoded region holds the key.
pub proof fn law_a_decoded_region_holds_the_same_keys(
    known: RegionWithLeaderView,
    start: Seq<u8>,
    end: Seq<u8>,
    key: Seq<u8>,
)
    requires
        is_bound(known.region.start_key, start),
        is_bound(known.region.end_key, end),
        known.region.end_key.len() > 0 ==> end.len() > 0,
    ensures
        decoded_region(known) == Ok::<RegionWithLeaderView, DecodeFailure>(
            RegionWithLeaderView {
                region: RegionView { start_key: start, end_key: end, ..known.region },
                ..known
            },
        ),
        known.contains(encoded(key)) <==> in_key_range(start, end, key),
{
    law_decode_inverts_encode(start);
    law_decode_inverts_encode(end);
    law_encode_preserves_order(start, key);
    law_encode_preserves_order(key, end);
    crate::kv::order::lemma_lex_not_lt(encoded(key), known.region.start_key);
    crate::kv::order::lemma_lex_not_lt(key, start);
    if known.region.start_key.len() == 0 {
        assert(known.region.start_key =~= Seq::<u8>::empty());
        assert(start =~= known.region.start_key);
    }
    if known.region.end_key.len() == 0 {
        assert(end =~= known.region.end_key);
    }
}

} // verus!
