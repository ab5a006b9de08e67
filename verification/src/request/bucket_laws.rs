//! Which bucket keys a keyspace sees.

use vstd::prelude::*;

use crate::common::errors::Result;
use crate::kv::codec::{decoded_or_empty, DecodeFailure};
use crate::kv::format::says;
use crate::kv::order::{lemma_lex_chain, lemma_lex_irreflexive, lemma_lex_not_lt, lex_le, lex_lt};
use crate::proto::metapb::byte_strings;
use crate::request::bucket_keys::{
    bucket_cut, close_ends, cut_buckets, decode_bucket_keys, push_dedup, BucketCut,
};
use crate::request::keyspace::{
    encode_key, end_prefix_of, law_encoded_keys_lie_in_their_keyspace, prefix_of, KeyMode, Keyspace,
};
use crate::request::keyspace_laws::{first_four, lemma_prefix, lemma_same_four, starts_as_in};

verus! {

/// The bucket key can be decoded, and stands for this one.
pub open spec fn reads_as(encoded: Seq<u8>, key: Seq<u8>) -> bool {
    decoded_or_empty(encoded) == Ok::<Seq<u8>, DecodeFailure>(key)
}

/// The bucket key can be decoded, and stands for a key at which the keyspace is over.
pub open spec fn reads_as_behind(encoded: Seq<u8>, keyspace_id: u32, key_mode: KeyMode) -> bool {
    match decoded_or_empty(encoded) {
        Ok(key) => key.len() > 0 && lex_le(end_prefix_of(keyspace_id, key_mode), key),
        Err(_) => false,
    }
}

/// The bucket key is looked at: those before it can be decoded, and none stands for a key at which
/// the keyspace is over.
pub open spec fn is_reached(
    keys: Seq<Seq<u8>>,
    at: int,
    keyspace_id: u32,
    key_mode: KeyMode,
) -> bool {
    forall|j: int|
        0 <= j < at ==> decoded_or_empty(#[trigger] keys[j]) is Ok && !reads_as_behind(
            keys[j],
            keyspace_id,
            key_mode,
        )
}

proof fn lemma_reached_behind(keys: Seq<Seq<u8>>, at: int, keyspace_id: u32, key_mode: KeyMode)
    requires
        0 <= at < keys.len(),
        is_reached(keys, at + 1, keyspace_id, key_mode),
    ensures
        is_reached(keys.skip(1), at, keyspace_id, key_mode),
{
    assert forall|j: int| 0 <= j < at implies decoded_or_empty(#[trigger] keys.skip(1)[j]) is Ok
        && !reads_as_behind(keys.skip(1)[j], keyspace_id, key_mode) by {
        assert(keys.skip(1)[j] == keys[j + 1]);
    }
}

proof fn lemma_push_dedup(kept: Seq<Seq<u8>>, key: Seq<u8>)
    ensures
        kept.is_prefix_of(push_dedup(kept, key)),
        push_dedup(kept, key).contains(key),
{
    let next = push_dedup(kept, key);
    assert(next.subrange(0, kept.len() as int) =~= kept);
    assert(next[next.len() - 1] == key);
}

/// What was kept stays.
proof fn lemma_kept_stays(keys: Seq<Seq<u8>>, prefix: Seq<u8>, end: Seq<u8>, kept: Seq<Seq<u8>>)
    ensures
        cut_buckets(keys, prefix, end, kept) is Ok ==> kept.is_prefix_of(
            cut_buckets(keys, prefix, end, kept)->Ok_0,
        ),
    decreases keys.len(),
{
    if keys.len() > 0 {
        match bucket_cut(keys[0], prefix, end) {
            BucketCut::Keep(key) => {
                let next = push_dedup(kept, key);
                lemma_push_dedup(kept, key);
                lemma_kept_stays(keys.skip(1), prefix, end, next);
                if cut_buckets(keys, prefix, end, kept) is Ok {
                    let whole = cut_buckets(keys, prefix, end, kept)->Ok_0;
                    assert(whole.subrange(0, kept.len() as int) =~= next.subrange(
                        0,
                        kept.len() as int,
                    )) by {
                        assert(next == whole.subrange(0, next.len() as int));
                    }
                }
            },
            BucketCut::Skip => {
                lemma_kept_stays(keys.skip(1), prefix, end, kept);
            },
            BucketCut::Last => {
                lemma_push_dedup(kept, Seq::empty());
            },
            BucketCut::Fail(failure) => {},
        }
    } else {
        assert(kept.subrange(0, kept.len() as int) =~= kept);
    }
}

proof fn lemma_bucket_is_kept(
    keys: Seq<Seq<u8>>,
    keyspace_id: u32,
    key_mode: KeyMode,
    kept: Seq<Seq<u8>>,
    at: int,
    key: Seq<u8>,
)
    requires
        0 <= at < keys.len(),
        is_reached(keys, at, keyspace_id, key_mode),
        reads_as(keys[at], prefix_of(keyspace_id, key_mode) + key),
        cut_buckets(
            keys,
            prefix_of(keyspace_id, key_mode),
            end_prefix_of(keyspace_id, key_mode),
            kept,
        ) is Ok,
    ensures
        cut_buckets(
            keys,
            prefix_of(keyspace_id, key_mode),
            end_prefix_of(keyspace_id, key_mode),
            kept,
        )->Ok_0.contains(key),
    decreases keys.len(),
{
    let prefix = prefix_of(keyspace_id, key_mode);
    let end = end_prefix_of(keyspace_id, key_mode);
    let whole = cut_buckets(keys, prefix, end, kept)->Ok_0;
    if at == 0 {
        let stored = prefix + key;
        law_encoded_keys_lie_in_their_keyspace(key, keyspace_id, key_mode);
        lemma_lex_not_lt(stored, prefix);
        lemma_lex_not_lt(stored, end);
        assert(stored.subrange(0, 4) =~= prefix);
        assert(stored.skip(4) =~= key);
        let next = push_dedup(kept, key);
        lemma_push_dedup(kept, key);
        lemma_kept_stays(keys.skip(1), prefix, end, next);
        assert(next.contains(key));
        let i = choose|i: int| 0 <= i < next.len() && next[i] == key;
        assert(next == whole.subrange(0, next.len() as int));
        assert(whole[i] == key);
    } else {
        assert(decoded_or_empty(keys[0]) is Ok);
        assert(keys.skip(1)[at - 1] == keys[at]);
        lemma_reached_behind(keys, at - 1, keyspace_id, key_mode);
        let next = match bucket_cut(keys[0], prefix, end) {
            BucketCut::Keep(first) => push_dedup(kept, first),
            _ => kept,
        };
        lemma_bucket_is_kept(keys.skip(1), keyspace_id, key_mode, next, at - 1, key);
    }
}

/// No key of the keyspace is left out: a bucket key that stands for one, and that comes before the
/// keyspace is over, is among the buckets.
pub proof fn law_no_bucket_of_the_keyspace_is_left_out(
    bucket_keys: Vec<Vec<u8>>,
    keyspace_id: u32,
    key_mode: KeyMode,
    r: Result<Vec<Vec<u8>>>,
    at: int,
    stored: Seq<u8>,
)
    requires
        call_ensures(
            decode_bucket_keys,
            (bucket_keys, Keyspace::Enable { keyspace_id }, key_mode),
            r,
        ),
        r is Ok,
        0 <= at < bucket_keys@.len(),
        is_reached(byte_strings(bucket_keys@), at, keyspace_id, key_mode),
        reads_as(bucket_keys@[at]@, stored),
        starts_as_in(stored, keyspace_id, key_mode),
    ensures
        exists|i: int| 0 <= i < r->Ok_0@.len() && (#[trigger] r->Ok_0@[i])@ == stored.skip(4),
{
    let keys = byte_strings(bucket_keys@);
    let buckets = byte_strings(r->Ok_0@);
    let key = stored.skip(4);
    let prefix = prefix_of(keyspace_id, key_mode);
    lemma_prefix(keyspace_id, key_mode);
    lemma_same_four(stored, prefix);
    assert(stored =~= prefix + key);
    lemma_bucket_is_kept(keys, keyspace_id, key_mode, Seq::empty(), at, key);
    let kept = cut_buckets(
        keys,
        prefix,
        end_prefix_of(keyspace_id, key_mode),
        Seq::empty(),
    )->Ok_0;
    let i = choose|i: int| 0 <= i < kept.len() && kept[i] == key;
    assert(buckets == close_ends(kept));
    let place = if kept.first().len() > 0 {
        i + 1
    } else {
        i
    };
    assert(0 <= place < buckets.len() && buckets[place] == key);
    assert(buckets.len() == r->Ok_0@.len());
    assert(r->Ok_0@[place]@ == buckets[place]);
}

/// The bucket key can be decoded, and the keyspace sees this key in it: the empty one in itself,
/// and one of its own without the prefix.
pub open spec fn is_seen_as(
    encoded: Seq<u8>,
    keyspace_id: u32,
    key_mode: KeyMode,
    key: Seq<u8>,
) -> bool {
    ||| reads_as(encoded, Seq::empty()) && key == Seq::<u8>::empty()
    ||| exists|stored: Seq<u8>| #[trigger]
        reads_as(encoded, stored) && starts_as_in(stored, keyspace_id, key_mode) && key
            == stored.skip(4)
}

proof fn lemma_seen_is_kept(encoded: Seq<u8>, keyspace_id: u32, key_mode: KeyMode, key: Seq<u8>)
    requires
        is_seen_as(encoded, keyspace_id, key_mode, key),
    ensures
        bucket_cut(
            encoded,
            prefix_of(keyspace_id, key_mode),
            end_prefix_of(keyspace_id, key_mode),
        ) == BucketCut::Keep(key),
{
    if !(reads_as(encoded, Seq::empty()) && key == Seq::<u8>::empty()) {
        let prefix = prefix_of(keyspace_id, key_mode);
        let stored = choose|stored: Seq<u8>| #[trigger]
            reads_as(encoded, stored) && starts_as_in(stored, keyspace_id, key_mode) && key
                == stored.skip(4);
        lemma_prefix(keyspace_id, key_mode);
        lemma_same_four(stored, prefix);
        assert(stored =~= prefix + key);
        law_encoded_keys_lie_in_their_keyspace(key, keyspace_id, key_mode);
        lemma_lex_not_lt(stored, prefix);
        lemma_lex_not_lt(stored, end_prefix_of(keyspace_id, key_mode));
        assert(stored.subrange(0, 4) =~= prefix);
    }
}

/// What is kept up to and with the bucket key at the given place.
proof fn lemma_kept_up_to(
    keys: Seq<Seq<u8>>,
    keyspace_id: u32,
    key_mode: KeyMode,
    kept: Seq<Seq<u8>>,
    at: int,
    key: Seq<u8>,
) -> (now: Seq<Seq<u8>>)
    requires
        0 <= at < keys.len(),
        is_reached(keys, at, keyspace_id, key_mode),
        is_seen_as(keys[at], keyspace_id, key_mode, key),
    ensures
        cut_buckets(
            keys,
            prefix_of(keyspace_id, key_mode),
            end_prefix_of(keyspace_id, key_mode),
            kept,
        ) == cut_buckets(
            keys.skip(at + 1),
            prefix_of(keyspace_id, key_mode),
            end_prefix_of(keyspace_id, key_mode),
            now,
        ),
        kept.is_prefix_of(now),
        now.len() > 0,
        now.last() == key,
        kept.len() == 0 || kept.last() != key ==> now.len() > kept.len(),
    decreases keys.len(),
{
    let prefix = prefix_of(keyspace_id, key_mode);
    let end = end_prefix_of(keyspace_id, key_mode);
    if at == 0 {
        lemma_seen_is_kept(keys[0], keyspace_id, key_mode, key);
        lemma_push_dedup(kept, key);
        push_dedup(kept, key)
    } else {
        assert(decoded_or_empty(keys[0]) is Ok);
        assert(!reads_as_behind(keys[0], keyspace_id, key_mode));
        assert(keys.skip(1)[at - 1] == keys[at]);
        lemma_reached_behind(keys, at - 1, keyspace_id, key_mode);
        let next = match bucket_cut(keys[0], prefix, end) {
            BucketCut::Keep(first) => push_dedup(kept, first),
            _ => kept,
        };
        assert(kept.is_prefix_of(next)) by {
            assert(next.subrange(0, kept.len() as int) =~= kept);
        }
        let now = lemma_kept_up_to(keys.skip(1), keyspace_id, key_mode, next, at - 1, key);
        assert(keys.skip(1).skip(at) =~= keys.skip(at + 1));
        assert(now.subrange(0, kept.len() as int) =~= kept) by {
            assert(next == now.subrange(0, next.len() as int));
        }
        now
    }
}

/// What lies between two other keys stays between them: of three bucket keys that come before the
/// keyspace is over, each one seen as another key than the one before it, each has its place among
/// the buckets, in their order.
pub proof fn law_what_lies_between_stays_between(
    bucket_keys: Vec<Vec<u8>>,
    keyspace_id: u32,
    key_mode: KeyMode,
    r: Result<Vec<Vec<u8>>>,
    at: (int, int, int),
    seen: (Seq<u8>, Seq<u8>, Seq<u8>),
) -> (places: (int, int, int))
    requires
        call_ensures(
            decode_bucket_keys,
            (bucket_keys, Keyspace::Enable { keyspace_id }, key_mode),
            r,
        ),
        r is Ok,
        0 <= at.0 < at.1 < at.2 < bucket_keys@.len(),
        is_reached(byte_strings(bucket_keys@), at.2, keyspace_id, key_mode),
        is_seen_as(bucket_keys@[at.0]@, keyspace_id, key_mode, seen.0),
        is_seen_as(bucket_keys@[at.1]@, keyspace_id, key_mode, seen.1),
        is_seen_as(bucket_keys@[at.2]@, keyspace_id, key_mode, seen.2),
        seen.0 != seen.1,
        seen.1 != seen.2,
    ensures
        0 <= places.0 < places.1 < places.2 < r->Ok_0@.len(),
        r->Ok_0@[places.0]@ == seen.0,
        r->Ok_0@[places.1]@ == seen.1,
        r->Ok_0@[places.2]@ == seen.2,
{
    let keys = byte_strings(bucket_keys@);
    let buckets = byte_strings(r->Ok_0@);
    let prefix = prefix_of(keyspace_id, key_mode);
    let end = end_prefix_of(keyspace_id, key_mode);
    let first = lemma_kept_up_to(keys, keyspace_id, key_mode, Seq::empty(), at.0, seen.0);
    let behind_first = keys.skip(at.0 + 1);
    assert(behind_first[at.1 - at.0 - 1] == keys[at.1]);
    assert(is_reached(behind_first, at.1 - at.0 - 1, keyspace_id, key_mode)) by {
        assert forall|j: int| 0 <= j < at.1 - at.0 - 1 implies decoded_or_empty(
            #[trigger] behind_first[j],
        ) is Ok && !reads_as_behind(behind_first[j], keyspace_id, key_mode) by {
            assert(behind_first[j] == keys[j + at.0 + 1]);
        }
    }
    let second = lemma_kept_up_to(
        behind_first,
        keyspace_id,
        key_mode,
        first,
        at.1 - at.0 - 1,
        seen.1,
    );
    let behind_second = keys.skip(at.1 + 1);
    assert(behind_first.skip(at.1 - at.0) =~= behind_second);
    assert(behind_second[at.2 - at.1 - 1] == keys[at.2]);
    assert(is_reached(behind_second, at.2 - at.1 - 1, keyspace_id, key_mode)) by {
        assert forall|j: int| 0 <= j < at.2 - at.1 - 1 implies decoded_or_empty(
            #[trigger] behind_second[j],
        ) is Ok && !reads_as_behind(behind_second[j], keyspace_id, key_mode) by {
            assert(behind_second[j] == keys[j + at.1 + 1]);
        }
    }
    let third = lemma_kept_up_to(
        behind_second,
        keyspace_id,
        key_mode,
        second,
        at.2 - at.1 - 1,
        seen.2,
    );
    lemma_kept_stays(behind_second.skip(at.2 - at.1), prefix, end, third);
    let kept = cut_buckets(keys, prefix, end, Seq::empty())->Ok_0;
    assert(kept.subrange(0, third.len() as int) == third);
    assert(third.subrange(0, second.len() as int) == second);
    assert(second.subrange(0, first.len() as int) == first);
    assert(kept[third.len() - 1] == third.last());
    assert(third[second.len() - 1] == second.last());
    assert(second[first.len() - 1] == first.last());
    assert(kept[second.len() - 1] == third[second.len() - 1]);
    assert(kept[first.len() - 1] == third[first.len() - 1]);
    assert(third[first.len() - 1] == second[first.len() - 1]);
    assert(buckets == close_ends(kept));
    let moved: int = if kept.first().len() > 0 {
        1
    } else {
        0
    };
    let places = (first.len() - 1 + moved, second.len() - 1 + moved, third.len() - 1 + moved);
    assert(buckets[places.0] == kept[first.len() - 1]);
    assert(buckets[places.1] == kept[second.len() - 1]);
    assert(buckets[places.2] == kept[third.len() - 1]);
    assert(buckets.len() == r->Ok_0@.len());
    places
}

/// The buckets, but for the empty ones, come from bucket keys of the keyspace, in their order.
pub open spec fn come_in_order(
    buckets: Seq<Seq<u8>>,
    keys: Seq<Seq<u8>>,
    places: Seq<int>,
    keyspace_id: u32,
    key_mode: KeyMode,
) -> bool {
    &&& places.len() == buckets.len()
    &&& forall|i: int|
        0 <= i < buckets.len() && (#[trigger] buckets[i]).len() > 0 ==> 0 <= places[i] < keys.len()
            && exists|stored: Seq<u8>|
            #[trigger] reads_as(keys[places[i]], stored) && starts_as_in(
                stored,
                keyspace_id,
                key_mode,
            ) && stored.skip(4) == buckets[i]
    &&& forall|i: int, j: int|
        0 <= i < j < buckets.len() && (#[trigger] buckets[i]).len() > 0 && (
        #[trigger] buckets[j]).len() > 0 ==> places[i] < places[j]
}

proof fn lemma_come_in_order(
    keys: Seq<Seq<u8>>,
    at: int,
    keyspace_id: u32,
    key_mode: KeyMode,
    kept: Seq<Seq<u8>>,
    places: Seq<int>,
) -> (r: Seq<int>)
    requires
        0 <= at <= keys.len(),
        come_in_order(kept, keys, places, keyspace_id, key_mode),
        forall|i: int| 0 <= i < kept.len() && (#[trigger] kept[i]).len() > 0 ==> places[i] < at,
        cut_buckets(
            keys.skip(at),
            prefix_of(keyspace_id, key_mode),
            end_prefix_of(keyspace_id, key_mode),
            kept,
        ) is Ok,
    ensures
        come_in_order(
            cut_buckets(
                keys.skip(at),
                prefix_of(keyspace_id, key_mode),
                end_prefix_of(keyspace_id, key_mode),
                kept,
            )->Ok_0,
            keys,
            r,
            keyspace_id,
            key_mode,
        ),
    decreases keys.len() - at,
{
    let prefix = prefix_of(keyspace_id, key_mode);
    let end = end_prefix_of(keyspace_id, key_mode);
    let rest = keys.skip(at);
    if at == keys.len() {
        places
    } else {
        assert(rest[0] == keys[at]);
        assert(rest.skip(1) =~= keys.skip(at + 1));
        match bucket_cut(rest[0], prefix, end) {
            BucketCut::Keep(key) => {
                let next = push_dedup(kept, key);
                let next_places = if next.len() > kept.len() {
                    places.push(at)
                } else {
                    places
                };
                if key.len() > 0 {
                    let stored = decoded_or_empty(keys[at])->Ok_0;
                    lemma_prefix(keyspace_id, key_mode);
                    assert(stored.subrange(0, 4) =~= prefix);
                    assert(forall|i: int| 0 <= i < 4 ==> stored[i] == stored.subrange(0, 4)[i]);
                    assert(first_four(stored) == first_four(prefix));
                    assert(reads_as(keys[at], stored));
                }
                assert forall|i: int| 0 <= i < next.len() && (#[trigger] next[i]).len() > 0 implies
                    0 <= next_places[i] < keys.len() && exists|stored: Seq<u8>|
                    #[trigger] reads_as(keys[next_places[i]], stored) && starts_as_in(
                        stored,
                        keyspace_id,
                        key_mode,
                    ) && stored.skip(4) == next[i] by {
                    if i < kept.len() {
                        assert(next[i] == kept[i]);
                        assert(next_places[i] == places[i]);
                        let stored = choose|stored: Seq<u8>|
                            #[trigger] reads_as(keys[places[i]], stored) && starts_as_in(
                                stored,
                                keyspace_id,
                                key_mode,
                            ) && stored.skip(4) == kept[i];
                        assert(reads_as(keys[next_places[i]], stored));
                    } else {
                        let stored = decoded_or_empty(keys[at])->Ok_0;
                        assert(next[i] == key && next_places[i] == at);
                        assert(stored.len() > 0);
                        assert(reads_as(keys[next_places[i]], stored));
                        assert(starts_as_in(stored, keyspace_id, key_mode));
                        assert(stored.skip(4) == key);
                    }
                }
                assert forall|i: int, j: int|
                    0 <= i < j < next.len() && (#[trigger] next[i]).len() > 0 && (
                    #[trigger] next[j]).len() > 0 implies next_places[i] < next_places[j] by {
                    assert(next[i] == kept[i]);
                    if j < kept.len() {
                        assert(next[j] == kept[j]);
                    }
                }
                assert forall|i: int| 0 <= i < next.len() && (#[trigger] next[i]).len() > 0 implies
                    next_places[i] < at + 1 by {
                    if i < kept.len() {
                        assert(next[i] == kept[i]);
                    }
                }
                lemma_come_in_order(keys, at + 1, keyspace_id, key_mode, next, next_places)
            },
            BucketCut::Skip => {
                lemma_come_in_order(keys, at + 1, keyspace_id, key_mode, kept, places)
            },
            BucketCut::Last => {
                let next = push_dedup(kept, Seq::empty());
                let next_places = if next.len() > kept.len() {
                    places.push(at)
                } else {
                    places
                };
                assert forall|i: int| 0 <= i < next.len() && (#[trigger] next[i]).len() > 0 implies
                    i < kept.len() && next[i] == kept[i] && next_places[i] == places[i] by {}
                next_places
            },
            BucketCut::Fail(failure) => places,
        }
    }
}

/// The buckets of a keyspace hold nothing but keys of the keyspace, in the order of the bucket
/// keys that they come from, between two empty ones, and none twice in a row.
pub proof fn law_buckets_keep_their_order(
    bucket_keys: Vec<Vec<u8>>,
    keyspace_id: u32,
    key_mode: KeyMode,
    r: Result<Vec<Vec<u8>>>,
) -> (places: Seq<int>)
    requires
        call_ensures(
            decode_bucket_keys,
            (bucket_keys, Keyspace::Enable { keyspace_id }, key_mode),
            r,
        ),
        r is Ok,
    ensures
        come_in_order(
            byte_strings(r->Ok_0@),
            byte_strings(bucket_keys@),
            places,
            keyspace_id,
            key_mode,
        ),
        r->Ok_0@.len() > 0,
        r->Ok_0@.first()@.len() == 0,
        r->Ok_0@.last()@.len() == 0,
        forall|i: int|
            0 < i < r->Ok_0@.len() ==> (#[trigger] r->Ok_0@[i])@ != r->Ok_0@[i - 1]@,
{
    let keys = byte_strings(bucket_keys@);
    let buckets = byte_strings(r->Ok_0@);
    crate::request::bucket_keys::law_keyspace_buckets_span_the_keyspace(
        keys,
        keyspace_id,
        key_mode,
    );
    assert forall|i: int| 0 < i < r->Ok_0@.len() implies (#[trigger] r->Ok_0@[i])@
        != r->Ok_0@[i - 1]@ by {
        assert(buckets[i] == r->Ok_0@[i]@);
        assert(buckets[i - 1] == r->Ok_0@[i - 1]@);
    }
    assert(buckets.first() == r->Ok_0@.first()@);
    assert(buckets.last() == r->Ok_0@.last()@);
    assert(keys.skip(0) =~= keys);
    let kept = cut_buckets(
        keys,
        prefix_of(keyspace_id, key_mode),
        end_prefix_of(keyspace_id, key_mode),
        Seq::empty(),
    )->Ok_0;
    let places = lemma_come_in_order(
        keys,
        0,
        keyspace_id,
        key_mode,
        Seq::empty(),
        Seq::empty(),
    );
    let (opened, opened_places) = if kept.len() == 0 || kept.first().len() > 0 {
        let opened = seq![Seq::<u8>::empty()] + kept;
        let opened_places = seq![0int] + places;
        assert forall|i: int| 0 <= i < opened.len() && (#[trigger] opened[i]).len() > 0 implies i
            > 0 && opened[i] == kept[i - 1] && opened_places[i] == places[i - 1] by {}
        assert(come_in_order(opened, keys, opened_places, keyspace_id, key_mode)) by {
            assert forall|i: int, j: int|
                0 <= i < j < opened.len() && (#[trigger] opened[i]).len() > 0 && (
                #[trigger] opened[j]).len() > 0 implies opened_places[i] < opened_places[j] by {
                assert(kept[i - 1].len() > 0 && kept[j - 1].len() > 0);
            }
        }
        (opened, opened_places)
    } else {
        (kept, places)
    };
    if opened.last().len() > 0 {
        let closed = opened.push(Seq::empty());
        let closed_places = opened_places.push(0);
        assert forall|i: int| 0 <= i < closed.len() && (#[trigger] closed[i]).len() > 0 implies i
            < opened.len() && closed[i] == opened[i] && closed_places[i] == opened_places[i] by {}
        assert forall|i: int, j: int|
            0 <= i < j < closed.len() && (#[trigger] closed[i]).len() > 0 && (
            #[trigger] closed[j]).len() > 0 implies closed_places[i] < closed_places[j] by {
            assert(opened[i].len() > 0 && opened[j].len() > 0);
        }
        closed_places
    } else {
        opened_places
    }
}

proof fn lemma_bucket_failure(
    keys: Seq<Seq<u8>>,
    keyspace_id: u32,
    key_mode: KeyMode,
    kept: Seq<Seq<u8>>,
) -> (at: int)
    ensures
        match cut_buckets(
            keys,
            prefix_of(keyspace_id, key_mode),
            end_prefix_of(keyspace_id, key_mode),
            kept,
        ) {
            Ok(_) => 0 <= at <= keys.len() && is_reached(keys, at, keyspace_id, key_mode) && (at
                < keys.len() ==> reads_as_behind(keys[at], keyspace_id, key_mode)),
            Err(failure) => 0 <= at < keys.len() && is_reached(keys, at, keyspace_id, key_mode)
                && decoded_or_empty(keys[at]) == Err::<Seq<u8>, DecodeFailure>(failure),
        },
    decreases keys.len(),
{
    let prefix = prefix_of(keyspace_id, key_mode);
    let end = end_prefix_of(keyspace_id, key_mode);
    if keys.len() == 0 {
        0
    } else {
        match bucket_cut(keys[0], prefix, end) {
            BucketCut::Last => 0,
            BucketCut::Fail(failure) => 0,
            cut => {
                let next = match cut {
                    BucketCut::Keep(key) => push_dedup(kept, key),
                    _ => kept,
                };
                let rest = lemma_bucket_failure(keys.skip(1), keyspace_id, key_mode, next);
                assert(decoded_or_empty(keys[0]) is Ok);
                assert(!reads_as_behind(keys[0], keyspace_id, key_mode)) by {
                    let key = decoded_or_empty(keys[0])->Ok_0;
                    if cut is Skip && lex_lt(key, prefix) && lex_le(end, key) {
                        law_encoded_keys_lie_in_their_keyspace(
                            Seq::empty(),
                            keyspace_id,
                            key_mode,
                        );
                        assert(prefix + Seq::<u8>::empty() =~= prefix);
                        lemma_lex_chain(end, key, prefix);
                        lemma_lex_chain(prefix, end, prefix);
                        lemma_lex_chain(prefix, end, key);
                        lemma_lex_chain(prefix, key, prefix);
                        lemma_lex_irreflexive(prefix);
                    }
                }
                assert forall|j: int| 0 <= j < rest + 1 implies decoded_or_empty(
                    #[trigger] keys[j],
                ) is Ok && !reads_as_behind(keys[j], keyspace_id, key_mode) by {
                    if j > 0 {
                        assert(keys.skip(1)[j - 1] == keys[j]);
                    }
                }
                rest + 1
            },
        }
    }
}

/// The buckets of a keyspace cannot be told exactly if some bucket key that comes before the
/// keyspace is over cannot be decoded; the first such key says why.
pub proof fn law_a_bad_bucket_key_fails(
    bucket_keys: Vec<Vec<u8>>,
    keyspace_id: u32,
    key_mode: KeyMode,
    r: Result<Vec<Vec<u8>>>,
)
    requires
        call_ensures(
            decode_bucket_keys,
            (bucket_keys, Keyspace::Enable { keyspace_id }, key_mode),
            r,
        ),
    ensures
        r is Err ==> exists|at: int|
            {
                &&& 0 <= at < bucket_keys@.len()
                &&& #[trigger] is_reached(
                    byte_strings(bucket_keys@),
                    at,
                    keyspace_id,
                    key_mode,
                )
                &&& decoded_or_empty(bucket_keys@[at]@) is Err
                &&& says(r->Err_0, decoded_or_empty(bucket_keys@[at]@)->Err_0.text())
            },
        r is Ok ==> exists|at: int|
            {
                &&& 0 <= at <= bucket_keys@.len()
                &&& #[trigger] is_reached(
                    byte_strings(bucket_keys@),
                    at,
                    keyspace_id,
                    key_mode,
                )
                &&& at < bucket_keys@.len() ==> reads_as_behind(
                    bucket_keys@[at]@,
                    keyspace_id,
                    key_mode,
                )
            },
{
    let keys = byte_strings(bucket_keys@);
    let at = lemma_bucket_failure(keys, keyspace_id, key_mode, Seq::empty());
    assert(at < keys.len() ==> keys[at] == bucket_keys@[at]@);
}

/// Without a keyspace the bucket keys stay as they are.
pub proof fn law_buckets_are_kept_without_a_keyspace(
    bucket_keys: Vec<Vec<u8>>,
    key_mode: KeyMode,
    r: Result<Vec<Vec<u8>>>,
)
    requires
        call_ensures(decode_bucket_keys, (bucket_keys, Keyspace::Disable, key_mode), r),
    ensures
        r is Ok,
        r->Ok_0@.len() == bucket_keys@.len(),
        forall|i: int|
            0 <= i < bucket_keys@.len() ==> (#[trigger] r->Ok_0@[i])@ == bucket_keys@[i]@,
{
    assert forall|i: int| 0 <= i < bucket_keys@.len() implies (#[trigger] r->Ok_0@[i])@
        == bucket_keys@[i]@ by {
        assert(byte_strings(r->Ok_0@)[i] == byte_strings(bucket_keys@)[i]);
    }
    assert(byte_strings(r->Ok_0@).len() == byte_strings(bucket_keys@).len());
}

} // verus!
